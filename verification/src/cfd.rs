//! Samples of the flow field, the spatial index over them, and the
//! interpolation of the refractive index between them.

use crate::scalar::{
    count_of, decimal_of, distance_2_of, exceeds_of, product_of, quotient_of, sum_of, Scalar, Vec3,
};
use vstd::prelude::*;

verus! {

/// Mantissa and decimal exponent of the Gladstone-Dale factor, `7.76e-7`.
pub const GLADSTONE_DALE: (i64, i32) = (776, -9);

/// Mantissa and decimal exponent of the reference pressure, `75000`.
pub const REFERENCE_PRESSURE: (i64, i32) = (75000, 0);

/// Mantissa and decimal exponent of the dispersion term, `0.00752`.
pub const DISPERSION: (i64, i32) = (752, -5);

/// Mantissa and decimal exponent of the wavelength, `0.5`.
pub const WAVELENGTH: (i64, i32) = (5, -1);

/// A sample of the flow: temperature and velocity at a position.
///
/// The position is taken as it stands: a loader that wants it relative to
/// another origin shifts it before the sample is made.
#[derive(Debug)]
pub struct TemperatureVelocityField<T> {
    pub temperature: T,
    pub velocity: Option<T>,
    pub x: T,
    pub y: T,
    pub z: T,
}

impl<T: Copy> Copy for TemperatureVelocityField<T> {

}

impl<T: Copy> Clone for TemperatureVelocityField<T> {
    fn clone(&self) -> (r: Self)
        ensures
            r == *self,
    {
        *self
    }
}

impl<T: Copy> TemperatureVelocityField<T> {
    /// Returns the (x,y,z) coordinates
    pub fn coordinates(&self) -> (p: Vec3<T>)
        ensures
            p == (Vec3 { x: self.x, y: self.y, z: self.z }),
    {
        Vec3 { x: self.x, y: self.y, z: self.z }
    }
}

/// `r` is what the number type gives for `1 + dispersion / wavelength^2`.
pub open spec fn colour_term_of<T: Scalar>(r: T) -> bool {
    exists|one: T, dispersion: T, wavelength: T, squared: T, ratio: T|
        count_of(1, one) && decimal_of(DISPERSION.0, DISPERSION.1, dispersion) && decimal_of(
            WAVELENGTH.0,
            WAVELENGTH.1,
            wavelength,
        ) && product_of(wavelength, wavelength, squared) && quotient_of(dispersion, squared, ratio)
            && sum_of(one, ratio, r)
}

/// `r` is what the number type gives for the Gladstone-Dale factor times
/// the reference pressure.
pub open spec fn pressure_term_of<T: Scalar>(r: T) -> bool {
    exists|factor: T, pressure: T|
        decimal_of(GLADSTONE_DALE.0, GLADSTONE_DALE.1, factor) && decimal_of(
            REFERENCE_PRESSURE.0,
            REFERENCE_PRESSURE.1,
            pressure,
        ) && product_of(factor, pressure, r)
}

/// `r` is what the number type gives for the index of refraction at a
/// temperature: the pressure term times the colour term, over the
/// temperature.
pub open spec fn refraction_index_of<T: Scalar>(temperature: T, r: T) -> bool {
    exists|scale: T, colour: T, both: T|
        pressure_term_of(scale) && colour_term_of(colour) && product_of(scale, colour, both)
            && quotient_of(both, temperature, r)
}

impl<T: Scalar> TemperatureVelocityField<T> {
    /// Returns the index of refraction: the Gladstone-Dale factor times
    /// the reference pressure times `1 + dispersion / wavelength^2`, over
    /// the temperature.
    pub fn refraction_index(&self) -> (r: T)
        ensures
            refraction_index_of(self.temperature, r),
    {
        let one = T::from_count(1);
        let factor = T::decimal(GLADSTONE_DALE.0, GLADSTONE_DALE.1);
        let pressure = T::decimal(REFERENCE_PRESSURE.0, REFERENCE_PRESSURE.1);
        let dispersion = T::decimal(DISPERSION.0, DISPERSION.1);
        let wavelength = T::decimal(WAVELENGTH.0, WAVELENGTH.1);
        let squared = wavelength.times(wavelength);
        let ratio = dispersion.over(squared);
        let colour = one.plus(ratio);
        let scale = factor.times(pressure);
        let both = scale.times(colour);
        let r = both.over(self.temperature);
        proof {
            assert(count_of(1, one) && decimal_of(DISPERSION.0, DISPERSION.1, dispersion)
                && decimal_of(WAVELENGTH.0, WAVELENGTH.1, wavelength) && product_of(
                wavelength,
                wavelength,
                squared,
            ) && quotient_of(dispersion, squared, ratio) && sum_of(one, ratio, colour));
            assert(colour_term_of(colour));
            assert(decimal_of(GLADSTONE_DALE.0, GLADSTONE_DALE.1, factor) && decimal_of(
                REFERENCE_PRESSURE.0,
                REFERENCE_PRESSURE.1,
                pressure,
            ) && product_of(factor, pressure, scale));
            assert(pressure_term_of(scale));
            assert(product_of(scale, colour, both) && quotient_of(both, self.temperature, r));
        }
        r
    }

    /// The squared Euclidean distance from the sample to `point`.
    pub fn distance_2(&self, point: &Vec3<T>) -> (r: T)
        ensures
            distance_2_of(Vec3 { x: self.x, y: self.y, z: self.z }, *point, r),
    {
        self.coordinates().distance_2(point)
    }
}

/// A read-only index over samples, searched by Euclidean distance.
///
/// Which of several samples at the same distance is found first is up to
/// the index.
pub trait SpatialIndex<T> {
    /// The sample nearest to `point`, or none where the index is empty.
    fn nearest(&self, point: &Vec3<T>) -> Option<TemperatureVelocityField<T>>;

    /// All samples whose squared distance to `point` is at most
    /// `max_squared_radius`, in no particular order.
    fn within_radius(&self, point: &Vec3<T>, max_squared_radius: T) -> Vec<
        TemperatureVelocityField<T>,
    >;
}

/// A sample as the interpolation sees it from a query point.
#[derive(Debug)]
pub struct Neighbour<T> {
    /// The squared distance from the query point to the sample.
    pub distance_2: T,
    /// Whether that distance is above zero.
    pub apart: bool,
    /// The refractive index at the sample.
    pub value: T,
}

impl<T: Copy> Copy for Neighbour<T> {

}

impl<T: Copy> Clone for Neighbour<T> {
    fn clone(&self) -> (r: Self)
        ensures
            r == *self,
    {
        *self
    }
}

/// How a neighbourhood of samples yields an estimate.
#[derive(Debug, Clone, Copy, PartialEq, Eq, Structural)]
pub enum Neighbourhood {
    /// The sample with this number lies on the query point: its value is
    /// the estimate.
    Coincident(usize),
    /// Every sample lies at a distance: the estimate is their weighted
    /// mean.
    Weighted,
    /// There is no sample: the estimate is that of the nearest sample of
    /// the whole index.
    Empty,
}

/// Sample `i` is the first of the neighbourhood that lies on the query
/// point.
pub open spec fn first_coincident<T>(neighbours: Seq<Neighbour<T>>, i: int) -> bool {
    &&& 0 <= i < neighbours.len()
    &&& !neighbours[i].apart
    &&& forall|j: int| 0 <= j < i ==> neighbours[j].apart
}

/// No sample of the neighbourhood lies on the query point.
pub open spec fn all_apart<T>(neighbours: Seq<Neighbour<T>>) -> bool {
    forall|j: int| 0 <= j < neighbours.len() ==> neighbours[j].apart
}

/// Decides how a neighbourhood yields its estimate.
pub fn classify<T>(neighbours: &Vec<Neighbour<T>>) -> (c: Neighbourhood)
    ensures
        match c {
            Neighbourhood::Coincident(i) => first_coincident(neighbours@, i as int),
            Neighbourhood::Weighted => neighbours@.len() > 0 && all_apart(neighbours@),
            Neighbourhood::Empty => neighbours@.len() == 0,
        },
{
    let mut i: usize = 0;
    while i < neighbours.len()
        invariant
            i <= neighbours.len(),
            forall|j: int| 0 <= j < i ==> neighbours@[j].apart,
        decreases neighbours.len() - i,
    {
        if !neighbours[i].apart {
            return Neighbourhood::Coincident(i);
        }
        i = i + 1;
    }
    if neighbours.len() == 0 {
        Neighbourhood::Empty
    } else {
        Neighbourhood::Weighted
    }
}

/// `num` and `denom` are what the number type gives for the weighted sum
/// of the values of the first `n` samples and for the sum of their weights.
/// The weight of a sample is `one` over its squared distance; both sums
/// start from the count zero and take the samples in order.
pub open spec fn weighted_sums_of<T: Scalar>(
    neighbours: Seq<Neighbour<T>>,
    one: T,
    n: int,
    num: T,
    denom: T,
) -> bool
    decreases n,
{
    if n <= 0 {
        count_of(0, num) && count_of(0, denom)
    } else {
        exists|before_num: T, before_denom: T, weight: T, weighted: T|
            weighted_sums_of(neighbours, one, n - 1, before_num, before_denom) && quotient_of(
                one,
                neighbours[n - 1].distance_2,
                weight,
            ) && product_of(weight, neighbours[n - 1].value, weighted) && sum_of(
                before_num,
                weighted,
                num,
            ) && sum_of(before_denom, weight, denom)
    }
}

/// `r` is what the number type gives for the mean of the samples' values,
/// each weighted by the inverse of its squared distance: the weighted sum
/// over the sum of the weights.
pub open spec fn weighted_mean_of<T: Scalar>(neighbours: Seq<Neighbour<T>>, r: T) -> bool {
    exists|one: T, num: T, denom: T|
        count_of(1, one) && weighted_sums_of(neighbours, one, neighbours.len() as int, num, denom)
            && quotient_of(num, denom, r)
}

/// `e` is the estimate that a neighbourhood yields, with `nearest` to fall
/// back on: the value of the first sample on the query point; without one,
/// the weighted mean of the samples; without samples, `nearest`.
pub open spec fn estimate_of<T: Scalar>(
    neighbours: Seq<Neighbour<T>>,
    nearest: Option<T>,
    e: Option<T>,
) -> bool {
    &&& forall|i: int| first_coincident(neighbours, i) ==> e == Some(neighbours[i].value)
    &&& neighbours.len() == 0 ==> e == nearest
    &&& neighbours.len() > 0 && all_apart(neighbours) ==> exists|mean: T|
        weighted_mean_of(neighbours, mean) && e == Some(mean)
}

/// The mean of the samples' values, each weighted by the inverse of its
/// squared distance.
fn weighted_mean<T: Scalar>(neighbours: &Vec<Neighbour<T>>) -> (r: T)
    ensures
        weighted_mean_of(neighbours@, r),
{
    let one = T::from_count(1);
    let mut num = T::from_count(0);
    let mut denom = T::from_count(0);
    let mut i: usize = 0;
    while i < neighbours.len()
        invariant
            i <= neighbours.len(),
            weighted_sums_of(neighbours@, one, i as int, num, denom),
        decreases neighbours.len() - i,
    {
        let ghost before_num = num;
        let ghost before_denom = denom;
        let weight = one.over(neighbours[i].distance_2);
        let weighted = weight.times(neighbours[i].value);
        num = num.plus(weighted);
        denom = denom.plus(weight);
        proof {
            assert(weighted_sums_of(neighbours@, one, i as int, before_num, before_denom)
                && quotient_of(one, neighbours@[i as int].distance_2, weight) && product_of(
                weight,
                neighbours@[i as int].value,
                weighted,
            ) && sum_of(before_num, weighted, num) && sum_of(before_denom, weight, denom));
        }
        i = i + 1;
    }
    let r = num.over(denom);
    proof {
        assert(count_of(1, one) && weighted_sums_of(
            neighbours@,
            one,
            neighbours@.len() as int,
            num,
            denom,
        ) && quotient_of(num, denom, r));
    }
    r
}

/// The estimate that a neighbourhood yields. `nearest` is the value of the
/// nearest sample of the whole index, if it has any.
///
/// A sample on the query point gives its own value, whatever the others
/// hold. Without one the samples are averaged, each weighted by the inverse
/// of its squared distance. An empty neighbourhood falls back on `nearest`.
pub fn estimate<T: Scalar>(neighbours: &Vec<Neighbour<T>>, nearest: Option<T>) -> (e: Option<T>)
    ensures
        estimate_of(neighbours@, nearest, e),
{
    match classify(neighbours) {
        Neighbourhood::Coincident(i) => {
            proof {
                assert forall|k: int| first_coincident(neighbours@, k) implies k == i by {
                    if k < i {
                        assert(neighbours@[k].apart);
                    } else if i < k {
                        assert(neighbours@[i as int].apart);
                    }
                }
                assert(!neighbours@[i as int].apart);
            }
            Some(neighbours[i].value)
        },
        Neighbourhood::Weighted => {
            let mean = weighted_mean(neighbours);
            proof {
                assert forall|k: int| !first_coincident(neighbours@, k) by {
                    if first_coincident(neighbours@, k) {
                        assert(neighbours@[k].apart);
                    }
                }
                assert(weighted_mean_of(neighbours@, mean) && Some(mean) == Some(mean));
            }
            Some(mean)
        },
        Neighbourhood::Empty => nearest,
    }
}

/// The estimate at a sample is the value of that sample: where a sample of
/// the neighbourhood lies on the query point, the estimate is the value of
/// the first such sample.
pub proof fn lemma_estimate_at_sample<T: Scalar>(
    neighbours: Seq<Neighbour<T>>,
    nearest: Option<T>,
    e: Option<T>,
    i: int,
)
    requires
        estimate_of(neighbours, nearest, e),
        first_coincident(neighbours, i),
    ensures
        e == Some(neighbours[i].value),
{
}

/// The estimate at a sample does not depend on the other samples: two
/// neighbourhoods whose first samples on the query point hold the same
/// value yield the same estimate, whatever else they hold and whatever
/// there is to fall back on.
pub proof fn lemma_estimate_ignores_others<T: Scalar>(
    a: Seq<Neighbour<T>>,
    nearest_a: Option<T>,
    e_a: Option<T>,
    i: int,
    b: Seq<Neighbour<T>>,
    nearest_b: Option<T>,
    e_b: Option<T>,
    j: int,
)
    requires
        estimate_of(a, nearest_a, e_a),
        estimate_of(b, nearest_b, e_b),
        first_coincident(a, i),
        first_coincident(b, j),
        a[i].value == b[j].value,
    ensures
        e_a == e_b,
{
}

/// Without samples the estimate is what there is to fall back on, and
/// nothing where there is nothing.
pub proof fn lemma_estimate_without_samples<T: Scalar>(nearest: Option<T>, e: Option<T>)
    requires
        estimate_of(Seq::<Neighbour<T>>::empty(), nearest, e),
    ensures
        e == nearest,
{
}

/// `neighbour` is the sample as the interpolation sees it from `query`,
/// with `zero` to tell a distance from none.
pub open spec fn neighbour_of<T: Scalar>(
    sample: TemperatureVelocityField<T>,
    query: Vec3<T>,
    zero: T,
    neighbour: Neighbour<T>,
) -> bool {
    &&& distance_2_of(Vec3 { x: sample.x, y: sample.y, z: sample.z }, query, neighbour.distance_2)
    &&& exceeds_of(neighbour.distance_2, zero, neighbour.apart)
    &&& refraction_index_of(sample.temperature, neighbour.value)
}

/// `neighbours` are the samples as the interpolation sees them from
/// `query`, one for one and in order.
pub open spec fn neighbourhood_of<T: Scalar>(
    samples: Seq<TemperatureVelocityField<T>>,
    query: Vec3<T>,
    neighbours: Seq<Neighbour<T>>,
) -> bool {
    exists|zero: T|
        count_of(0, zero) && neighbours.len() == samples.len() && forall|i: int|
            0 <= i < samples.len() ==> neighbour_of(
                samples[i],
                query,
                zero,
                #[trigger] neighbours[i],
            )
}

/// `r` is the index of refraction at the sample that the index finds
/// nearest to `query`, or nothing where it finds none.
pub open spec fn nearest_value_of<T: Scalar, I: SpatialIndex<T>>(
    index: &I,
    query: &Vec3<T>,
    r: Option<T>,
) -> bool {
    exists|found: Option<TemperatureVelocityField<T>>|
        call_ensures(I::nearest, (index, query), found) && match found {
            Some(sample) => r is Some && refraction_index_of(sample.temperature, r->Some_0),
            None => r is None,
        }
}

/// `e` is the estimate at `query` from the samples that the index finds
/// within the squared radius, or from the nearest sample where it finds
/// none within.
pub open spec fn shepard_of<T: Scalar, I: SpatialIndex<T>>(
    index: &I,
    query: &Vec3<T>,
    max_squared_radius: T,
    e: Option<T>,
) -> bool {
    exists|
        samples: Vec<TemperatureVelocityField<T>>,
        neighbours: Seq<Neighbour<T>>,
        nearest: Option<T>,
    |
        call_ensures(I::within_radius, (index, query, max_squared_radius), samples)
            && neighbourhood_of(samples@, *query, neighbours) && (if samples@.len() == 0 {
            nearest_value_of(index, query, nearest)
        } else {
            nearest is None
        }) && estimate_of(neighbours, nearest, e)
}

/// Interpolation of the refractive index at a point.
pub trait Shepard<T> {
    /// Interpolates the refraction index
    ///
    /// Interpolates the refraction index at `query_point` using all the
    /// samples within the squared radius `max_squared_radius` from
    /// `query_point`, each weighted by the inverse of its squared distance.
    /// A sample on the query point gives its own index. Where no sample is
    /// within the radius, the index of the nearest sample is returned, and
    /// nothing where there is no sample at all.
    fn shepard(&self, query_point: &Vec3<T>, max_squared_radius: T) -> Option<T>;
}

impl<T: Scalar, I: SpatialIndex<T>> Shepard<T> for I {
    fn shepard(&self, query_point: &Vec3<T>, max_squared_radius: T) -> (e: Option<T>)
        ensures
            shepard_of(self, query_point, max_squared_radius, e),
    {
        let samples = self.within_radius(query_point, max_squared_radius);
        let zero = T::from_count(0);
        let mut neighbours: Vec<Neighbour<T>> = Vec::new();
        let mut i: usize = 0;
        while i < samples.len()
            invariant
                i <= samples.len(),
                neighbours@.len() == i,
                forall|j: int|
                    0 <= j < i ==> neighbour_of(
                        samples@[j],
                        *query_point,
                        zero,
                        #[trigger] neighbours@[j],
                    ),
            decreases samples.len() - i,
        {
            let distance_2 = samples[i].distance_2(query_point);
            let apart = distance_2.exceeds(zero);
            let value = samples[i].refraction_index();
            proof {
                assert(exceeds_of(distance_2, zero, apart));
            }
            neighbours.push(Neighbour { distance_2, apart, value });
            i = i + 1;
        }
        proof {
            assert(count_of(0, zero));
            assert(neighbourhood_of(samples@, *query_point, neighbours@));
        }
        let nearest = if samples.len() == 0 {
            let found = self.nearest(query_point);
            let nearest = match found {
                Some(sample) => Some(sample.refraction_index()),
                None => None,
            };
            proof {
                assert(call_ensures(I::nearest, (self, query_point), found));
                assert(nearest_value_of(self, query_point, nearest));
            }
            nearest
        } else {
            None
        };
        let e = estimate(&neighbours, nearest);
        proof {
            assert(call_ensures(
                I::within_radius,
                (self, query_point, max_squared_radius),
                samples,
            ) && neighbourhood_of(samples@, *query_point, neighbours@) && estimate_of(
                neighbours@,
                nearest,
                e,
            ));
        }
        e
    }
}

} // verus!
