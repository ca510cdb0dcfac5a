use cfd_raytrace::cfd::{
    classify, estimate, Neighbour, Neighbourhood, DISPERSION, GLADSTONE_DALE, REFERENCE_PRESSURE,
    WAVELENGTH,
};
use cfd_raytrace::{Scalar, Shepard, SpatialIndex, TemperatureVelocityField, Vec3};
use rstar::{PointDistance, RTree, RTreeObject, AABB};

#[derive(Clone, Copy, Debug, PartialEq)]
struct Num(f64);

impl Scalar for Num {
    fn decimal(mantissa: i64, exponent: i32) -> Self {
        Num(format!("{}e{}", mantissa, exponent).parse().unwrap())
    }
    fn from_count(n: usize) -> Self {
        Num(n as f64)
    }
    fn ceil_count(self) -> usize {
        self.0.ceil() as usize
    }
    fn plus(self, rhs: Self) -> Self {
        Num(self.0 + rhs.0)
    }
    fn minus(self, rhs: Self) -> Self {
        Num(self.0 - rhs.0)
    }
    fn times(self, rhs: Self) -> Self {
        Num(self.0 * rhs.0)
    }
    fn over(self, rhs: Self) -> Self {
        Num(self.0 / rhs.0)
    }
    fn exceeds(self, rhs: Self) -> bool {
        self.0 > rhs.0
    }
}

struct Sample(TemperatureVelocityField<Num>);

impl RTreeObject for Sample {
    type Envelope = AABB<[f64; 3]>;

    fn envelope(&self) -> Self::Envelope {
        let p = self.0.coordinates();
        AABB::from_point([p.x.0, p.y.0, p.z.0])
    }
}

impl PointDistance for Sample {
    fn distance_2(&self, point: &[f64; 3]) -> f64 {
        self.0.distance_2(&at(point[0], point[1], point[2])).0
    }
}

struct Tree(RTree<Sample>);

impl SpatialIndex<Num> for Tree {
    fn nearest(&self, point: &Vec3<Num>) -> Option<TemperatureVelocityField<Num>> {
        self.0
            .nearest_neighbor([point.x.0, point.y.0, point.z.0])
            .map(|s| s.0)
    }

    fn within_radius(
        &self,
        point: &Vec3<Num>,
        max_squared_radius: Num,
    ) -> Vec<TemperatureVelocityField<Num>> {
        self.0
            .locate_within_distance([point.x.0, point.y.0, point.z.0], max_squared_radius.0)
            .map(|s| s.0)
            .collect()
    }
}

fn at(x: f64, y: f64, z: f64) -> Vec3<Num> {
    Vec3 { x: Num(x), y: Num(y), z: Num(z) }
}

fn sample(x: f64, y: f64, z: f64, temperature: f64) -> TemperatureVelocityField<Num> {
    TemperatureVelocityField {
        temperature: Num(temperature),
        velocity: None,
        x: Num(x),
        y: Num(y),
        z: Num(z),
    }
}

fn tree(samples: Vec<TemperatureVelocityField<Num>>) -> Tree {
    Tree(RTree::bulk_load(samples.into_iter().map(Sample).collect()))
}

fn index_at(temperature: f64) -> f64 {
    7.76e-7 * 75000.0 * (1. + 0.00752 / (0.5 * 0.5)) / temperature
}

fn neighbour(distance_2: f64, value: f64) -> Neighbour<Num> {
    Neighbour { distance_2: Num(distance_2), apart: distance_2 > 0.0, value: Num(value) }
}

#[test]
fn the_constants_are_those_of_the_model() {
    assert_eq!(Num::decimal(GLADSTONE_DALE.0, GLADSTONE_DALE.1), Num(7.76e-7));
    assert_eq!(
        Num::decimal(REFERENCE_PRESSURE.0, REFERENCE_PRESSURE.1),
        Num(75000.0)
    );
    assert_eq!(Num::decimal(DISPERSION.0, DISPERSION.1), Num(0.00752));
    assert_eq!(Num::decimal(WAVELENGTH.0, WAVELENGTH.1), Num(0.5));
}

#[test]
fn refraction_index_follows_the_formula() {
    assert_eq!(sample(0.0, 0.0, 0.0, 300.0).refraction_index().0, index_at(300.0));
    assert_eq!(sample(1.0, 2.0, 3.0, 273.15).refraction_index().0, index_at(273.15));
    let n = sample(0.0, 0.0, 0.0, 300.0).refraction_index().0;
    assert!((n - 1.9983552e-4).abs() < 1e-12);
}

#[test]
fn coordinates_are_taken_as_they_stand() {
    let p = sample(1.0, -2.0, 3.9, 300.0).coordinates();
    assert_eq!((p.x, p.y, p.z), (Num(1.0), Num(-2.0), Num(3.9)));
}

#[test]
fn distance_2_is_the_squared_euclidean_distance() {
    let s = sample(1.0, 2.0, 3.0, 300.0);
    assert_eq!(s.distance_2(&at(1.0, 2.0, 3.0)), Num(0.0));
    assert_eq!(s.distance_2(&at(2.0, 4.0, 1.0)), Num(9.0));
    assert_eq!(s.distance_2(&at(1.0, 2.0, 0.0)), Num(9.0));
}

#[test]
fn classify_finds_the_first_coincident_sample() {
    let n = vec![neighbour(1.0, 1.0), neighbour(0.0, 2.0), neighbour(0.0, 3.0)];
    assert_eq!(classify(&n), Neighbourhood::Coincident(1));
    let n = vec![neighbour(0.0, 2.0)];
    assert_eq!(classify(&n), Neighbourhood::Coincident(0));
}

#[test]
fn classify_weighs_samples_that_are_all_apart() {
    let n = vec![neighbour(1.0, 1.0), neighbour(0.5, 2.0)];
    assert_eq!(classify(&n), Neighbourhood::Weighted);
}

#[test]
fn classify_tells_an_empty_neighbourhood() {
    let n: Vec<Neighbour<Num>> = Vec::new();
    assert_eq!(classify(&n), Neighbourhood::Empty);
}

#[test]
fn estimate_at_a_sample_is_its_value() {
    let n = vec![neighbour(0.25, 10.0), neighbour(0.0, 1.25), neighbour(0.01, -4.0)];
    assert_eq!(estimate(&n, None), Some(Num(1.25)));
    assert_eq!(estimate(&n, Some(Num(99.0))), Some(Num(1.25)));
    let n = vec![neighbour(0.0, 1.25), neighbour(0.25, 1e9), neighbour(0.0, 7.0)];
    assert_eq!(estimate(&n, None), Some(Num(1.25)));
}

#[test]
fn estimate_of_two_equidistant_samples_is_their_mean() {
    let n = vec![neighbour(1.0, 1.0), neighbour(1.0, 2.0)];
    assert_eq!(estimate(&n, None), Some(Num(1.5)));
    let n = vec![neighbour(0.25, 3.0), neighbour(0.25, -1.0)];
    assert_eq!(estimate(&n, Some(Num(99.0))), Some(Num(1.0)));
}

#[test]
fn estimate_weighs_by_inverse_squared_distance() {
    // weights 1 and 1/4: (1 * 10 + 0.25 * 20) / 1.25
    let n = vec![neighbour(1.0, 10.0), neighbour(4.0, 20.0)];
    assert_eq!(estimate(&n, None), Some(Num(12.0)));
}

#[test]
fn estimate_of_one_sample_apart_is_its_value() {
    let n = vec![neighbour(4.0, 3.0)];
    assert_eq!(estimate(&n, None), Some(Num(3.0)));
}

#[test]
fn estimate_of_an_empty_neighbourhood_is_the_nearest() {
    let n: Vec<Neighbour<Num>> = Vec::new();
    assert_eq!(estimate(&n, Some(Num(2.5))), Some(Num(2.5)));
    assert_eq!(estimate(&n, None), None);
}

#[test]
fn shepard_at_a_sample_is_its_index() {
    let index = tree(vec![
        sample(0.0, 0.0, 0.0, 300.0),
        sample(0.1, 0.0, 0.0, 280.0),
        sample(0.0, 0.2, 0.0, 320.0),
    ]);
    assert_eq!(index.shepard(&at(0.0, 0.0, 0.0), Num(1.0)), Some(Num(index_at(300.0))));
    assert_eq!(index.shepard(&at(0.1, 0.0, 0.0), Num(1.0)), Some(Num(index_at(280.0))));
}

#[test]
fn shepard_between_two_samples_is_their_mean() {
    let index = tree(vec![sample(-1.0, 0.0, 0.0, 300.0), sample(1.0, 0.0, 0.0, 250.0)]);
    let n = index.shepard(&at(0.0, 0.0, 0.0), Num(4.0)).unwrap().0;
    assert_eq!(n, (index_at(300.0) + index_at(250.0)) / 2.0);
}

#[test]
fn shepard_leaves_out_samples_beyond_the_radius() {
    let index = tree(vec![sample(1.0, 0.0, 0.0, 300.0), sample(3.0, 0.0, 0.0, 250.0)]);
    let n = index.shepard(&at(0.0, 0.0, 0.0), Num(4.0)).unwrap().0;
    assert_eq!(n, index_at(300.0));
    let both = index.shepard(&at(0.0, 0.0, 0.0), Num(9.0)).unwrap().0;
    let want = (index_at(300.0) + index_at(250.0) / 9.0) / (1.0 + 1.0 / 9.0);
    assert!((both - want).abs() < 1e-18);
}

#[test]
fn shepard_falls_back_on_the_nearest_sample() {
    let index = tree(vec![sample(10.0, 0.0, 0.0, 300.0), sample(20.0, 0.0, 0.0, 250.0)]);
    assert_eq!(index.shepard(&at(0.0, 0.0, 0.0), Num(0.25)), Some(Num(index_at(300.0))));
    assert_eq!(index.shepard(&at(18.0, 0.0, 0.0), Num(0.25)), Some(Num(index_at(250.0))));
}

#[test]
fn a_single_sample_is_nearest_to_every_point() {
    let index = tree(vec![sample(1.0, 2.0, 3.0, 300.0)]);
    for p in [at(0.0, 0.0, 0.0), at(1.0, 2.0, 3.0), at(-1e6, 5.0, 1e3)] {
        let found = index.nearest(&p).unwrap();
        assert_eq!(found.temperature, Num(300.0));
        assert_eq!(index.shepard(&p, Num(0.25)), Some(Num(index_at(300.0))));
    }
}

#[test]
fn an_empty_index_gives_nothing() {
    let index = tree(Vec::new());
    for p in [at(0.0, 0.0, 0.0), at(1.0, 2.0, 3.0)] {
        assert!(index.nearest(&p).is_none());
        assert!(index.within_radius(&p, Num(1e12)).is_empty());
        assert_eq!(index.shepard(&p, Num(1e12)), None);
    }
}
