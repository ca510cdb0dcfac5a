//! The ray bundle: the exit-pupil mask, the active rays on each of the four
//! optical surfaces, and the two settings of a trace.

use crate::cfd::Shepard;
use crate::error::Error;
use crate::mask::{
    active_count, count_active, lemma_selected_prefix, mask_from_bytes, scatter, scattered,
    select_rows, selected,
};
use crate::scalar::{
    advanced_of, ceiling_of, count_of, decimal_of, difference_of, exceeds_of, product_of,
    quotient_of, sum_of, Scalar, Vec3,
};
use vstd::prelude::*;

verus! {

/// Number of optical surfaces; the rays cross one segment less.
pub const SURFACES: usize = 4;

/// Number of segments between consecutive surfaces.
pub const SEGMENTS: usize = 3;

/// Mantissa and decimal exponent of the stock marching step, `0.25`.
pub const STEP_LENGTH: (i64, i32) = (25, -2);

/// Mantissa and decimal exponent of the stock interpolation radius, `0.5`.
pub const SHEPARD_RADIUS: (i64, i32) = (5, -1);

/// What a tracer holds.
pub struct Geometry<T> {
    /// One entry per point of the full grid; `true` where a ray is traced.
    pub mask: Seq<bool>,
    /// For each surface, the position of each active ray on it.
    pub positions: Seq<Seq<Vec3<T>>>,
    /// For each surface, the direction cosines of each active ray leaving it.
    pub directions: Seq<Seq<Vec3<T>>>,
    /// The radius of the interpolation neighbourhood, where one was set.
    pub radius: Option<T>,
    /// The nominal marching step, where one was set.
    pub step: Option<T>,
}

impl<T> Geometry<T> {
    /// Four surfaces, each with one position and one direction for each
    /// active entry of the mask.
    pub open spec fn well_formed(self) -> bool {
        &&& self.positions.len() == SURFACES
        &&& self.directions.len() == SURFACES
        &&& forall|s: int|
            0 <= s < SURFACES ==> (#[trigger] self.positions[s]).len() == active_count(self.mask)
        &&& forall|s: int|
            0 <= s < SURFACES ==> (#[trigger] self.directions[s]).len() == active_count(
                self.mask,
            )
    }
}

/// The mask that a sequence of bytes stands for: active where the byte is
/// not zero.
pub open spec fn mask_of(bytes: Seq<u8>) -> Seq<bool> {
    bytes.map_values(|b: u8| b != 0)
}

/// The rows of a flat, row-major array of three columns.
pub open spec fn rows_of<T>(flat: Seq<T>) -> Seq<Vec3<T>> {
    Seq::new(
        (flat.len() / 3) as nat,
        |i: int| Vec3 { x: flat[3 * i], y: flat[3 * i + 1], z: flat[3 * i + 2] },
    )
}

/// A flat array holds exactly three numbers for each position of the mask.
pub open spec fn fits<T>(mask: Seq<bool>, flat: Seq<T>) -> bool {
    flat.len() == 3 * mask.len()
}

/// The rows of each flat array that stand at active positions of the mask.
pub open spec fn active_rows<T>(mask: Seq<bool>, arrays: Seq<Vec<T>>) -> Seq<Seq<Vec3<T>>> {
    Seq::new(arrays.len(), |s: int| selected(mask, rows_of(arrays[s]@)))
}

/// All four surfaces are there, positions and directions.
pub open spec fn has_surfaces<T>(xyz: Seq<Vec<T>>, klm: Seq<Vec<T>>) -> bool {
    xyz.len() == SURFACES && klm.len() == SURFACES
}

/// Every array holds three numbers for each position of the mask.
pub open spec fn all_fit<T>(mask: Seq<bool>, xyz: Seq<Vec<T>>, klm: Seq<Vec<T>>) -> bool {
    &&& forall|s: int| 0 <= s < xyz.len() ==> fits(mask, (#[trigger] xyz[s])@)
    &&& forall|s: int| 0 <= s < klm.len() ==> fits(mask, (#[trigger] klm[s])@)
}

/// The ray bundle and the settings of a trace.
///
/// Built once from the arrays of an archive and only read afterwards. A
/// setting that was never given is left to the tracer's stock value.
pub struct RayTracer<T> {
    mask: Vec<bool>,
    xyz: Vec<Vec<Vec3<T>>>,
    klm: Vec<Vec<Vec3<T>>>,
    shepard_radius: Option<T>,
    step_length: Option<T>,
}

impl<T> View for RayTracer<T> {
    type V = Geometry<T>;

    closed spec fn view(&self) -> Geometry<T> {
        Geometry {
            mask: self.mask@,
            positions: self.xyz@.map_values(|m: Vec<Vec3<T>>| m@),
            directions: self.klm@.map_values(|m: Vec<Vec3<T>>| m@),
            radius: self.shepard_radius,
            step: self.step_length,
        }
    }
}

/// Splits a flat, row-major array of three columns into its rows; numbers
/// after the last full row are left out.
fn rows_from_flat<T: Copy>(flat: &Vec<T>) -> (rows: Vec<Vec3<T>>)
    ensures
        rows@ == rows_of(flat@),
{
    let n: usize = flat.len() / 3;
    let mut rows: Vec<Vec3<T>> = Vec::new();
    let mut i: usize = 0;
    while i < n
        invariant
            n == flat@.len() / 3,
            3 * n <= flat@.len() <= usize::MAX,
            i <= n,
            rows@.len() == i,
            forall|j: int| 0 <= j < i ==> rows@[j] == rows_of(flat@)[j],
        decreases n - i,
    {
        rows.push(Vec3 { x: flat[3 * i], y: flat[3 * i + 1], z: flat[3 * i + 2] });
        i = i + 1;
    }
    proof {
        assert(rows@ =~= rows_of(flat@));
    }
    rows
}

/// Whether a flat array holds three numbers for each position of the mask.
fn array_fits<T>(mask: &Vec<bool>, flat: &Vec<T>) -> (ok: bool)
    ensures
        ok == fits(mask@, flat@),
{
    flat.len() % 3 == 0 && flat.len() / 3 == mask.len()
}

impl<T> RayTracer<T> {
    #[verifier::type_invariant]
    closed spec fn valid(self) -> bool {
        self@.well_formed()
    }
}

impl<T: Copy> RayTracer<T> {
    /// Builds the ray bundle from the arrays of an archive: the mask bytes,
    /// and for each surface found a flat row-major array of positions and
    /// one of direction cosines, one row of three numbers for each position
    /// of the mask. Only the rows at active positions are kept.
    ///
    /// Both settings start unset.
    pub fn from_npz(mask: &Vec<u8>, xyz: &Vec<Vec<T>>, klm: &Vec<Vec<T>>) -> (r: Result<
        RayTracer<T>,
        Error,
    >)
        ensures
            r is Ok <==> has_surfaces(xyz@, klm@) && all_fit(mask_of(mask@), xyz@, klm@),
            r == Err::<RayTracer<T>, Error>(Error::Surfaces) <==> !has_surfaces(xyz@, klm@),
            r == Err::<RayTracer<T>, Error>(Error::Rows) <==> has_surfaces(xyz@, klm@) && !all_fit(
                mask_of(mask@),
                xyz@,
                klm@,
            ),
            r matches Ok(t) ==> t@ == (Geometry {
                mask: mask_of(mask@),
                positions: active_rows(mask_of(mask@), xyz@),
                directions: active_rows(mask_of(mask@), klm@),
                radius: None,
                step: None,
            }),
    {
        if xyz.len() != SURFACES || klm.len() != SURFACES {
            return Err(Error::Surfaces);
        }
        let active = mask_from_bytes(mask);
        let mut positions: Vec<Vec<Vec3<T>>> = Vec::new();
        let mut directions: Vec<Vec<Vec3<T>>> = Vec::new();
        let mut s: usize = 0;
        while s < SURFACES
            invariant
                s <= SURFACES,
                xyz@.len() == SURFACES,
                klm@.len() == SURFACES,
                active@ == mask_of(mask@),
                positions@.len() == s,
                directions@.len() == s,
                forall|j: int| 0 <= j < s ==> fits(active@, (#[trigger] xyz@[j])@),
                forall|j: int| 0 <= j < s ==> fits(active@, (#[trigger] klm@[j])@),
                forall|j: int|
                    0 <= j < s ==> (#[trigger] positions@[j])@ == selected(
                        active@,
                        rows_of(xyz@[j]@),
                    ),
                forall|j: int|
                    0 <= j < s ==> (#[trigger] directions@[j])@ == selected(
                        active@,
                        rows_of(klm@[j]@),
                    ),
            decreases SURFACES - s,
        {
            if !array_fits(&active, &xyz[s]) || !array_fits(&active, &klm[s]) {
                return Err(Error::Rows);
            }
            let p = rows_from_flat(&xyz[s]);
            let d = rows_from_flat(&klm[s]);
            positions.push(select_rows(&active, &p));
            directions.push(select_rows(&active, &d));
            s = s + 1;
        }
        proof {
            assert forall|j: int| 0 <= j < SURFACES implies (#[trigger] positions@[j])@.len()
                == active_count(active@) by {
                lemma_selected_prefix(active@, rows_of(xyz@[j]@), active@.len() as int);
            }
            assert forall|j: int| 0 <= j < SURFACES implies (#[trigger] directions@[j])@.len()
                == active_count(active@) by {
                lemma_selected_prefix(active@, rows_of(klm@[j]@), active@.len() as int);
            }
            assert(positions@.map_values(|m: Vec<Vec3<T>>| m@) =~= active_rows(active@, xyz@));
            assert(directions@.map_values(|m: Vec<Vec3<T>>| m@) =~= active_rows(active@, klm@));
        }
        let tracer = RayTracer {
            mask: active,
            xyz: positions,
            klm: directions,
            shepard_radius: None,
            step_length: None,
        };
        Ok(tracer)
    }

    /// Sets the radius of the neighbourhood that the field is interpolated
    /// from.
    pub fn shepard_radius(self, radius: T) -> (r: Self)
        ensures
            r@ == (Geometry { radius: Some(radius), ..self@ }),
    {
        proof {
            use_type_invariant(&self);
        }
        let RayTracer { mask, xyz, klm, shepard_radius: _, step_length } = self;
        RayTracer { mask, xyz, klm, shepard_radius: Some(radius), step_length }
    }

    /// Sets the nominal marching step.
    pub fn ray_tracing_step(self, step: T) -> (r: Self)
        ensures
            r@ == (Geometry { step: Some(step), ..self@ }),
    {
        proof {
            use_type_invariant(&self);
        }
        let RayTracer { mask, xyz, klm, shepard_radius, step_length: _ } = self;
        RayTracer { mask, xyz, klm, shepard_radius, step_length: Some(step) }
    }

    /// Returns the number of rays within the exit pupil.
    pub fn n_sample(&self) -> (n: usize)
        ensures
            n == active_count(self@.mask),
            self@.well_formed(),
    {
        proof {
            use_type_invariant(self);
        }
        count_active(&self.mask)
    }

    /// The exit-pupil mask, one entry per point of the full grid.
    pub fn mask(&self) -> (m: &Vec<bool>)
        ensures
            m@ == self@.mask,
    {
        &self.mask
    }

    /// The positions of the active rays on a surface.
    pub fn positions(&self, surface: usize) -> (rows: &Vec<Vec3<T>>)
        requires
            surface < SURFACES,
        ensures
            rows@ == self@.positions[surface as int],
            rows@.len() == active_count(self@.mask),
    {
        proof {
            use_type_invariant(self);
            assert(self@.positions[surface as int] == self.xyz@[surface as int]@);
        }
        &self.xyz[surface]
    }

    /// The direction cosines of the active rays leaving a surface.
    pub fn directions(&self, surface: usize) -> (rows: &Vec<Vec3<T>>)
        requires
            surface < SURFACES,
        ensures
            rows@ == self@.directions[surface as int],
            rows@.len() == active_count(self@.mask),
    {
        proof {
            use_type_invariant(self);
            assert(self@.directions[surface as int] == self.klm@[surface as int]@);
        }
        &self.klm[surface]
    }

    /// The radius that was set, if any.
    pub fn radius(&self) -> (r: Option<T>)
        ensures
            r == self@.radius,
    {
        self.shepard_radius
    }

    /// The marching step that was set, if any.
    pub fn step(&self) -> (r: Option<T>)
        ensures
            r == self@.step,
    {
        self.step_length
    }

    /// Lays one value per active ray out on the full grid, in the order of
    /// the mask; the points without a ray receive `sentinel`.
    pub fn opd_map(&self, values: &Vec<T>, sentinel: T) -> (grid: Vec<T>)
        ensures
            grid@ == scattered(self@.mask, values@, sentinel),
    {
        scatter(&self.mask, values, sentinel)
    }
}

/// The number that the path of a segment is divided by to give the length
/// of one step: one less than the number of steps, and `1` where the
/// segment is crossed in a single step or not at all.
pub open spec fn divisions(steps: nat) -> nat {
    if steps > 1 {
        (steps - 1) as nat
    } else {
        1
    }
}

/// The divisor that turns the path of a segment into the length of one
/// step. It is never zero: a segment of a single step is crossed in one
/// stride of the whole path.
pub fn sub_steps(steps: usize) -> (d: usize)
    ensures
        d == divisions(steps as nat),
        d >= 1,
{
    if steps > 1 {
        steps - 1
    } else {
        1
    }
}

/// `best` is the largest of the first `n` values by a running comparison:
/// it starts as the first value and is replaced by each later value that
/// the number type finds to exceed it.
pub open spec fn running_largest_of<T: Scalar>(values: Seq<T>, n: int, best: T) -> bool
    decreases n,
{
    if n <= 1 {
        best == values[0]
    } else {
        exists|before: T, more: bool|
            running_largest_of(values, n - 1, before) && #[trigger] exceeds_of(
                values[n - 1],
                before,
                more,
            ) && best == if more {
                values[n - 1]
            } else {
                before
            }
    }
}

/// `m` is the largest of the values by a running comparison, or nothing
/// where there is no value.
pub open spec fn largest_of<T: Scalar>(values: Seq<T>, m: Option<T>) -> bool {
    if values.len() == 0 {
        m is None
    } else {
        m is Some && running_largest_of(values, values.len() as int, m->Some_0)
    }
}

/// `r` is a setting: the value that was set, or what the number type gives
/// for the stock value.
pub open spec fn setting_of<T: Scalar>(set: Option<T>, stock: (i64, i32), r: T) -> bool {
    match set {
        Some(value) => r == value,
        None => decimal_of(stock.0, stock.1, r),
    }
}

/// `r` is what the number type gives for the length of a ray's path from
/// `from` to the height of `to` along `direction`: the difference of the
/// heights over the third direction cosine.
pub open spec fn path_length_of<T: Scalar>(
    from: Vec3<T>,
    to: Vec3<T>,
    direction: Vec3<T>,
    r: T,
) -> bool {
    exists|rise: T| difference_of(to.z, from.z, rise) && quotient_of(rise, direction.z, r)
}

/// `lengths` holds, for each ray, the length of its path across a segment.
pub open spec fn path_lengths_of<T: Scalar>(
    g: Geometry<T>,
    segment: int,
    lengths: Seq<T>,
) -> bool {
    &&& lengths.len() == active_count(g.mask)
    &&& forall|r: int|
        0 <= r < lengths.len() ==> path_length_of(
            g.positions[segment][r],
            g.positions[segment + 1][r],
            g.directions[segment][r],
            #[trigger] lengths[r],
        )
}

/// `steps` is the number of steps for paths of these lengths: what the
/// number type gives for the largest length over the marching step, rounded
/// up to a count; no step where there is no path.
pub open spec fn steps_of<T: Scalar>(lengths: Seq<T>, step: T, steps: usize) -> bool {
    if lengths.len() == 0 {
        steps == 0
    } else {
        exists|longest: T, ratio: T|
            largest_of(lengths, Some(longest)) && quotient_of(longest, step, ratio) && ceiling_of(
                ratio,
                steps,
            )
    }
}

/// `delta_s` holds each of the lengths over the divisor.
pub open spec fn divided_of<T: Scalar>(lengths: Seq<T>, divisor: T, delta_s: Seq<T>) -> bool {
    &&& delta_s.len() == lengths.len()
    &&& forall|r: int|
        0 <= r < lengths.len() ==> quotient_of(lengths[r], divisor, #[trigger] delta_s[r])
}

/// `delta_s` holds, for each ray, the length of one step: its path over
/// the number of divisions, or the whole path where the segment is crossed
/// in a single step or not at all.
pub open spec fn step_lengths_of<T: Scalar>(lengths: Seq<T>, steps: usize, delta_s: Seq<T>) -> bool {
    if steps > 1 {
        exists|divisor: T|
            count_of((steps - 1) as usize, divisor) && #[trigger] divided_of(
                lengths,
                divisor,
                delta_s,
            )
    } else {
        delta_s == lengths
    }
}

/// One step of one ray: the ray moves from `at` along `direction` by
/// `delta_s` to `at_2`, the field is asked there, and the index it gives
/// times `delta_s` is added to the optical path `opl`, which gives `opl_2`.
/// Where the field gives nothing, the optical path stays as it is.
pub open spec fn ray_step_of<T: Scalar, F: Shepard<T>>(
    cfd_data: &F,
    radius_2: T,
    direction: Vec3<T>,
    delta_s: T,
    at: Vec3<T>,
    opl: T,
    at_2: Vec3<T>,
    opl_2: T,
) -> bool {
    &&& advanced_of(at, direction, delta_s, at_2)
    &&& exists|found: Option<T>|
        call_ensures(F::shepard, (cfd_data, &at_2, radius_2), found) && match found {
            Some(index) => exists|gain: T|
                product_of(index, delta_s, gain) && sum_of(opl, gain, opl_2),
            None => opl_2 == opl,
        }
}

/// One step of every ray.
pub open spec fn step_of<T: Scalar, F: Shepard<T>>(
    cfd_data: &F,
    radius_2: T,
    directions: Seq<Vec3<T>>,
    delta_s: Seq<T>,
    at: Seq<Vec3<T>>,
    opl: Seq<T>,
    at_2: Seq<Vec3<T>>,
    opl_2: Seq<T>,
) -> bool {
    &&& at_2.len() == at.len()
    &&& opl_2.len() == opl.len()
    &&& forall|r: int|
        0 <= r < at.len() ==> ray_step_of(
            cfd_data,
            radius_2,
            directions[r],
            delta_s[r],
            at[r],
            opl[r],
            #[trigger] at_2[r],
            opl_2[r],
        )
}

/// `steps` steps of every ray, one after the other, from `at` and `opl`
/// to `at_n` and `opl_n`.
pub open spec fn marched_of<T: Scalar, F: Shepard<T>>(
    cfd_data: &F,
    radius_2: T,
    directions: Seq<Vec3<T>>,
    delta_s: Seq<T>,
    steps: int,
    at: Seq<Vec3<T>>,
    opl: Seq<T>,
    at_n: Seq<Vec3<T>>,
    opl_n: Seq<T>,
) -> bool
    decreases steps,
{
    if steps <= 0 {
        at_n == at && opl_n == opl
    } else {
        exists|at_m: Seq<Vec3<T>>, opl_m: Seq<T>|
            marched_of(cfd_data, radius_2, directions, delta_s, steps - 1, at, opl, at_m, opl_m)
                && step_of(cfd_data, radius_2, directions, delta_s, at_m, opl_m, at_n, opl_n)
    }
}

/// The rays cross a segment: the number of steps follows from the longest
/// path, every ray starts on the surface that opens the segment and takes
/// that many steps of its own length, and `opl` grows into `opl_n`.
pub open spec fn segment_of<T: Scalar, F: Shepard<T>>(
    g: Geometry<T>,
    segment: int,
    cfd_data: &F,
    step: T,
    radius_2: T,
    opl: Seq<T>,
    opl_n: Seq<T>,
) -> bool {
    exists|lengths: Seq<T>, steps: usize, delta_s: Seq<T>, at_n: Seq<Vec3<T>>|
        path_lengths_of(g, segment, lengths) && steps_of(lengths, step, steps) && step_lengths_of(
            lengths,
            steps,
            delta_s,
        ) && marched_of(
            cfd_data,
            radius_2,
            g.directions[segment],
            delta_s,
            steps as int,
            g.positions[segment],
            opl,
            at_n,
            opl_n,
        )
}

/// `sum` is what the number type gives for the first `n` values added up
/// in order, starting from the count zero.
pub open spec fn running_sum_of<T: Scalar>(values: Seq<T>, n: int, sum: T) -> bool
    decreases n,
{
    if n <= 0 {
        count_of(0, sum)
    } else {
        exists|before: T|
            running_sum_of(values, n - 1, before) && #[trigger] sum_of(before, values[n - 1], sum)
    }
}

/// `mean` is what the number type gives for the sum of the values over
/// their count.
pub open spec fn mean_of<T: Scalar>(values: Seq<T>, mean: T) -> bool {
    exists|sum: T, count: T|
        running_sum_of(values, values.len() as int, sum) && count_of(
            values.len() as usize,
            count,
        ) && quotient_of(sum, count, mean)
}

/// `zeroed` holds the values with their mean taken off.
pub open spec fn mean_removed_of<T: Scalar>(values: Seq<T>, zeroed: Seq<T>) -> bool {
    exists|mean: T|
        mean_of(values, mean) && zeroed.len() == values.len() && forall|i: int|
            0 <= i < values.len() ==> difference_of(values[i], mean, #[trigger] zeroed[i])
}

/// `rays` holds the optical path difference of each ray: every optical
/// path starts at the count zero, the three segments are crossed in turn
/// with the marching step and the squared radius of the settings, and the
/// mean over the rays is taken off.
pub open spec fn traced_of<T: Scalar, F: Shepard<T>>(
    g: Geometry<T>,
    cfd_data: &F,
    rays: Seq<T>,
) -> bool {
    exists|
        zero: T,
        step: T,
        radius: T,
        radius_2: T,
        opl_1: Seq<T>,
        opl_2: Seq<T>,
        opl_3: Seq<T>,
    |
        count_of(0, zero) && setting_of(g.step, STEP_LENGTH, step) && setting_of(
            g.radius,
            SHEPARD_RADIUS,
            radius,
        ) && product_of(radius, radius, radius_2) && segment_of(
            g,
            0,
            cfd_data,
            step,
            radius_2,
            Seq::new(active_count(g.mask), |i: int| zero),
            opl_1,
        ) && segment_of(g, 1, cfd_data, step, radius_2, opl_1, opl_2) && segment_of(
            g,
            2,
            cfd_data,
            step,
            radius_2,
            opl_2,
            opl_3,
        ) && mean_removed_of(opl_3, rays)
}

/// The largest of the values by a running comparison; none where there is
/// no value.
fn largest<T: Scalar>(values: &Vec<T>) -> (m: Option<T>)
    ensures
        largest_of(values@, m),
{
    if values.len() == 0 {
        return None;
    }
    let mut best = values[0];
    let mut i: usize = 1;
    while i < values.len()
        invariant
            1 <= i <= values.len(),
            running_largest_of(values@, i as int, best),
        decreases values.len() - i,
    {
        let ghost before = best;
        let more = values[i].exceeds(best);
        if more {
            best = values[i];
        }
        proof {
            let n = i as int + 1;
            assert(running_largest_of(values@, n - 1, before) && exceeds_of(
                values@[n - 1],
                before,
                more,
            ));
            assert(running_largest_of(values@, n, best));
        }
        i = i + 1;
    }
    Some(best)
}

/// As many copies of `value` as asked for.
fn filled<T: Copy>(n: usize, value: T) -> (v: Vec<T>)
    ensures
        v@ == Seq::new(n as nat, |i: int| value),
{
    let mut v: Vec<T> = Vec::new();
    let mut i: usize = 0;
    while i < n
        invariant
            i <= n,
            v@.len() == i,
            forall|j: int| 0 <= j < i ==> v@[j] == value,
        decreases n - i,
    {
        v.push(value);
        i = i + 1;
    }
    proof {
        assert(v@ =~= Seq::new(n as nat, |i: int| value));
    }
    v
}

/// The values with their mean taken off.
fn remove_mean<T: Scalar>(values: &Vec<T>) -> (zeroed: Vec<T>)
    ensures
        mean_removed_of(values@, zeroed@),
{
    let mut sum = T::from_count(0);
    let mut i: usize = 0;
    while i < values.len()
        invariant
            i <= values.len(),
            running_sum_of(values@, i as int, sum),
        decreases values.len() - i,
    {
        let ghost before = sum;
        sum = sum.plus(values[i]);
        proof {
            let n = i as int + 1;
            assert(running_sum_of(values@, n - 1, before) && sum_of(before, values@[n - 1], sum));
            assert(running_sum_of(values@, n, sum));
        }
        i = i + 1;
    }
    let count = T::from_count(values.len());
    let mean = sum.over(count);
    proof {
        assert(running_sum_of(values@, values@.len() as int, sum) && count_of(
            values@.len() as usize,
            count,
        ) && quotient_of(sum, count, mean));
        assert(mean_of(values@, mean));
    }
    let mut zeroed: Vec<T> = Vec::new();
    let mut i: usize = 0;
    while i < values.len()
        invariant
            i <= values.len(),
            zeroed@.len() == i,
            forall|j: int| 0 <= j < i ==> difference_of(values@[j], mean, #[trigger] zeroed@[j]),
        decreases values.len() - i,
    {
        let z = values[i].minus(mean);
        proof {
            assert(difference_of(values@[i as int], mean, z));
        }
        zeroed.push(z);
        i = i + 1;
    }
    zeroed
}

/// The number of steps for paths of these lengths.
fn steps_for<T: Scalar>(lengths: &Vec<T>, step: T) -> (steps: usize)
    ensures
        steps_of(lengths@, step, steps),
{
    match largest(lengths) {
        Some(longest) => {
            let ratio = longest.over(step);
            let steps = ratio.ceil_count();
            proof {
                assert(largest_of(lengths@, Some(longest)) && quotient_of(longest, step, ratio)
                    && ceiling_of(ratio, steps));
            }
            steps
        },
        None => 0,
    }
}

/// The length of one step of each ray.
fn step_lengths<T: Scalar>(lengths: &Vec<T>, steps: usize) -> (delta_s: Vec<T>)
    ensures
        step_lengths_of(lengths@, steps, delta_s@),
        delta_s@.len() == lengths@.len(),
{
    let mut delta_s: Vec<T> = Vec::new();
    let divisor = T::from_count(sub_steps(steps));
    let mut r: usize = 0;
    while r < lengths.len()
        invariant
            r <= lengths.len(),
            delta_s@.len() == r,
            steps > 1 ==> forall|j: int|
                0 <= j < r ==> quotient_of(lengths@[j], divisor, #[trigger] delta_s@[j]),
            steps <= 1 ==> forall|j: int| 0 <= j < r ==> delta_s@[j] == lengths@[j],
        decreases lengths.len() - r,
    {
        if steps > 1 {
            let d = lengths[r].over(divisor);
            proof {
                assert(quotient_of(lengths@[r as int], divisor, d));
            }
            delta_s.push(d);
        } else {
            delta_s.push(lengths[r]);
        }
        r = r + 1;
    }
    proof {
        if steps > 1 {
            assert(count_of((steps - 1) as usize, divisor) && divided_of(
                lengths@,
                divisor,
                delta_s@,
            ));
        } else {
            assert(delta_s@ =~= lengths@);
        }
    }
    delta_s
}

impl<T: Scalar> RayTracer<T> {
    /// For each ray, the length of its path from the surface that opens a
    /// segment to the next: the difference of the two heights over the
    /// third direction cosine.
    fn path_lengths(&self, segment: usize) -> (lengths: Vec<T>)
        requires
            segment < SEGMENTS,
        ensures
            path_lengths_of(self@, segment as int, lengths@),
    {
        let from = self.positions(segment);
        let to = self.positions(segment + 1);
        let along = self.directions(segment);
        let mut lengths: Vec<T> = Vec::new();
        let mut r: usize = 0;
        while r < from.len()
            invariant
                r <= from@.len(),
                from@.len() == to@.len(),
                from@.len() == along@.len(),
                lengths@.len() == r,
                forall|j: int|
                    0 <= j < r ==> path_length_of(from@[j], to@[j], along@[j], #[trigger] lengths@[j]),
            decreases from.len() - r,
        {
            let rise = to[r].z.minus(from[r].z);
            let length = rise.over(along[r].z);
            proof {
                assert(difference_of(to@[r as int].z, from@[r as int].z, rise) && quotient_of(
                    rise,
                    along@[r as int].z,
                    length,
                ));
            }
            lengths.push(length);
            r = r + 1;
        }
        lengths
    }

    /// The marching step: the one that was set, or the stock value.
    fn step_or_stock(&self) -> (step: T)
        ensures
            setting_of(self@.step, STEP_LENGTH, step),
    {
        match self.step() {
            Some(step) => step,
            None => T::decimal(STEP_LENGTH.0, STEP_LENGTH.1),
        }
    }

    /// The interpolation radius: the one that was set, or the stock value.
    fn radius_or_stock(&self) -> (radius: T)
        ensures
            setting_of(self@.radius, SHEPARD_RADIUS, radius),
    {
        match self.radius() {
            Some(radius) => radius,
            None => T::decimal(SHEPARD_RADIUS.0, SHEPARD_RADIUS.1),
        }
    }

    /// The number of steps in which a segment is crossed: the longest path
    /// over the marching step, rounded up, so that every ray reaches the
    /// next surface in the same number of steps. Without rays there is no
    /// step.
    pub fn step_count(&self, segment: usize) -> (steps: usize)
        requires
            segment < SEGMENTS,
        ensures
            exists|lengths: Seq<T>, step: T|
                path_lengths_of(self@, segment as int, lengths) && setting_of(
                    self@.step,
                    STEP_LENGTH,
                    step,
                ) && steps_of(lengths, step, steps),
    {
        let lengths = self.path_lengths(segment);
        let step = self.step_or_stock();
        let steps = steps_for(&lengths, step);
        proof {
            assert(path_lengths_of(self@, segment as int, lengths@) && setting_of(
                self@.step,
                STEP_LENGTH,
                step,
            ) && steps_of(lengths@, step, steps));
        }
        steps
    }

    /// Marches the rays across one segment and adds to each ray's optical
    /// path what the field yields along it: at every step each ray moves
    /// on by its step length, the field is asked at the point reached, and
    /// the index found there times the step length is added. Where the
    /// field gives nothing, that step adds nothing.
    fn march<F: Shepard<T>>(
        &self,
        segment: usize,
        cfd_data: &F,
        step: T,
        radius_2: T,
        paths: Vec<T>,
    ) -> (opl: Vec<T>)
        requires
            segment < SEGMENTS,
            paths@.len() == active_count(self@.mask),
        ensures
            opl@.len() == active_count(self@.mask),
            segment_of(self@, segment as int, cfd_data, step, radius_2, paths@, opl@),
    {
        let lengths = self.path_lengths(segment);
        let steps = steps_for(&lengths, step);
        let delta_s = step_lengths(&lengths, steps);
        let start = self.positions(segment);
        let along = self.directions(segment);
        let n = start.len();
        let mut at: Vec<Vec3<T>> = Vec::new();
        let mut r: usize = 0;
        while r < n
            invariant
                r <= n,
                n == start@.len(),
                at@.len() == r,
                forall|j: int| 0 <= j < r ==> at@[j] == start@[j],
            decreases n - r,
        {
            at.push(start[r]);
            r = r + 1;
        }
        assert(at@ =~= start@);
        let mut opl = paths;
        let mut i: usize = 0;
        while i < steps
            invariant
                i <= steps,
                n == along@.len(),
                delta_s@.len() == n,
                at@.len() == n,
                opl@.len() == n,
                marched_of(
                    cfd_data,
                    radius_2,
                    along@,
                    delta_s@,
                    i as int,
                    start@,
                    paths@,
                    at@,
                    opl@,
                ),
            decreases steps - i,
        {
            let ghost at_m = at@;
            let ghost opl_m = opl@;
            let mut r: usize = 0;
            while r < n
                invariant
                    r <= n,
                    n == along@.len(),
                    delta_s@.len() == n,
                    at@.len() == n,
                    opl@.len() == n,
                    at_m.len() == n,
                    opl_m.len() == n,
                    forall|j: int|
                        0 <= j < r ==> ray_step_of(
                            cfd_data,
                            radius_2,
                            along@[j],
                            delta_s@[j],
                            at_m[j],
                            opl_m[j],
                            #[trigger] at@[j],
                            opl@[j],
                        ),
                    forall|j: int| r <= j < n ==> at@[j] == at_m[j] && opl@[j] == opl_m[j],
                decreases n - r,
            {
                let here = at[r].advanced(&along[r], delta_s[r]);
                let found = cfd_data.shepard(&here, radius_2);
                let ghost before = opl@[r as int];
                let longer = match found {
                    Some(index) => {
                        let gain = index.times(delta_s[r]);
                        let longer = opl[r].plus(gain);
                        proof {
                            assert(product_of(index, delta_s@[r as int], gain) && sum_of(
                                before,
                                gain,
                                longer,
                            ));
                        }
                        longer
                    },
                    None => opl[r],
                };
                proof {
                    assert(call_ensures(F::shepard, (cfd_data, &here, radius_2), found));
                    assert(ray_step_of(
                        cfd_data,
                        radius_2,
                        along@[r as int],
                        delta_s@[r as int],
                        at_m[r as int],
                        opl_m[r as int],
                        here,
                        longer,
                    ));
                }
                at.set(r, here);
                opl.set(r, longer);
                r = r + 1;
            }
            proof {
                assert(step_of(cfd_data, radius_2, along@, delta_s@, at_m, opl_m, at@, opl@));
                assert(marched_of(
                    cfd_data,
                    radius_2,
                    along@,
                    delta_s@,
                    i as int,
                    start@,
                    paths@,
                    at_m,
                    opl_m,
                ));
            }
            i = i + 1;
        }
        proof {
            assert(path_lengths_of(self@, segment as int, lengths@) && steps_of(
                lengths@,
                step,
                steps,
            ) && step_lengths_of(lengths@, steps, delta_s@) && marched_of(
                cfd_data,
                radius_2,
                self@.directions[segment as int],
                delta_s@,
                steps as int,
                self@.positions[segment as int],
                paths@,
                at@,
                opl@,
            ));
        }
        opl
    }

    /// Ray traces through the four surfaces, returning the optical path
    /// difference on the full grid.
    ///
    /// The three segments are marched in turn, the mean over the rays is
    /// taken off, and each ray's value is put at its place in the order of
    /// the mask. The points of the grid without a ray hold `sentinel`.
    ///
    /// A ray that runs level with a surface, its third direction cosine
    /// zero, has no path length: such rays are to be kept out of the
    /// bundle.
    pub fn ray_trace<F: Shepard<T>>(&self, cfd_data: &F, sentinel: T) -> (opd: Vec<T>)
        ensures
            opd@.len() == self@.mask.len(),
            exists|rays: Seq<T>|
                rays.len() == active_count(self@.mask) && traced_of(self@, cfd_data, rays) && opd@
                    == scattered(self@.mask, rays, sentinel),
    {
        let zero = T::from_count(0);
        let step = self.step_or_stock();
        let radius = self.radius_or_stock();
        let radius_2 = radius.times(radius);
        let opl_0 = filled(self.n_sample(), zero);
        let ghost start = opl_0@;
        let opl_1 = self.march(0, cfd_data, step, radius_2, opl_0);
        let ghost first = opl_1@;
        let opl_2 = self.march(1, cfd_data, step, radius_2, opl_1);
        let ghost second = opl_2@;
        let opl_3 = self.march(2, cfd_data, step, radius_2, opl_2);
        let zeroed = remove_mean(&opl_3);
        proof {
            assert(count_of(0, zero) && setting_of(self@.step, STEP_LENGTH, step) && setting_of(
                self@.radius,
                SHEPARD_RADIUS,
                radius,
            ) && product_of(radius, radius, radius_2) && segment_of(
                self@,
                0,
                cfd_data,
                step,
                radius_2,
                Seq::new(active_count(self@.mask), |i: int| zero),
                first,
            ) && segment_of(self@, 1, cfd_data, step, radius_2, first, second) && segment_of(
                self@,
                2,
                cfd_data,
                step,
                radius_2,
                second,
                opl_3@,
            ) && mean_removed_of(opl_3@, zeroed@));
            assert(traced_of(self@, cfd_data, zeroed@));
        }
        self.opd_map(&zeroed, sentinel)
    }
}

} // verus!
