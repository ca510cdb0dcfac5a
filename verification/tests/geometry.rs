use cfd_raytrace::ray_tracing::{sub_steps, SEGMENTS, SURFACES};
use cfd_raytrace::{Error, RayTracer};

fn surface(rows: usize, base: f64) -> Vec<f64> {
    let mut flat = Vec::new();
    for r in 0..rows {
        flat.push(base + r as f64);
        flat.push(base + r as f64 + 0.25);
        flat.push(base + r as f64 + 0.5);
    }
    flat
}

fn surfaces(rows: usize, base: f64) -> Vec<Vec<f64>> {
    (0..4).map(|s| surface(rows, base + 100.0 * s as f64)).collect()
}

#[test]
fn there_are_four_surfaces_and_three_segments() {
    assert_eq!(SURFACES, 4);
    assert_eq!(SEGMENTS, 3);
}

#[test]
fn from_npz_keeps_the_active_rows() {
    let mask = vec![1u8, 0, 7, 0];
    let tracer = RayTracer::from_npz(&mask, &surfaces(4, 0.0), &surfaces(4, 1000.0)).unwrap();
    assert_eq!(tracer.mask(), &vec![true, false, true, false]);
    assert_eq!(tracer.n_sample(), 2);
    for s in 0..4 {
        let p = tracer.positions(s);
        let d = tracer.directions(s);
        assert_eq!(p.len(), 2);
        assert_eq!(d.len(), 2);
        let base = 100.0 * s as f64;
        assert_eq!((p[0].x, p[0].y, p[0].z), (base, base + 0.25, base + 0.5));
        assert_eq!(
            (p[1].x, p[1].y, p[1].z),
            (base + 2.0, base + 2.25, base + 2.5)
        );
        assert_eq!(
            (d[0].x, d[0].y, d[0].z),
            (1000.0 + base, 1000.25 + base, 1000.5 + base)
        );
        assert_eq!(
            (d[1].x, d[1].y, d[1].z),
            (1002.0 + base, 1002.25 + base, 1002.5 + base)
        );
    }
}

#[test]
fn from_npz_starts_with_both_settings_unset() {
    let tracer = RayTracer::from_npz(&vec![1u8], &surfaces(1, 0.0), &surfaces(1, 0.0)).unwrap();
    assert_eq!(tracer.radius(), None);
    assert_eq!(tracer.step(), None);
}

#[test]
fn from_npz_accepts_a_mask_without_rays() {
    let tracer =
        RayTracer::from_npz(&vec![0u8, 0], &surfaces(2, 0.0), &surfaces(2, 0.0)).unwrap();
    assert_eq!(tracer.n_sample(), 0);
    assert_eq!(tracer.positions(3).len(), 0);
    let empty: Vec<Vec<f64>> = vec![vec![], vec![], vec![], vec![]];
    let tracer = RayTracer::from_npz(&vec![], &empty, &empty).unwrap();
    assert_eq!(tracer.n_sample(), 0);
    assert_eq!(tracer.mask().len(), 0);
}

#[test]
fn from_npz_wants_four_surfaces() {
    let mask = vec![1u8, 1];
    let mut three = surfaces(2, 0.0);
    three.pop();
    let four = surfaces(2, 0.0);
    assert_eq!(
        RayTracer::from_npz(&mask, &three, &four).err(),
        Some(Error::Surfaces)
    );
    assert_eq!(
        RayTracer::from_npz(&mask, &four, &three).err(),
        Some(Error::Surfaces)
    );
    let mut five = surfaces(2, 0.0);
    five.push(surface(2, 0.0));
    assert_eq!(
        RayTracer::from_npz(&mask, &five, &four).err(),
        Some(Error::Surfaces)
    );
    let none: Vec<Vec<f64>> = Vec::new();
    assert_eq!(
        RayTracer::from_npz(&mask, &none, &none).err(),
        Some(Error::Surfaces)
    );
}

#[test]
fn from_npz_wants_three_numbers_for_each_mask_position() {
    let mask = vec![1u8, 0, 1];
    let good = surfaces(3, 0.0);
    let mut short = surfaces(3, 0.0);
    short[2] = surface(2, 0.0);
    assert_eq!(
        RayTracer::from_npz(&mask, &short, &good).err(),
        Some(Error::Rows)
    );
    assert_eq!(
        RayTracer::from_npz(&mask, &good, &short).err(),
        Some(Error::Rows)
    );
    let mut ragged = surfaces(3, 0.0);
    ragged[0].push(1.0);
    assert_eq!(
        RayTracer::from_npz(&mask, &ragged, &good).err(),
        Some(Error::Rows)
    );
    let mut long = surfaces(3, 0.0);
    long[3] = surface(4, 0.0);
    assert_eq!(
        RayTracer::from_npz(&mask, &long, &good).err(),
        Some(Error::Rows)
    );
}

#[test]
fn from_npz_reports_missing_surfaces_before_rows() {
    let mask = vec![1u8, 0, 1];
    let mut bad = surfaces(2, 0.0);
    bad.pop();
    assert_eq!(
        RayTracer::from_npz(&mask, &bad, &surfaces(3, 0.0)).err(),
        Some(Error::Surfaces)
    );
}

#[test]
fn settings_are_kept_as_given() {
    let tracer = RayTracer::from_npz(&vec![1u8], &surfaces(1, 0.0), &surfaces(1, 0.0))
        .unwrap()
        .shepard_radius(1.5)
        .ray_tracing_step(0.125);
    assert_eq!(tracer.radius(), Some(1.5));
    assert_eq!(tracer.step(), Some(0.125));
    assert_eq!(tracer.n_sample(), 1);
    let tracer = tracer.shepard_radius(2.0);
    assert_eq!(tracer.radius(), Some(2.0));
    assert_eq!(tracer.step(), Some(0.125));
    assert_eq!(tracer.positions(0)[0].z, 0.5);
}

#[test]
fn opd_map_puts_rays_at_their_mask_positions() {
    let mask = vec![0u8, 1, 1, 0, 1];
    let tracer = RayTracer::from_npz(&mask, &surfaces(5, 0.0), &surfaces(5, 0.0)).unwrap();
    let grid = tracer.opd_map(&vec![1.0, 2.0, 3.0], -1.0);
    assert_eq!(grid, vec![-1.0, 1.0, 2.0, -1.0, 3.0]);
}

#[test]
fn sub_steps_is_one_less_than_the_step_count() {
    assert_eq!(sub_steps(4), 3);
    assert_eq!(sub_steps(2), 1);
    assert_eq!(sub_steps(usize::MAX), usize::MAX - 1);
}

#[test]
fn sub_steps_of_a_single_step_is_one() {
    assert_eq!(sub_steps(1), 1);
    assert_eq!(sub_steps(0), 1);
}
