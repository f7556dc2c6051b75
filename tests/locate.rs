use source_locator::geometry::{Geometry, PointGeometry};
use source_locator::locate::{get_expected_radius, get_probability_distribution, isqrt, ProbabilityGrid};
use source_locator::point::{Point, Space};
use source_locator::sampling::{gen_random_point, get_random_samples};
use source_locator::simulator::{Sample, Simulator, Source, DOSE_SCALE};

fn cube(lo: i32, hi: i32) -> Space {
    Space::new(Point::new(lo, lo, lo), Point::new(hi, hi, hi)).unwrap()
}

fn source_sim(at: Point, medium: u16) -> Simulator {
    let mut sim = Simulator::new(cube(0, 10), 1, medium);
    let mut g = PointGeometry::new();
    g.add_corner(at).unwrap();
    sim.add_source(Source::new(at, Geometry::Point(g))).unwrap();
    sim
}

fn count(g: &ProbabilityGrid, p: Point) -> usize {
    let o = g.origin;
    g.counts[(p.x - o.x) as usize][(p.y - o.y) as usize][(p.z - o.z) as usize]
}

fn cells(lo: i32, hi: i32) -> Vec<Point> {
    let mut v = Vec::new();
    for x in lo..=hi {
        for y in lo..=hi {
            for z in lo..=hi {
                v.push(Point::new(x, y, z));
            }
        }
    }
    v
}

#[test]
fn integer_square_root() {
    assert_eq!(isqrt(0), 0);
    assert_eq!(isqrt(1), 1);
    assert_eq!(isqrt(15), 3);
    assert_eq!(isqrt(16), 4);
    assert_eq!(isqrt(25_000_000), 5000);
    assert_eq!(isqrt(u128::MAX), u64::MAX);
}

#[test]
fn expected_radius_inverts_the_dose_law() {
    let s = Sample::new(Point::new(5, 5, 0), 4 * DOSE_SCALE);
    assert_eq!(get_expected_radius(&s, 100), Some(5000));
    let s = Sample::new(Point::new(5, 5, 0), 111 * DOSE_SCALE / 2);
    assert_eq!(get_expected_radius(&s, 111), Some(1414));
    let zero = Sample::new(Point::new(5, 5, 0), 0);
    assert_eq!(get_expected_radius(&zero, 100), None);
}

#[test]
fn one_sample_votes_for_its_sphere() {
    let sample = Sample::new(Point::new(5, 5, 0), 100 * DOSE_SCALE / 25);
    let g = get_probability_distribution(&vec![sample], &cube(0, 10), 100, 1);
    assert_eq!(g.counts.len(), 11);
    assert_eq!(g.counts[0].len(), 11);
    assert_eq!(g.counts[0][0].len(), 11);
    for p in cells(0, 10) {
        let d2 = p.distance_squared_from(&sample.position);
        assert_eq!(count(&g, p), if d2 == 25 { 1 } else { 0 });
    }
    assert_eq!(count(&g, Point::new(5, 5, 5)), 1);
    assert_eq!(count(&g, Point::new(5, 8, 4)), 1);
    assert_eq!(count(&g, Point::new(5, 5, 4)), 0);
    assert_eq!(g.max, 1);
    assert_eq!(g.max_point, Some(Point::new(0, 5, 0)));
}

fn true_source_samples() -> Vec<Sample> {
    let sim = source_sim(Point::new(5, 5, 5), 100);
    let positions = [
        Point::new(5, 5, 0),
        Point::new(5, 0, 5),
        Point::new(0, 5, 5),
        Point::new(9, 5, 5),
        Point::new(5, 1, 5),
        Point::new(5, 5, 9),
        Point::new(1, 1, 5),
    ];
    positions.iter().map(|p| sim.get_sample_at(*p).unwrap()).collect()
}

#[test]
fn many_samples_peak_at_the_source() {
    let samples = true_source_samples();
    assert_eq!(samples[0].dosage, 4 * DOSE_SCALE);
    let g = get_probability_distribution(&samples, &cube(0, 10), 100, 1);
    assert_eq!(g.max, samples.len());
    assert_eq!(g.max_point, Some(Point::new(5, 5, 5)));
    assert_eq!(count(&g, Point::new(5, 5, 5)), 7);
    for p in cells(0, 10) {
        if p != Point::new(5, 5, 5) {
            assert!(count(&g, p) < 7);
        }
    }
    assert_eq!(g.intensity_fraction(5, 5, 5), (7, 7));
}

#[test]
fn rounded_samples_still_find_the_source() {
    let source = Point::new(3, 7, 4);
    let sim = source_sim(source, 111);
    let positions = [
        Point::new(0, 0, 0),
        Point::new(10, 10, 10),
        Point::new(9, 1, 2),
        Point::new(1, 9, 8),
        Point::new(6, 2, 10),
    ];
    let samples: Vec<Sample> = positions.iter().map(|p| sim.get_sample_at(*p).unwrap()).collect();
    assert_ne!(samples[1].dosage * 94, 111 * DOSE_SCALE);
    let g = get_probability_distribution(&samples, &cube(0, 10), 111, 1);
    assert_eq!(g.max, 5);
    assert_eq!(g.max_point, Some(source));
}

#[test]
fn sample_order_does_not_change_the_grid() {
    let samples = true_source_samples();
    let mut reversed = samples.clone();
    reversed.reverse();
    let mut rotated = samples.clone();
    rotated.rotate_left(3);
    let g1 = get_probability_distribution(&samples, &cube(0, 10), 100, 1);
    let g2 = get_probability_distribution(&reversed, &cube(0, 10), 100, 1);
    let g3 = get_probability_distribution(&rotated, &cube(0, 10), 100, 1);
    assert_eq!(g1.counts, g2.counts);
    assert_eq!(g1.counts, g3.counts);
    assert_eq!((g1.max, g1.max_point), (g2.max, g2.max_point));
    assert_eq!((g1.max, g1.max_point), (g3.max, g3.max_point));
}

#[test]
fn empty_sample_set_gives_zero_grid() {
    let g = get_probability_distribution(&vec![], &cube(0, 4), 111, 1);
    assert_eq!(g.max, 0);
    assert_eq!(g.max_point, None);
    for p in cells(0, 4) {
        assert_eq!(count(&g, p), 0);
    }
    assert_eq!(g.intensity_fraction(2, 3, 4), (0, 1));
}

#[test]
fn zero_dosage_sample_never_votes() {
    let zero = Sample::new(Point::new(2, 2, 2), 0);
    let g = get_probability_distribution(&vec![zero, zero], &cube(0, 4), 111, 1_000_000);
    assert_eq!(g.max, 0);
    assert_eq!(g.max_point, None);
    for p in cells(0, 4) {
        assert_eq!(count(&g, p), 0);
    }
    let live = Sample::new(Point::new(0, 0, 0), 111 * DOSE_SCALE);
    let g = get_probability_distribution(&vec![zero, live], &cube(0, 4), 111, 1);
    assert_eq!(g.max, 1);
    assert_eq!(g.max_point, Some(Point::new(0, 0, 1)));
}

#[test]
fn wider_tolerance_takes_more_cells() {
    let sample = Sample::new(Point::new(0, 0, 0), 111 * DOSE_SCALE / 4);
    let tight = get_probability_distribution(&vec![sample], &cube(0, 3), 111, 1);
    let loose = get_probability_distribution(&vec![sample], &cube(0, 3), 111, 300);
    assert_eq!(count(&tight, Point::new(2, 0, 0)), 1);
    assert_eq!(count(&tight, Point::new(2, 1, 0)), 0);
    assert_eq!(count(&loose, Point::new(2, 1, 0)), 1);
}

#[test]
fn random_points_stay_in_the_cube() {
    for _ in 0..200 {
        let p = gen_random_point(3, 7);
        assert!((3..7).contains(&p.x) && (3..7).contains(&p.y) && (3..7).contains(&p.z));
    }
    assert_eq!(gen_random_point(-4, -3), Point::new(-4, -4, -4));
}

#[test]
fn random_samples_carry_the_exact_dose() {
    let sim = source_sim(Point::new(10, 10, 10), 111);
    let samples = get_random_samples(&sim, 0, 10, 25).unwrap();
    assert_eq!(samples.len(), 25);
    for s in samples.iter() {
        assert!((0..10).contains(&s.position.x));
        assert_eq!(*s, sim.get_sample_at(s.position).unwrap());
    }
    assert!(get_random_samples(&source_sim(Point::new(0, 0, 0), 111), 0, 1, 1).is_err());
}
