use source_locator::geometry::{
    Dimension, Direction, Geometry, GeometryError, LineGeometry, PointGeometry, Surface,
    SurfaceGeometry,
};
use source_locator::point::{Point, Space, SpaceError};
use source_locator::simulator::{
    calc_2d_terms, ConfigError, DoseError, LineTerm, Sample, Simulator, Source, DOSE_SCALE,
};

fn cube(lo: i32, hi: i32) -> Space {
    Space::new(Point::new(lo, lo, lo), Point::new(hi, hi, hi)).unwrap()
}

fn point_source(at: Point) -> Source {
    let mut g = PointGeometry::new();
    g.add_corner(at).unwrap();
    Source::new(at, Geometry::Point(g))
}

fn line_source(a: Point, b: Point) -> Source {
    let mut g = LineGeometry::new();
    g.add_corner(a).unwrap();
    g.add_corner(b).unwrap();
    Source::new(a, Geometry::Line(g))
}

#[test]
fn it_works() {
    assert_eq!(2 + 2, 4);
}

#[test]
fn point_arithmetic_and_distance() {
    let a = Point::new(1, 2, 3);
    let b = Point::new(4, 6, 3);
    assert_eq!(a.add(b), Point::new(5, 8, 6));
    assert_eq!(b.sub(a), Point::new(3, 4, 0));
    assert_eq!(a.distance_squared_from(&b), 25);
    let far = Point::new(i32::MIN, i32::MIN, i32::MIN);
    let near = Point::new(i32::MAX, i32::MAX, i32::MAX);
    assert_eq!(far.distance_squared_from(&near), 3 * (u32::MAX as u128) * (u32::MAX as u128));
}

#[test]
fn space_rejects_inverted_corners() {
    let r = Space::new(Point::new(0, 5, 0), Point::new(10, 4, 10));
    assert!(matches!(r, Err(SpaceError::InvertedCorners)));
    let s = cube(0, 10);
    assert!(s.encloses(&vec![Point::new(0, 0, 0), Point::new(10, 10, 10)]));
    assert!(!s.encloses(&vec![Point::new(0, 0, 0), Point::new(10, 11, 10)]));
    assert!(!s.encloses(&vec![Point::new(-1, 0, 0)]));
}

#[test]
fn point_geometry_cardinality() {
    let mut g = PointGeometry::new();
    assert_eq!(g.add_corner(Point::new(1, 1, 1)), Ok(()));
    assert_eq!(g.add_corner(Point::new(2, 2, 2)), Err(GeometryError::TooManyCorners));
    assert_eq!(g.get_corners().len(), 1);
    let face = Surface::new(vec![Point::new(0, 0, 0)], Direction { theta: 0, phi: 0 });
    assert_eq!(g.add_surface(face), Err(GeometryError::SurfacesNotSupported));
    assert_eq!(g.get_dimension(), Dimension::OneDimensional);
    let two = PointGeometry::from(vec![Point::new(0, 0, 0), Point::new(1, 1, 1)], vec![]);
    assert!(matches!(two, Err(GeometryError::TooManyCorners)));
}

#[test]
fn line_geometry_cardinality() {
    let mut g = LineGeometry::new();
    assert_eq!(g.add_corner(Point::new(0, 0, 0)), Ok(()));
    assert_eq!(g.add_corner(Point::new(5, 0, 0)), Ok(()));
    assert_eq!(g.add_corner(Point::new(9, 0, 0)), Err(GeometryError::TooManyCorners));
    assert_eq!(g.get_corners().len(), 2);
    assert_eq!(g.get_dimension(), Dimension::TwoDimensional);
    let face = Surface::new(vec![Point::new(0, 0, 0)], Direction { theta: 0, phi: 0 });
    let r = LineGeometry::from(vec![Point::new(0, 0, 0)], vec![face]);
    assert!(matches!(r, Err(GeometryError::SurfacesNotSupported)));
    let ok = LineGeometry::from(vec![Point::new(0, 0, 0), Point::new(0, 3, 0)], vec![]);
    assert_eq!(ok.unwrap().get_corners().len(), 2);
}

#[test]
fn direction_and_surface() {
    let verts = vec![Point::new(0, 0, 0), Point::new(1, 0, 0), Point::new(0, 1, 0)];
    let d = Direction::new(&verts, &Point::new(0, 0, 1));
    assert_eq!(d, Direction { theta: 0, phi: 0 });
    let s = Surface::new(verts, d);
    assert_eq!(s.vertices.len(), 3);
    let mut g = SurfaceGeometry::new();
    g.add_corner(Point::new(1, 1, 1));
    g.add_surface(s);
    assert_eq!(g.get_corners().len(), 1);
    assert_eq!(g.get_surfaces().len(), 1);
    assert_eq!(g.get_dimension(), Dimension::ThreeDimensional);
}

#[test]
fn point_source_inverse_square() {
    let mut sim = Simulator::new(cube(0, 100), 1, 111);
    assert_eq!(sim.add_source(point_source(Point::new(0, 0, 0))), Ok(()));
    let d = sim.get_dosage_at(&Point::new(3, 4, 0)).unwrap();
    assert_eq!(d.medium, 111);
    assert_eq!(d.point_terms, vec![25]);
    assert!(d.line_terms.is_empty());
    assert_eq!(d.fixed_point_part(), 111 * DOSE_SCALE / 25);
    assert_eq!(d.fixed_point_part(), 4_440_000_000_000);
    let s = sim.get_sample_at(Point::new(0, 0, 1)).unwrap();
    assert_eq!(s, Sample::new(Point::new(0, 0, 1), 111 * DOSE_SCALE));
    assert_eq!(s.get_dosage(), 111_000_000_000_000);
    assert_eq!((s.get_x(), s.get_y(), s.get_z()), (0, 0, 1));
    assert_eq!(*s.get_position(), Point::new(0, 0, 1));
}

#[test]
fn point_source_symmetric_under_isometry() {
    let mut sim = Simulator::new(cube(0, 100), 1, 111);
    sim.add_source(point_source(Point::new(50, 50, 50))).unwrap();
    let a = sim.get_dosage_at(&Point::new(53, 54, 50)).unwrap().point_terms;
    let b = sim.get_dosage_at(&Point::new(50, 46, 47)).unwrap().point_terms;
    let c = sim.get_dosage_at(&Point::new(45, 50, 50)).unwrap().point_terms;
    assert_eq!(a, vec![25]);
    assert_eq!(a, b);
    assert_eq!(a, c);
}

#[test]
fn point_source_decreasing_and_undefined_at_origin() {
    let mut sim = Simulator::new(cube(0, 100), 1, 111);
    sim.add_source(point_source(Point::new(10, 10, 10))).unwrap();
    let d1 = sim.get_dosage_at(&Point::new(11, 10, 10)).unwrap().point_terms;
    let d2 = sim.get_dosage_at(&Point::new(12, 10, 10)).unwrap().point_terms;
    let d3 = sim.get_dosage_at(&Point::new(12, 12, 10)).unwrap().point_terms;
    assert_eq!((d1, d2, d3), (vec![1], vec![4], vec![8]));
    let at = sim.get_dosage_at(&Point::new(10, 10, 10));
    assert!(matches!(at, Err(DoseError::CoincidentWithSource)));
    let s = sim.get_sample_at(Point::new(10, 10, 10));
    assert!(matches!(s, Err(DoseError::CoincidentWithSource)));
}

#[test]
fn doses_of_several_sources_add_up() {
    let mut sim = Simulator::new(cube(0, 100), 1, 100);
    sim.add_source(point_source(Point::new(0, 0, 0))).unwrap();
    sim.add_source(point_source(Point::new(0, 0, 4))).unwrap();
    let d = sim.get_dosage_at(&Point::new(0, 0, 2)).unwrap();
    assert_eq!(d.point_terms, vec![4, 4]);
    assert_eq!(d.fixed_point_part(), 2 * (100 * DOSE_SCALE / 4));
    let s = sim.get_sample_at(Point::new(0, 0, 2)).unwrap();
    assert_eq!(s.dosage, 50 * DOSE_SCALE);
}

#[test]
fn add_source_outside_space_fails() {
    let mut sim = Simulator::new(cube(0, 10), 1, 111);
    let r = sim.add_source(point_source(Point::new(5, 11, 5)));
    assert_eq!(r, Err(ConfigError::OutsideSpace));
    assert_eq!(sim.get_sources().len(), 0);
    let r = sim.add_source(line_source(Point::new(0, 0, 0), Point::new(10, 0, 0)));
    assert_eq!(r, Ok(()));
    let r = sim.add_source(line_source(Point::new(0, 0, 0), Point::new(0, -1, 0)));
    assert_eq!(r, Err(ConfigError::OutsideSpace));
    assert_eq!(sim.get_sources().len(), 1);
    assert_eq!(sim.get_medium(), 111);
    assert_eq!(sim.get_unit(), 1);
}

#[test]
fn line_source_terms() {
    let t = calc_2d_terms(&Point::new(0, 0, 0), &Point::new(10, 0, 0), &Point::new(3, 4, 0));
    assert_eq!(t, Ok(LineTerm { m_squared: 16, l1: 3, l2: 7 }));
    let t = calc_2d_terms(&Point::new(2, 1, 5), &Point::new(2, 1, 9), &Point::new(0, 1, 6));
    assert_eq!(t, Ok(LineTerm { m_squared: 4, l1: 1, l2: 3 }));
    let t = calc_2d_terms(&Point::new(0, 0, 0), &Point::new(10, 0, 0), &Point::new(4, 0, 0));
    assert_eq!(t, Err(DoseError::OnLineAxis));
    let t = calc_2d_terms(&Point::new(0, 0, 0), &Point::new(1, 1, 0), &Point::new(4, 0, 0));
    assert_eq!(t, Err(DoseError::LineNotAxisAligned));
}

#[test]
fn line_source_dose_keeps_arctangent_terms() {
    let mut sim = Simulator::new(cube(0, 100), 1, 111);
    sim.add_source(line_source(Point::new(0, 0, 0), Point::new(0, 10, 0))).unwrap();
    sim.add_source(point_source(Point::new(0, 0, 0))).unwrap();
    let d = sim.get_dosage_at(&Point::new(3, 2, 4)).unwrap();
    assert_eq!(d.point_terms, vec![29]);
    assert_eq!(d.line_terms, vec![LineTerm { m_squared: 25, l1: 2, l2: 8 }]);
    let s = sim.get_sample_at(Point::new(3, 2, 4));
    assert!(matches!(s, Err(DoseError::LineDoseNotExact)));
    let on_axis = sim.get_dosage_at(&Point::new(0, 5, 0));
    assert!(matches!(on_axis, Err(DoseError::OnLineAxis)));
}

#[test]
fn incomplete_line_and_surface_sources_have_no_dose() {
    let mut sim = Simulator::new(cube(0, 100), 1, 111);
    let mut g = LineGeometry::new();
    g.add_corner(Point::new(1, 1, 1)).unwrap();
    sim.add_source(Source::new(Point::new(1, 1, 1), Geometry::Line(g))).unwrap();
    let r = sim.get_dosage_at(&Point::new(5, 5, 5));
    assert!(matches!(r, Err(DoseError::IncompleteLine)));

    let mut sim = Simulator::new(cube(0, 100), 1, 111);
    let g = SurfaceGeometry::from(vec![Point::new(1, 1, 1)], vec![]);
    sim.add_source(Source::new(Point::new(1, 1, 1), Geometry::Surface(g))).unwrap();
    let r = sim.get_dosage_at(&Point::new(5, 5, 5));
    assert!(matches!(r, Err(DoseError::SurfaceUnsupported)));
}

#[test]
fn far_points_keep_distinct_exact_doses() {
    let mut sim = Simulator::new(cube(0, 10), 1, 100);
    sim.add_source(point_source(Point::new(0, 0, 0))).unwrap();
    let near = sim.get_dosage_at(&Point::new(10001, 0, 0)).unwrap();
    let far = sim.get_dosage_at(&Point::new(10001, 1, 0)).unwrap();
    assert_eq!(near.point_terms, vec![100_020_001]);
    assert_eq!(far.point_terms, vec![100_020_002]);
    assert!(100 * far.point_terms[0] > 100 * near.point_terms[0]);
}
