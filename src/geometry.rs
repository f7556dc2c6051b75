//! Shapes of radiation sources: a closed set of variants, each with a bounded
//! list of corners.
use vstd::prelude::*;
use crate::point::Point;

verus! {

/// Geometric dimensionality of a source's shape.
#[derive(Debug, Clone, Copy, PartialEq, Eq, Structural)]
pub enum Dimension {
    OneDimensional,
    TwoDimensional,
    ThreeDimensional,
}

/// Orientation of a face. Orientation angles are not derived yet and stay zero.
#[derive(Debug, Clone, Copy, PartialEq, Eq, Structural)]
pub struct Direction {
    pub theta: i32,
    pub phi: i32,
}

impl Direction {
    /// The orientation of the face spanned by `vertices` as seen from `center`;
    /// a face needs at least three vertices.
    pub fn new(vertices: &Vec<Point>, center: &Point) -> (r: Direction)
        requires
            vertices@.len() >= 3,
        ensures
            r.theta == 0 && r.phi == 0,
    {
        Direction { theta: 0, phi: 0 }
    }
}

/// A polygonal face of a solid source.
#[derive(Debug, Clone)]
pub struct Surface {
    pub vertices: Vec<Point>,
    pub direction: Direction,
}

impl Surface {
    pub fn new(vertices: Vec<Point>, direction: Direction) -> (r: Surface)
        ensures
            r.vertices@ == vertices@,
            r.direction == direction,
    {
        Surface { vertices, direction }
    }
}

/// Misuse of a geometry's cardinality.
#[derive(Debug, Clone, Copy, PartialEq, Eq, Structural)]
pub enum GeometryError {
    /// The variant already holds as many corners as it may.
    TooManyCorners,
    /// The variant holds no faces.
    SurfacesNotSupported,
}

/// A point-shaped source: at most one corner.
#[derive(Debug, Clone)]
pub struct PointGeometry {
    corners: Vec<Point>,
}

/// A segment-shaped source: at most two corners.
#[derive(Debug, Clone)]
pub struct LineGeometry {
    corners: Vec<Point>,
}

/// A solid source bounded by faces; any number of corners and faces.
#[derive(Debug, Clone)]
pub struct SurfaceGeometry {
    corners: Vec<Point>,
    surfaces: Vec<Surface>,
}

/// Largest number of corners that a point geometry holds.
pub const POINT_CORNERS: usize = 1;

/// Largest number of corners that a line geometry holds.
pub const LINE_CORNERS: usize = 2;

impl PointGeometry {
    pub closed spec fn view(&self) -> Seq<Point> {
        self.corners@
    }

    pub open spec fn wf(&self) -> bool {
        self@.len() <= POINT_CORNERS
    }

    pub fn new() -> (r: PointGeometry)
        ensures
            r@ == Seq::<Point>::empty(),
            r.wf(),
    {
        PointGeometry { corners: Vec::new() }
    }

    /// A point geometry holding `corners`; no faces may be given.
    pub fn from(corners: Vec<Point>, surfaces: Vec<Surface>) -> (r: Result<
        PointGeometry,
        GeometryError,
    >)
        ensures
            surfaces@.len() > 0 ==> r == Err::<PointGeometry, _>(
                GeometryError::SurfacesNotSupported,
            ),
            surfaces@.len() == 0 && corners@.len() > POINT_CORNERS ==> r == Err::<
                PointGeometry,
                _,
            >(GeometryError::TooManyCorners),
            r is Ok <==> surfaces@.len() == 0 && corners@.len() <= POINT_CORNERS,
            r matches Ok(g) ==> g@ == corners@ && g.wf(),
    {
        if surfaces.len() > 0 {
            Err(GeometryError::SurfacesNotSupported)
        } else if corners.len() > POINT_CORNERS {
            Err(GeometryError::TooManyCorners)
        } else {
            Ok(PointGeometry { corners })
        }
    }

    /// Appends a corner, unless the geometry already has one.
    pub fn add_corner(&mut self, corner: Point) -> (r: Result<(), GeometryError>)
        ensures
            r is Ok <==> old(self)@.len() < POINT_CORNERS,
            r is Ok ==> final(self)@ == old(self)@.push(corner),
            r is Err ==> r == Err::<(), _>(GeometryError::TooManyCorners) && final(self)@
                == old(self)@,
            old(self).wf() ==> final(self).wf(),
    {
        if self.corners.len() < POINT_CORNERS {
            self.corners.push(corner);
            Ok(())
        } else {
            Err(GeometryError::TooManyCorners)
        }
    }

    /// A point geometry has no faces.
    pub fn add_surface(&mut self, surface: Surface) -> (r: Result<(), GeometryError>)
        ensures
            r == Err::<(), _>(GeometryError::SurfacesNotSupported),
            final(self)@ == old(self)@,
    {
        Err(GeometryError::SurfacesNotSupported)
    }

    pub fn get_corners(&self) -> (r: &Vec<Point>)
        ensures
            r@ == self@,
    {
        &self.corners
    }

    pub fn get_dimension(&self) -> (r: Dimension)
        ensures
            r == Dimension::OneDimensional,
    {
        Dimension::OneDimensional
    }
}

impl LineGeometry {
    pub closed spec fn view(&self) -> Seq<Point> {
        self.corners@
    }

    pub open spec fn wf(&self) -> bool {
        self@.len() <= LINE_CORNERS
    }

    pub fn new() -> (r: LineGeometry)
        ensures
            r@ == Seq::<Point>::empty(),
            r.wf(),
    {
        LineGeometry { corners: Vec::new() }
    }

    /// A line geometry holding `corners`; no faces may be given.
    pub fn from(corners: Vec<Point>, surfaces: Vec<Surface>) -> (r: Result<
        LineGeometry,
        GeometryError,
    >)
        ensures
            surfaces@.len() > 0 ==> r == Err::<LineGeometry, _>(
                GeometryError::SurfacesNotSupported,
            ),
            surfaces@.len() == 0 && corners@.len() > LINE_CORNERS ==> r == Err::<
                LineGeometry,
                _,
            >(GeometryError::TooManyCorners),
            r is Ok <==> surfaces@.len() == 0 && corners@.len() <= LINE_CORNERS,
            r matches Ok(g) ==> g@ == corners@ && g.wf(),
    {
        if surfaces.len() > 0 {
            Err(GeometryError::SurfacesNotSupported)
        } else if corners.len() > LINE_CORNERS {
            Err(GeometryError::TooManyCorners)
        } else {
            Ok(LineGeometry { corners })
        }
    }

    /// Appends a corner, unless the geometry already has two.
    pub fn add_corner(&mut self, corner: Point) -> (r: Result<(), GeometryError>)
        ensures
            r is Ok <==> old(self)@.len() < LINE_CORNERS,
            r is Ok ==> final(self)@ == old(self)@.push(corner),
            r is Err ==> r == Err::<(), _>(GeometryError::TooManyCorners) && final(self)@
                == old(self)@,
            old(self).wf() ==> final(self).wf(),
    {
        if self.corners.len() < LINE_CORNERS {
            self.corners.push(corner);
            Ok(())
        } else {
            Err(GeometryError::TooManyCorners)
        }
    }

    /// A line geometry has no faces.
    pub fn add_surface(&mut self, surface: Surface) -> (r: Result<(), GeometryError>)
        ensures
            r == Err::<(), _>(GeometryError::SurfacesNotSupported),
            final(self)@ == old(self)@,
    {
        Err(GeometryError::SurfacesNotSupported)
    }

    pub fn get_corners(&self) -> (r: &Vec<Point>)
        ensures
            r@ == self@,
    {
        &self.corners
    }

    pub fn get_dimension(&self) -> (r: Dimension)
        ensures
            r == Dimension::TwoDimensional,
    {
        Dimension::TwoDimensional
    }
}

impl SurfaceGeometry {
    pub closed spec fn view(&self) -> Seq<Point> {
        self.corners@
    }

    pub closed spec fn faces(&self) -> Seq<Surface> {
        self.surfaces@
    }

    pub fn new() -> (r: SurfaceGeometry)
        ensures
            r@ == Seq::<Point>::empty(),
            r.faces() == Seq::<Surface>::empty(),
    {
        SurfaceGeometry { corners: Vec::new(), surfaces: Vec::new() }
    }

    pub fn from(corners: Vec<Point>, surfaces: Vec<Surface>) -> (r: SurfaceGeometry)
        ensures
            r@ == corners@,
            r.faces() == surfaces@,
    {
        SurfaceGeometry { corners, surfaces }
    }

    pub fn add_corner(&mut self, corner: Point)
        ensures
            final(self)@ == old(self)@.push(corner),
            final(self).faces() == old(self).faces(),
    {
        self.corners.push(corner);
    }

    pub fn add_surface(&mut self, surface: Surface)
        ensures
            final(self)@ == old(self)@,
            final(self).faces() == old(self).faces().push(surface),
    {
        self.surfaces.push(surface);
    }

    pub fn get_corners(&self) -> (r: &Vec<Point>)
        ensures
            r@ == self@,
    {
        &self.corners
    }

    pub fn get_surfaces(&self) -> (r: &Vec<Surface>)
        ensures
            r@ == self.faces(),
    {
        &self.surfaces
    }

    pub fn get_dimension(&self) -> (r: Dimension)
        ensures
            r == Dimension::ThreeDimensional,
    {
        Dimension::ThreeDimensional
    }
}

/// The shape of a source.
#[derive(Debug, Clone)]
pub enum Geometry {
    Point(PointGeometry),
    Line(LineGeometry),
    Surface(SurfaceGeometry),
}

impl Geometry {
    /// The corners of whichever variant this is.
    pub open spec fn corners(&self) -> Seq<Point> {
        match self {
            Geometry::Point(g) => g@,
            Geometry::Line(g) => g@,
            Geometry::Surface(g) => g@,
        }
    }

    pub open spec fn dimension(&self) -> Dimension {
        match self {
            Geometry::Point(_) => Dimension::OneDimensional,
            Geometry::Line(_) => Dimension::TwoDimensional,
            Geometry::Surface(_) => Dimension::ThreeDimensional,
        }
    }

    pub open spec fn wf(&self) -> bool {
        match self {
            Geometry::Point(g) => g.wf(),
            Geometry::Line(g) => g.wf(),
            Geometry::Surface(_) => true,
        }
    }

    pub fn get_corners(&self) -> (r: &Vec<Point>)
        ensures
            r@ == self.corners(),
    {
        match self {
            Geometry::Point(g) => g.get_corners(),
            Geometry::Line(g) => g.get_corners(),
            Geometry::Surface(g) => g.get_corners(),
        }
    }

    pub fn get_dimension(&self) -> (r: Dimension)
        ensures
            r == self.dimension(),
    {
        match self {
            Geometry::Point(g) => g.get_dimension(),
            Geometry::Line(g) => g.get_dimension(),
            Geometry::Surface(g) => g.get_dimension(),
        }
    }
}

} // verus!
