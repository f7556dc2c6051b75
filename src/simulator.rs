//! The forward model: sources in a bounded domain and the dose they deliver.
use vstd::prelude::*;
use crate::geometry::{Dimension, Geometry};
use crate::point::{dist2, lemma_square_bound, within, Point, Space};

verus! {

/// Dose values are fixed-point integers: this many units make one unit of dosage.
pub const DOSE_SCALE: u128 = 1_000_000_000_000;

/// A radiation source: a representative origin and the shape it has.
#[derive(Debug, Clone)]
pub struct Source {
    origin: Point,
    geometry: Geometry,
}

impl Source {
    pub closed spec fn origin_spec(&self) -> Point {
        self.origin
    }

    pub closed spec fn geometry_spec(&self) -> Geometry {
        self.geometry
    }

    pub fn new(origin: Point, geometry: Geometry) -> (r: Source)
        ensures
            r.origin_spec() == origin,
            r.geometry_spec() == geometry,
    {
        Source { origin, geometry }
    }

    pub fn get_origin(&self) -> (r: Point)
        ensures
            r == self.origin_spec(),
    {
        self.origin
    }

    pub fn get_geometry(&self) -> (r: &Geometry)
        ensures
            *r == self.geometry_spec(),
    {
        &self.geometry
    }
}

/// A measured or simulated dose at a point; `dosage` is in units of
/// `1 / DOSE_SCALE`.
#[derive(Debug, Clone, Copy, PartialEq, Eq, Structural)]
pub struct Sample {
    pub position: Point,
    pub dosage: u128,
}

impl Sample {
    pub fn new(position: Point, dosage: u128) -> (r: Sample)
        ensures
            r == (Sample { position, dosage }),
    {
        Sample { position, dosage }
    }

    pub fn get_position(&self) -> (r: &Point)
        ensures
            *r == self.position,
    {
        &self.position
    }

    pub fn get_x(&self) -> (r: i32)
        ensures
            r == self.position.x,
    {
        self.position.x
    }

    pub fn get_y(&self) -> (r: i32)
        ensures
            r == self.position.y,
    {
        self.position.y
    }

    pub fn get_z(&self) -> (r: i32)
        ensures
            r == self.position.z,
    {
        self.position.z
    }

    pub fn get_dosage(&self) -> (r: u128)
        ensures
            r == self.dosage,
    {
        self.dosage
    }
}

/// Inputs of the arctangent line-source law at one query point: the squared
/// perpendicular distance `m_squared` to the source's axis and the signed
/// lengths `l1`, `l2` from the foot of that perpendicular to each end. The
/// contribution is `K * (atan(l1 / m) + atan(l2 / m) / m)` with `m` the square
/// root of `m_squared`.
#[derive(Debug, Clone, Copy, PartialEq, Eq, Structural)]
pub struct LineTerm {
    pub m_squared: u128,
    pub l1: i64,
    pub l2: i64,
}

/// The dose at a point, exactly: `medium / d2` for each squared distance `d2`
/// in `point_terms` (one per point source), plus one arctangent term per line
/// source.
#[derive(Debug, Clone)]
pub struct Dosage {
    pub medium: u16,
    pub point_terms: Vec<u128>,
    pub line_terms: Vec<LineTerm>,
}

/// Why the dose at a point is not defined.
#[derive(Debug, Clone, Copy, PartialEq, Eq, Structural)]
pub enum DoseError {
    /// The query point is the origin of a point source.
    CoincidentWithSource,
    /// The query point lies on the axis of a line source.
    OnLineAxis,
    /// A line source is not parallel to a coordinate axis.
    LineNotAxisAligned,
    /// A line source has fewer than two corners.
    IncompleteLine,
    /// Solid sources have no dose law.
    SurfaceUnsupported,
    /// A line source contributes an arctangent term, which has no
    /// fixed-point value.
    LineDoseNotExact,
}

/// Why a source was refused.
#[derive(Debug, Clone, Copy, PartialEq, Eq, Structural)]
pub enum ConfigError {
    /// Some corner of the source's geometry lies outside the domain.
    OutsideSpace,
}

/// Inverse-square law `k / d2` in fixed point, rounded down.
pub open spec fn point_dose(k: int, d2: int) -> int {
    k * DOSE_SCALE / d2
}

/// The fraction `n1 / d1` exceeds `n2 / d2` (both denominators positive).
pub open spec fn fraction_gt(n1: int, d1: int, n2: int, d2: int) -> bool {
    n1 * d2 > n2 * d1
}

/// Fixed-point value of `k / d` summed over the squared distances `terms`, each
/// term rounded down.
pub open spec fn fixed_sum(k: int, terms: Seq<u128>) -> int
    decreases terms.len(),
{
    if terms.len() == 0 {
        0
    } else {
        fixed_sum(k, terms.drop_last()) + point_dose(k, terms.last() as int)
    }
}

pub open spec fn sq(v: int) -> int {
    v * v
}

/// The arctangent inputs for a segment from `a` to `b` parallel to an axis.
pub open spec fn line_term(a: Point, b: Point, p: Point) -> Result<LineTerm, DoseError> {
    let t = if a.y == b.y && a.z == b.z {
        Some((sq(a.y - p.y) + sq(a.z - p.z), p.x - a.x, b.x - p.x))
    } else if a.x == b.x && a.z == b.z {
        Some((sq(a.x - p.x) + sq(a.z - p.z), p.y - a.y, b.y - p.y))
    } else if a.x == b.x && a.y == b.y {
        Some((sq(a.x - p.x) + sq(a.y - p.y), p.z - a.z, b.z - p.z))
    } else {
        None
    };
    match t {
        None => Err(DoseError::LineNotAxisAligned),
        Some((m2, l1, l2)) => if m2 == 0 {
            Err(DoseError::OnLineAxis)
        } else {
            Ok(LineTerm { m_squared: m2 as u128, l1: l1 as i64, l2: l2 as i64 })
        },
    }
}

/// What one source contributes at `p`: `K / d2` for the squared distance `d2`
/// of a point source, or an arctangent term.
pub enum Contribution {
    InverseSquare(u128),
    Arctangent(LineTerm),
}

pub open spec fn contribution(s: Source, p: Point) -> Result<Contribution, DoseError> {
    match s.geometry_spec() {
        Geometry::Point(_) => {
            let d2 = dist2(p, s.origin_spec());
            if d2 == 0 {
                Err(DoseError::CoincidentWithSource)
            } else {
                Ok(Contribution::InverseSquare(d2 as u128))
            }
        },
        Geometry::Line(g) => if g@.len() < 2 {
            Err(DoseError::IncompleteLine)
        } else {
            match line_term(g@[0], g@[1], p) {
                Ok(t) => Ok(Contribution::Arctangent(t)),
                Err(e) => Err(e),
            }
        },
        Geometry::Surface(_) => Err(DoseError::SurfaceUnsupported),
    }
}

/// The dose of `sources` at `p`: the first error in source order, or the
/// squared distances of the point sources and the arctangent terms of the line
/// sources, each in source order.
pub open spec fn dose_over(sources: Seq<Source>, p: Point) -> Result<
    (Seq<u128>, Seq<LineTerm>),
    DoseError,
>
    decreases sources.len(),
{
    if sources.len() == 0 {
        Ok((Seq::empty(), Seq::empty()))
    } else {
        match dose_over(sources.drop_last(), p) {
            Err(e) => Err(e),
            Ok(acc) => match contribution(sources.last(), p) {
                Err(e) => Err(e),
                Ok(Contribution::InverseSquare(d2)) => Ok((acc.0.push(d2), acc.1)),
                Ok(Contribution::Arctangent(t)) => Ok((acc.0, acc.1.push(t))),
            },
        }
    }
}

/// The dose of `sources` at `p` in fixed point, each point-source term rounded
/// down, where no line source contributes.
pub open spec fn exact_dose(sources: Seq<Source>, k: int, p: Point) -> Result<int, DoseError> {
    match dose_over(sources, p) {
        Err(e) => Err(e),
        Ok(d) => if d.1.len() == 0 {
            Ok(fixed_sum(k, d.0))
        } else {
            Err(DoseError::LineDoseNotExact)
        },
    }
}

/// Every squared distance that the dose reports is positive.
proof fn lemma_point_terms_positive(sources: Seq<Source>, p: Point)
    ensures
        dose_over(sources, p) matches Ok(d) ==> forall|i: int|
            0 <= i < d.0.len() ==> #[trigger] d.0[i] > 0,
    decreases sources.len(),
{
    if sources.len() > 0 {
        lemma_point_terms_positive(sources.drop_last(), p);
        crate::point::lemma_dist2_bound(p, sources.last().origin_spec());
        if let Ok(d) = dose_over(sources, p) {
            let prev = dose_over(sources.drop_last(), p);
            assert(prev is Ok);
            let acc = prev->Ok_0;
            assert forall|i: int| 0 <= i < d.0.len() implies #[trigger] d.0[i] > 0 by {
                if i < acc.0.len() {
                    assert(d.0[i] == acc.0[i] || d.0 == acc.0);
                }
            }
        }
    }
}

/// Once a prefix of the sources has no dose, no longer prefix has one.
proof fn lemma_error_persists(s: Seq<Source>, p: Point, j: int, e: DoseError)
    requires
        0 <= j <= s.len(),
        dose_over(s.subrange(0, j), p) == Err::<(Seq<u128>, Seq<LineTerm>), DoseError>(e),
    ensures
        dose_over(s, p) == Err::<(Seq<u128>, Seq<LineTerm>), DoseError>(e),
    decreases s.len() - j,
{
    if j == s.len() {
        assert(s.subrange(0, j) =~= s);
    } else {
        assert(s.subrange(0, j + 1).drop_last() =~= s.subrange(0, j));
        lemma_error_persists(s, p, j + 1, e);
    }
}

proof fn lemma_dose_bound(k: int, d2: int)
    requires
        0 <= k <= 65535,
        d2 >= 1,
    ensures
        0 <= k * DOSE_SCALE / d2 <= 65535 * DOSE_SCALE,
        k * DOSE_SCALE <= 65535 * DOSE_SCALE,
{
    let n = k * DOSE_SCALE;
    assert(n <= 65535 * DOSE_SCALE) by (nonlinear_arith)
        requires
            0 <= k <= 65535,
            n == k * DOSE_SCALE,
    ;
    assert(0 <= n / d2 <= n) by (nonlinear_arith)
        requires
            n >= 0,
            d2 >= 1,
    ;
}

/// Exact squared distance between two coordinate pairs.
fn plane_dist2(a1: i32, b1: i32, a2: i32, b2: i32) -> (r: u128)
    ensures
        r == sq(a1 - b1) + sq(a2 - b2),
{
    let d1: i64 = a1 as i64 - b1 as i64;
    let d2: i64 = a2 as i64 - b2 as i64;
    proof {
        lemma_square_bound(d1 as int);
        lemma_square_bound(d2 as int);
    }
    (d1 as i128 * d1 as i128) as u128 + (d2 as i128 * d2 as i128) as u128
}

/// Arctangent inputs of the line source from `a` to `b` at `p`.
pub fn calc_2d_terms(a: &Point, b: &Point, p: &Point) -> (r: Result<LineTerm, DoseError>)
    ensures
        r == line_term(*a, *b, *p),
{
    let m2: u128;
    let l1: i64;
    let l2: i64;
    if a.y == b.y && a.z == b.z {
        m2 = plane_dist2(a.y, p.y, a.z, p.z);
        l1 = p.x as i64 - a.x as i64;
        l2 = b.x as i64 - p.x as i64;
    } else if a.x == b.x && a.z == b.z {
        m2 = plane_dist2(a.x, p.x, a.z, p.z);
        l1 = p.y as i64 - a.y as i64;
        l2 = b.y as i64 - p.y as i64;
    } else if a.x == b.x && a.y == b.y {
        m2 = plane_dist2(a.x, p.x, a.y, p.y);
        l1 = p.z as i64 - a.z as i64;
        l2 = b.z as i64 - p.z as i64;
    } else {
        return Err(DoseError::LineNotAxisAligned);
    }
    if m2 == 0 {
        Err(DoseError::OnLineAxis)
    } else {
        Ok(LineTerm { m_squared: m2, l1, l2 })
    }
}

/// Forward model: a domain, a medium and the sources placed in it.
pub struct Simulator {
    space: Space,
    unit: i32,
    medium: u16,
    sources: Vec<Source>,
}

impl Simulator {
    pub closed spec fn space_spec(&self) -> Space {
        self.space
    }

    pub closed spec fn unit_spec(&self) -> i32 {
        self.unit
    }

    /// The medium constant `K` of the dose law.
    pub closed spec fn medium_spec(&self) -> int {
        self.medium as int
    }

    pub closed spec fn sources_spec(&self) -> Seq<Source> {
        self.sources@
    }

    /// Every source lies inside the domain.
    pub open spec fn wf(&self) -> bool {
        self.space_spec().wf() && forall|i: int|
            0 <= i < self.sources_spec().len() ==> #[trigger] encloses_source(
                self.space_spec(),
                self.sources_spec()[i],
            )
    }

    pub fn new(space: Space, unit: i32, medium: u16) -> (r: Simulator)
        requires
            space.wf(),
        ensures
            r.space_spec() == space,
            r.unit_spec() == unit,
            r.medium_spec() == medium as int,
            r.sources_spec() == Seq::<Source>::empty(),
            r.wf(),
    {
        Simulator { space, unit, medium, sources: Vec::new() }
    }

    pub fn get_medium(&self) -> (r: u16)
        ensures
            r as int == self.medium_spec(),
    {
        self.medium
    }

    pub fn get_unit(&self) -> (r: i32)
        ensures
            r == self.unit_spec(),
    {
        self.unit
    }

    pub fn get_sources(&self) -> (r: &Vec<Source>)
        ensures
            r@ == self.sources_spec(),
    {
        &self.sources
    }

    /// Places `source` in the domain; refused when a corner of its geometry
    /// lies outside the domain.
    pub fn add_source(&mut self, source: Source) -> (r: Result<(), ConfigError>)
        requires
            old(self).wf(),
        ensures
            final(self).wf(),
            r is Ok <==> encloses_source(old(self).space_spec(), source),
            r is Ok ==> final(self).sources_spec() == old(self).sources_spec().push(source),
            r is Err ==> r == Err::<(), _>(ConfigError::OutsideSpace) && final(self).sources_spec()
                == old(self).sources_spec(),
            final(self).space_spec() == old(self).space_spec(),
            final(self).medium_spec() == old(self).medium_spec(),
            final(self).unit_spec() == old(self).unit_spec(),
    {
        if self.space.encloses(source.geometry.get_corners()) {
            self.sources.push(source);
            assert forall|i: int| 0 <= i < self.sources@.len() implies #[trigger] encloses_source(
                self.space,
                self.sources@[i],
            ) by {
                if i < self.sources@.len() - 1 {
                    assert(self.sources@[i] == old(self).sources@[i]);
                    assert(encloses_source(old(self).space_spec(), old(self).sources_spec()[i]));
                }
            }
            Ok(())
        } else {
            Err(ConfigError::OutsideSpace)
        }
    }

    /// The dose at `position`, exactly: the squared distance to each point
    /// source and the arctangent inputs of each line source.
    pub fn get_dosage_at(&self, position: &Point) -> (r: Result<Dosage, DoseError>)
        ensures
            match dose_over(self.sources_spec(), *position) {
                Ok(d) => r matches Ok(v) && v.medium == self.medium_spec() && v.point_terms@
                    == d.0 && v.line_terms@ == d.1,
                Err(e) => r == Err::<Dosage, _>(e),
            },
    {
        let mut points: Vec<u128> = Vec::new();
        let mut terms: Vec<LineTerm> = Vec::new();
        let mut i: usize = 0;
        while i < self.sources.len()
            invariant
                i <= self.sources@.len(),
                dose_over(self.sources@.subrange(0, i as int), *position) == Ok::<
                    (Seq<u128>, Seq<LineTerm>),
                    DoseError,
                >((points@, terms@)),
            decreases self.sources@.len() - i,
        {
            let ghost prefix = self.sources@.subrange(0, i as int);
            let ghost next = self.sources@.subrange(0, i + 1);
            assert(next.drop_last() =~= prefix);
            assert(next.last() == self.sources@[i as int]);
            let source = &self.sources[i];
            let step: Result<(), DoseError> = match &source.geometry {
                Geometry::Point(_) => {
                    let d2 = position.distance_squared_from(&source.origin);
                    if d2 == 0 {
                        Err(DoseError::CoincidentWithSource)
                    } else {
                        points.push(d2);
                        Ok(())
                    }
                },
                Geometry::Line(g) => {
                    let corners = g.get_corners();
                    if corners.len() < 2 {
                        Err(DoseError::IncompleteLine)
                    } else {
                        match calc_2d_terms(&corners[0], &corners[1], position) {
                            Ok(t) => {
                                terms.push(t);
                                Ok(())
                            },
                            Err(e) => Err(e),
                        }
                    }
                },
                Geometry::Surface(_) => Err(DoseError::SurfaceUnsupported),
            };
            if let Err(e) = step {
                proof {
                    lemma_error_persists(self.sources@, *position, i + 1, e);
                }
                return Err(e);
            }
            i = i + 1;
        }
        assert(self.sources@.subrange(0, i as int) =~= self.sources@);
        Ok(Dosage { medium: self.medium, point_terms: points, line_terms: terms })
    }

    /// A sample of the dose at `position` in fixed point, each point-source
    /// term rounded down; refused where a line source contributes.
    pub fn get_sample_at(&self, position: Point) -> (r: Result<Sample, DoseError>)
        ensures
            match exact_dose(self.sources_spec(), self.medium_spec(), position) {
                Ok(d) => r matches Ok(s) && s.position == position && s.dosage == d,
                Err(e) => r == Err::<Sample, _>(e),
            },
    {
        match self.get_dosage_at(&position) {
            Err(e) => Err(e),
            Ok(d) => {
                if d.line_terms.len() == 0 {
                    proof {
                        lemma_point_terms_positive(self.sources_spec(), position);
                    }
                    Ok(Sample { position, dosage: d.fixed_point_part() })
                } else {
                    Err(DoseError::LineDoseNotExact)
                }
            },
        }
    }
}

impl Dosage {
    /// The point-source part of the dose in fixed point, each term rounded
    /// down.
    pub fn fixed_point_part(&self) -> (r: u128)
        requires
            forall|i: int| 0 <= i < self.point_terms@.len() ==> #[trigger] self.point_terms@[i] > 0,
        ensures
            r == fixed_sum(self.medium as int, self.point_terms@),
    {
        let k: u128 = self.medium as u128;
        let mut total: u128 = 0;
        let mut i: usize = 0;
        while i < self.point_terms.len()
            invariant
                i <= self.point_terms@.len(),
                k == self.medium,
                forall|j: int| 0 <= j < self.point_terms@.len() ==> #[trigger] self.point_terms@[j] > 0,
                total == fixed_sum(k as int, self.point_terms@.subrange(0, i as int)),
                total <= i * 65_535_000_000_000_000,
            decreases self.point_terms@.len() - i,
        {
            let ghost next = self.point_terms@.subrange(0, i + 1);
            assert(next.drop_last() =~= self.point_terms@.subrange(0, i as int));
            assert(next.last() == self.point_terms@[i as int]);
            let d2 = self.point_terms[i];
            let v: u128 = k * DOSE_SCALE / d2;
            proof {
                lemma_dose_bound(k as int, d2 as int);
            }
            assert(v <= 65_535_000_000_000_000);
            total = total + v;
            i = i + 1;
        }
        assert(self.point_terms@.subrange(0, i as int) =~= self.point_terms@);
        total
    }
}

/// Every corner of the source's geometry lies inside `space`.
pub open spec fn encloses_source(space: Space, s: Source) -> bool {
    forall|j: int|
        0 <= j < s.geometry_spec().corners().len() ==> within(
            #[trigger] s.geometry_spec().corners()[j],
            space.lo(),
            space.hi(),
        )
}

/// A lone point source delivers exactly `K / d^2` at every point at squared
/// distance `d^2 > 0` from its origin, and has no dose at its origin.
pub proof fn lemma_point_source_inverse_square(s: Source, p: Point)
    requires
        s.geometry_spec() is Point,
    ensures
        dist2(p, s.origin_spec()) > 0 ==> dose_over(seq![s], p) == Ok::<
            (Seq<u128>, Seq<LineTerm>),
            DoseError,
        >((seq![dist2(p, s.origin_spec()) as u128], Seq::empty())),
        dist2(p, s.origin_spec()) == 0 ==> dose_over(seq![s], p) == Err::<
            (Seq<u128>, Seq<LineTerm>),
            DoseError,
        >(DoseError::CoincidentWithSource),
{
    let one = seq![s];
    assert(one.drop_last() =~= Seq::<Source>::empty());
    assert(one.last() == s);
    crate::point::lemma_dist2_bound(p, s.origin_spec());
    assert(dose_over(Seq::<Source>::empty(), p) == Ok::<(Seq<u128>, Seq<LineTerm>), DoseError>(
        (Seq::empty(), Seq::empty()),
    ));
    assert(Seq::<u128>::empty().push(dist2(p, s.origin_spec()) as u128) =~= seq![
        dist2(p, s.origin_spec()) as u128,
    ]);
}

/// The dose of a lone point source depends on the distance alone: moving the
/// query point and the source so that their distance is kept keeps the dose.
pub proof fn lemma_point_source_isometry(s1: Source, s2: Source, p1: Point, p2: Point)
    requires
        s1.geometry_spec() is Point,
        s2.geometry_spec() is Point,
        dist2(p1, s1.origin_spec()) == dist2(p2, s2.origin_spec()),
    ensures
        dose_over(seq![s1], p1) == dose_over(seq![s2], p2),
{
    lemma_point_source_inverse_square(s1, p1);
    lemma_point_source_inverse_square(s2, p2);
    crate::point::lemma_dist2_nonneg(p1, s1.origin_spec());
}

/// The dose of a lone point source with a positive medium constant strictly
/// decreases with distance: `K / d_p^2 > K / d_q^2` whenever `0 < d_p < d_q`.
pub proof fn lemma_point_source_decreasing(s: Source, k: int, p: Point, q: Point)
    requires
        s.geometry_spec() is Point,
        k > 0,
        0 < dist2(p, s.origin_spec()) < dist2(q, s.origin_spec()),
    ensures
        dose_over(seq![s], p) == Ok::<(Seq<u128>, Seq<LineTerm>), DoseError>(
            (seq![dist2(p, s.origin_spec()) as u128], Seq::empty()),
        ),
        dose_over(seq![s], q) == Ok::<(Seq<u128>, Seq<LineTerm>), DoseError>(
            (seq![dist2(q, s.origin_spec()) as u128], Seq::empty()),
        ),
        fraction_gt(k, dist2(p, s.origin_spec()), k, dist2(q, s.origin_spec())),
{
    lemma_point_source_inverse_square(s, p);
    lemma_point_source_inverse_square(s, q);
    let dp = dist2(p, s.origin_spec());
    let dq = dist2(q, s.origin_spec());
    assert(k * dq > k * dp) by (nonlinear_arith)
        requires
            k > 0,
            dp < dq,
    ;
}

} // verus!
