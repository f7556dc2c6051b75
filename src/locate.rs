//! Inverse model: locating a point source from sparse dose samples by voting
//! over every cell of the domain.
use vstd::prelude::*;
use crate::point::{dist2, within, Point, Space};
use crate::simulator::{point_dose, Sample, DOSE_SCALE};

verus! {

/// Lengths in the consistency test are counted in thousandths.
pub const LENGTH_SCALE: u128 = 1000;

/// `r` is the integer square root of `n`, rounded down.
pub open spec fn is_sqrt_floor(n: int, r: int) -> bool {
    0 <= r && r * r <= n < (r + 1) * (r + 1)
}

/// The square root of `n`, rounded down.
pub open spec fn sqrt_floor(n: int) -> int {
    choose|r: int| is_sqrt_floor(n, r)
}

proof fn lemma_sqrt_floor_unique(n: int, r: int, s: int)
    requires
        is_sqrt_floor(n, r),
        is_sqrt_floor(n, s),
    ensures
        r == s,
{
    if r < s {
        assert((r + 1) * (r + 1) <= s * s) by (nonlinear_arith)
            requires
                0 <= r < s,
        ;
    } else if s < r {
        assert((s + 1) * (s + 1) <= r * r) by (nonlinear_arith)
            requires
                0 <= s < r,
        ;
    }
}

/// Any witness of the rounded-down square root is the one `sqrt_floor` names.
pub proof fn lemma_sqrt_floor_is(n: int, r: int)
    requires
        is_sqrt_floor(n, r),
    ensures
        sqrt_floor(n) == r,
{
    let s = sqrt_floor(n);
    assert(is_sqrt_floor(n, s));
    lemma_sqrt_floor_unique(n, r, s);
}

/// Integer square root by bisection.
pub fn isqrt(n: u128) -> (r: u64)
    ensures
        r == sqrt_floor(n as int),
{
    let mut lo: u128 = 0;
    let mut hi: u128 = 0x1_0000_0000_0000_0000;
    assert(n < hi * hi);
    while hi - lo > 1
        invariant
            lo < hi <= 0x1_0000_0000_0000_0000,
            lo * lo <= n,
            n < hi * hi,
        decreases hi - lo,
    {
        let mid: u128 = lo + (hi - lo) / 2;
        assert(mid * mid < 0x1_0000_0000_0000_0000_0000_0000_0000_0000) by (nonlinear_arith)
            requires
                mid < 0x1_0000_0000_0000_0000,
        ;
        if mid * mid <= n {
            lo = mid;
        } else {
            hi = mid;
        }
    }
    assert(hi == lo + 1);
    proof {
        lemma_sqrt_floor_is(n as int, lo as int);
    }
    lo as u64
}

/// Distance in thousandths, rounded down, for a squared distance `d2`.
pub open spec fn scaled_distance(d2: int) -> int {
    sqrt_floor(LENGTH_SCALE * LENGTH_SCALE * d2)
}

/// Expected radius in thousandths, rounded down, of a point source with medium
/// constant `k` that delivers `dosage` (in units of `1 / DOSE_SCALE`): the
/// distance `sqrt(k / dosage)` at which the inverse-square law gives that dose.
pub open spec fn expected_radius(k: int, dosage: int) -> int {
    sqrt_floor(LENGTH_SCALE * LENGTH_SCALE * k * DOSE_SCALE / dosage)
}

pub open spec fn abs_diff(a: int, b: int) -> int {
    if a >= b {
        a - b
    } else {
        b - a
    }
}

/// A sample votes for `cell` when its dosage is positive and the cell's distance
/// to it differs from the expected radius by at most `t` thousandths.
pub open spec fn votes(cell: Point, s: Sample, k: int, t: int) -> bool {
    s.dosage > 0 && abs_diff(
        scaled_distance(dist2(cell, s.position)),
        expected_radius(k, s.dosage as int),
    ) <= t
}

/// Number of samples that vote for `cell`.
pub open spec fn vote_count(cell: Point, samples: Seq<Sample>, k: int, t: int) -> nat
    decreases samples.len(),
{
    if samples.len() == 0 {
        0
    } else {
        vote_count(cell, samples.drop_last(), k, t) + if votes(cell, samples.last(), k, t) {
            1nat
        } else {
            0nat
        }
    }
}

/// `r` is the expected radius of `s`, or `None` when its dosage is zero.
pub open spec fn radius_of(r: Option<u64>, s: Sample, k: int) -> bool {
    match r {
        Some(v) => s.dosage > 0 && v == expected_radius(k, s.dosage as int),
        None => s.dosage == 0,
    }
}

/// Expected radius, in thousandths, of the point source behind `sample`; none
/// for a sample of zero dosage.
pub fn get_expected_radius(sample: &Sample, medium: u16) -> (r: Option<u64>)
    ensures
        radius_of(r, *sample, medium as int),
{
    if sample.dosage == 0 {
        None
    } else {
        assert(LENGTH_SCALE * LENGTH_SCALE * medium * DOSE_SCALE == medium
            * 1_000_000_000_000_000_000) by (nonlinear_arith)
            requires
                LENGTH_SCALE == 1000,
                DOSE_SCALE == 1_000_000_000_000,
        ;
        let n: u128 = (medium as u128) * 1_000_000_000_000_000_000;
        Some(isqrt(n / sample.dosage))
    }
}

/// Whether a cell at squared distance `d2` from a sample with expected radius
/// `radius` lies within `threshold` thousandths of that radius.
fn within_tolerance(d2: u128, radius: u64, threshold: u64) -> (r: bool)
    requires
        d2 < 0x4_0000_0000_0000_0000,
    ensures
        r <==> abs_diff(scaled_distance(d2 as int), radius as int) <= threshold,
{
    assert(LENGTH_SCALE * LENGTH_SCALE * d2 == 1_000_000 * d2);
    let d: u64 = isqrt(1_000_000 * d2);
    if d >= radius {
        d - radius <= threshold
    } else {
        radius - d <= threshold
    }
}

/// Number of `samples` that vote for `cell`; `radii` holds their expected radii.
fn count_votes(
    cell: &Point,
    samples: &Vec<Sample>,
    radii: &Vec<Option<u64>>,
    medium: u16,
    threshold: u64,
) -> (r: usize)
    requires
        radii@.len() == samples@.len(),
        forall|j: int| 0 <= j < samples@.len() ==> radius_of(#[trigger] radii@[j], samples@[j], medium as int),
    ensures
        r == vote_count(*cell, samples@, medium as int, threshold as int),
{
    let mut count: usize = 0;
    let mut j: usize = 0;
    while j < samples.len()
        invariant
            j <= samples@.len(),
            radii@.len() == samples@.len(),
            forall|i: int| 0 <= i < samples@.len() ==> radius_of(#[trigger] radii@[i], samples@[i], medium as int),
            count <= j,
            count == vote_count(*cell, samples@.subrange(0, j as int), medium as int, threshold as int),
        decreases samples@.len() - j,
    {
        let ghost next = samples@.subrange(0, j + 1);
        assert(next.drop_last() =~= samples@.subrange(0, j as int));
        assert(next.last() == samples@[j as int]);
        assert(radius_of(radii@[j as int], samples@[j as int], medium as int));
        match radii[j] {
            Some(radius) => {
                let d2 = cell.distance_squared_from(&samples[j].position);
                if within_tolerance(d2, radius, threshold) {
                    count = count + 1;
                }
            },
            None => {},
        }
        j = j + 1;
    }
    assert(samples@.subrange(0, j as int) =~= samples@);
    count
}

/// Result of a localization run. `counts[a][b][c]` is the number of votes of the
/// cell at `origin + (a, b, c)`; `max` is the largest count and `max_point` the
/// first cell, in x-major then y then z order, that has it (none when no cell
/// has a vote). A cell's normalized intensity is `count / max`, or zero when
/// `max` is zero.
#[derive(Debug, Clone)]
pub struct ProbabilityGrid {
    pub origin: Point,
    pub counts: Vec<Vec<Vec<usize>>>,
    pub max: usize,
    pub max_point: Option<Point>,
}

impl ProbabilityGrid {
    /// The normalized intensity of the cell at indices `(a, b, c)` as a
    /// fraction `(numerator, denominator)`: its count over the largest count,
    /// or zero when no cell has a vote.
    pub fn intensity_fraction(&self, a: usize, b: usize, c: usize) -> (r: (usize, usize))
        requires
            a < self.counts@.len(),
            b < self.counts@[a as int]@.len(),
            c < self.counts@[a as int]@[b as int]@.len(),
        ensures
            r.1 > 0,
            self.max == 0 ==> r == (0usize, 1usize),
            self.max > 0 ==> r == (self.counts@[a as int]@[b as int]@[c as int], self.max),
    {
        if self.max == 0 {
            (0, 1)
        } else {
            (self.counts[a][b][c], self.max)
        }
    }
}

/// `p` comes before the cell `(x, y, z)` in x-major, then y, then z order.
pub open spec fn lex_before(p: Point, x: int, y: int, z: int) -> bool {
    p.x < x || (p.x == x && (p.y < y || (p.y == y && p.z < z)))
}

/// `row` holds the vote counts of the cells `(x, y, z0)`, `(x, y, z0 + 1)`, ...
pub open spec fn row_holds(
    row: Seq<usize>,
    x: int,
    y: int,
    z0: int,
    n: int,
    samples: Seq<Sample>,
    k: int,
    t: int,
) -> bool {
    row.len() == n && forall|c: int|
        0 <= c < n ==> #[trigger] row[c] == vote_count(
            Point { x: x as i32, y: y as i32, z: (z0 + c) as i32 },
            samples,
            k,
            t,
        )
}

/// `plane` holds the rows of the cells with first coordinate `x`, starting at
/// `(y0, z0)`.
pub open spec fn plane_holds(
    plane: Seq<Vec<usize>>,
    x: int,
    y0: int,
    z0: int,
    ny: int,
    nz: int,
    samples: Seq<Sample>,
    k: int,
    t: int,
) -> bool {
    plane.len() == ny && forall|b: int|
        0 <= b < ny ==> row_holds(#[trigger] plane[b]@, x, y0 + b, z0, nz, samples, k, t)
}

/// The largest vote count over the cells before `(x, y, z)` is `max`, first
/// reached at `max_point`.
pub open spec fn max_so_far(
    max: usize,
    max_point: Option<Point>,
    lo: Point,
    hi: Point,
    x: int,
    y: int,
    z: int,
    samples: Seq<Sample>,
    k: int,
    t: int,
) -> bool {
    &&& forall|p: Point|
        within(p, lo, hi) && lex_before(p, x, y, z) ==> #[trigger] vote_count(p, samples, k, t)
            <= max
    &&& (max_point is None <==> max == 0)
    &&& max_point matches Some(q) ==> {
        &&& within(q, lo, hi)
        &&& lex_before(q, x, y, z)
        &&& vote_count(q, samples, k, t) == max
        &&& forall|p: Point|
            within(p, lo, hi) && lex_before(p, q.x as int, q.y as int, q.z as int)
                ==> #[trigger] vote_count(p, samples, k, t) < max
    }
}

/// `g` holds the votes of `samples` for every cell from `lo` to `hi`, with the
/// largest count and the first cell that reaches it.
pub open spec fn describes(
    g: ProbabilityGrid,
    samples: Seq<Sample>,
    lo: Point,
    hi: Point,
    k: int,
    t: int,
) -> bool {
    &&& g.origin == lo
    &&& g.counts@.len() == hi.x - lo.x + 1
    &&& forall|a: int|
        0 <= a < g.counts@.len() ==> plane_holds(
            #[trigger] g.counts@[a]@,
            lo.x + a,
            lo.y as int,
            lo.z as int,
            hi.y - lo.y + 1,
            hi.z - lo.z + 1,
            samples,
            k,
            t,
        )
    &&& max_so_far(g.max, g.max_point, lo, hi, hi.x + 1, lo.y as int, lo.z as int, samples, k, t)
}

/// Votes of every sample for every cell of `space`. A sample votes for a cell
/// when its dosage is positive and the cell lies within `threshold` thousandths
/// of the distance at which a point source with medium constant `medium` gives
/// that dosage.
pub fn get_probability_distribution(
    samples: &Vec<Sample>,
    space: &Space,
    medium: u16,
    threshold: u64,
) -> (r: ProbabilityGrid)
    requires
        space.wf(),
    ensures
        describes(r, samples@, space.lo(), space.hi(), medium as int, threshold as int),
        r.max <= samples@.len(),
{
    let ghost k = medium as int;
    let ghost t = threshold as int;
    let lo = space.get_origin();
    let hi = space.get_terminus();
    let mut radii: Vec<Option<u64>> = Vec::new();
    let mut j: usize = 0;
    while j < samples.len()
        invariant
            j <= samples@.len(),
            radii@.len() == j,
            k == medium as int,
            forall|i: int| 0 <= i < j ==> radius_of(#[trigger] radii@[i], samples@[i], k),
        decreases samples@.len() - j,
    {
        radii.push(get_expected_radius(&samples[j], medium));
        j = j + 1;
    }
    let mut grid: Vec<Vec<Vec<usize>>> = Vec::new();
    let mut max: usize = 0;
    let mut max_point: Option<Point> = None;
    let mut x: i64 = lo.x as i64;
    while x <= hi.x as i64
        invariant
            space.wf(),
            lo == space.lo(),
            hi == space.hi(),
            lo.x <= x <= hi.x + 1,
            radii@.len() == samples@.len(),
            k == medium as int,
            t == threshold as int,
            forall|i: int| 0 <= i < samples@.len() ==> radius_of(#[trigger] radii@[i], samples@[i], k),
            grid@.len() == x - lo.x,
            forall|a: int|
                0 <= a < grid@.len() ==> plane_holds(
                    #[trigger] grid@[a]@,
                    lo.x + a,
                    lo.y as int,
                    lo.z as int,
                    hi.y - lo.y + 1,
                    hi.z - lo.z + 1,
                    samples@,
                    k,
                    t,
                ),
            max_so_far(max, max_point, lo, hi, x as int, lo.y as int, lo.z as int, samples@, k, t),
            max <= samples@.len(),
        decreases hi.x + 1 - x,
    {
        let mut plane: Vec<Vec<usize>> = Vec::new();
        let mut y: i64 = lo.y as i64;
        while y <= hi.y as i64
            invariant
                space.wf(),
                lo == space.lo(),
                hi == space.hi(),
                lo.x <= x <= hi.x,
                lo.y <= y <= hi.y + 1,
                radii@.len() == samples@.len(),
                k == medium as int,
                t == threshold as int,
                forall|i: int| 0 <= i < samples@.len() ==> radius_of(#[trigger] radii@[i], samples@[i], k),
                plane@.len() == y - lo.y,
                forall|b: int|
                    0 <= b < plane@.len() ==> row_holds(
                        #[trigger] plane@[b]@,
                        x as int,
                        lo.y + b,
                        lo.z as int,
                        hi.z - lo.z + 1,
                        samples@,
                        k,
                        t,
                    ),
                max_so_far(max, max_point, lo, hi, x as int, y as int, lo.z as int, samples@, k, t),
                max <= samples@.len(),
            decreases hi.y + 1 - y,
        {
            let mut row: Vec<usize> = Vec::new();
            let mut z: i64 = lo.z as i64;
            while z <= hi.z as i64
                invariant
                    space.wf(),
                    lo == space.lo(),
                    hi == space.hi(),
                    lo.x <= x <= hi.x,
                    lo.y <= y <= hi.y,
                    lo.z <= z <= hi.z + 1,
                    radii@.len() == samples@.len(),
                    k == medium as int,
                    t == threshold as int,
                    forall|i: int| 0 <= i < samples@.len() ==> radius_of(#[trigger] radii@[i], samples@[i], k),
                    row_holds(row@, x as int, y as int, lo.z as int, z - lo.z, samples@, k, t),
                    max_so_far(max, max_point, lo, hi, x as int, y as int, z as int, samples@, k, t),
                    max <= samples@.len(),
                decreases hi.z + 1 - z,
            {
                let cell = Point::new(x as i32, y as i32, z as i32);
                let count = count_votes(&cell, samples, &radii, medium, threshold);
                proof {
                    lemma_vote_count_bound(cell, samples@, k, t);
                }
                row.push(count);
                if count > max {
                    max = count;
                    max_point = Some(cell);
                }
                assert(row_holds(row@, x as int, y as int, lo.z as int, z + 1 - lo.z, samples@, k, t));
                z = z + 1;
            }
            plane.push(row);
            y = y + 1;
        }
        grid.push(plane);
        x = x + 1;
    }
    ProbabilityGrid { origin: lo, counts: grid, max, max_point }
}

proof fn lemma_vote_count_bound(cell: Point, samples: Seq<Sample>, k: int, t: int)
    ensures
        vote_count(cell, samples, k, t) <= samples.len(),
    decreases samples.len(),
{
    if samples.len() > 0 {
        lemma_vote_count_bound(cell, samples.drop_last(), k, t);
    }
}

/// A noise-free sample of a point source at `c` with medium constant `k`, as
/// the forward model produces it: at a positive distance, with the fixed-point
/// dose `k / d^2` rounded down, and that dose positive. Its rounding is covered by the tolerance `t`:
/// the dose is exact, or the tolerance is at least one thousandth and the
/// dosage is at least `500 * d^2` units, which keeps the rounding's effect on
/// the expected radius under one thousandth.
pub open spec fn noise_free(s: Sample, c: Point, k: int, t: int) -> bool {
    let d2 = dist2(c, s.position);
    &&& d2 > 0
    &&& s.dosage > 0
    &&& s.dosage == point_dose(k, d2)
    &&& (s.dosage * d2 == k * DOSE_SCALE || (t >= 1 && 500 * d2 <= s.dosage))
}

/// Every natural number has a rounded-down square root.
pub proof fn lemma_sqrt_floor_exists(n: int)
    requires
        n >= 0,
    ensures
        is_sqrt_floor(n, sqrt_floor(n)),
    decreases n,
{
    if n == 0 {
        assert(is_sqrt_floor(0, 0));
    } else {
        lemma_sqrt_floor_exists(n - 1);
        let r = sqrt_floor(n - 1);
        if (r + 1) * (r + 1) <= n {
            assert((r + 1) * (r + 1) == n);
            assert(n < (r + 2) * (r + 2)) by (nonlinear_arith)
                requires
                    (r + 1) * (r + 1) == n,
                    r >= 0,
            ;
            assert(is_sqrt_floor(n, r + 1));
        } else {
            assert(is_sqrt_floor(n, r));
        }
    }
}

/// Rounded-down square roots of two numbers less than 2000 apart, both at
/// least a million, differ by at most one.
proof fn lemma_sqrt_floor_close(a_n: int, b_n: int)
    requires
        1_000_000 <= a_n <= b_n < a_n + 2000,
    ensures
        sqrt_floor(a_n) <= sqrt_floor(b_n) <= sqrt_floor(a_n) + 1,
{
    lemma_sqrt_floor_exists(a_n);
    lemma_sqrt_floor_exists(b_n);
    let a = sqrt_floor(a_n);
    let b = sqrt_floor(b_n);
    assert(a >= 1000) by (nonlinear_arith)
        requires
            a_n < (a + 1) * (a + 1),
            a_n >= 1_000_000,
            a >= 0,
    ;
    assert(a <= b) by (nonlinear_arith)
        requires
            a * a <= a_n <= b_n < (b + 1) * (b + 1),
            a >= 0,
            b >= 0,
    ;
    assert(b <= a + 1) by (nonlinear_arith)
        requires
            b * b <= b_n,
            a_n < (a + 1) * (a + 1),
            b_n < a_n + 2000,
            a >= 1000,
            b >= a,
    ;
}

/// Every noise-free sample of a point source at `c` votes for `c`.
pub proof fn lemma_noise_free_votes(c: Point, s: Sample, k: int, t: int)
    requires
        noise_free(s, c, k, t),
        k >= 0,
        t >= 0,
    ensures
        votes(c, s, k, t),
{
    let d2 = dist2(c, s.position);
    let q = s.dosage as int;
    let m = LENGTH_SCALE * LENGTH_SCALE;
    let ks = k * DOSE_SCALE;
    assert(m == 1_000_000);
    assert(ks >= 0) by (nonlinear_arith)
        requires
            k >= 0,
            ks == k * DOSE_SCALE,
            DOSE_SCALE > 0,
    ;
    assert(m * k * DOSE_SCALE == m * ks) by (nonlinear_arith)
        requires
            ks == k * DOSE_SCALE,
    ;
    if q * d2 == ks {
        assert(m * ks == q * (m * d2)) by (nonlinear_arith)
            requires
                q * d2 == ks,
        ;
        assert(q * (m * d2) / q == m * d2) by {
            vstd::arithmetic::div_mod::lemma_div_multiples_vanish(m * d2, q);
        }
        assert(expected_radius(k, q) == scaled_distance(d2));
    } else {
        let a_n = m * d2;
        let n = m * ks;
        let b_n = n / q;
        assert(q >= 500) by (nonlinear_arith)
            requires
                500 * d2 <= q,
                d2 >= 1,
        ;
        assert(q * d2 <= ks < q * d2 + d2) by (nonlinear_arith)
            requires
                q == ks / d2,
                d2 > 0,
                ks >= 0,
        ;
        assert(a_n * q <= n) by (nonlinear_arith)
            requires
                q * d2 <= ks,
                a_n == m * d2,
                n == m * ks,
                m == 1_000_000,
        ;
        assert(a_n <= b_n) by (nonlinear_arith)
            requires
                a_n * q <= n,
                b_n == n / q,
                q > 0,
        ;
        assert(b_n * q <= n) by (nonlinear_arith)
            requires
                b_n == n / q,
                q > 0,
                n >= 0,
        ;
        assert(b_n < a_n + 2000) by (nonlinear_arith)
            requires
                b_n * q <= n,
                ks < q * d2 + d2,
                a_n == m * d2,
                n == m * ks,
                m == 1_000_000,
                500 * d2 <= q,
                q > 0,
        ;
        assert(a_n >= 1_000_000) by (nonlinear_arith)
            requires
                a_n == m * d2,
                m == 1_000_000,
                d2 >= 1,
        ;
        lemma_sqrt_floor_close(a_n, b_n);
        assert(expected_radius(k, q) == sqrt_floor(b_n));
        assert(scaled_distance(d2) == sqrt_floor(a_n));
    }
}

/// Localizing noise-free samples of a point source at `c` inside the domain:
/// `c` gets every sample's vote, the largest count is the number of samples,
/// and the reported cell has that count and is `c` or comes before it. Where
/// no other cell gets every vote, the reported cell is `c`.
pub proof fn lemma_true_source_attains_max(
    g: ProbabilityGrid,
    samples: Seq<Sample>,
    lo: Point,
    hi: Point,
    k: int,
    t: int,
    c: Point,
)
    requires
        describes(g, samples, lo, hi, k, t),
        k >= 0,
        t >= 0,
        within(c, lo, hi),
        samples.len() > 0,
        forall|i: int| 0 <= i < samples.len() ==> noise_free(#[trigger] samples[i], c, k, t),
    ensures
        vote_count(c, samples, k, t) == samples.len(),
        g.max == samples.len(),
        g.max_point matches Some(q) && vote_count(q, samples, k, t) == g.max && !lex_before(
            c,
            q.x as int,
            q.y as int,
            q.z as int,
        ),
        (forall|p: Point|
            within(p, lo, hi) && p != c ==> #[trigger] vote_count(p, samples, k, t)
                < samples.len()) ==> g.max_point == Some(c),
{
    lemma_all_votes(c, samples, k, t);
    lemma_vote_count_bound(c, samples, k, t);
    assert(lex_before(c, hi.x + 1, lo.y as int, lo.z as int));
    lemma_max_bound(g, samples, lo, hi, k, t);
}

proof fn lemma_all_votes(c: Point, samples: Seq<Sample>, k: int, t: int)
    requires
        k >= 0,
        t >= 0,
        forall|i: int| 0 <= i < samples.len() ==> noise_free(#[trigger] samples[i], c, k, t),
    ensures
        vote_count(c, samples, k, t) == samples.len(),
    decreases samples.len(),
{
    if samples.len() > 0 {
        let init = samples.drop_last();
        assert forall|i: int| 0 <= i < init.len() implies noise_free(#[trigger] init[i], c, k, t) by {
            assert(init[i] == samples[i]);
        }
        lemma_all_votes(c, init, k, t);
        assert(noise_free(samples[samples.len() - 1], c, k, t));
        lemma_noise_free_votes(c, samples.last(), k, t);
    }
}

/// The largest count never exceeds the number of samples.
proof fn lemma_max_bound(g: ProbabilityGrid, samples: Seq<Sample>, lo: Point, hi: Point, k: int, t: int)
    requires
        describes(g, samples, lo, hi, k, t),
    ensures
        g.max <= samples.len(),
{
    if let Some(q) = g.max_point {
        lemma_vote_count_bound(q, samples, k, t);
    }
}

/// Removing one sample takes away exactly its own vote.
proof fn lemma_vote_count_remove(cell: Point, samples: Seq<Sample>, k: int, t: int, i: int)
    requires
        0 <= i < samples.len(),
    ensures
        vote_count(cell, samples, k, t) == vote_count(cell, samples.remove(i), k, t) + if votes(
            cell,
            samples[i],
            k,
            t,
        ) {
            1nat
        } else {
            0nat
        },
    decreases samples.len(),
{
    if i == samples.len() - 1 {
        assert(samples.remove(i) =~= samples.drop_last());
    } else {
        let init = samples.drop_last();
        lemma_vote_count_remove(cell, init, k, t, i);
        assert(samples.remove(i).drop_last() =~= init.remove(i));
        assert(samples.remove(i).last() == samples.last());
        assert(init[i] == samples[i]);
    }
}

/// The votes for a cell depend on the multiset of samples only, not on their
/// order.
pub proof fn lemma_vote_count_order_free(
    cell: Point,
    s1: Seq<Sample>,
    s2: Seq<Sample>,
    k: int,
    t: int,
)
    requires
        s1.to_multiset() =~= s2.to_multiset(),
    ensures
        vote_count(cell, s1, k, t) == vote_count(cell, s2, k, t),
    decreases s1.len(),
{
    broadcast use vstd::seq_lib::group_to_multiset_ensures;

    if s1.len() == 0 {
        assert(s2.to_multiset().len() == 0);
        assert(s2.len() == 0);
    } else {
        let e = s1.last();
        assert(s1.to_multiset().count(e) > 0) by {
            assert(s1.contains(e)) by {
                assert(s1[s1.len() - 1] == e);
            }
        }
        assert(s2.contains(e));
        let i = choose|i: int| 0 <= i < s2.len() && s2[i] == e;
        let last = s1.len() - 1;
        assert(s1.remove(last) =~= s1.drop_last());
        assert(s1.remove(last).to_multiset() =~= s1.to_multiset().remove(e));
        assert(s2.remove(i).to_multiset() =~= s2.to_multiset().remove(e));
        lemma_vote_count_order_free(cell, s1.drop_last(), s2.remove(i), k, t);
        lemma_vote_count_remove(cell, s2, k, t, i);
    }
}

/// Localizing a reordering of the same samples gives the same grid, the same
/// largest count and the same reported cell.
pub proof fn lemma_distribution_order_free(
    g1: ProbabilityGrid,
    g2: ProbabilityGrid,
    s1: Seq<Sample>,
    s2: Seq<Sample>,
    lo: Point,
    hi: Point,
    k: int,
    t: int,
)
    requires
        s1.to_multiset() =~= s2.to_multiset(),
        describes(g1, s1, lo, hi, k, t),
        describes(g2, s2, lo, hi, k, t),
    ensures
        g1.max == g2.max,
        g1.max_point == g2.max_point,
        forall|a: int, b: int, c: int|
            0 <= a < g1.counts@.len() && 0 <= b < g1.counts@[a]@.len() && 0 <= c
                < g1.counts@[a]@[b]@.len() ==> #[trigger] g1.counts@[a]@[b]@[c]
                == g2.counts@[a]@[b]@[c],
        g1.counts@.len() == g2.counts@.len(),
{
    assert forall|p: Point| #[trigger] vote_count(p, s1, k, t) == vote_count(p, s2, k, t) by {
        lemma_vote_count_order_free(p, s1, s2, k, t);
    }
    assert forall|a: int, b: int, c: int|
        0 <= a < g1.counts@.len() && 0 <= b < g1.counts@[a]@.len() && 0 <= c
            < g1.counts@[a]@[b]@.len() implies #[trigger] g1.counts@[a]@[b]@[c]
            == g2.counts@[a]@[b]@[c] by {
        assert(plane_holds(g1.counts@[a]@, lo.x + a, lo.y as int, lo.z as int, hi.y - lo.y + 1, hi.z - lo.z + 1, s1, k, t));
        assert(plane_holds(g2.counts@[a]@, lo.x + a, lo.y as int, lo.z as int, hi.y - lo.y + 1, hi.z - lo.z + 1, s2, k, t));
        assert(row_holds(g1.counts@[a]@[b]@, lo.x + a, lo.y + b, lo.z as int, hi.z - lo.z + 1, s1, k, t));
        assert(row_holds(g2.counts@[a]@[b]@, lo.x + a, lo.y + b, lo.z as int, hi.z - lo.z + 1, s2, k, t));
        let p = Point { x: (lo.x + a) as i32, y: (lo.y + b) as i32, z: (lo.z + c) as i32 };
        assert(vote_count(p, s1, k, t) == vote_count(p, s2, k, t));
    }
    let end_x = hi.x + 1;
    match (g1.max_point, g2.max_point) {
        (Some(q1), Some(q2)) => {
            assert(vote_count(q1, s2, k, t) <= g2.max);
            assert(vote_count(q2, s1, k, t) <= g1.max);
            assert(g1.max == g2.max);
            if lex_before(q1, q2.x as int, q2.y as int, q2.z as int) {
                assert(vote_count(q1, s2, k, t) < g2.max);
            } else if lex_before(q2, q1.x as int, q1.y as int, q1.z as int) {
                assert(vote_count(q2, s1, k, t) < g1.max);
            } else {
                assert(q1 == q2);
            }
        },
        (Some(q1), None) => {
            assert(vote_count(q1, s2, k, t) <= g2.max);
        },
        (None, Some(q2)) => {
            assert(vote_count(q2, s1, k, t) <= g1.max);
        },
        (None, None) => {},
    }
}

} // verus!
