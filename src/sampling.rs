//! Synthetic samples of the forward model at random points of a box.
use vstd::prelude::*;
use rand::Rng;
use crate::point::Point;
use crate::simulator::{exact_dose, DoseError, Sample, Simulator};

verus! {

/// Relies on rand::thread_rng and rand::Rng::gen_range (rand 0.7): a value in
/// `[low, high)`; gen_range panics when `low >= high`.
#[verifier::external_body]
fn random_in_range(low: i32, high: i32) -> (r: i32)
    requires
        low < high,
    ensures
        low <= r < high,
{
    rand::thread_rng().gen_range(low, high)
}

/// Every coordinate of `p` lies in `[start, end)`.
pub open spec fn in_cube(p: Point, start: int, end: int) -> bool {
    start <= p.x < end && start <= p.y < end && start <= p.z < end
}

/// A random point of the cube `[start, end)^3`.
pub fn gen_random_point(start: i32, end: i32) -> (r: Point)
    requires
        start < end,
    ensures
        in_cube(r, start as int, end as int),
{
    let x = random_in_range(start, end);
    let y = random_in_range(start, end);
    let z = random_in_range(start, end);
    Point::new(x, y, z)
}

/// `count` samples of the simulator's exact dose at random points of the cube
/// `[start, end)^3`; fails with the dose error of the first point that has no
/// exact dose.
pub fn get_random_samples(simulator: &Simulator, start: i32, end: i32, count: u32) -> (r: Result<
    Vec<Sample>,
    DoseError,
>)
    requires
        start < end,
    ensures
        r matches Ok(v) ==> v@.len() == count && forall|i: int|
            0 <= i < v@.len() ==> in_cube(#[trigger] v@[i].position, start as int, end as int)
                && exact_dose(simulator.sources_spec(), simulator.medium_spec(), v@[i].position)
                == Ok::<int, DoseError>(v@[i].dosage as int),
        count == 0 ==> r is Ok,
        r matches Err(e) ==> exists|p: Point|
            in_cube(p, start as int, end as int) && exact_dose(
                simulator.sources_spec(),
                simulator.medium_spec(),
                p,
            ) == Err::<int, DoseError>(e),
{
    let mut samples: Vec<Sample> = Vec::new();
    let mut n: u32 = 0;
    while n < count
        invariant
            n <= count,
            samples@.len() == n,
            start < end,
            forall|i: int|
                0 <= i < samples@.len() ==> in_cube(
                    #[trigger] samples@[i].position,
                    start as int,
                    end as int,
                ) && exact_dose(simulator.sources_spec(), simulator.medium_spec(), samples@[i].position)
                    == Ok::<int, DoseError>(samples@[i].dosage as int),
        decreases count - n,
    {
        let p = gen_random_point(start, end);
        match simulator.get_sample_at(p) {
            Ok(s) => samples.push(s),
            Err(e) => {
                return Err(e);
            },
        }
        n = n + 1;
    }
    Ok(samples)
}

} // verus!
