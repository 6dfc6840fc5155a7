//! Counting, filtering and caching.
use vstd::prelude::*;

verus! {

/// Counts from 1 to 5, one value per call of `next`.
pub struct Counter {
    count: u32,
}

impl Counter {
    /// How many values have been produced.
    pub closed spec fn spec_count(&self) -> u32 {
        self.count
    }

    /// A counter that has produced nothing yet.
    pub fn new() -> (r: Counter)
        ensures
            r.spec_count() == 0,
    {
        Counter { count: 0 }
    }

    /// The next value, or `None` once 5 has been produced.
    pub fn next(&mut self) -> (r: Option<u32>)
        ensures
            old(self).spec_count() < 5 ==> r == Some((old(self).spec_count() + 1) as u32)
                && final(self).spec_count() == old(self).spec_count() + 1,
            old(self).spec_count() >= 5 ==> r.is_none() && final(self).spec_count()
                == old(self).spec_count(),
    {
        if self.count < 5 {
            self.count = self.count + 1;
            Some(self.count)
        } else {
            None
        }
    }

    /// All the values still to come, in order.
    pub fn values(self) -> (r: Vec<u32>)
        ensures
            self.spec_count() <= 5 ==> r@ == Seq::new(
                (5 - self.spec_count()) as nat,
                |i: int| (self.spec_count() + i + 1) as u32,
            ),
            self.spec_count() > 5 ==> r@.len() == 0,
    {
        let ghost start = self.count;
        let mut c = self;
        let mut out: Vec<u32> = Vec::new();
        loop
            invariant
                start <= 5 ==> start <= c.count <= 5 && out@ == Seq::new(
                    (c.count - start) as nat,
                    |i: int| (start + i + 1) as u32,
                ),
                start > 5 ==> c.count == start && out@.len() == 0,
            ensures
                start <= 5 ==> out@ == Seq::new(
                    (5 - start) as nat,
                    |i: int| (start + i + 1) as u32,
                ),
                start > 5 ==> out@.len() == 0,
            decreases 5 - c.count,
        {
            match c.next() {
                Some(v) => {
                    out.push(v);
                    assert(out@ =~= Seq::new(
                        (c.count - start) as nat,
                        |i: int| (start + i + 1) as u32,
                    ));
                },
                None => {
                    break;
                },
            }
        }
        out
    }
}

/// A shoe of some size and style.
#[derive(Debug, PartialEq)]
pub struct Shoe {
    pub size: u32,
    pub style: String,
}

/// The shoes of `shoes` whose size is `my_size`, in order.
pub fn shoes_in_my_size(shoe_list: Vec<Shoe>, my_size: u32) -> (r: Vec<Shoe>)
    ensures
        r@ == shoe_list@.filter(|s: Shoe| s.size == my_size),
{
    let ghost all = shoe_list@;
    let mut rest = shoe_list;
    let mut out: Vec<Shoe> = Vec::new();
    let ghost mut k: int = 0;
    while rest.len() > 0
        invariant
            0 <= k <= all.len(),
            rest@ == all.subrange(k, all.len() as int),
            out@ == all.take(k).filter(|s: Shoe| s.size == my_size),
        decreases rest@.len(),
    {
        let shoe = rest.remove(0);
        proof {
            assert(shoe == all[k]);
            assert(all.take(k + 1).drop_last() =~= all.take(k));
            assert(all.take(k + 1).last() == shoe);
            reveal_with_fuel(Seq::filter, 1);
        }
        if shoe.size == my_size {
            out.push(shoe);
        }
        proof {
            k = k + 1;
            assert(rest@ =~= all.subrange(k, all.len() as int));
        }
    }
    proof {
        assert(all.take(k) =~= all);
    }
    out
}

/// Holds a calculation and the result of its first call.
pub struct Cache<T: Fn(u32) -> u32> {
    expensive_calculation: T,
    value: Option<u32>,
}

impl<T: Fn(u32) -> u32> Cache<T> {
    /// The remembered result, if the calculation has run.
    pub closed spec fn cached(&self) -> Option<u32> {
        self.value
    }

    /// The calculation.
    pub closed spec fn calculation(&self) -> T {
        self.expensive_calculation
    }

    /// A cache that has not run `expensive_calculation` yet.
    pub fn new(expensive_calculation: T) -> (r: Cache<T>)
        ensures
            r.cached().is_none(),
            r.calculation() == expensive_calculation,
    {
        Cache { expensive_calculation, value: None }
    }

    /// The result of the first call: the calculation runs on `arg` only if
    /// it has not run before; later calls return the same value whatever
    /// their argument.
    pub fn value(&mut self, arg: u32) -> (r: u32)
        requires
            old(self).cached().is_none() ==> old(self).calculation().requires((arg,)),
        ensures
            final(self).calculation() == old(self).calculation(),
            final(self).cached() == Some(r),
            old(self).cached() matches Some(v) ==> r == v,
            old(self).cached().is_none() ==> old(self).calculation().ensures((arg,), r),
    {
        match self.value {
            Some(v) => v,
            None => {
                let v = (self.expensive_calculation)(arg);
                self.value = Some(v);
                v
            },
        }
    }
}

/// A day's workout.
#[derive(Debug, Clone, Copy, PartialEq, Eq, Structural)]
pub enum Workout {
    /// Push-ups, then sit-ups.
    Strength { pushups: u32, situps: u32 },
    /// A day off.
    Rest,
    /// A run of some minutes.
    Run { minutes: u32 },
}

/// Plans a workout, running the expensive calculation at most once.
///
/// Below intensity 25 the plan is push-ups and sit-ups, both as many as
/// the calculation gives; otherwise it is a rest day when the random
/// number is 3, and a run as long as the calculation gives when not.
pub fn generate_workout_using_closure<F: Fn(u32) -> u32>(
    intensity: u32,
    random_number: u32,
    calculation: F,
) -> (r: Workout)
    requires
        calculation.requires((intensity,)),
    ensures
        intensity < 25 ==> (r matches Workout::Strength { pushups, situps } && pushups == situps
            && calculation.ensures((intensity,), pushups)),
        intensity >= 25 && random_number == 3 ==> r == Workout::Rest,
        intensity >= 25 && random_number != 3 ==> (r matches Workout::Run { minutes }
            && calculation.ensures((intensity,), minutes)),
{
    let mut cached_result = Cache::new(calculation);
    if intensity < 25 {
        let pushups = cached_result.value(intensity);
        let situps = cached_result.value(intensity);
        Workout::Strength { pushups, situps }
    } else if random_number == 3 {
        Workout::Rest
    } else {
        let minutes = cached_result.value(intensity);
        Workout::Run { minutes }
    }
}

} // verus!
