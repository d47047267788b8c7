use vstd::prelude::*;
use vstd::std_specs::cmp::PartialOrdIs;
use vstd::std_specs::cmp::PartialOrdSpec;

verus! {

/// The value `clamp` settles on when `below` says whether `x` lies under `min`
/// and `above` says whether it lies over `max`.
pub open spec fn clamp_choice<T>(x: T, min: T, max: T, below: bool, above: bool) -> T {
    if below {
        min
    } else if above {
        max
    } else {
        x
    }
}

/// Restricts `x` to the range from `min` to `max`.
///
/// The lower bound is tested first, so when `x` lies under `min` the result is
/// `min` whatever `max` is. A value that compares neither under `min` nor over
/// `max` (an unordered one included) is returned unchanged.
pub fn clamp<T: PartialOrd>(x: T, min: T, max: T) -> (r: T)
    ensures
        T::obeys_partial_cmp_spec() ==> r == clamp_choice(
            x,
            min,
            max,
            x.is_lt(&min),
            x.is_gt(&max),
        ),
        exists|below: bool|
            {
                &&& #[trigger] call_ensures(T::lt, (&x, &min), below)
                &&& below ==> r == min
                &&& !below ==> exists|above: bool|
                    {
                        &&& #[trigger] call_ensures(T::gt, (&x, &max), above)
                        &&& r == clamp_choice(x, min, max, false, above)
                    }
            },
{
    if x < min {
        return min;
    }
    if x > max {
        return max;
    }
    x
}

} // verus!
