//! Small selection helpers used when negotiating device capabilities:
//! clamping a value into a range and picking a preferred element out of
//! a list of supported ones.

use vstd::prelude::*;
use vstd::std_specs::cmp::{PartialEqSpec, PartialOrdSpec};

verus! {

/// Clamp `num` into the closed range `[min, max]`. The range must be
/// non-trivial: `max` above `min`.
pub fn clamp<T: PartialOrd>(num: T, min: T, max: T) -> (r: T)
    requires
        T::obeys_partial_cmp_spec(),
        max.partial_cmp_spec(&min) == Some(core::cmp::Ordering::Greater),
    ensures
        r == (if num.partial_cmp_spec(&min) == Some(core::cmp::Ordering::Less) {
            min
        } else if num.partial_cmp_spec(&max) == Some(core::cmp::Ordering::Greater) {
            max
        } else {
            num
        }),
{
    if num < min {
        min
    } else if num > max {
        max
    } else {
        num
    }
}

/// Whether some element of `w` equals `x` under the type's equality.
pub open spec fn has_match<T: PartialEq>(w: Seq<T>, x: T) -> bool {
    exists|i: int| 0 <= i < w.len() && w[i].eq_spec(&x)
}

/// The first element of `s` that has a match in `w`, if any.
pub open spec fn first_match<T: PartialEq>(w: Seq<T>, s: Seq<T>) -> Option<T>
    decreases s.len(),
{
    if s.len() == 0 {
        None
    } else if has_match(w, s[0]) {
        Some(s[0])
    } else {
        first_match(w, s.skip(1))
    }
}

/// What `prefer` returns: the first supported element that is wanted,
/// or the first supported element at all when `default_to_first`.
pub open spec fn prefer_spec<T: PartialEq>(w: Seq<T>, s: Seq<T>, default_to_first: bool) -> Option<
    T,
> {
    match first_match(w, s) {
        Some(v) => Some(v),
        None => if default_to_first && s.len() > 0 {
            Some(s[0])
        } else {
            None
        },
    }
}

/// Pick the first element of `supported` that occurs in `wanted`;
/// fall back to the first supported element when `default_to_first`.
pub fn prefer<T: PartialEq>(wanted: &Vec<T>, supported: Vec<T>, default_to_first: bool) -> (r:
    Option<T>)
    requires
        T::obeys_eq_spec(),
    ensures
        r == prefer_spec(wanted@, supported@, default_to_first),
{
    let ghost s = supported@;
    proof {
        assert(s.skip(0) =~= s);
    }
    let mut i: usize = 0;
    let mut found: Option<usize> = None;
    while i < supported.len() && found.is_none()
        invariant
            s == supported@,
            i <= s.len(),
            T::obeys_eq_spec(),
            match found {
                Some(k) => k < s.len() && i == k + 1 && first_match(wanted@, s) == Some(s[k as int])
                    && first_match(wanted@, s.skip(k as int)) == Some(s[k as int]),
                None => first_match(wanted@, s) == first_match(wanted@, s.skip(i as int)),
            },
        decreases s.len() - i,
    {
        let mut j: usize = 0;
        let mut hit: bool = false;
        while j < wanted.len() && !hit
            invariant
                s == supported@,
                i < s.len(),
                j <= wanted@.len(),
                T::obeys_eq_spec(),
                hit ==> has_match(wanted@, s[i as int]),
                !hit ==> forall|k: int| 0 <= k < j ==> !wanted@[k].eq_spec(&s[i as int]),
            decreases wanted@.len() - j,
        {
            if &wanted[j] == &supported[i] {
                hit = true;
            }
            j = j + 1;
        }
        if hit {
            found = Some(i);
            proof {
                assert(first_match(wanted@, s.skip(i as int)) == Some(s[i as int])) by {
                    assert(s.skip(i as int)[0] == s[i as int]);
                }
            }
        } else {
            proof {
                assert(!has_match(wanted@, s[i as int]));
                assert(s.skip(i as int)[0] == s[i as int]);
                assert(s.skip(i as int).skip(1) =~= s.skip(i as int + 1));
            }
        }
        i = i + 1;
    }
    match found {
        Some(k) => {
            let mut supported = supported;
            Some(supported.remove(k))
        },
        None => {
            if default_to_first && supported.len() > 0 {
                proof {
                    assert(first_match(wanted@, s.skip(s.len() as int)) is None);
                }
                let mut supported = supported;
                Some(supported.remove(0))
            } else {
                None
            }
        },
    }
}

/// Pick the first element of `supported` that the predicate `wanted`
/// accepts — elements before it were all rejected — and fall back to
/// the first supported element when `default_to_first` and the
/// predicate rejected everything.
pub fn prefer_fn<T, F: Fn(&T) -> bool>(wanted: F, supported: Vec<T>, default_to_first: bool) -> (r:
    Option<T>)
    requires
        forall|x: &T| #[trigger] wanted.requires((x,)),
    ensures
        supported@.len() == 0 ==> r is None,
        r is None ==> (!default_to_first || supported@.len() == 0) && (forall|j: int|
            0 <= j < supported@.len() ==> wanted.ensures((&supported@[j],), false)),
        match r {
            Some(v) => exists|k: int|
                {
                    &&& 0 <= k < supported@.len()
                    &&& v == supported@[k]
                    &&& (wanted.ensures((&supported@[k],), true) && (forall|j: int|
                        0 <= j < k ==> wanted.ensures((&supported@[j],), false))) || (
                    default_to_first && k == 0 && (forall|j: int|
                        0 <= j < supported@.len() ==> wanted.ensures((&supported@[j],), false)))
                },
            None => true,
        },
{
    let ghost s = supported@;
    let mut i: usize = 0;
    let mut found: Option<usize> = None;
    while i < supported.len() && found.is_none()
        invariant
            s == supported@,
            i <= s.len(),
            forall|x: &T| #[trigger] wanted.requires((x,)),
            match found {
                Some(k) => k < i <= s.len() && i == k + 1 && wanted.ensures((&s[k as int],), true)
                    && (forall|j: int| 0 <= j < k ==> wanted.ensures((&s[j],), false)),
                None => forall|j: int| 0 <= j < i ==> wanted.ensures((&s[j],), false),
            },
        decreases s.len() - i,
    {
        if wanted(&supported[i]) {
            found = Some(i);
        }
        i = i + 1;
    }
    match found {
        Some(k) => {
            let mut supported = supported;
            let v = supported.remove(k);
            proof {
                assert(0 <= k < s.len() && v == s[k as int]);
            }
            Some(v)
        },
        None => {
            if default_to_first && supported.len() > 0 {
                let mut supported = supported;
                let v = supported.remove(0);
                proof {
                    assert(0 <= 0 < s.len() && v == s[0]);
                }
                Some(v)
            } else {
                None
            }
        },
    }
}

} // verus!
