//! The mathematical model: what a scan for the first failure (or the first
//! absence) makes of a finite sequence of two-variant items.
use vstd::prelude::*;

verus! {

/// The first failure of `s`, in order, if there is one.
pub open spec fn first_err<T, E>(s: Seq<Result<T, E>>) -> Option<E>
    decreases s.len(),
{
    if s.len() == 0 {
        None
    } else {
        match s[0] {
            Ok(_) => first_err(s.drop_first()),
            Err(e) => Some(e),
        }
    }
}

/// The values of the successes of `s` that come before its first failure.
pub open spec fn oks_before_err<T, E>(s: Seq<Result<T, E>>) -> Seq<T>
    decreases s.len(),
{
    if s.len() == 0 {
        Seq::empty()
    } else {
        match s[0] {
            Ok(t) => seq![t] + oks_before_err(s.drop_first()),
            Err(_) => Seq::empty(),
        }
    }
}

/// What a scan of `s` settles on, when the values it yields were turned into `o`:
/// the first failure of `s` if there is one, else `o`.
pub open spec fn settle_err<T, E, O>(s: Seq<Result<T, E>>, o: O) -> Result<O, E> {
    match first_err(s) {
        Some(e) => Err(e),
        None => Ok(o),
    }
}

/// What a scan of `s` settles on, when the values it yields were turned into
/// the fallible `o`: the first failure of `s` if there is one, else `o`.
pub open spec fn settle_err_try<T, E, O>(s: Seq<Result<T, E>>, o: Result<O, E>) -> Result<O, E> {
    match first_err(s) {
        Some(e) => Err(e),
        None => o,
    }
}

/// Whether `s` holds an absence.
pub open spec fn has_none<T>(s: Seq<Option<T>>) -> bool
    decreases s.len(),
{
    if s.len() == 0 {
        false
    } else {
        match s[0] {
            Some(_) => has_none(s.drop_first()),
            None => true,
        }
    }
}

/// The values that `s` holds before its first absence.
pub open spec fn somes_before_none<T>(s: Seq<Option<T>>) -> Seq<T>
    decreases s.len(),
{
    if s.len() == 0 {
        Seq::empty()
    } else {
        match s[0] {
            Some(t) => seq![t] + somes_before_none(s.drop_first()),
            None => Seq::empty(),
        }
    }
}

/// What a scan of `s` settles on, when the values it yields were turned into `o`:
/// nothing if `s` holds an absence, else `o`.
pub open spec fn settle_none<T, O>(s: Seq<Option<T>>, o: O) -> Option<O> {
    if has_none(s) {
        None
    } else {
        Some(o)
    }
}

/// What a scan of `s` settles on, when the values it yields were turned into
/// the optional `o`: nothing if `s` holds an absence, else `o`.
pub open spec fn settle_none_try<T, O>(s: Seq<Option<T>>, o: Option<O>) -> Option<O> {
    if has_none(s) {
        None
    } else {
        o
    }
}

/// The values the scan yields are those of the leading successes, in order;
/// right behind them stands the first failure, or the end of the sequence.
pub proof fn lemma_oks_are_prefix<T, E>(s: Seq<Result<T, E>>)
    ensures
        oks_before_err(s).len() <= s.len(),
        forall|i: int| 0 <= i < oks_before_err(s).len() ==> s[i] == Ok::<T, E>(#[trigger] oks_before_err(s)[i]),
        oks_before_err(s).len() < s.len() ==> first_err(s) == Some(s[oks_before_err(s).len() as int]->Err_0)
            && s[oks_before_err(s).len() as int] is Err,
        oks_before_err(s).len() == s.len() ==> first_err(s) is None,
    decreases s.len(),
{
    if s.len() > 0 {
        let rest = s.drop_first();
        lemma_oks_are_prefix(rest);
        if s[0] is Ok {
            let k = oks_before_err(s);
            assert forall|i: int| 0 <= i < k.len() implies s[i] == Ok::<T, E>(#[trigger] k[i]) by {
                if i > 0 {
                    assert(s[i] == rest[i - 1]);
                }
            }
        }
    }
}

/// A sequence has no failure exactly when every item is a success, and then
/// the scan yields every value, in order.
pub proof fn lemma_no_err<T, E>(s: Seq<Result<T, E>>)
    ensures
        first_err(s) is None <==> forall|i: int| 0 <= i < s.len() ==> (#[trigger] s[i]) is Ok,
        first_err(s) is None ==> oks_before_err(s) == s.map_values(|r: Result<T, E>| r->Ok_0),
    decreases s.len(),
{
    if s.len() > 0 {
        let rest = s.drop_first();
        lemma_no_err(rest);
        if first_err(s) is None {
            assert forall|i: int| 0 <= i < s.len() implies (#[trigger] s[i]) is Ok by {
                if i > 0 {
                    assert(s[i] == rest[i - 1]);
                }
            }
            assert(oks_before_err(s) =~= s.map_values(|r: Result<T, E>| r->Ok_0));
        } else if s[0] is Ok {
            let k = choose|k: int| 0 <= k < rest.len() && !(#[trigger] rest[k] is Ok);
            assert(s[k + 1] == rest[k]);
        }
    } else {
        assert(oks_before_err(s) =~= s.map_values(|r: Result<T, E>| r->Ok_0));
    }
}

/// Where the first failure of a sequence stands at `p`, the scan settles on
/// that failure, whatever follows it, and yields the values before it.
pub proof fn lemma_first_err_at<T, E>(s: Seq<Result<T, E>>, p: int)
    requires
        0 <= p < s.len(),
        s[p] is Err,
        forall|q: int| 0 <= q < p ==> (#[trigger] s[q]) is Ok,
    ensures
        first_err(s) == Some(s[p]->Err_0),
        oks_before_err(s) == s.take(p).map_values(|r: Result<T, E>| r->Ok_0),
    decreases p,
{
    if p > 0 {
        let rest = s.drop_first();
        assert forall|q: int| 0 <= q < p - 1 implies (#[trigger] rest[q]) is Ok by {
            assert(rest[q] == s[q + 1]);
        }
        lemma_first_err_at(rest, p - 1);
        assert(s[0] is Ok);
        assert(oks_before_err(s) =~= s.take(p).map_values(|r: Result<T, E>| r->Ok_0));
    } else {
        assert(oks_before_err(s) =~= s.take(p).map_values(|r: Result<T, E>| r->Ok_0));
    }
}

/// The values the scan yields are those of the leading items that hold one,
/// in order; right behind them stands the first absence, or the end of the
/// sequence.
pub proof fn lemma_somes_are_prefix<T>(s: Seq<Option<T>>)
    ensures
        somes_before_none(s).len() <= s.len(),
        forall|i: int| 0 <= i < somes_before_none(s).len() ==> s[i] == Some(#[trigger] somes_before_none(s)[i]),
        somes_before_none(s).len() < s.len() ==> has_none(s) && s[somes_before_none(s).len() as int] is None,
        somes_before_none(s).len() == s.len() ==> !has_none(s),
    decreases s.len(),
{
    if s.len() > 0 {
        let rest = s.drop_first();
        lemma_somes_are_prefix(rest);
        if s[0] is Some {
            let k = somes_before_none(s);
            assert forall|i: int| 0 <= i < k.len() implies s[i] == Some(#[trigger] k[i]) by {
                if i > 0 {
                    assert(s[i] == rest[i - 1]);
                }
            }
        }
    }
}

/// A sequence has no absence exactly when every item holds a value, and then
/// the scan yields every value, in order.
pub proof fn lemma_no_none<T>(s: Seq<Option<T>>)
    ensures
        !has_none(s) <==> forall|i: int| 0 <= i < s.len() ==> (#[trigger] s[i]) is Some,
        !has_none(s) ==> somes_before_none(s) == s.map_values(|o: Option<T>| o->Some_0),
    decreases s.len(),
{
    if s.len() > 0 {
        let rest = s.drop_first();
        lemma_no_none(rest);
        if !has_none(s) {
            assert forall|i: int| 0 <= i < s.len() implies (#[trigger] s[i]) is Some by {
                if i > 0 {
                    assert(s[i] == rest[i - 1]);
                }
            }
            assert(somes_before_none(s) =~= s.map_values(|o: Option<T>| o->Some_0));
        } else if s[0] is Some {
            let k = choose|k: int| 0 <= k < rest.len() && !(#[trigger] rest[k] is Some);
            assert(s[k + 1] == rest[k]);
        }
    } else {
        assert(somes_before_none(s) =~= s.map_values(|o: Option<T>| o->Some_0));
    }
}

/// Where the first absence of a sequence stands at `p`, the scan settles on an
/// absence, whatever follows, and yields the values before it.
pub proof fn lemma_first_none_at<T>(s: Seq<Option<T>>, p: int)
    requires
        0 <= p < s.len(),
        s[p] is None,
        forall|q: int| 0 <= q < p ==> (#[trigger] s[q]) is Some,
    ensures
        has_none(s),
        somes_before_none(s) == s.take(p).map_values(|o: Option<T>| o->Some_0),
    decreases p,
{
    if p > 0 {
        let rest = s.drop_first();
        assert forall|q: int| 0 <= q < p - 1 implies (#[trigger] rest[q]) is Some by {
            assert(rest[q] == s[q + 1]);
        }
        lemma_first_none_at(rest, p - 1);
        assert(s[0] is Some);
        assert(somes_before_none(s) =~= s.take(p).map_values(|o: Option<T>| o->Some_0));
    } else {
        assert(somes_before_none(s) =~= s.take(p).map_values(|o: Option<T>| o->Some_0));
    }
}

/// Two scans in layers, over items that are themselves fallible, the inner one
/// run over what the outer one yields: a failure of the outer layer wins,
/// wherever it stands and even behind a failure of the inner layer; without
/// one, the inner layer settles over every unwrapped item.
pub proof fn lemma_nested_err<T, E, O>(s: Seq<Result<Result<T, E>, E>>, o: O)
    ensures
        settle_err(s, settle_err(oks_before_err(s), o)) == match first_err(s) {
            Some(e) => Err(e),
            None => Ok(settle_err(s.map_values(|r: Result<Result<T, E>, E>| r->Ok_0), o)),
        },
{
    lemma_no_err(s);
}

/// Two scans in layers, over items that are themselves optional, the inner
/// one run over what the outer one yields: an absence in the outer layer gives
/// nothing, wherever it stands; without one, the inner layer settles over every
/// unwrapped item.
pub proof fn lemma_nested_none<T, O>(s: Seq<Option<Option<T>>>, o: O)
    ensures
        settle_none(s, settle_none(somes_before_none(s), o)) == if has_none(s) {
            None
        } else {
            Some(settle_none(s.map_values(|x: Option<Option<T>>| x->Some_0), o))
        },
{
    lemma_no_none(s);
}

} // verus!
