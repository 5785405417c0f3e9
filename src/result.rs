//! The adapter over a source of `Result` items, and the driver that runs a
//! caller's function over it.
use vstd::prelude::*;
use vstd::std_specs::iter::IteratorSpec;
use crate::scan::{first_err, oks_before_err, settle_err};

verus! {

/// Where a [`FirstErrIter`] stands. It only ever moves from `Active` to one of
/// the two others, and never back.
pub enum State<I, E> {
    /// The source may still produce items, and no failure has been seen.
    Active(I),
    /// The source produced this failure; the source itself was dropped.
    FoundFirstErr(E),
    /// The source ran out without a failure.
    Exhausted,
}

/// Yields the success values of its source, up to the first failure, which it
/// keeps. After its first `None` it yields nothing more, whatever the source
/// would do.
#[verifier::reject_recursive_types(T)]
#[verifier::reject_recursive_types(E)]
pub struct FirstErrIter<I, T, E> where I: Iterator<Item = Result<T, E>> {
    state: State<I, E>,
}

impl<I, T, E> FirstErrIter<I, T, E> where I: Iterator<Item = Result<T, E>> {
    /// The state of the adapter.
    pub closed spec fn state(&self) -> State<I, E> {
        self.state
    }

    /// The source, while the adapter is active.
    pub open spec fn source(&self) -> I {
        self.state()->Active_0
    }

    /// The values that the adapter will still yield, where `rem` is what its
    /// source will still produce.
    pub open spec fn pending(&self, rem: Seq<Result<T, E>>) -> Seq<T> {
        match self.state() {
            State::Active(_) => oks_before_err(rem),
            _ => Seq::empty(),
        }
    }

    /// The failure that the adapter settles on, where `rem` is what its source
    /// will still produce: the one it holds, or the first one still to come.
    pub open spec fn outcome(&self, rem: Seq<Result<T, E>>) -> Option<E> {
        match self.state() {
            State::Active(_) => first_err(rem),
            State::FoundFirstErr(e) => Some(e),
            State::Exhausted => None,
        }
    }

    /// Decreases with each call of `next` while the adapter is active, and is
    /// zero once it is not.
    pub closed spec fn measure(&self) -> nat {
        match self.state {
            State::Active(s) => s.decrease()->0 + 1,
            _ => 0,
        }
    }

    /// The source keeps the laws of `Iterator::next` and has a measure of
    /// its own, so that it can be run to its end.
    #[verifier::type_invariant]
    closed spec fn wf(self) -> bool {
        self.state matches State::Active(s) ==> s.obeys_prophetic_iter_laws() && s.decrease() is Some
    }

    /// Yields the next success of the source. A failure of the source is kept
    /// and ends the sequence, as does the end of the source; from then on the
    /// source is never asked again.
    pub fn next(&mut self) -> (ret: Option<T>)
        ensures
            !(old(self).state() is Active) ==> ret is None && final(self).state() == old(self).state(),
            ret is None ==> !(final(self).state() is Active),
            old(self).state() is Active ==> ({
                let rem = old(self).source().remaining();
                if rem.len() == 0 {
                    ret is None && final(self).state() is Exhausted
                } else {
                    match rem[0] {
                        Ok(t) => {
                            &&& ret == Some(t)
                            &&& final(self).state() is Active
                            &&& final(self).source().remaining() == rem.drop_first()
                        },
                        Err(e) => ret is None && final(self).state() == State::<I, E>::FoundFirstErr(e),
                    }
                }
            }),
            final(self).outcome(final(self).source().remaining()) == old(self).outcome(
                old(self).source().remaining(),
            ),
            ({
                let p = old(self).pending(old(self).source().remaining());
                if p.len() > 0 {
                    &&& ret == Some(p[0])
                    &&& final(self).pending(final(self).source().remaining()) == p.drop_first()
                } else {
                    ret is None
                }
            }),
            old(self).state() is Active ==> final(self).measure() < old(self).measure(),
    {
        proof {
            use_type_invariant(&*self);
        }
        let mut taken = State::Exhausted;
        std::mem::swap(&mut self.state, &mut taken);
        match taken {
            State::Active(mut inner) => match inner.next() {
                Some(Ok(t)) => {
                    self.state = State::Active(inner);
                    Some(t)
                },
                Some(Err(e)) => {
                    self.state = State::FoundFirstErr(e);
                    None
                },
                None => None,
            },
            other => {
                self.state = other;
                None
            },
        }
    }

    /// Hands a fresh adapter over `inner` to `f`, then settles: the first
    /// failure of the whole source if there is one, anywhere, else what `f`
    /// returned. What `f` left unread is drained here, up to the first failure.
    ///
    /// `f` may pull as many items from the adapter as it likes and do nothing
    /// else to it: it must leave the failure that the adapter settles on as it found it.
    pub fn first_err_or_else<O, F>(inner: I, f: F) -> (r: Result<O, E>)
        where
            F: FnOnce(&mut Self) -> O,
        requires
            inner.obeys_prophetic_iter_laws(),
            inner.decrease() is Some,
            forall|a: &mut Self| a.state() == State::<I, E>::Active(inner) ==> #[trigger] f.requires((a,)),
            forall|a: &mut Self, o: O| #[trigger] f.ensures((a,), o) ==>
                final(a).outcome(final(a).source().remaining()) == a.outcome(a.source().remaining()),
        ensures
            exists|a: &mut Self, o: O|
                a.state() == State::<I, E>::Active(inner) && #[trigger] f.ensures((a,), o) && r == settle_err(inner.remaining(), o),
            first_err(inner.remaining()) matches Some(e) ==> r == Err::<O, E>(e),
    {
        let mut me = FirstErrIter { state: State::Active(inner) };
        let output = f(&mut me);
        proof {
            use_type_invariant(&me);
        }
        match me.state {
            State::Active(rest) => match drain_for_err(rest) {
                Some(e) => Err(e),
                None => Ok(output),
            },
            State::Exhausted => Ok(output),
            State::FoundFirstErr(e) => Err(e),
        }
    }
}

/// Runs `inner` to its end, or to its first failure, which it returns.
fn drain_for_err<I, T, E>(inner: I) -> (r: Option<E>)
    where
        I: Iterator<Item = Result<T, E>>,
    requires
        inner.obeys_prophetic_iter_laws(),
        inner.decrease() is Some,
    ensures
        r == first_err(inner.remaining()),
{
    let ghost start = inner;
    let mut rest = inner;
    loop
        invariant
            rest.obeys_prophetic_iter_laws(),
            rest.decrease() is Some,
            first_err(rest.remaining()) == first_err(start.remaining()),
            start == inner,
        decreases rest.decrease()->0,
    {
        match rest.next() {
            Some(Ok(_)) => {},
            Some(Err(e)) => return Some(e),
            None => return None,
        }
    }
}

} // verus!
