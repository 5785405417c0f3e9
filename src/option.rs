//! The adapter over a source of `Option` items, and the driver that runs a
//! caller's function over it.
use vstd::prelude::*;
use vstd::std_specs::iter::IteratorSpec;
use crate::scan::{has_none, somes_before_none, settle_none};

verus! {

/// Where a [`FirstNoneIter`] stands. It only ever moves from `Active` to one
/// of the two others, and never back.
pub enum State<I> {
    /// The source may still produce items, and no absence has been seen.
    Active(I),
    /// The source produced an absence; the source itself was dropped.
    FoundFirstNone,
    /// The source ran out without an absence.
    Exhausted,
}

/// Yields the values of its source, up to the first absence, which it notes.
/// After its first `None` it yields nothing more, whatever the source would do.
#[verifier::reject_recursive_types(T)]
pub struct FirstNoneIter<I, T> where I: Iterator<Item = Option<T>> {
    state: State<I>,
}

impl<I, T> FirstNoneIter<I, T> where I: Iterator<Item = Option<T>> {
    /// The state of the adapter.
    pub closed spec fn state(&self) -> State<I> {
        self.state
    }

    /// The source, while the adapter is active.
    pub open spec fn source(&self) -> I {
        self.state()->Active_0
    }

    /// The values that the adapter will still yield, where `rem` is what its
    /// source will still produce.
    pub open spec fn pending(&self, rem: Seq<Option<T>>) -> Seq<T> {
        match self.state() {
            State::Active(_) => somes_before_none(rem),
            _ => Seq::empty(),
        }
    }

    /// Whether the adapter settles on an absence, where `rem` is what its
    /// source will still produce: one was seen, or one is still to come.
    pub open spec fn outcome(&self, rem: Seq<Option<T>>) -> bool {
        match self.state() {
            State::Active(_) => has_none(rem),
            State::FoundFirstNone => true,
            State::Exhausted => false,
        }
    }

    /// Decreases with each call of `next` while the adapter is active, and is
    /// zero once it is not.
    pub closed spec fn measure(&self) -> nat {
        match self.state {
            State::Active(s) => s.decrease()->0 + 1,
            _ => 0,
        }
    }

    /// The source keeps the laws of `Iterator::next` and has a measure of
    /// its own, so that it can be run to its end.
    #[verifier::type_invariant]
    closed spec fn wf(self) -> bool {
        self.state matches State::Active(s) ==> s.obeys_prophetic_iter_laws() && s.decrease() is Some
    }

    /// Yields the next value of the source. An absence from the source is
    /// noted and ends the sequence, as does the end of the source; from then
    /// on the source is never asked again.
    pub fn next(&mut self) -> (ret: Option<T>)
        ensures
            !(old(self).state() is Active) ==> ret is None && final(self).state() == old(self).state(),
            ret is None ==> !(final(self).state() is Active),
            old(self).state() is Active ==> ({
                let rem = old(self).source().remaining();
                if rem.len() == 0 {
                    ret is None && final(self).state() is Exhausted
                } else {
                    match rem[0] {
                        Some(t) => {
                            &&& ret == Some(t)
                            &&& final(self).state() is Active
                            &&& final(self).source().remaining() == rem.drop_first()
                        },
                        None => ret is None && final(self).state() is FoundFirstNone,
                    }
                }
            }),
            final(self).outcome(final(self).source().remaining()) == old(self).outcome(
                old(self).source().remaining(),
            ),
            ({
                let p = old(self).pending(old(self).source().remaining());
                if p.len() > 0 {
                    &&& ret == Some(p[0])
                    &&& final(self).pending(final(self).source().remaining()) == p.drop_first()
                } else {
                    ret is None
                }
            }),
            old(self).state() is Active ==> final(self).measure() < old(self).measure(),
    {
        proof {
            use_type_invariant(&*self);
        }
        let mut taken = State::Exhausted;
        std::mem::swap(&mut self.state, &mut taken);
        match taken {
            State::Active(mut inner) => match inner.next() {
                Some(Some(t)) => {
                    self.state = State::Active(inner);
                    Some(t)
                },
                Some(None) => {
                    self.state = State::FoundFirstNone;
                    None
                },
                None => None,
            },
            other => {
                self.state = other;
                None
            },
        }
    }

    /// Hands a fresh adapter over `inner` to `f`, then settles: `None` if the
    /// whole source holds an absence, anywhere, else what `f` returned. What
    /// `f` left unread is drained here, up to the first absence.
    ///
    /// `f` may pull as many items from the adapter as it likes and do nothing
    /// else to it: it must leave what the adapter settles on as it found it.
    pub fn first_none_or_else<O, F>(inner: I, f: F) -> (r: Option<O>)
        where
            F: FnOnce(&mut Self) -> O,
        requires
            inner.obeys_prophetic_iter_laws(),
            inner.decrease() is Some,
            forall|a: &mut Self| a.state() == State::<I>::Active(inner) ==> #[trigger] f.requires((a,)),
            forall|a: &mut Self, o: O| #[trigger] f.ensures((a,), o) ==>
                final(a).outcome(final(a).source().remaining()) == a.outcome(a.source().remaining()),
        ensures
            exists|a: &mut Self, o: O|
                a.state() == State::<I>::Active(inner) && #[trigger] f.ensures((a,), o) && r == settle_none(inner.remaining(), o),
            has_none(inner.remaining()) ==> r is None,
    {
        let mut me = FirstNoneIter { state: State::Active(inner) };
        let output = f(&mut me);
        proof {
            use_type_invariant(&me);
        }
        match me.state {
            State::Active(rest) => if drain_for_none(rest) {
                None
            } else {
                Some(output)
            },
            State::Exhausted => Some(output),
            State::FoundFirstNone => None,
        }
    }
}

/// Runs `inner` to its end, or to its first absence; tells whether there was one.
fn drain_for_none<I, T>(inner: I) -> (r: bool)
    where
        I: Iterator<Item = Option<T>>,
    requires
        inner.obeys_prophetic_iter_laws(),
        inner.decrease() is Some,
    ensures
        r == has_none(inner.remaining()),
{
    let ghost start = inner;
    let mut rest = inner;
    loop
        invariant
            rest.obeys_prophetic_iter_laws(),
            rest.decrease() is Some,
            has_none(rest.remaining()) == has_none(start.remaining()),
            start == inner,
        decreases rest.decrease()->0,
    {
        match rest.next() {
            Some(Some(_)) => {},
            Some(None) => return true,
            None => return false,
        }
    }
}

} // verus!
