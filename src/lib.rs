//! Find the first failure in a lazy sequence of fallible items, or compute a
//! value from all its successes, without collecting the sequence.
//!
//! [`FirstErr::first_err_or_else`] wraps an iterator over `Result` items in a
//! [`FirstErrIter`], which yields the success values and keeps the first
//! failure, and hands it to a function. Once the function returns, whatever it
//! left unread is drained, and the first failure of the whole source, if any,
//! wins over the function's output. [`FirstErr::first_none_or_else`] and
//! [`FirstNoneIter`] do the same for `Option` items.
//!
//! The contracts speak of what a source will still produce, its prophesied
//! `remaining()` sequence, and the model of a scan over such a sequence lives
//! in [`scan`]. A source must keep the laws of `Iterator::next` and have a
//! measure, `decrease()`, that lets it be run to its end. The function handed
//! the adapter may read it as far as it likes and must not otherwise change
//! where it will settle. The adapter is read through its own `next` method.
use vstd::prelude::*;
use vstd::std_specs::iter::IteratorSpec;

pub mod scan;
pub mod result;
pub mod option;

pub use result::FirstErrIter;
pub use option::FirstNoneIter;

use crate::scan::{first_err, has_none, settle_err, settle_err_try, settle_none, settle_none_try};

verus! {

/// The first failure, or a value computed from the successes, of any iterator
/// over `Result` items; and the same for iterators over `Option` items.
pub trait FirstErr: Iterator {
    /// See [`FirstErrIter::first_err_or_else`].
    fn first_err_or_else<T, E, O, F>(self, f: F) -> (r: Result<O, E>)
        where
            F: FnOnce(&mut FirstErrIter<Self, T, E>) -> O,
            Self: Iterator<Item = Result<T, E>> + Sized,
        requires
            self.obeys_prophetic_iter_laws(),
            self.decrease() is Some,
            forall|a: &mut FirstErrIter<Self, T, E>| a.state() == result::State::<Self, E>::Active(self) ==> #[trigger] f.requires((a,)),
            forall|a: &mut FirstErrIter<Self, T, E>, o: O| #[trigger] f.ensures((a,), o) ==>
                final(a).outcome(final(a).source().remaining()) == a.outcome(a.source().remaining()),
        ensures
            exists|a: &mut FirstErrIter<Self, T, E>, o: O|
                a.state() == result::State::<Self, E>::Active(self) && #[trigger] f.ensures((a,), o) && r == settle_err(self.remaining(), o),
            first_err(self.remaining()) matches Some(e) ==> r == Err::<O, E>(e),
    {
        FirstErrIter::first_err_or_else(self, f)
    }

    /// Like `first_err_or_else`, where `f` may fail too: a failure of the
    /// source comes first, then one of `f`.
    fn first_err_or_try<T, E, O, F>(self, f: F) -> (r: Result<O, E>)
        where
            F: FnOnce(&mut FirstErrIter<Self, T, E>) -> Result<O, E>,
            Self: Iterator<Item = Result<T, E>> + Sized,
        requires
            self.obeys_prophetic_iter_laws(),
            self.decrease() is Some,
            forall|a: &mut FirstErrIter<Self, T, E>| a.state() == result::State::<Self, E>::Active(self) ==> #[trigger] f.requires((a,)),
            forall|a: &mut FirstErrIter<Self, T, E>, o: Result<O, E>| #[trigger] f.ensures((a,), o) ==>
                final(a).outcome(final(a).source().remaining()) == a.outcome(a.source().remaining()),
        ensures
            exists|a: &mut FirstErrIter<Self, T, E>, o: Result<O, E>|
                a.state() == result::State::<Self, E>::Active(self) && #[trigger] f.ensures((a,), o) && r == settle_err_try(self.remaining(), o),
            first_err(self.remaining()) matches Some(e) ==> r == Err::<O, E>(e),
    {
        match self.first_err_or_else(f) {
            Ok(res) => res,
            Err(e) => Err(e),
        }
    }

    /// The first failure of the source, or `value` if there is none.
    fn first_err_or<T, E, O>(self, value: O) -> (r: Result<O, E>)
        where
            Self: Iterator<Item = Result<T, E>> + Sized,
        requires
            self.obeys_prophetic_iter_laws(),
            self.decrease() is Some,
        ensures
            r == settle_err(self.remaining(), value),
    {
        let give = move |it: &mut FirstErrIter<Self, T, E>| -> (o: O)
            ensures
                *final(it) == *old(it),
                o == value,
        {
            value
        };
        self.first_err_or_else(give)
    }

    /// See [`FirstNoneIter::first_none_or_else`].
    fn first_none_or_else<T, O, F>(self, f: F) -> (r: Option<O>)
        where
            F: FnOnce(&mut FirstNoneIter<Self, T>) -> O,
            Self: Iterator<Item = Option<T>> + Sized,
        requires
            self.obeys_prophetic_iter_laws(),
            self.decrease() is Some,
            forall|a: &mut FirstNoneIter<Self, T>| a.state() == option::State::<Self>::Active(self) ==> #[trigger] f.requires((a,)),
            forall|a: &mut FirstNoneIter<Self, T>, o: O| #[trigger] f.ensures((a,), o) ==>
                final(a).outcome(final(a).source().remaining()) == a.outcome(a.source().remaining()),
        ensures
            exists|a: &mut FirstNoneIter<Self, T>, o: O|
                a.state() == option::State::<Self>::Active(self) && #[trigger] f.ensures((a,), o) && r == settle_none(self.remaining(), o),
            has_none(self.remaining()) ==> r is None,
    {
        FirstNoneIter::first_none_or_else(self, f)
    }

    /// Like `first_none_or_else`, where `f` may come back empty too: an
    /// absence in the source, or an empty result of `f`, gives `None`.
    fn first_none_or_try<T, O, F>(self, f: F) -> (r: Option<O>)
        where
            F: FnOnce(&mut FirstNoneIter<Self, T>) -> Option<O>,
            Self: Iterator<Item = Option<T>> + Sized,
        requires
            self.obeys_prophetic_iter_laws(),
            self.decrease() is Some,
            forall|a: &mut FirstNoneIter<Self, T>| a.state() == option::State::<Self>::Active(self) ==> #[trigger] f.requires((a,)),
            forall|a: &mut FirstNoneIter<Self, T>, o: Option<O>| #[trigger] f.ensures((a,), o) ==>
                final(a).outcome(final(a).source().remaining()) == a.outcome(a.source().remaining()),
        ensures
            exists|a: &mut FirstNoneIter<Self, T>, o: Option<O>|
                a.state() == option::State::<Self>::Active(self) && #[trigger] f.ensures((a,), o) && r == settle_none_try(self.remaining(), o),
            has_none(self.remaining()) ==> r is None,
    {
        match self.first_none_or_else(f) {
            Some(res) => res,
            None => None,
        }
    }

    /// `None` if the source holds an absence, else `Some(value)`.
    fn first_none_or<T, O>(self, value: O) -> (r: Option<O>)
        where
            Self: Iterator<Item = Option<T>> + Sized,
        requires
            self.obeys_prophetic_iter_laws(),
            self.decrease() is Some,
        ensures
            r == settle_none(self.remaining(), value),
    {
        let give = move |it: &mut FirstNoneIter<Self, T>| -> (o: O)
            ensures
                *final(it) == *old(it),
                o == value,
        {
            value
        };
        self.first_none_or_else(give)
    }
}

impl<I> FirstErr for I where I: Iterator {}

} // verus!
