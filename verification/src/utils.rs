//! Mapping the `Ok` items of an iterator with a function that may fail.
//!
//! `Iterator::map` on an iterator of results, with a function that returns
//! a result too, gives results inside results. `try_map` gives plain
//! results: an `Ok` item is handed to the function and becomes what the
//! function returns, an `Err` item is converted with `From::from`.
use vstd::prelude::*;
use vstd::std_specs::convert::FromSpec;
use vstd::std_specs::iter::IteratorSpec;

verus! {

/// An iterator of results together with the function that maps its `Ok`
/// items. Made by [`TryMap::try_map`]; [`TryMapIterator::next`] hands out
/// the mapped items one by one.
#[derive(Clone)]
pub struct TryMapIterator<I, F> {
    iter: I,
    f: F,
}

impl<I, F> TryMapIterator<I, F> {
    /// The iterator whose items are mapped.
    pub closed spec fn source(&self) -> I {
        self.iter
    }

    /// The function applied to every `Ok` item.
    pub closed spec fn mapper(&self) -> F {
        self.f
    }

    /// Takes the next item of the source, if there is one, and maps it.
    ///
    /// The function has to accept the item that it is handed: the next
    /// item of the source where that is known to be `Ok`, and every value
    /// where nothing is known of what the source yields. When the source
    /// is at its end the result is `None`. When its next item is `Ok`, the
    /// result is what the function returns for it. When its next item is
    /// `Err`, the result is that error, converted.
    pub fn next<A, B, EA, EB>(&mut self) -> (ret: Option<Result<B, EB>>) where
        I: Iterator<Item = Result<A, EA>>,
        EB: From<EA>,
        F: FnMut(A) -> Result<B, EB>,

        requires
            old(self).source().obeys_prophetic_iter_laws() ==> (old(
                self,
            ).source().remaining().len() > 0 ==> (old(self).source().remaining()[0] matches Ok(a)
                ==> call_requires(old(self).mapper(), (a,)))),
            !old(self).source().obeys_prophetic_iter_laws() ==> forall|a: A|
                call_requires(old(self).mapper(), (a,)),
        ensures
            final(self).mapper() == old(self).mapper(),
            old(self).source().obeys_prophetic_iter_laws() ==> ({
                let pending = old(self).source().remaining();
                &&& final(self).source().obeys_prophetic_iter_laws()
                &&& final(self).source().remaining() == (if pending.len() > 0 {
                    pending.drop_first()
                } else {
                    pending
                })
                &&& match ret {
                    None => pending.len() == 0,
                    Some(out) => pending.len() > 0 && match pending[0] {
                        Ok(a) => call_ensures(old(self).mapper(), (a,), out),
                        Err(e) => out matches Err(converted) && (EB::obeys_from_spec()
                            ==> converted == EB::from_spec(e)),
                    },
                }
            }),
    {
        match self.iter.next() {
            None => None,
            Some(Ok(value)) => {
                assert(call_requires(old(self).mapper(), (value,)));
                Some((self.f)(value))
            },
            Some(Err(err)) => Some(Err(EB::from(err))),
        }
    }
}

pub trait TryMap {
    /// Pairs an iterator of results with a function for its `Ok` items.
    fn try_map<F, A, B, EA, EB>(self, func: F) -> (mapped: TryMapIterator<Self, F>) where
        Self: Sized + Iterator<Item = Result<A, EA>>,
        F: FnMut(A) -> Result<B, EB>,
        EB: From<EA>,

        ensures
            mapped.source() == self,
            mapped.mapper() == func,
    {
        TryMapIterator { iter: self, f: func }
    }
}

impl<I, T, E> TryMap for I where I: Sized + Iterator<Item = Result<T, E>> {

}

} // verus!
