//! Name-to-value bindings.
//!
//! A `StringMap` is a mapping from names to entries, the latest binding of a
//! name shadowing earlier ones. Its view is the plain sequence of bindings
//! in insertion order; `assoc_find` reads that sequence as a map. A lookup
//! of an unbound name is `None`, never a silent default.

use vstd::prelude::*;

verus! {

/// The latest binding of `k` in `s`, if any.
pub open spec fn assoc_find<V>(s: Seq<(Seq<char>, V)>, k: Seq<char>) -> Option<V>
    decreases s.len(),
{
    if s.len() == 0 {
        None
    } else if s.last().0 == k {
        Some(s.last().1)
    } else {
        assoc_find(s.drop_last(), k)
    }
}

/// Whether `k` is bound in `s`.
pub open spec fn assoc_has<V>(s: Seq<(Seq<char>, V)>, k: Seq<char>) -> bool {
    assoc_find(s, k) is Some
}

/// A mapping from names to entries of type `T`.
pub struct StringMap<T> {
    pairs: Vec<(String, T)>,
}

impl<T: View> View for StringMap<T> {
    type V = Seq<(Seq<char>, T::V)>;

    closed spec fn view(&self) -> Seq<(Seq<char>, T::V)> {
        Seq::new(
            self.pairs@.len(),
            |i: int|
                if 0 <= i < self.pairs@.len() {
                    (self.pairs@[i].0@, self.pairs@[i].1@)
                } else {
                    arbitrary()
                },
        )
    }
}

impl<T: View> StringMap<T> {
    /// An empty mapping.
    pub fn new() -> (r: Self)
        ensures
            r@ == Seq::<(Seq<char>, T::V)>::empty(),
    {
        let r = StringMap { pairs: Vec::new() };
        proof {
            assert(r@ =~= Seq::<(Seq<char>, T::V)>::empty());
        }
        r
    }

    /// Binds `k` to `v`, shadowing any earlier binding of `k`.
    pub fn insert(&mut self, k: String, v: T)
        ensures
            final(self)@ == old(self)@.push((k@, v@)),
    {
        let ghost k_view = k@;
        let ghost v_view = v@;
        self.pairs.push((k, v));
        proof {
            assert(final(self)@ =~= old(self)@.push((k_view, v_view)));
        }
    }

    /// The number of bindings, shadowed ones included.
    pub fn len(&self) -> (n: usize)
        ensures
            n == self@.len(),
    {
        self.pairs.len()
    }

    /// The binding at position `i`, oldest first.
    pub fn pair_at<'a>(&'a self, i: usize) -> (r: (&'a String, &'a T))
        requires
            i < self@.len(),
        ensures
            r.0@ == self@[i as int].0,
            r.1@ == self@[i as int].1,
    {
        (&self.pairs[i].0, &self.pairs[i].1)
    }

    /// The entry bound to `k`, if any.
    pub fn find<'a>(&'a self, k: &String) -> (r: Option<&'a T>)
        ensures
            match r {
                Some(t) => assoc_find(self@, k@) == Some(t@),
                None => assoc_find(self@, k@) is None,
            },
    {
        let n = self.pairs.len();
        let mut i: usize = n;
        proof {
            assert(self@.take(n as int) =~= self@);
        }
        while i > 0
            invariant
                i <= n,
                n == self.pairs@.len(),
                assoc_find(self@, k@) == assoc_find(self@.take(i as int), k@),
            decreases i,
        {
            i = i - 1;
            proof {
                assert(self@.take(i + 1).drop_last() =~= self@.take(i as int));
                assert(self@.take(i + 1).last() == self@[i as int]);
            }
            if self.pairs[i].0 == *k {
                return Some(&self.pairs[i].1);
            }
        }
        proof {
            assert(self@.take(0) =~= Seq::<(Seq<char>, T::V)>::empty());
        }
        None
    }
}

} // verus!
