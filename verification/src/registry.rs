//! An explicitly owned scheme registry.
//!
//! Generic callers dispatch to an adapter purely from a URL's scheme. The
//! registry is an owned object handed by reference to whoever needs
//! dispatch, with insert-or-replace semantics: registering a scheme that is
//! already present is not an error, and the later registration is the one
//! subsequently dispatched to.

use vstd::prelude::*;

use crate::options::str_eq;

verus! {

/// The registrations, in order. A later entry for the same scheme
/// supersedes an earlier one; lookup always dispatches to the most recent.
pub struct SchemeRegistry<F> {
    entries: Vec<(String, F)>,
}

/// The mapping that a registration sequence denotes: later entries win.
pub open spec fn entries_map<F>(s: Seq<(String, F)>) -> Map<Seq<char>, F>
    decreases s.len(),
{
    if s.len() == 0 {
        Map::empty()
    } else {
        entries_map(s.drop_last()).insert(s.last().0@, s.last().1)
    }
}

impl<F> View for SchemeRegistry<F> {
    type V = Map<Seq<char>, F>;

    closed spec fn view(&self) -> Map<Seq<char>, F> {
        entries_map(self.entries@)
    }
}

impl<F> SchemeRegistry<F> {
    /// A registry with no registrations.
    pub fn new() -> (r: Self)
        ensures
            r@ == Map::<Seq<char>, F>::empty(),
    {
        SchemeRegistry { entries: Vec::new() }
    }

    /// Registers an adapter for a scheme. Never fails: a scheme already
    /// present is overwritten.
    pub fn register(&mut self, scheme: String, adapter: F)
        ensures
            final (self)@ == old(self)@.insert(scheme@, adapter),
    {
        self.entries.push((scheme, adapter));
        proof {
            assert(self.entries@.drop_last() =~= old(self).entries@);
        }
    }

    /// The adapter most recently registered for a scheme, if any.
    pub fn lookup(&self, scheme: &str) -> (r: Option<&F>)
        ensures
            match r {
                Some(f) => self@.dom().contains(scheme@) && *f == self@[scheme@],
                None => !self@.dom().contains(scheme@),
            },
    {
        let mut i: usize = self.entries.len();
        proof {
            assert(self.entries@.take(i as int) =~= self.entries@);
        }
        loop
            invariant
                i <= self.entries@.len(),
                entries_map(self.entries@).contains_key(scheme@) == entries_map(
                    self.entries@.take(i as int),
                ).contains_key(scheme@),
                entries_map(self.entries@.take(i as int)).contains_key(scheme@)
                    ==> entries_map(self.entries@)[scheme@] == entries_map(
                    self.entries@.take(i as int),
                )[scheme@],
            decreases i,
        {
            if i == 0 {
                proof {
                    assert(self.entries@.take(0) =~= Seq::<(String, F)>::empty());
                }
                return None;
            }
            i = i - 1;
            proof {
                assert(self.entries@.take(i + 1).drop_last() =~= self.entries@.take(i as int));
                assert(self.entries@.take(i + 1).last() == self.entries@[i as int]);
            }
            if str_eq(self.entries[i].0.as_str(), scheme) {
                return Some(&self.entries[i].1);
            }
        }
    }
}

/// Law: re-registering the same scheme is not an error, and the second
/// registration is the one subsequently dispatched to.
pub proof fn lemma_reregistration_wins<F>(m: Map<Seq<char>, F>, scheme: Seq<char>, f1: F, f2: F)
    ensures
        m.insert(scheme, f1).insert(scheme, f2) == m.insert(scheme, f2),
        m.insert(scheme, f1).insert(scheme, f2)[scheme] == f2,
{
    assert(m.insert(scheme, f1).insert(scheme, f2) =~= m.insert(scheme, f2));
}

} // verus!
