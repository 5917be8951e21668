//! Coupling ports: a typed, last-writer-wins exchange slot. One solver
//! publishes a value of the contract type into it; others read the most
//! recently published value. The slot is not a queue.

use vstd::prelude::*;

verus! {

/// A typed exchange slot: the coupling contract between solvers.
pub struct Port<T> {
    value: Option<T>,
}

impl<T> View for Port<T> {
    type V = Option<T>;

    /// The most recently published value, if any.
    closed spec fn view(&self) -> Option<T> {
        self.value
    }
}

impl<T> Default for Port<T> {
    fn default() -> (p: Self)
        ensures
            p@ is None,
    {
        Port { value: None }
    }
}

impl<T> Port<T> {
    /// A fresh, empty port.
    pub fn new() -> (p: Self)
        ensures
            p@ is None,
    {
        Port { value: None }
    }

    /// The most recently published value, or `None` before any publication.
    pub fn get(&self) -> (r: Option<&T>)
        ensures
            match self@ {
                Some(v) => r == Some(&v),
                None => r is None,
            },
    {
        self.value.as_ref()
    }

    /// Publish a value, replacing any previous one (last-writer-wins).
    pub fn set(&mut self, v: T)
        ensures
            final(self)@ == published(old(self)@, v),
    {
        self.value = Some(v);
    }

    /// Whether a producer has published at least once.
    pub fn is_published(&self) -> (b: bool)
        ensures
            b == self@ is Some,
    {
        self.value.is_some()
    }
}

/// The state of a port holding `p` once `v` is published into it.
pub open spec fn published<T>(p: Option<T>, v: T) -> Option<T> {
    Some(v)
}

/// Last writer wins: after any sequence of publications ending in `last`, the
/// port reads `last` and counts as published.
pub proof fn law_last_writer_wins<T>(p: Option<T>, first: T, last: T)
    ensures
        published(published(p, first), last) == Some(last),
        published(p, last) == Some(last),
{
}

} // verus!
