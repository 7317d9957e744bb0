//! Fresh symbolic jump targets.

use crate::bytecode::Label;
use vstd::prelude::*;

verus! {

/// Issues labels in increasing order, starting at zero.
pub struct LabelGenerator {
    next_available_label: Label,
}

impl LabelGenerator {
    /// The label that the next call of `get_new_label` returns.
    pub closed spec fn next(&self) -> nat {
        self.next_available_label as nat
    }

    /// A generator that has issued no label yet.
    pub fn new() -> (generator: Self)
        ensures
            generator.next() == 0,
    {
        LabelGenerator { next_available_label: 0 }
    }

    /// Whether every label has been issued, so that no further one can be.
    pub fn is_exhausted(&self) -> (exhausted: bool)
        ensures
            exhausted == (self.next() >= u64::MAX),
            self.next() <= u64::MAX,
    {
        self.next_available_label == u64::MAX
    }

    /// Issues the next label: the count of labels issued before it.
    pub fn get_new_label(&mut self) -> (label: Label)
        requires
            old(self).next() < u64::MAX,
        ensures
            label == old(self).next(),
            final(self).next() == old(self).next() + 1,
    {
        let label = self.next_available_label;
        self.next_available_label += 1;
        label
    }
}

} // verus!
