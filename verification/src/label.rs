//! Symbolic labels for the emitted assembly. A compilation owns one
//! `Labeler`, a monotonically increasing counter; every label it vends is
//! distinct from every other, which is what makes the label namespace of a
//! module unique.

use vstd::prelude::*;
use vstd::string::StringExecFns;

use crate::text::dec_str;
use crate::text::spec_dec;

verus! {

/// The text of the local label with number `n`, without the defining colon.
pub open spec fn spec_label_text(n: nat) -> Seq<char> {
    "label_"@ + spec_dec(n)
}

/// A local label token: renders as `label_<n>`.
pub struct Label {
    pub number: usize,
}

impl Label {
    /// The textual form of the label, `label_<n>`.
    pub fn render(&self) -> (r: String)
        ensures
            r@ == spec_label_text(self.number as nat),
    {
        let mut r = String::from_str("label_");
        r.append(dec_str(self.number as u64).as_str());
        proof {
            assert(r@ =~= spec_label_text(self.number as nat));
        }
        r
    }
}

/// Vends fresh labels: `next` never returns the same number twice.
pub struct Labeler {
    pub index: usize,
}

impl Labeler {
    /// A fresh allocator whose first label is number 0.
    pub fn new() -> (r: Labeler)
        ensures
            r.index == 0,
    {
        Labeler { index: 0 }
    }

    /// Allocates the next label.
    pub fn next(&mut self) -> (r: Label)
        requires
            old(self).index < usize::MAX,
        ensures
            r.number == old(self).index,
            final(self).index == old(self).index + 1,
    {
        let index = self.index;
        self.index += 1;
        Label { number: index }
    }
}

} // verus!
