use vstd::prelude::*;
use vstd::string::StringExecFns;

verus! {

/// Strand of a genomic feature: forward, reverse, or not known.
#[derive(Clone, Copy, Debug, PartialEq, Eq, Structural)]
pub enum Strand {
    Forward,
    Reverse,
    Unknown,
}

impl Strand {
    /// The suffix a stranded locus carries in its text form.
    pub open spec fn suffix(self) -> Seq<char> {
        match self {
            Strand::Forward => seq!['(', '+', ')'],
            Strand::Reverse => seq!['(', '-', ')'],
            Strand::Unknown => Seq::<char>::empty(),
        }
    }

    /// The strand of a position enumerated out of a region on this strand:
    /// enumeration runs 5' to 3', so both forward and reverse regions yield
    /// forward-equivalent positions, while an unstranded region yields
    /// unstranded positions.
    pub open spec fn position_strand(self) -> Strand {
        match self {
            Strand::Forward => Strand::Forward,
            Strand::Reverse => Strand::Forward,
            Strand::Unknown => Strand::Unknown,
        }
    }

    /// Append this strand's display suffix to `out`.
    pub fn push_suffix(self, out: String) -> (r: String)
        ensures
            r@ == out@ + self.suffix(),
    {
        proof {
            reveal_strlit("(+)");
            reveal_strlit("(-)");
            reveal_strlit("");
        }
        match self {
            Strand::Forward => out.concat("(+)"),
            Strand::Reverse => out.concat("(-)"),
            Strand::Unknown => out.concat(""),
        }
    }
}

} // verus!
