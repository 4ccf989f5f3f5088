use vstd::prelude::*;

verus! {

/// Sequencing-library protocol selector.
///
/// Only `R1Sense` and `R2Sense` alter strand assignment; the remaining
/// variants follow the raw alignment orientation and are kept for provenance.
#[derive(Clone, Copy, Debug, PartialEq, Eq, Structural)]
pub enum LibraryType {
    R1Sense,
    R2Sense,
    Unstranded,
    ATAC,
    DNase,
}

/// Which strand bucket a quantification query counts.
#[derive(Clone, Copy, Debug, PartialEq, Eq, Structural)]
pub enum CountStrand {
    Plus,
    Minus,
    Both,
}

} // verus!
