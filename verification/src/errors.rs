use vstd::prelude::*;
use vstd::string::StringExecFns;

verus! {

/// Why an alignment record could not be converted into an interval, or why a
/// region-restricted scan could not be started.
#[derive(Clone, Copy, Debug, PartialEq, Eq, Structural)]
pub enum InvalidRecordError {
    /// The record has no alignment position.
    UnmappedRecord,
    /// The record's reference identifier is absent from the scaffold dictionary.
    UnknownScaffold,
    /// The record is unpaired but the chosen interpretation requires pairs.
    /// Reserved for pairing validation; not raised by the current pipeline.
    UnpairedRecord,
    /// A requested region could not be resolved against an indexed reader.
    NoneSuchRecord,
}

impl InvalidRecordError {
    /// A short human-readable description of the failure.
    pub fn describe(&self) -> (r: String)
        ensures
            *self is UnmappedRecord ==> r@ == "Record is unmapped"@,
            *self is UnknownScaffold ==> r@ == "Record tid not present in provided scaffold dict"@,
            *self is UnpairedRecord ==> r@ == "Record is unpaired but your library interpretation requires pairs"@,
            *self is NoneSuchRecord ==> r@ == "No such region or record"@,
    {
        match self {
            InvalidRecordError::UnmappedRecord => String::from_str("Record is unmapped"),
            InvalidRecordError::UnknownScaffold => String::from_str(
                "Record tid not present in provided scaffold dict",
            ),
            InvalidRecordError::UnpairedRecord => String::from_str(
                "Record is unpaired but your library interpretation requires pairs",
            ),
            InvalidRecordError::NoneSuchRecord => String::from_str("No such region or record"),
        }
    }
}

} // verus!
