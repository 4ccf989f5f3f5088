use vstd::prelude::*;
use vstd::string::StringExecFns;
use crate::contig::{Contig, ContigView};
use crate::errors::InvalidRecordError;
use crate::library_strategy::LibraryType;
use crate::record::ReadRecord;
use crate::scaffold_dict::ScaffoldDict;
use crate::strand::Strand;

verus! {

/// Fragment interpretation is honored only for records in a properly paired
/// template; otherwise it is forced off.
pub open spec fn frag_mode(rec: ReadRecord, frag: bool) -> bool {
    if rec.is_proper_pair {
        frag
    } else {
        false
    }
}

/// The interval's start: the record's own mapped start, or in fragment mode
/// the leftmost edge of the template.
pub open spec fn read_start(rec: ReadRecord, frag: bool) -> int {
    if frag_mode(rec, frag) {
        if rec.pos <= rec.mpos {
            rec.pos as int
        } else {
            rec.mpos as int
        }
    } else {
        rec.pos as int
    }
}

/// The interval's exclusive end: the CIGAR-derived end (falling back to
/// start plus sequence length), or in fragment mode the template start plus
/// the absolute insert size.
pub open spec fn read_end(rec: ReadRecord, frag: bool) -> int {
    if frag_mode(rec, frag) {
        read_start(rec, frag) + if rec.insert_size < 0 {
            -rec.insert_size as int
        } else {
            rec.insert_size as int
        }
    } else {
        match rec.cigar_end {
            Some(e) => e as int,
            None => rec.pos + rec.seq_len,
        }
    }
}

/// The record's raw alignment orientation as a strand.
pub open spec fn raw_strand(rec: ReadRecord) -> Strand {
    if rec.is_reverse {
        Strand::Reverse
    } else {
        Strand::Forward
    }
}

/// The strand assigned under a library protocol: `Unknown` when strand is
/// not requested; the read-1/read-2 sense rules for `R1Sense` and `R2Sense`,
/// whatever the fragment interpretation; and the raw alignment orientation
/// for the protocol-agnostic library types.
pub open spec fn protocol_strand(rec: ReadRecord, use_strand: bool, lt: LibraryType) -> Strand {
    if !use_strand {
        Strand::Unknown
    } else {
        match lt {
            LibraryType::R1Sense => if rec.is_first_in_template && rec.is_reverse {
                Strand::Reverse
            } else {
                Strand::Forward
            },
            LibraryType::R2Sense => if rec.is_first_in_template && rec.is_reverse {
                Strand::Forward
            } else {
                Strand::Reverse
            },
            _ => raw_strand(rec),
        }
    }
}

/// The interval a mapped record converts to, given its resolved scaffold
/// name and assigned strand.
pub open spec fn read_contig(rec: ReadRecord, frag: bool, name: Seq<char>, strand: Strand) -> ContigView {
    ContigView {
        refid: name,
        start: read_start(rec, frag),
        length: (read_end(rec, frag) - read_start(rec, frag)) as nat,
        strand,
    }
}

impl ReadRecord {
    /// Convert one alignment record into an interval under a library
    /// protocol, or explain why it cannot be converted: an unmapped record
    /// fails with `UnmappedRecord`, a reference identifier the scaffold
    /// dictionary does not know fails with `UnknownScaffold`.
    pub fn as_contig(&self, use_strand: bool, frag: bool, sd: &ScaffoldDict, lt: LibraryType) -> (r:
        Result<Contig, InvalidRecordError>)
        requires
            self.wf(),
        ensures
            self.is_unmapped ==> (r matches Err(e) && e is UnmappedRecord),
            !self.is_unmapped && sd.id_lookup(self.tid as int) is None ==> (r matches Err(e)
                && e is UnknownScaffold),
            !self.is_unmapped ==> (sd.id_lookup(self.tid as int) matches Some(nm) ==> (r matches Ok(
                c,
            ) && c@ == read_contig(*self, frag, nm, protocol_strand(*self, use_strand, lt))
                && c@.wf())),
    {
        if self.is_unmapped {
            return Err(InvalidRecordError::UnmappedRecord);
        }
        let as_frag: bool = if self.is_proper_pair {
            frag
        } else {
            false
        };
        let start: i64 = if as_frag {
            if self.pos <= self.mpos {
                self.pos
            } else {
                self.mpos
            }
        } else {
            self.pos
        };
        let end: i64 = if as_frag {
            start + (if self.insert_size < 0 {
                -self.insert_size
            } else {
                self.insert_size
            })
        } else {
            match self.cigar_end {
                Some(e) => e,
                None => self.pos + (self.seq_len as i64),
            }
        };
        let strand: Strand = if !use_strand {
            Strand::Unknown
        } else {
            match lt {
                LibraryType::R1Sense => if self.is_first_in_template && self.is_reverse {
                    Strand::Reverse
                } else {
                    Strand::Forward
                },
                LibraryType::R2Sense => if self.is_first_in_template && self.is_reverse {
                    Strand::Forward
                } else {
                    Strand::Reverse
                },
                _ => if self.is_reverse {
                    Strand::Reverse
                } else {
                    Strand::Forward
                },
            }
        };
        match sd.id_to_str(self.tid) {
            None => Err(InvalidRecordError::UnknownScaffold),
            Some(nm) => Ok(Contig::new(String::from_str(nm), start, (end - start) as u64, strand)),
        }
    }
}

impl Contig {
    /// Convert one alignment record into an interval stranded by its raw
    /// alignment orientation, or explain why it cannot be converted.
    pub fn from_read(rec: &ReadRecord, frag: bool, sd: &ScaffoldDict) -> (r: Result<
        Contig,
        InvalidRecordError,
    >)
        requires
            rec.wf(),
        ensures
            rec.is_unmapped ==> (r matches Err(e) && e is UnmappedRecord),
            !rec.is_unmapped && sd.id_lookup(rec.tid as int) is None ==> (r matches Err(e)
                && e is UnknownScaffold),
            !rec.is_unmapped ==> (sd.id_lookup(rec.tid as int) matches Some(nm) ==> (r matches Ok(c)
                && c@ == read_contig(*rec, frag, nm, raw_strand(*rec)) && c@.wf())),
    {
        rec.as_contig(true, frag, sd, LibraryType::Unstranded)
    }
}

/// A record-like value held for conversion into a range-like structure.
pub struct Locus<T> {
    r: T,
}

impl<T> Locus<T> {
    /// The wrapped record.
    pub closed spec fn inner(self) -> T {
        self.r
    }

    /// Wrap a record-like value.
    pub fn new(r: T) -> (s: Self)
        ensures
            s.inner() == r,
    {
        Locus { r }
    }
}

impl Locus<ReadRecord> {
    /// Convert the wrapped alignment record into an interval spanning the
    /// record's own alignment, stranded by raw orientation when requested.
    pub fn as_contig(&self, use_strand: bool, sd: &ScaffoldDict) -> (r: Result<
        Contig,
        InvalidRecordError,
    >)
        requires
            self.inner().wf(),
        ensures
            self.inner().is_unmapped ==> (r matches Err(e) && e is UnmappedRecord),
            !self.inner().is_unmapped && sd.id_lookup(self.inner().tid as int) is None ==> (
            r matches Err(e) && e is UnknownScaffold),
            !self.inner().is_unmapped ==> (sd.id_lookup(self.inner().tid as int) matches Some(nm)
                ==> (r matches Ok(c) && c@ == read_contig(
                self.inner(),
                false,
                nm,
                if use_strand {
                    raw_strand(self.inner())
                } else {
                    Strand::Unknown
                },
            ) && c@.wf())),
    {
        self.r.as_contig(use_strand, false, sd, LibraryType::Unstranded)
    }
}

} // verus!
