use vstd::prelude::*;

verus! {

/// The fields of one alignment record that interval conversion reads.
///
/// A record is extracted once from the alignment source at the edge of the
/// system and handed to the conversion pipeline as plain values.
/// `cigar_end` is the alignment's CIGAR-derived exclusive end coordinate,
/// when one is available.
#[derive(Clone, Copy, Debug, PartialEq, Eq, Structural)]
pub struct ReadRecord {
    /// Reference sequence identifier, file-local.
    pub tid: i32,
    /// 0-based leftmost mapped coordinate.
    pub pos: i64,
    /// 0-based leftmost mapped coordinate of the mate.
    pub mpos: i64,
    /// Signed template insert size.
    pub insert_size: i64,
    /// Length of the read sequence.
    pub seq_len: u64,
    /// CIGAR-derived exclusive end coordinate, if available.
    pub cigar_end: Option<i64>,
    /// Mapping quality.
    pub mapq: u8,
    /// The record has no alignment position.
    pub is_unmapped: bool,
    /// The record is mapped to the reverse strand.
    pub is_reverse: bool,
    /// The record is part of a properly paired template.
    pub is_proper_pair: bool,
    /// The record is the first read of its template.
    pub is_first_in_template: bool,
}

impl ReadRecord {
    /// Coordinate sanity bounds: every coordinate-like field fits comfortably
    /// below the magnitudes the alignment formats allow, so interval
    /// arithmetic cannot overflow, and a CIGAR-derived end never precedes the
    /// record's own start.
    pub open spec fn wf(self) -> bool {
        &&& -0x0800_0000_0000_0000 <= self.pos <= 0x0800_0000_0000_0000
        &&& -0x0800_0000_0000_0000 <= self.mpos <= 0x0800_0000_0000_0000
        &&& -0x0800_0000_0000_0000 <= self.insert_size <= 0x0800_0000_0000_0000
        &&& self.seq_len <= 0x0800_0000_0000_0000
        &&& match self.cigar_end {
            Some(e) => self.pos <= e <= 0x0800_0000_0000_0000,
            None => true,
        }
    }
}

/// Lexicographic order of two read names, byte by byte.
#[derive(Clone, Copy, Debug, PartialEq, Eq, Structural)]
pub enum NameOrder {
    Before,
    Same,
    After,
}

/// Lexicographic comparison of two byte strings, the order read-name sorting
/// uses.
pub open spec fn name_order(a: Seq<u8>, b: Seq<u8>) -> NameOrder
    decreases a.len(),
{
    if a.len() == 0 && b.len() == 0 {
        NameOrder::Same
    } else if a.len() == 0 {
        NameOrder::Before
    } else if b.len() == 0 {
        NameOrder::After
    } else if a[0] < b[0] {
        NameOrder::Before
    } else if a[0] > b[0] {
        NameOrder::After
    } else {
        name_order(a.skip(1), b.skip(1))
    }
}

/// Compare two read names lexicographically by their bytes.
pub fn cmp_read_names(a: &Vec<u8>, b: &Vec<u8>) -> (r: NameOrder)
    ensures
        r == name_order(a@, b@),
{
    let mut i: usize = 0;
    proof {
        assert(a@.skip(0) =~= a@);
        assert(b@.skip(0) =~= b@);
    }
    loop
        invariant
            i <= a.len(),
            i <= b.len(),
            name_order(a@, b@) == name_order(a@.skip(i as int), b@.skip(i as int)),
        decreases a@.len() - i,
    {
        proof {
            assert(a@.skip(i as int).len() == a@.len() - i);
            assert(b@.skip(i as int).len() == b@.len() - i);
        }
        if i == a.len() && i == b.len() {
            return NameOrder::Same;
        } else if i == a.len() {
            return NameOrder::Before;
        } else if i == b.len() {
            return NameOrder::After;
        } else {
            proof {
                assert(a@.skip(i as int)[0] == a@[i as int]);
                assert(b@.skip(i as int)[0] == b@[i as int]);
            }
            if a[i] < b[i] {
                return NameOrder::Before;
            } else if a[i] > b[i] {
                return NameOrder::After;
            }
            proof {
                assert(a@.skip(i as int).skip(1) =~= a@.skip(i as int + 1));
                assert(b@.skip(i as int).skip(1) =~= b@.skip(i as int + 1));
            }
            i += 1;
        }
    }
}

} // verus!
