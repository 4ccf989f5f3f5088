use vstd::prelude::*;
use vstd::string::StringExecFns;
use crate::strand::Strand;

verus! {

/// Mathematical model of a [`Contig`]: a half-open, 0-based interval on a
/// named reference, with a strand.
pub struct ContigView {
    pub refid: Seq<char>,
    pub start: int,
    pub length: nat,
    pub strand: Strand,
}

/// Mathematical model of a [`Pos`]: a single 0-based coordinate on a named
/// reference, with a strand.
pub struct PosView {
    pub refid: Seq<char>,
    pub pos: int,
    pub strand: Strand,
}

impl ContigView {
    /// Coordinate sanity bounds under which all interval arithmetic and
    /// display arithmetic stays well inside the machine integer range: both
    /// ends of the interval lie within the coordinate budget, so every
    /// position of the interval is itself in bounds.
    pub open spec fn wf(self) -> bool {
        &&& -0x2000_0000_0000_0000 <= self.start
        &&& self.start + self.length <= 0x2000_0000_0000_0000
    }

    /// Exclusive end coordinate.
    pub open spec fn end(self) -> int {
        self.start + self.length
    }

    /// The interval shifted by `d`, sign-flipped on the reverse strand, so a
    /// positive `d` always moves downstream in the feature's own orientation.
    pub open spec fn shifted(self, d: int) -> ContigView {
        ContigView {
            start: self.start + if self.strand is Reverse {
                -d
            } else {
                d
            },
            ..self
        }
    }

    /// The position produced for local index `i`: forward (and unstranded)
    /// intervals enumerate upward from `start`, reverse intervals enumerate
    /// downward from their high coordinate, in 5'-to-3' order.
    pub open spec fn position_at(self, i: int) -> PosView {
        PosView {
            refid: self.refid,
            pos: if self.strand is Reverse {
                self.start + self.length - 1 - i
            } else {
                self.start + i
            },
            strand: self.strand.position_strand(),
        }
    }

    /// The local index that maps to absolute coordinate `p`, inverting
    /// `position_at`.
    pub open spec fn index_of(self, p: int) -> int {
        if self.strand is Reverse {
            self.start + self.length - 1 - p
        } else {
            p - self.start
        }
    }

    /// The 5'-most position: the low end on the forward (or unknown) strand,
    /// the high end on the reverse strand.
    pub open spec fn first_pos(self) -> PosView {
        PosView {
            refid: self.refid,
            pos: if self.strand is Reverse {
                self.start + self.length - 1
            } else {
                self.start
            },
            strand: self.strand,
        }
    }

    /// Display form: `name:start-end` with both bounds displayed one past
    /// their 0-based values, then the strand suffix.
    pub open spec fn text(self) -> Seq<char> {
        self.refid + seq![':'] + int_text(self.start + 1) + seq!['-'] + int_text(
            self.start + self.length + 1,
        ) + self.strand.suffix()
    }
}

impl PosView {
    /// Coordinate sanity bounds for a single position: the position and the
    /// point interval standing at it are both within the coordinate budget.
    pub open spec fn wf(self) -> bool {
        -0x2000_0000_0000_0000 <= self.pos < 0x2000_0000_0000_0000
    }

    /// The position shifted by `d`, sign-flipped on the reverse strand.
    pub open spec fn shifted(self, d: int) -> PosView {
        PosView {
            pos: self.pos + if self.strand is Reverse {
                -d
            } else {
                d
            },
            ..self
        }
    }

    /// Display form: `name:pos` with the coordinate displayed one past its
    /// 0-based value, then the strand suffix.
    pub open spec fn text(self) -> Seq<char> {
        self.refid + seq![':'] + int_text(self.pos + 1) + self.strand.suffix()
    }
}

/// Shifting is invertible: shifting by `d` and then by `-d` returns any
/// interval to itself, whatever its strand.
pub proof fn lemma_shift_round_trip(c: ContigView, d: int)
    ensures
        c.shifted(d).shifted(-d) == c,
{
}

/// Shifting moves a forward-stranded (or unstranded) interval's start by
/// `+d`, and a reverse-stranded interval's start by `-d`; the name, length
/// and strand never change.
pub proof fn lemma_shift_strandwise(c: ContigView, d: int)
    ensures
        !(c.strand is Reverse) ==> c.shifted(d).start == c.start + d,
        c.strand is Reverse ==> c.shifted(d).start == c.start - d,
        c.shifted(d).refid == c.refid,
        c.shifted(d).length == c.length,
        c.shifted(d).strand == c.strand,
{
}

/// Shifting is invertible for positions as well.
pub proof fn lemma_pos_shift_round_trip(p: PosView, d: int)
    ensures
        p.shifted(d).shifted(-d) == p,
{
}

/// Each local index of an interval round-trips through its absolute
/// coordinate: `index_of` inverts `position_at`, and distinct indices give
/// distinct coordinates.
pub proof fn lemma_position_round_trip(c: ContigView, i: int, j: int)
    ensures
        c.index_of(c.position_at(i).pos) == i,
        i != j ==> c.position_at(i).pos != c.position_at(j).pos,
{
}

/// The decimal digit for `d`.
pub open spec fn dec_digit(d: nat) -> char {
    if d == 0 {
        '0'
    } else if d == 1 {
        '1'
    } else if d == 2 {
        '2'
    } else if d == 3 {
        '3'
    } else if d == 4 {
        '4'
    } else if d == 5 {
        '5'
    } else if d == 6 {
        '6'
    } else if d == 7 {
        '7'
    } else if d == 8 {
        '8'
    } else {
        '9'
    }
}

/// The decimal text of a natural number, most significant digit first.
pub open spec fn dec_text(n: nat) -> Seq<char>
    decreases n,
{
    if n < 10 {
        seq![dec_digit(n)]
    } else {
        dec_text(n / 10).push(dec_digit(n % 10))
    }
}

/// The decimal text of an integer: a minus sign before the magnitude when
/// negative.
pub open spec fn int_text(i: int) -> Seq<char> {
    if i < 0 {
        seq!['-'] + dec_text((-i) as nat)
    } else {
        dec_text(i as nat)
    }
}

fn dec_digit_str(d: u64) -> (r: &'static str)
    requires
        d < 10,
    ensures
        r@ == seq![dec_digit(d as nat)],
{
    proof {
        reveal_strlit("0");
        reveal_strlit("1");
        reveal_strlit("2");
        reveal_strlit("3");
        reveal_strlit("4");
        reveal_strlit("5");
        reveal_strlit("6");
        reveal_strlit("7");
        reveal_strlit("8");
        reveal_strlit("9");
    }
    let r = if d == 0 {
        "0"
    } else if d == 1 {
        "1"
    } else if d == 2 {
        "2"
    } else if d == 3 {
        "3"
    } else if d == 4 {
        "4"
    } else if d == 5 {
        "5"
    } else if d == 6 {
        "6"
    } else if d == 7 {
        "7"
    } else if d == 8 {
        "8"
    } else {
        "9"
    };
    proof {
        assert(r@ =~= seq![dec_digit(d as nat)]);
    }
    r
}

/// Decimal text of an unsigned machine integer.
pub fn u64_text(n: u64) -> (r: String)
    ensures
        r@ == dec_text(n as nat),
    decreases n,
{
    if n < 10 {
        String::from_str(dec_digit_str(n))
    } else {
        let r = u64_text(n / 10).concat(dec_digit_str(n % 10));
        proof {
            assert(r@ =~= dec_text(n as nat));
        }
        r
    }
}

/// Decimal text of a signed machine integer.
pub fn i64_text(i: i64) -> (r: String)
    requires
        i != i64::MIN,
    ensures
        r@ == int_text(i as int),
{
    if i < 0 {
        let r = String::from_str("-").concat(u64_text((-i) as u64).as_str());
        proof {
            reveal_strlit("-");
            assert(r@ =~= int_text(i as int));
        }
        r
    } else {
        u64_text(i as u64)
    }
}

/// A contiguous, half-open, 0-based genomic interval on a named reference,
/// with a strand.
///
/// A zero-length interval is legal only transiently; it is never inserted
/// into an index.
#[derive(Debug, PartialEq, Eq)]
pub struct Contig {
    refid: String,
    start: i64,
    length: u64,
    strand: Strand,
}

/// A single 0-based genomic coordinate on a named reference, with a strand:
/// the pointlike specialization of [`Contig`], and the unit a position scan
/// produces.
#[derive(Debug, PartialEq, Eq)]
pub struct Pos {
    refid: String,
    pos: i64,
    strand: Strand,
}

impl View for Contig {
    type V = ContigView;

    closed spec fn view(&self) -> ContigView {
        ContigView {
            refid: self.refid@,
            start: self.start as int,
            length: self.length as nat,
            strand: self.strand,
        }
    }
}

impl View for Pos {
    type V = PosView;

    closed spec fn view(&self) -> PosView {
        PosView { refid: self.refid@, pos: self.pos as int, strand: self.strand }
    }
}

impl Clone for Contig {
    fn clone(&self) -> (r: Self)
        ensures
            r@ == self@,
    {
        Contig {
            refid: self.refid.clone(),
            start: self.start,
            length: self.length,
            strand: self.strand,
        }
    }
}

impl Clone for Pos {
    fn clone(&self) -> (r: Self)
        ensures
            r@ == self@,
    {
        Pos { refid: self.refid.clone(), pos: self.pos, strand: self.strand }
    }
}

impl Contig {
    /// Construct a new sequence interval.
    pub fn new(refid: String, start: i64, length: u64, strand: Strand) -> (r: Contig)
        ensures
            r@ == (ContigView { refid: refid@, start: start as int, length: length as nat, strand }),
    {
        Contig { refid, start, length, strand }
    }

    /// The reference sequence name.
    pub fn refid(&self) -> (r: &str)
        ensures
            r@ == self@.refid,
    {
        self.refid.as_str()
    }

    /// The 0-based inclusive start coordinate.
    pub fn start(&self) -> (r: i64)
        ensures
            r as int == self@.start,
    {
        self.start
    }

    /// The interval's length.
    pub fn length(&self) -> (r: u64)
        ensures
            r as nat == self@.length,
    {
        self.length
    }

    /// The interval's strand.
    pub fn strand(&self) -> (r: Strand)
        ensures
            r == self@.strand,
    {
        self.strand
    }

    /// Shift the interval by `d`, sign-flipped on the reverse strand; a new
    /// value is returned and the input is untouched.
    pub fn shift(&self, d: i64) -> (r: Contig)
        requires
            self@.wf(),
            self@.shifted(d as int).wf(),
        ensures
            r@ == self@.shifted(d as int),
    {
        let d2: i64 = if matches!(self.strand, Strand::Reverse) {
            -d
        } else {
            d
        };
        Contig {
            refid: self.refid.clone(),
            start: self.start + d2,
            length: self.length,
            strand: self.strand,
        }
    }

    /// The position for local index `i`, projected into absolute coordinates
    /// honoring strand.
    pub fn position_at(&self, i: u64) -> (r: Pos)
        requires
            self@.wf(),
            i < self@.length,
        ensures
            r@ == self@.position_at(i as int),
    {
        let p: i64 = if matches!(self.strand, Strand::Reverse) {
            self.start + (self.length as i64) - 1 - (i as i64)
        } else {
            self.start + (i as i64)
        };
        Pos {
            refid: self.refid.clone(),
            pos: p,
            strand: match self.strand {
                Strand::Forward => Strand::Forward,
                Strand::Reverse => Strand::Forward,
                Strand::Unknown => Strand::Unknown,
            },
        }
    }

    /// The 5'-most position of the interval.
    pub fn fiveprime(&self) -> (r: Pos)
        requires
            self@.wf(),
            self@.length >= 1,
        ensures
            r@ == self@.first_pos(),
    {
        let p: i64 = if matches!(self.strand, Strand::Reverse) {
            self.start + (self.length as i64) - 1
        } else {
            self.start
        };
        Pos { refid: self.refid.clone(), pos: p, strand: self.strand }
    }

    /// The interval's display form, 1-based on both bounds, with a strand
    /// suffix when the strand is known.
    pub fn to_text(&self) -> (r: String)
        requires
            self@.wf(),
        ensures
            r@ == self@.text(),
    {
        let s = self.refid.clone().concat(":").concat(i64_text(self.start + 1).as_str()).concat(
            "-",
        ).concat(i64_text(self.start + (self.length as i64) + 1).as_str());
        let r = self.strand.push_suffix(s);
        proof {
            reveal_strlit(":");
            reveal_strlit("-");
            assert(r@ =~= self@.text());
        }
        r
    }
}

impl Pos {
    /// Construct a new sequence position.
    pub fn new(refid: String, pos: i64, strand: Strand) -> (r: Pos)
        ensures
            r@ == (PosView { refid: refid@, pos: pos as int, strand }),
    {
        Pos { refid, pos, strand }
    }

    /// The reference sequence name.
    pub fn refid(&self) -> (r: &str)
        ensures
            r@ == self@.refid,
    {
        self.refid.as_str()
    }

    /// The 0-based coordinate.
    pub fn pos(&self) -> (r: i64)
        ensures
            r as int == self@.pos,
    {
        self.pos
    }

    /// The position's strand.
    pub fn strand(&self) -> (r: Strand)
        ensures
            r == self@.strand,
    {
        self.strand
    }

    /// Shift the position by `d`, sign-flipped on the reverse strand; a new
    /// value is returned and the input is untouched.
    pub fn shift(&self, d: i64) -> (r: Pos)
        requires
            self@.wf(),
            self@.shifted(d as int).wf(),
        ensures
            r@ == self@.shifted(d as int),
    {
        let d2: i64 = if matches!(self.strand, Strand::Reverse) {
            -d
        } else {
            d
        };
        Pos { refid: self.refid.clone(), pos: self.pos + d2, strand: self.strand }
    }

    /// The interval of length one standing at this position.
    pub fn to_contig(&self) -> (r: Contig)
        ensures
            r@ == (ContigView {
                refid: self@.refid,
                start: self@.pos,
                length: 1nat,
                strand: self@.strand,
            }),
    {
        Contig { refid: self.refid.clone(), start: self.pos, length: 1, strand: self.strand }
    }

    /// The position's display form, 1-based, with a strand suffix when the
    /// strand is known.
    pub fn to_text(&self) -> (r: String)
        requires
            self@.wf(),
        ensures
            r@ == self@.text(),
    {
        let s = self.refid.clone().concat(":").concat(i64_text(self.pos + 1).as_str());
        let r = self.strand.push_suffix(s);
        proof {
            reveal_strlit(":");
            assert(r@ =~= self@.text());
        }
        r
    }
}

} // verus!
