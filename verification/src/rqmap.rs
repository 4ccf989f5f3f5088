use vstd::prelude::*;
use vstd::multiset::Multiset;
use bio::data_structures::annot_map::AnnotMap;
use crate::annot_index::{amap_count, amap_entries, amap_insert, amap_new, count_overlapping,
    overlaps};
use crate::contig::{Contig, ContigView, Pos, PosView};
use crate::errors::InvalidRecordError;
use crate::library_strategy::{CountStrand, LibraryType};
use crate::locus::{raw_strand, read_contig};
use crate::record::ReadRecord;
use crate::scaffold_dict::{name_lookup, ScaffoldDict};

verus! {

/// A library of aligned reads held as two interval indexes, one per strand
/// bucket, queryable for overlap counts.
///
/// The bucket of a read is always its raw alignment orientation, independent
/// of any library-protocol strand reinterpretation. An `RQMap` is built once
/// over a record stream and never mutated afterwards.
#[derive(Debug)]
pub struct RQMap {
    construction: LibraryType,
    plus: AnnotMap<String, Contig>,
    minus: AnnotMap<String, Contig>,
    skipped_unmapped: usize,
}

/// The point query standing at a position: the interval of length one.
pub open spec fn point_query(p: PosView) -> ContigView {
    ContigView { refid: p.refid, start: p.pos, length: 1nat, strand: p.strand }
}

/// One interval is contained in another when they lie on the same reference
/// and the first's span lies within the second's.
pub open spec fn contained_in(a: ContigView, b: ContigView) -> bool {
    &&& a.refid == b.refid
    &&& b.start <= a.start
    &&& a.end() <= b.end()
}

/// How many of the first `n` records are unmapped.
pub open spec fn count_unmapped(recs: Seq<ReadRecord>, n: int) -> nat
    decreases n,
{
    if n <= 0 {
        0
    } else {
        count_unmapped(recs, n - 1) + if recs[n - 1].is_unmapped {
            1nat
        } else {
            0nat
        }
    }
}

/// The record filter's decision for one record: every record is kept when no
/// filter is given, else whatever the filter returned.
pub open spec fn keep_ok<F: Fn(ReadRecord) -> bool>(
    rf: Option<&F>,
    rec: ReadRecord,
    b: bool,
) -> bool {
    match rf {
        None => b == true,
        Some(f) => call_ensures(*f, (rec,), b),
    }
}

/// The post-processing hook's result for one converted interval: the
/// interval itself when no hook is given, else a value the hook can return
/// for it.
pub open spec fn post_ok<G: Fn(Contig) -> Contig>(
    pf: Option<&G>,
    cv: ContigView,
    p: Contig,
) -> bool {
    match pf {
        None => p@ == cv,
        Some(g) => exists|ci: Contig| ci@ == cv && call_ensures(*g, (ci,), p),
    }
}

/// Record `i` contributes an entry to the bucket of orientation `rev`: it is
/// mapped, kept by the filter, aligned to that orientation, and its
/// post-processed interval is nonempty (a zero-length interval is never
/// inserted into an index).
pub open spec fn contributes(
    recs: Seq<ReadRecord>,
    keeps: Seq<bool>,
    posts: Seq<Contig>,
    i: int,
    rev: bool,
) -> bool {
    &&& !recs[i].is_unmapped
    &&& keeps[i]
    &&& recs[i].is_reverse == rev
    &&& posts[i]@.length > 0
}

/// The entries the bucket of orientation `rev` holds after the first `n`
/// records were processed with the given filter decisions and
/// post-processed intervals.
pub open spec fn bucket_entries(
    recs: Seq<ReadRecord>,
    keeps: Seq<bool>,
    posts: Seq<Contig>,
    rev: bool,
    n: int,
) -> Multiset<ContigView>
    decreases n,
{
    if n <= 0 {
        Multiset::empty()
    } else if contributes(recs, keeps, posts, n - 1, rev) {
        bucket_entries(recs, keeps, posts, rev, n - 1).insert(posts[n - 1]@)
    } else {
        bucket_entries(recs, keeps, posts, rev, n - 1)
    }
}

/// The per-record decisions `keeps` and post-processed intervals `posts` are
/// consistent with the construction pipeline over the first `n` records:
/// filter decisions come from the filter, every kept mapped record resolved
/// its scaffold, and its interval is the record's conversion run through the
/// post-processing hook.
pub open spec fn pipeline_ok<F: Fn(ReadRecord) -> bool, G: Fn(Contig) -> Contig>(
    recs: Seq<ReadRecord>,
    frag: bool,
    sd: ScaffoldDict,
    rf: Option<&F>,
    pf: Option<&G>,
    keeps: Seq<bool>,
    posts: Seq<Contig>,
    n: int,
) -> bool {
    &&& forall|j: int|
        0 <= j < n && !recs[j].is_unmapped ==> keep_ok(rf, recs[j], #[trigger] keeps[j])
    &&& forall|j: int|
        0 <= j < n && !recs[j].is_unmapped && keeps[j] ==> (#[trigger] sd.id_lookup(
            recs[j].tid as int,
        )) is Some
    &&& forall|j: int|
        0 <= j < n && !recs[j].is_unmapped && keeps[j] ==> post_ok(
            pf,
            read_contig(
                recs[j],
                frag,
                sd.id_lookup(recs[j].tid as int).unwrap(),
                raw_strand(recs[j]),
            ),
            #[trigger] posts[j],
        ) && posts[j]@.wf()
}

/// The interval a mapped record with a known scaffold converts to.
pub open spec fn plain_contig(rec: ReadRecord, frag: bool, sd: ScaffoldDict) -> ContigView {
    read_contig(rec, frag, sd.id_lookup(rec.tid as int).unwrap(), raw_strand(rec))
}

/// The entries the bucket of orientation `rev` holds after the first `n`
/// records, when no record filter and no post-processing hook take part:
/// every mapped record of that orientation whose scaffold is known and whose
/// interval is nonempty contributes its converted interval.
pub open spec fn plain_entries(
    recs: Seq<ReadRecord>,
    frag: bool,
    sd: ScaffoldDict,
    rev: bool,
    n: int,
) -> Multiset<ContigView>
    decreases n,
{
    if n <= 0 {
        Multiset::empty()
    } else {
        let rest = plain_entries(recs, frag, sd, rev, n - 1);
        if !recs[n - 1].is_unmapped && recs[n - 1].is_reverse == rev && sd.id_lookup(
            recs[n - 1].tid as int,
        ) is Some && plain_contig(recs[n - 1], frag, sd).length > 0 {
            rest.insert(plain_contig(recs[n - 1], frag, sd))
        } else {
            rest
        }
    }
}

/// How many of the first `n` records are mapped with orientation `rev`.
pub open spec fn count_oriented(recs: Seq<ReadRecord>, rev: bool, n: int) -> nat
    decreases n,
{
    if n <= 0 {
        0
    } else {
        count_oriented(recs, rev, n - 1) + if !recs[n - 1].is_unmapped && recs[n - 1].is_reverse
            == rev {
            1nat
        } else {
            0nat
        }
    }
}

proof fn lemma_count_overlapping_insert(ms: Multiset<ContigView>, c: ContigView, q: ContigView)
    ensures
        count_overlapping(ms.insert(c), q) == count_overlapping(ms, q) + if overlaps(c, q) {
            1nat
        } else {
            0nat
        },
{
    broadcast use vstd::multiset::group_multiset_axioms, vstd::multiset::lemma_insert_len;

    let f = |x: ContigView| overlaps(x, q);
    if overlaps(c, q) {
        assert(ms.insert(c).filter(f) =~= ms.filter(f).insert(c));
    } else {
        assert(ms.insert(c).filter(f) =~= ms.filter(f));
    }
}

proof fn lemma_plain_count(
    recs: Seq<ReadRecord>,
    frag: bool,
    sd: ScaffoldDict,
    q: ContigView,
    rev: bool,
    n: int,
)
    requires
        forall|i: int|
            0 <= i < n && !(#[trigger] recs[i]).is_unmapped ==> sd.id_lookup(recs[i].tid as int)
                is Some && plain_contig(recs[i], frag, sd).length > 0 && overlaps(
                plain_contig(recs[i], frag, sd),
                q,
            ),
    ensures
        count_overlapping(plain_entries(recs, frag, sd, rev, n), q) == count_oriented(
            recs,
            rev,
            n,
        ),
    decreases n,
{
    broadcast use vstd::multiset::group_multiset_axioms;

    if n > 0 {
        lemma_plain_count(recs, frag, sd, q, rev, n - 1);
        if !recs[n - 1].is_unmapped && recs[n - 1].is_reverse == rev {
            lemma_count_overlapping_insert(
                plain_entries(recs, frag, sd, rev, n - 1),
                plain_contig(recs[n - 1], frag, sd),
                q,
            );
        }
    } else {
        let f = |x: ContigView| overlaps(x, q);
        assert(Multiset::<ContigView>::empty().filter(f) =~= Multiset::<ContigView>::empty());
    }
}

proof fn lemma_oriented_sum(recs: Seq<ReadRecord>, n: int)
    ensures
        count_oriented(recs, false, n) + count_oriented(recs, true, n) + count_unmapped(recs, n)
            == if n <= 0 {
            0
        } else {
            n as nat
        },
    decreases n,
{
    if n > 0 {
        lemma_oriented_sum(recs, n - 1);
    }
}

/// An unfiltered build counts every mapped record once over a covering
/// region: when the buckets hold exactly the plain entries of a record
/// sequence, and every mapped record converts to a nonempty interval that
/// overlaps the query, the total count over both buckets equals the number
/// of mapped records. Unmapped records, skipped with a notice, contribute
/// nothing.
pub proof fn lemma_covering_region_count(
    m: RQMap,
    recs: Seq<ReadRecord>,
    frag: bool,
    sd: ScaffoldDict,
    q: ContigView,
)
    requires
        m.plus_entries() == plain_entries(recs, frag, sd, false, recs.len() as int),
        m.minus_entries() == plain_entries(recs, frag, sd, true, recs.len() as int),
        forall|i: int|
            0 <= i < recs.len() && !(#[trigger] recs[i]).is_unmapped ==> sd.id_lookup(
                recs[i].tid as int,
            ) is Some && plain_contig(recs[i], frag, sd).length > 0 && overlaps(
                plain_contig(recs[i], frag, sd),
                q,
            ),
    ensures
        m.count_q(q, CountStrand::Both) + count_unmapped(recs, recs.len() as int) == recs.len(),
{
    let n = recs.len() as int;
    lemma_plain_count(recs, frag, sd, q, false, n);
    lemma_plain_count(recs, frag, sd, q, true, n);
    lemma_oriented_sum(recs, n);
}

/// With no record filter and no post-processing hook, the pipeline leaves no
/// latitude: any decisions consistent with it produce exactly the plain
/// bucket contents. Together with the contract of [`RQMap::from_records`],
/// an unfiltered construction's buckets are fully determined by the records,
/// the fragment flag and the scaffold dictionary.
pub proof fn lemma_unfiltered_entries<F: Fn(ReadRecord) -> bool, G: Fn(Contig) -> Contig>(
    recs: Seq<ReadRecord>,
    frag: bool,
    sd: ScaffoldDict,
    rf: Option<&F>,
    pf: Option<&G>,
    keeps: Seq<bool>,
    posts: Seq<Contig>,
    rev: bool,
    n: int,
)
    requires
        rf is None,
        pf is None,
        pipeline_ok(recs, frag, sd, rf, pf, keeps, posts, n),
    ensures
        bucket_entries(recs, keeps, posts, rev, n) == plain_entries(recs, frag, sd, rev, n),
    decreases n,
{
    if n > 0 {
        lemma_unfiltered_entries(recs, frag, sd, rf, pf, keeps, posts, rev, n - 1);
    }
}

proof fn lemma_bucket_prefix(
    recs: Seq<ReadRecord>,
    k1: Seq<bool>,
    p1: Seq<Contig>,
    k2: Seq<bool>,
    p2: Seq<Contig>,
    rev: bool,
    n: int,
)
    requires
        forall|j: int| 0 <= j < n ==> k1[j] == k2[j],
        forall|j: int| 0 <= j < n ==> p1[j] == p2[j],
    ensures
        bucket_entries(recs, k1, p1, rev, n) == bucket_entries(recs, k2, p2, rev, n),
    decreases n,
{
    if n > 0 {
        lemma_bucket_prefix(recs, k1, p1, k2, p2, rev, n - 1);
    }
}

proof fn lemma_filter_len_le(ms: Multiset<ContigView>, f: spec_fn(ContigView) -> bool)
    ensures
        ms.filter(f).len() <= ms.len(),
{
    broadcast use vstd::multiset::group_multiset_axioms;

    assert(ms.filter(f).subset_of(ms));
    assert(ms.sub(ms.filter(f)).len() == ms.len() - ms.filter(f).len());
}

proof fn lemma_filter_len_mono(
    ms: Multiset<ContigView>,
    f: spec_fn(ContigView) -> bool,
    g: spec_fn(ContigView) -> bool,
)
    requires
        forall|c: ContigView| #[trigger] f(c) ==> g(c),
    ensures
        ms.filter(f).len() <= ms.filter(g).len(),
{
    broadcast use vstd::multiset::group_multiset_axioms;

    assert(ms.filter(f).subset_of(ms.filter(g)));
    assert(ms.filter(g).sub(ms.filter(f)).len() == ms.filter(g).len() - ms.filter(f).len());
}

impl RQMap {
    /// The library type the map was built under.
    pub closed spec fn construction_spec(self) -> LibraryType {
        self.construction
    }

    /// The entries of the plus bucket.
    pub closed spec fn plus_entries(self) -> Multiset<ContigView> {
        amap_entries(self.plus)
    }

    /// The entries of the minus bucket.
    pub closed spec fn minus_entries(self) -> Multiset<ContigView> {
        amap_entries(self.minus)
    }

    /// How many unmapped records were skipped, with notice, while building.
    pub closed spec fn skipped(self) -> nat {
        self.skipped_unmapped as nat
    }

    /// A built map never holds more entries than a machine count can state.
    pub open spec fn wf(self) -> bool {
        self.plus_entries().len() + self.minus_entries().len() <= usize::MAX
    }

    /// The count a quantification query returns: how many entries of the
    /// selected bucket, or of both, overlap the query.
    pub open spec fn count_q(self, q: ContigView, ct: CountStrand) -> nat {
        match ct {
            CountStrand::Plus => count_overlapping(self.plus_entries(), q),
            CountStrand::Minus => count_overlapping(self.minus_entries(), q),
            CountStrand::Both => count_overlapping(self.plus_entries(), q) + count_overlapping(
                self.minus_entries(),
                q,
            ),
        }
    }

    /// The count a point-coverage query returns.
    pub open spec fn coverage_at_spec(self, p: PosView, ct: CountStrand) -> nat {
        self.count_q(point_query(p), ct)
    }

    /// The library type the map was built under.
    pub fn construction(&self) -> (r: LibraryType)
        ensures
            r == self.construction_spec(),
    {
        self.construction
    }

    /// How many unmapped records were skipped while building: the recorded
    /// notice of the skip-with-notice policy.
    pub fn notices(&self) -> (r: usize)
        ensures
            r as nat == self.skipped(),
    {
        self.skipped_unmapped
    }

    /// Count the stored intervals overlapping `p` in the plus bucket, the
    /// minus bucket, or both. Absence of overlap is a zero count, never an
    /// error.
    pub fn quantify(&self, p: &Contig, ct: &CountStrand) -> (n: usize)
        requires
            self.wf(),
            p@.wf(),
        ensures
            n as nat == self.count_q(p@, *ct),
    {
        match ct {
            CountStrand::Plus => amap_count(&self.plus, p),
            CountStrand::Minus => amap_count(&self.minus, p),
            CountStrand::Both => {
                let a = amap_count(&self.plus, p);
                let b = amap_count(&self.minus, p);
                proof {
                    lemma_filter_len_le(
                        self.plus_entries(),
                        |c: ContigView| overlaps(c, p@),
                    );
                    lemma_filter_len_le(
                        self.minus_entries(),
                        |c: ContigView| overlaps(c, p@),
                    );
                }
                a + b
            },
        }
    }

    /// Count the stored intervals overlapping a locus; identical to
    /// [`RQMap::quantify`].
    pub fn counts_within(&self, p: &Contig, ct: &CountStrand) -> (n: usize)
        requires
            self.wf(),
            p@.wf(),
        ensures
            n as nat == self.count_q(p@, *ct),
    {
        self.quantify(p, ct)
    }

    /// The coverage at a pointlike locus: the count of stored intervals
    /// overlapping the single position.
    pub fn coverage_at(&self, p: &Pos, ct: &CountStrand) -> (n: usize)
        requires
            self.wf(),
            p@.wf(),
        ensures
            n as nat == self.coverage_at_spec(p@, *ct),
    {
        self.quantify(&p.to_contig(), ct)
    }

    /// The coverage across a contiguous locus: for each position the scan
    /// over `c` produces, in order, its point coverage; the output length is
    /// the interval's length.
    pub fn coverage_across(&self, c: &Contig, ct: &CountStrand) -> (r: Vec<usize>)
        requires
            self.wf(),
            c@.wf(),
        ensures
            r@.len() == c@.length,
            forall|i: int|
                0 <= i < r@.len() ==> r@[i] as nat == self.coverage_at_spec(
                    c@.position_at(i),
                    *ct,
                ),
    {
        let mut out: Vec<usize> = Vec::new();
        let mut i: u64 = 0;
        let end: u64 = c.length();
        while i < end
            invariant
                self.wf(),
                c@.wf(),
                end as nat == c@.length,
                i <= end,
                out@.len() == i as nat,
                forall|j: int|
                    0 <= j < out@.len() ==> out@[j] as nat == self.coverage_at_spec(
                        c@.position_at(j),
                        *ct,
                    ),
            decreases end - i,
        {
            let p = c.position_at(i);
            out.push(self.coverage_at(&p, ct));
            i += 1;
        }
        out
    }
}

/// Resolve one requested region against the scaffold dictionary, for a
/// region-restricted scan: `None` when the region's reference name is absent
/// (such a region is silently skipped, contributing nothing — a deliberate
/// best-effort policy, not an error), else the reference identifier together
/// with the inclusive coordinate span from the region's first to its last
/// position. A reader-level failure to seek to a resolved region is fatal to
/// the caller and reported as `NoneSuchRecord`, distinct from any
/// record-conversion error.
pub fn region_fetch_bounds(sd: &ScaffoldDict, region: &Contig) -> (r: Option<(i32, u64, u64)>)
    requires
        region@.wf(),
        region@.length >= 1,
        region@.start >= 0,
        sd.primary().len() <= 0x7fff_ffff,
    ensures
        match r {
            None => name_lookup(sd.primary(), region@.refid) is None,
            Some(b) => name_lookup(sd.primary(), region@.refid) == Some(b.0 as int) && b.1 as int
                == region@.start && b.2 as int == region@.end() - 1,
        },
{
    match sd.str_to_id(region.refid()) {
        None => None,
        Some(tid) => {
            let lo: u64 = region.start() as u64;
            let hi: u64 = (region.start() + (region.length() as i64) - 1) as u64;
            Some((tid, lo, hi))
        },
    }
}

/// Quantification is monotonic in the query: a query contained in another
/// never counts more, whichever strand bucket is selected and whatever the
/// index holds.
pub proof fn lemma_quantify_monotonic(m: RQMap, a: ContigView, b: ContigView, ct: CountStrand)
    requires
        contained_in(a, b),
    ensures
        m.count_q(a, ct) <= m.count_q(b, ct),
{
    assert forall|c: ContigView| overlaps(c, a) implies overlaps(c, b) by {
        assert(a.length > 0 ==> b.length > 0);
    }
    lemma_filter_len_mono(
        m.plus_entries(),
        |c: ContigView| overlaps(c, a),
        |c: ContigView| overlaps(c, b),
    );
    lemma_filter_len_mono(
        m.minus_entries(),
        |c: ContigView| overlaps(c, a),
        |c: ContigView| overlaps(c, b),
    );
}

impl RQMap {
    /// Build a map by running every record through the conversion pipeline:
    /// an unmapped record is skipped with a recorded notice; a record the
    /// filter `rf` rejects is skipped without error; the rest are converted
    /// ([`Contig::from_read`]), run through the hook `pf` when one is given,
    /// and inserted into the bucket of their raw alignment orientation. The
    /// first record whose scaffold is unknown aborts construction with
    /// `UnknownScaffold` and no partial map is returned. A zero-length
    /// interval is never inserted.
    ///
    /// When no record filter is given, construction succeeds exactly when
    /// every mapped record's reference identifier is known to `sd`.
    pub fn from_records<F: Fn(ReadRecord) -> bool, G: Fn(Contig) -> Contig>(
        records: &Vec<ReadRecord>,
        as_frags: bool,
        lt: LibraryType,
        sd: &ScaffoldDict,
        rf: Option<&F>,
        pf: Option<&G>,
    ) -> (r: Result<RQMap, InvalidRecordError>)
        requires
            forall|i: int| 0 <= i < records@.len() ==> (#[trigger] records@[i]).wf(),
            rf matches Some(f) ==> forall|rec: ReadRecord| call_requires(*f, (rec,)),
            pf matches Some(g) ==> forall|c: Contig| c@.wf() ==> call_requires(*g, (c,)),
            pf matches Some(g) ==> forall|c: Contig, c2: Contig|
                call_ensures(*g, (c,), c2) ==> c2@.wf(),
        ensures
            r matches Ok(m) ==> ({
                &&& m.construction_spec() == lt
                &&& m.wf()
                &&& m.skipped() == count_unmapped(records@, records@.len() as int)
                &&& exists|keeps: Seq<bool>, posts: Seq<Contig>|
                    {
                        &&& keeps.len() == records@.len()
                        &&& posts.len() == records@.len()
                        &&& #[trigger] pipeline_ok(
                            records@,
                            as_frags,
                            *sd,
                            rf,
                            pf,
                            keeps,
                            posts,
                            records@.len() as int,
                        )
                        &&& m.plus_entries() == bucket_entries(
                            records@,
                            keeps,
                            posts,
                            false,
                            records@.len() as int,
                        )
                        &&& m.minus_entries() == bucket_entries(
                            records@,
                            keeps,
                            posts,
                            true,
                            records@.len() as int,
                        )
                    }
            }),
            r matches Err(e) ==> e is UnknownScaffold && exists|
                keeps: Seq<bool>,
                posts: Seq<Contig>,
                i: int,
            |
                {
                    &&& 0 <= i < records@.len()
                    &&& #[trigger] pipeline_ok(records@, as_frags, *sd, rf, pf, keeps, posts, i)
                    &&& keep_ok(rf, records@[i], true)
                    &&& !records@[i].is_unmapped
                    &&& sd.id_lookup(records@[i].tid as int) is None
                },
            (rf is None && forall|i: int|
                0 <= i < records@.len() && !(#[trigger] records@[i]).is_unmapped ==> sd.id_lookup(
                    records@[i].tid as int,
                ) is Some) ==> r is Ok,
            rf is None && r is Ok ==> forall|i: int|
                0 <= i < records@.len() && !(#[trigger] records@[i]).is_unmapped ==> sd.id_lookup(
                    records@[i].tid as int,
                ) is Some,
    {
        let mut plus: AnnotMap<String, Contig> = amap_new();
        let mut minus: AnnotMap<String, Contig> = amap_new();
        let mut skipped: usize = 0;
        let ghost mut keeps: Seq<bool> = Seq::empty();
        let ghost mut posts: Seq<Contig> = Seq::empty();
        let mut i: usize = 0;
        while i < records.len()
            invariant
                i <= records@.len(),
                forall|j: int| 0 <= j < records@.len() ==> (#[trigger] records@[j]).wf(),
                rf matches Some(f) ==> forall|rec: ReadRecord| call_requires(*f, (rec,)),
                pf matches Some(g) ==> forall|c: Contig| c@.wf() ==> call_requires(*g, (c,)),
                pf matches Some(g) ==> forall|c: Contig, c2: Contig|
                    call_ensures(*g, (c,), c2) ==> c2@.wf(),
                keeps.len() == i as nat,
                posts.len() == i as nat,
                forall|j: int|
                    0 <= j < i && !records@[j].is_unmapped ==> keep_ok(
                        rf,
                        records@[j],
                        #[trigger] keeps[j],
                    ),
                forall|j: int|
                    0 <= j < i && !records@[j].is_unmapped && keeps[j] ==> (
                    #[trigger] sd.id_lookup(records@[j].tid as int)) is Some,
                forall|j: int|
                    0 <= j < i && !records@[j].is_unmapped && keeps[j] ==> post_ok(
                        pf,
                        read_contig(
                            records@[j],
                            as_frags,
                            sd.id_lookup(records@[j].tid as int).unwrap(),
                            raw_strand(records@[j]),
                        ),
                        #[trigger] posts[j],
                    ) && posts[j]@.wf(),
                amap_entries(plus) == bucket_entries(records@, keeps, posts, false, i as int),
                amap_entries(minus) == bucket_entries(records@, keeps, posts, true, i as int),
                amap_entries(plus).len() + amap_entries(minus).len() <= i,
                skipped as int == count_unmapped(records@, i as int),
                skipped <= i,
            decreases records@.len() - i,
        {
            let rec: ReadRecord = records[i];
            let ghost keeps0 = keeps;
            let ghost posts0 = posts;
            if rec.is_unmapped {
                skipped = skipped + 1;
                proof {
                    keeps = keeps.push(true);
                    posts = posts.push(vstd::pervasive::arbitrary());
                }
            } else {
                let keep: bool = match rf {
                    None => true,
                    Some(f) => (*f)(rec),
                };
                if !keep {
                    proof {
                        keeps = keeps.push(false);
                        posts = posts.push(vstd::pervasive::arbitrary());
                    }
                } else {
                    match Contig::from_read(&rec, as_frags, sd) {
                        Err(_e) => {
                            proof {
                                assert(0 <= i < records@.len() && pipeline_ok(
                                    records@,
                                    as_frags,
                                    *sd,
                                    rf,
                                    pf,
                                    keeps,
                                    posts,
                                    i as int,
                                ) && keep_ok(rf, records@[i as int], true) && !records@[
                                    i as int
                                ].is_unmapped && sd.id_lookup(records@[i as int].tid as int)
                                    is None);
                            }
                            return Err(InvalidRecordError::UnknownScaffold);
                        },
                        Ok(c) => {
                            let c2: Contig = match pf {
                                None => c,
                                Some(g) => (*g)(c),
                            };
                            if c2.length() > 0 {
                                if rec.is_reverse {
                                    amap_insert(&mut minus, &c2);
                                } else {
                                    amap_insert(&mut plus, &c2);
                                }
                            }
                            proof {
                                keeps = keeps.push(true);
                                posts = posts.push(c2);
                            }
                        },
                    }
                }
            }
            proof {
                lemma_bucket_prefix(records@, keeps0, posts0, keeps, posts, false, i as int);
                lemma_bucket_prefix(records@, keeps0, posts0, keeps, posts, true, i as int);
            }
            i = i + 1;
        }
        let m = RQMap { construction: lt, plus, minus, skipped_unmapped: skipped };
        proof {
            let n = records@.len() as int;
            assert(pipeline_ok(records@, as_frags, *sd, rf, pf, keeps, posts, n)
                && m.plus_entries() == bucket_entries(records@, keeps, posts, false, n)
                && m.minus_entries() == bucket_entries(records@, keeps, posts, true, n));
        }
        Ok(m)
    }
}

/// Coverage over both buckets is the sum of the plus-bucket and minus-bucket
/// coverages, at every position of any scan: together with the contract of
/// [`RQMap::coverage_across`], the `Both` coverage track equals the
/// element-wise sum of the `Plus` and `Minus` tracks.
pub proof fn lemma_coverage_additive(m: RQMap, p: PosView)
    ensures
        m.coverage_at_spec(p, CountStrand::Both) == m.coverage_at_spec(p, CountStrand::Plus)
            + m.coverage_at_spec(p, CountStrand::Minus),
{
}

} // verus!
