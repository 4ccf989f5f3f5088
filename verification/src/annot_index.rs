use vstd::prelude::*;
use vstd::multiset::Multiset;
use bio::data_structures::annot_map::AnnotMap;
use crate::contig::{Contig, ContigView};

verus! {

#[verifier::external_type_specification]
#[verifier::external_body]
#[verifier::reject_recursive_types(R)]
#[verifier::reject_recursive_types(T)]
pub struct ExAnnotMap<R, T>(AnnotMap<R, T>) where R: core::hash::Hash + core::cmp::Eq;

/// The entries an interval index holds, as the multiset of the intervals
/// inserted into it.
pub uninterp spec fn amap_entries(m: AnnotMap<String, Contig>) -> Multiset<ContigView>;

/// Two intervals overlap when they lie on the same reference and their
/// half-open spans intersect; an empty span overlaps nothing.
pub open spec fn overlaps(c: ContigView, q: ContigView) -> bool {
    &&& c.refid == q.refid
    &&& c.length > 0
    &&& q.length > 0
    &&& c.start < q.end()
    &&& q.start < c.end()
}

/// How many stored intervals overlap the query.
pub open spec fn count_overlapping(ms: Multiset<ContigView>, q: ContigView) -> nat {
    ms.filter(|c: ContigView| overlaps(c, q)).len()
}

/// Relies on `bio`'s `AnnotMap::new`: a freshly created map holds no
/// entries.
#[verifier::external_body]
pub(crate) fn amap_new() -> (m: AnnotMap<String, Contig>)
    ensures
        amap_entries(m) == Multiset::<ContigView>::empty(),
{
    AnnotMap::new()
}

/// Relies on `bio`'s `AnnotMap::insert_at`: the entry is recorded at the
/// given location's reference name and half-open span, and nothing else in
/// the map changes.
#[verifier::external_body]
pub(crate) fn amap_insert(m: &mut AnnotMap<String, Contig>, c: &Contig)
    requires
        c@.wf(),
    ensures
        amap_entries(*final(m)) == amap_entries(*old(m)).insert(c@),
{
    let loc = bio_types::annot::contig::Contig::new(
        String::from(c.refid()),
        c.start() as isize,
        c.length() as usize,
        bio_types::strand::ReqStrand::Forward,
    );
    m.insert_at(c.clone(), &loc);
}

/// Relies on `bio`'s `AnnotMap::find`: it yields exactly the stored entries
/// whose recorded span intersects the query's half-open span on the same
/// reference name, disregarding strand; an empty span intersects nothing.
#[verifier::external_body]
pub(crate) fn amap_count(m: &AnnotMap<String, Contig>, q: &Contig) -> (n: usize)
    requires
        q@.wf(),
    ensures
        n as nat == count_overlapping(amap_entries(*m), q@),
{
    let loc = bio_types::annot::contig::Contig::new(
        String::from(q.refid()),
        q.start() as isize,
        q.length() as usize,
        bio_types::strand::ReqStrand::Forward,
    );
    m.find(&loc).count()
}

} // verus!
