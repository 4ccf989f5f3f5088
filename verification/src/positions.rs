use vstd::prelude::*;
use crate::contig::{Contig, ContigView, Pos};

verus! {

/// State of a finite, restartable scan over the positions of a contiguous
/// region: positions for local indices `0..length`, strand-aware.
#[derive(Debug)]
pub struct Positions {
    region: Contig,
    idx: u64,
}

impl Positions {
    /// The region being scanned.
    pub closed spec fn region(self) -> ContigView {
        self.region@
    }

    /// The local index the next call will produce.
    pub closed spec fn index(self) -> nat {
        self.idx as nat
    }

    /// A scan state is well formed when its region is and its index has not
    /// run past the region's length.
    pub closed spec fn wf(self) -> bool {
        self.region@.wf() && self.idx <= self.region@.length
    }

    /// Produce the next position of the region, or nothing when the scan is
    /// exhausted: exactly `length` positions come out in total, the one at
    /// local index `i` being `region.position_at(i)`.
    pub fn next(&mut self) -> (r: Option<Pos>)
        requires
            old(self).wf(),
        ensures
            final(self).wf(),
            final(self).region() == old(self).region(),
            old(self).index() < old(self).region().length ==> (r matches Some(p) && p@ == old(
                self,
            ).region().position_at(old(self).index() as int) && final(self).index() == old(
                self,
            ).index() + 1),
            old(self).index() >= old(self).region().length ==> (r is None && final(self).index()
                == old(self).index()),
    {
        if self.idx < self.region.length() {
            let p = self.region.position_at(self.idx);
            self.idx = self.idx + 1;
            Some(p)
        } else {
            None
        }
    }

    /// Collect every remaining position of the scan, in order.
    pub fn collect(&mut self) -> (r: Vec<Pos>)
        requires
            old(self).wf(),
            old(self).index() == 0,
        ensures
            final(self).wf(),
            r@.len() == old(self).region().length,
            forall|i: int|
                0 <= i < r@.len() ==> r@[i]@ == old(self).region().position_at(i),
    {
        let mut out: Vec<Pos> = Vec::new();
        loop
            invariant
                self.wf(),
                self.region() == old(self).region(),
                self.index() == out@.len(),
                out@.len() <= self.region().length,
                forall|i: int| 0 <= i < out@.len() ==> out@[i]@ == self.region().position_at(i),
            decreases self.region().length - self.index(),
        {
            match self.next() {
                Some(p) => out.push(p),
                None => {
                    return out;
                },
            }
        }
    }
}

impl Contig {
    /// Begin a scan over the positions of this region. Scanning never
    /// mutates the region, and a fresh scan over an equal region always
    /// yields the same sequence.
    pub fn positions(&self) -> (r: Positions)
        requires
            self@.wf(),
        ensures
            r.wf(),
            r.region() == self@,
            r.index() == 0,
    {
        Positions { region: self.clone(), idx: 0 }
    }
}

} // verus!
