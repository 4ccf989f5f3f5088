use vstd::prelude::*;

verus! {

/// Relies on `str::eq` (`==` on `&str`): true exactly when the two strings
/// hold the same characters.
#[verifier::external_body]
pub(crate) fn str_eq(a: &str, b: &str) -> (r: bool)
    ensures
        r == (a@ == b@),
{
    a == b
}

/// First index holding `name` in a sequence of names, if any.
pub open spec fn name_lookup(names: Seq<Seq<char>>, name: Seq<char>) -> Option<int>
    decreases names.len(),
{
    if names.len() == 0 {
        None
    } else if names[0] == name {
        Some(0int)
    } else {
        match name_lookup(names.skip(1), name) {
            None => None,
            Some(i) => Some(i + 1),
        }
    }
}

/// Value paired with the first occurrence of `id` in a sequence of
/// identifier/name pairs, if any.
pub open spec fn alt_lookup(pairs: Seq<(int, Seq<char>)>, id: int) -> Option<Seq<char>>
    decreases pairs.len(),
{
    if pairs.len() == 0 {
        None
    } else if pairs[0].0 == id {
        Some(pairs[0].1)
    } else {
        alt_lookup(pairs.skip(1), id)
    }
}

pub(crate) proof fn lemma_name_lookup_found(names: Seq<Seq<char>>, name: Seq<char>, i: int)
    requires
        0 <= i < names.len(),
        names[i] == name,
        forall|j: int| 0 <= j < i ==> names[j] != name,
    ensures
        name_lookup(names, name) == Some(i),
    decreases i,
{
    if i > 0 {
        lemma_name_lookup_found(names.skip(1), name, i - 1);
    }
}

pub(crate) proof fn lemma_name_lookup_none(names: Seq<Seq<char>>, name: Seq<char>)
    requires
        forall|j: int| 0 <= j < names.len() ==> names[j] != name,
    ensures
        name_lookup(names, name) is None,
    decreases names.len(),
{
    if names.len() > 0 {
        lemma_name_lookup_none(names.skip(1), name);
    }
}

proof fn lemma_alt_lookup_found(pairs: Seq<(int, Seq<char>)>, id: int, i: int)
    requires
        0 <= i < pairs.len(),
        pairs[i].0 == id,
        forall|j: int| 0 <= j < i ==> pairs[j].0 != id,
    ensures
        alt_lookup(pairs, id) == Some(pairs[i].1),
    decreases i,
{
    if i > 0 {
        lemma_alt_lookup_found(pairs.skip(1), id, i - 1);
    }
}

proof fn lemma_alt_lookup_none(pairs: Seq<(int, Seq<char>)>, id: int)
    requires
        forall|j: int| 0 <= j < pairs.len() ==> pairs[j].0 != id,
    ensures
        alt_lookup(pairs, id) is None,
    decreases pairs.len(),
{
    if pairs.len() > 0 {
        lemma_alt_lookup_none(pairs.skip(1), id);
    }
}

/// Bidirectional mapping between a reference sequence's integer identifier
/// and its name.
///
/// The primary table is positional: the identifier of a name is its 0-based
/// position in the header's ordered name list. An optional secondary table
/// serves only as a fallback for identifiers the primary table misses; it has
/// no reverse lookup, by design.
#[derive(Debug)]
pub struct ScaffoldDict {
    names: Vec<String>,
    alt: Option<Vec<(i32, String)>>,
}

impl ScaffoldDict {
    /// The primary identifier-to-name table, as the ordered name list.
    pub closed spec fn primary(self) -> Seq<Seq<char>> {
        self.names.deep_view()
    }

    /// The secondary identifier/name pairs, if any.
    pub closed spec fn alt_view(self) -> Option<Seq<(int, Seq<char>)>> {
        match self.alt {
            None => None,
            Some(pairs) => Some(
                Seq::new(pairs@.len(), |i: int| (pairs@[i].0 as int, pairs@[i].1@)),
            ),
        }
    }

    /// The name an identifier resolves to: the primary table first, then the
    /// secondary table.
    pub open spec fn id_lookup(self, id: int) -> Option<Seq<char>> {
        if 0 <= id < self.primary().len() {
            Some(self.primary()[id])
        } else {
            match self.alt_view() {
                None => None,
                Some(pairs) => alt_lookup(pairs, id),
            }
        }
    }

    /// Build a dictionary from a header's ordered reference names; the
    /// identifier of each name is its position in the list.
    pub fn from_header(names: Vec<String>) -> (r: ScaffoldDict)
        requires
            names@.len() <= 0x7fff_ffff,
        ensures
            r.primary() == names.deep_view(),
            r.alt_view() is None,
    {
        ScaffoldDict { names, alt: None }
    }

    /// Build a dictionary with a secondary fallback table for identifiers
    /// absent from the primary one.
    pub fn from_header_with_alt(names: Vec<String>, alt: Vec<(i32, String)>) -> (r: ScaffoldDict)
        requires
            names@.len() <= 0x7fff_ffff,
        ensures
            r.primary() == names.deep_view(),
            r.alt_view() matches Some(pairs) && pairs.len() == alt@.len() && forall|i: int|
                0 <= i < alt@.len() ==> pairs[i] == (alt@[i].0 as int, alt@[i].1@),
    {
        ScaffoldDict { names, alt: Some(alt) }
    }

    /// Resolve an identifier to its human-readable scaffold name.
    pub fn id_to_str(&self, id: i32) -> (r: Option<&str>)
        ensures
            match r {
                Some(s) => self.id_lookup(id as int) == Some(s@),
                None => self.id_lookup(id as int) is None,
            },
    {
        if id >= 0 && (id as usize) < self.names.len() {
            Some(self.names[id as usize].as_str())
        } else {
            match &self.alt {
                None => None,
                Some(pairs) => {
                    let ghost pv = self.alt_view().unwrap();
                    let mut j: usize = 0;
                    while j < pairs.len()
                        invariant
                            j <= pairs.len(),
                            pv.len() == pairs@.len(),
                            forall|k: int| 0 <= k < pairs@.len() ==> pv[k] == (
                            pairs@[k].0 as int,
                            pairs@[k].1@,
                            ),
                            forall|k: int| 0 <= k < j ==> pv[k].0 != id as int,
                            self.alt_view() == Some(pv),
                            !(0 <= id < self.primary().len()),
                        decreases pairs@.len() - j,
                    {
                        if pairs[j].0 == id {
                            proof {
                                lemma_alt_lookup_found(pv, id as int, j as int);
                            }
                            return Some(pairs[j].1.as_str());
                        }
                        j += 1;
                    }
                    proof {
                        lemma_alt_lookup_none(pv, id as int);
                    }
                    None
                },
            }
        }
    }

    /// Resolve a scaffold name to its identifier in the primary table; the
    /// secondary table is not consulted.
    pub fn str_to_id(&self, name: &str) -> (r: Option<i32>)
        requires
            self.primary().len() <= 0x7fff_ffff,
        ensures
            match r {
                Some(i) => name_lookup(self.primary(), name@) == Some(i as int),
                None => name_lookup(self.primary(), name@) is None,
            },
    {
        let mut j: usize = 0;
        while j < self.names.len()
            invariant
                j <= self.names@.len(),
                self.primary().len() == self.names@.len(),
                self.primary().len() <= 0x7fff_ffff,
                forall|k: int| 0 <= k < j ==> self.primary()[k] != name@,
            decreases self.names@.len() - j,
        {
            proof {
                assert(self.primary()[j as int] == self.names@[j as int]@);
            }
            if str_eq(self.names[j].as_str(), name) {
                proof {
                    lemma_name_lookup_found(self.primary(), name@, j as int);
                }
                return Some(j as i32);
            }
            j += 1;
        }
        proof {
            lemma_name_lookup_none(self.primary(), name@);
        }
        None
    }
}

} // verus!
