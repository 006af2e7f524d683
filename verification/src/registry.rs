//! The ordered list of sources that one polling cycle visits.

use vstd::prelude::*;

verus! {

/// Whether no identifier occurs twice in `ids`.
pub open spec fn distinct(ids: Seq<u64>) -> bool {
    forall|i: int, j: int| 0 <= i < j < ids.len() ==> ids[i] != ids[j]
}

/// Whether `id` occurs in the first `n` items of `ids`.
fn occurs_before(ids: &Vec<u64>, n: usize, id: u64) -> (found: bool)
    requires
        n <= ids.len(),
    ensures
        found <==> exists|k: int| 0 <= k < n && ids@[k] == id,
{
    let mut k: usize = 0;
    while k < n
        invariant
            k <= n <= ids.len(),
            forall|m: int| 0 <= m < k ==> ids@[m] != id,
        decreases n - k,
    {
        if ids[k] == id {
            return true;
        }
        k += 1;
    }
    false
}

/// Whether no identifier occurs twice in `ids`.
pub fn all_distinct(ids: &Vec<u64>) -> (ok: bool)
    ensures
        ok == distinct(ids@),
{
    let mut i: usize = 0;
    while i < ids.len()
        invariant
            i <= ids.len(),
            forall|a: int, b: int| 0 <= a < b < i ==> ids@[a] != ids@[b],
        decreases ids.len() - i,
    {
        if occurs_before(ids, i, ids[i]) {
            return false;
        }
        i += 1;
    }
    true
}

/// The sources of a polling cycle, in the order in which they are visited.
/// It is fixed once made, and no source occurs in it twice.
#[derive(Clone, Debug, PartialEq, Eq)]
pub struct SourceRegistry {
    ids: Vec<u64>,
}

impl View for SourceRegistry {
    type V = Seq<u64>;

    closed spec fn view(&self) -> Seq<u64> {
        self.ids@
    }
}

impl SourceRegistry {
    /// What every registry satisfies: no source occurs twice.
    pub open spec fn wf(&self) -> bool {
        distinct(self@)
    }

    /// A registry of `ids` in their order, or `None` where an identifier
    /// occurs twice.
    pub fn new(ids: Vec<u64>) -> (made: Option<SourceRegistry>)
        ensures
            made is Some <==> distinct(ids@),
            made matches Some(r) ==> r@ == ids@ && r.wf(),
    {
        if all_distinct(&ids) {
            Some(SourceRegistry { ids })
        } else {
            None
        }
    }

    /// The number of sources.
    pub fn len(&self) -> (n: usize)
        ensures
            n == self@.len(),
    {
        self.ids.len()
    }

    /// Whether the registry holds no source.
    pub fn is_empty(&self) -> (none: bool)
        ensures
            none == (self@.len() == 0),
    {
        self.ids.len() == 0
    }

    /// The source at `position`, or `None` past the end.
    pub fn get(&self, position: usize) -> (id: Option<u64>)
        ensures
            id == if position < self@.len() {
                Some(self@[position as int])
            } else {
                None
            },
    {
        if position < self.ids.len() {
            Some(self.ids[position])
        } else {
            None
        }
    }

    /// Whether `id` is one of the sources.
    pub fn contains(&self, id: u64) -> (found: bool)
        ensures
            found == self@.contains(id),
    {
        occurs_before(&self.ids, self.ids.len(), id)
    }

    /// The sources in order.
    pub fn ids(&self) -> (ids: &Vec<u64>)
        ensures
            ids@ == self@,
    {
        &self.ids
    }
}

} // verus!
