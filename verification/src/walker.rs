use vstd::prelude::*;

use crate::text::{dec_result, ends_with, has_suffix, parse_u64};

verus! {

/// Whether a file name is a compressed subtitle document's.
pub fn is_subtitle_name(name: &str) -> (r: bool)
    ensures
        r == has_suffix(name@, ".xml.gz"@),
{
    ends_with(name, ".xml.gz")
}

/// The document id that a path encodes: the name of the directory two levels
/// above the file — the file's grandparent — read as a decimal number.
pub open spec fn path_id(components: Seq<Seq<char>>) -> Option<u64> {
    if components.len() < 3 {
        None
    } else {
        match dec_result(components[components.len() - 3]) {
            Ok(id) => Some(id),
            Err(_) => None,
        }
    }
}

/// Derives a document id from a path, given as its components in order; the
/// caller treats `None` as a recoverable per-entry failure.
pub fn id_of_path(components: &Vec<String>) -> (r: Option<u64>)
    ensures
        r == path_id(components@.map_values(|t: String| t@)),
{
    let n = components.len();
    if n < 3 {
        return None;
    }
    proof {
        assert(components@.map_values(|t: String| t@)[n - 3] == components@[n - 3]@);
    }
    match parse_u64(components[n - 3].as_str()) {
        Ok(id) => Some(id),
        Err(_) => None,
    }
}

/// The document ids a walk has already yielded, for first-wins deduplication.
pub struct SeenIds {
    pub ids: Vec<u64>,
}

impl SeenIds {
    /// An empty record of seen ids.
    pub fn new() -> (r: SeenIds)
        ensures
            r.ids@ == Seq::<u64>::empty(),
    {
        let r = SeenIds { ids: Vec::new() };
        proof {
            assert(r.ids@ =~= Seq::<u64>::empty());
        }
        r
    }

    /// Records `id` if it has not been seen; reports whether it was new.
    pub fn insert_new(&mut self, id: u64) -> (fresh: bool)
        ensures
            fresh == !old(self).ids@.contains(id),
            final (self).ids@ == if fresh {
                old(self).ids@.push(id)
            } else {
                old(self).ids@
            },
    {
        let n = self.ids.len();
        let mut i: usize = 0;
        while i < n
            invariant
                i <= n,
                n == self.ids@.len(),
                self.ids@ == old(self).ids@,
                forall|j: int| 0 <= j < i ==> self.ids@[j] != id,
            decreases n - i,
        {
            if self.ids[i] == id {
                return false;
            }
            i += 1;
        }
        self.ids.push(id);
        true
    }
}

} // verus!
