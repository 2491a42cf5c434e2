//! Offset pagination over a list of ids.
use vstd::prelude::*;
use crate::constants::MAX_PAGE_LIMIT;

verus! {

/// The page of `items` that starts at `start` and holds at most
/// `min(limit, MAX_PAGE_LIMIT)` items.
pub open spec fn page_of(items: Seq<u64>, start: u32, limit: u32) -> Seq<u64> {
    let lim = if limit < MAX_PAGE_LIMIT { limit as int } else { MAX_PAGE_LIMIT as int };
    if start >= items.len() {
        Seq::empty()
    } else if items.len() - start <= lim {
        items.subrange(start as int, items.len() as int)
    } else {
        items.subrange(start as int, start + lim)
    }
}

/// The items from position `start` on, at most `min(limit, MAX_PAGE_LIMIT)`
/// of them.
pub fn paginate(items: &Vec<u64>, start: u32, limit: u32) -> (page: Vec<u64>)
    ensures
        page@ == page_of(items@, start, limit),
{
    let limit = if limit < MAX_PAGE_LIMIT { limit } else { MAX_PAGE_LIMIT };
    let total = items.len();
    let mut result: Vec<u64> = Vec::new();
    let mut count: u32 = 0;
    let mut i: usize = start as usize;
    while i < total && count < limit
        invariant
            total == items@.len(),
            limit == (if limit < MAX_PAGE_LIMIT { limit } else { MAX_PAGE_LIMIT }),
            start <= i,
            i <= total || i == start,
            count == i - start,
            count <= limit,
            result@.len() == count,
            forall|k: int| 0 <= k < count ==> #[trigger] result@[k] == items@[start + k],
        decreases total - i,
    {
        result.push(items[i]);
        count = count + 1;
        i = i + 1;
    }
    assert(result@ =~= page_of(items@, start, limit));
    result
}

} // verus!
