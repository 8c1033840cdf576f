use vstd::prelude::*;
use crate::models::WebhookRequest;

verus! {

/// The inclusive rank range `[start, stop]` asked of the order index for a page
/// of `limit` items after `offset` items.  A page of no items asks for a range
/// whose start lies past its stop, both non-negative, which selects nothing.
pub open spec fn window(limit: int, offset: int) -> (int, int) {
    if limit > 0 {
        (offset, offset + limit - 1)
    } else {
        (offset + 1, offset)
    }
}

/// The ranks `start..=stop` (both non-negative) of a sequence, as a reverse-range
/// read of a sorted set returns them: clipped at its end, empty when out of range.
pub open spec fn rank_range<A>(s: Seq<A>, start: int, stop: int) -> Seq<A> {
    if start > stop || start >= s.len() {
        Seq::empty()
    } else if stop + 1 <= s.len() {
        s.subrange(start, stop + 1)
    } else {
        s.subrange(start, s.len() as int)
    }
}

/// The identifiers of a page of `limit` items starting `offset` items into a
/// newest-first index.
pub open spec fn page_ids<A>(index: Seq<A>, limit: int, offset: int) -> Seq<A> {
    rank_range(index, window(limit, offset).0, window(limit, offset).1)
}

/// The items that were found, in order.
pub open spec fn present<R>(s: Seq<Option<R>>) -> Seq<R>
    decreases s.len(),
{
    if s.len() == 0 {
        Seq::empty()
    } else {
        let rest = present(s.drop_first());
        match s[0] {
            Some(r) => seq![r] + rest,
            None => rest,
        }
    }
}

/// A page of history: the records of a page's identifiers, skipping those whose
/// record has expired.
pub open spec fn history_page<R>(index: Seq<Seq<char>>, records: Map<Seq<char>, R>, limit: int, offset: int) -> Seq<R> {
    present(page_ids(index, limit, offset).map_values(|id: Seq<char>|
        if records.contains_key(id) { Some(records[id]) } else { None }))
}

/// Scores never increase along the index.
pub open spec fn newest_first(scores: Seq<int>) -> bool {
    forall|i: int, j: int| 0 <= i < j < scores.len() ==> scores[i] >= scores[j]
}

/// The rank range to read for a page of `limit` items after `offset` items.
pub fn page_window(limit: usize, offset: usize) -> (r: (isize, isize))
    requires
        offset + limit < isize::MAX,
    ensures
        r.0 as int == window(limit as int, offset as int).0,
        r.1 as int == window(limit as int, offset as int).1,
        r.0 >= 0 && r.1 >= 0,
{
    if limit > 0 {
        (offset as isize, (offset + limit - 1) as isize)
    } else {
        ((offset + 1) as isize, offset as isize)
    }
}

/// The rank range to read for a page of `limit` items after `offset` items,
/// for any `limit` and `offset`: the stop is clipped to `isize::MAX`, which
/// changes nothing an index can hold; `None` when the page starts at or past
/// that rank, so that it is empty whatever the index.
pub fn page_range(limit: usize, offset: usize) -> (r: Option<(isize, isize)>)
    ensures
        r is None <==> offset >= isize::MAX,
        offset + limit < isize::MAX ==> (r matches Some(w) && w.0 as int == window(
            limit as int,
            offset as int,
        ).0 && w.1 as int == window(limit as int, offset as int).1),
        r matches Some(w) ==> (w.0 >= 0 && w.1 >= 0 && forall|index: Seq<Seq<char>>|
            index.len() <= isize::MAX ==> rank_range(index, w.0 as int, w.1 as int)
                == #[trigger] page_ids(index, limit as int, offset as int)),
        r is None ==> forall|index: Seq<Seq<char>>|
            index.len() <= isize::MAX ==> #[trigger] page_ids(index, limit as int, offset as int).len()
                == 0,
{
    if offset >= isize::MAX as usize {
        None
    } else if limit < isize::MAX as usize - offset {
        Some(page_window(limit, offset))
    } else {
        let w = (offset as isize, isize::MAX);
        proof {
            assert forall|index: Seq<Seq<char>>|
                index.len() <= isize::MAX implies rank_range(index, w.0 as int, w.1 as int)
                == #[trigger] page_ids(index, limit as int, offset as int) by {}
        }
        Some(w)
    }
}

/// Keeps the records that were found, in their order.
pub fn assemble_page(fetched: Vec<Option<WebhookRequest>>) -> (r: Vec<WebhookRequest>)
    ensures
        r@ == present(fetched@),
{
    let ghost orig = fetched@;
    let mut rest = fetched;
    let mut out: Vec<WebhookRequest> = Vec::new();
    proof {
        assert(out@ + present(rest@) =~= present(orig));
    }
    while rest.len() > 0
        invariant
            out@ + present(rest@) == present(orig),
        decreases rest@.len(),
    {
        let ghost before = rest@;
        let first = rest.remove(0);
        proof {
            assert(rest@ =~= before.drop_first());
        }
        match first {
            Some(req) => {
                proof {
                    assert(out@.push(req) + present(rest@) =~= out@ + (seq![req] + present(rest@)));
                }
                out.push(req);
            },
            None => {},
        }
    }
    proof {
        assert(present(rest@) =~= Seq::<WebhookRequest>::empty());
        assert(out@ + present(rest@) =~= out@);
    }
    out
}

proof fn lemma_present_concat<R>(a: Seq<Option<R>>, b: Seq<Option<R>>)
    ensures
        present(a + b) == present(a) + present(b),
    decreases a.len(),
{
    if a.len() == 0 {
        assert(a + b =~= b);
        assert(present(a) + present(b) =~= present(b));
    } else {
        assert((a + b).drop_first() =~= a.drop_first() + b);
        lemma_present_concat(a.drop_first(), b);
        match a[0] {
            Some(r) => {
                assert(seq![r] + present(a.drop_first()) + present(b) =~= seq![r] + (present(
                    a.drop_first(),
                ) + present(b)));
            },
            None => {},
        }
    }
}

/// The first page holds the `limit` most recent identifiers, in the order of the
/// index, so with scores that never increase along the index its scores never
/// increase either.
pub proof fn first_page_is_most_recent(index: Seq<Seq<char>>, scores: Seq<int>, limit: int)
    requires
        scores.len() == index.len(),
        newest_first(scores),
        1 <= limit <= index.len(),
    ensures
        page_ids(index, limit, 0) == index.subrange(0, limit),
        newest_first(page_ids(scores, limit, 0)),
        page_ids(scores, limit, 0) == scores.subrange(0, limit),
{
}

/// Two consecutive pages of `limit` read the same identifiers, and the same
/// records, as one page of twice that size, when the index holds that many.
pub proof fn consecutive_pages_concatenate<R>(index: Seq<Seq<char>>, records: Map<Seq<char>, R>, limit: int)
    requires
        1 <= limit,
        2 * limit <= index.len(),
    ensures
        page_ids(index, limit, 0) + page_ids(index, limit, limit) == page_ids(index, 2 * limit, 0),
        history_page(index, records, limit, 0) + history_page(index, records, limit, limit)
            == history_page(index, records, 2 * limit, 0),
{
    let a = page_ids(index, limit, 0);
    let b = page_ids(index, limit, limit);
    let c = page_ids(index, 2 * limit, 0);
    assert(a + b =~= c);
    let f = |id: Seq<char>| if records.contains_key(id) { Some(records[id]) } else { None };
    assert(a.map_values(f) + b.map_values(f) =~= c.map_values(f));
    lemma_present_concat(a.map_values(f), b.map_values(f));
}

/// A page of no items is empty, whatever the index and the offset.
pub proof fn zero_limit_page_is_empty<R>(index: Seq<Seq<char>>, records: Map<Seq<char>, R>, offset: int)
    requires
        offset >= 0,
    ensures
        page_ids(index, 0, offset) == Seq::<Seq<char>>::empty(),
        history_page(index, records, 0, offset) == Seq::<R>::empty(),
{
    let f = |id: Seq<char>| if records.contains_key(id) { Some(records[id]) } else { None };
    assert(page_ids(index, 0, offset).map_values(f) =~= Seq::<Option<R>>::empty());
}

proof fn lemma_present_all<R>(s: Seq<Option<R>>)
    requires
        forall|i: int| 0 <= i < s.len() ==> (#[trigger] s[i]) is Some,
    ensures
        present(s).len() == s.len(),
    decreases s.len(),
{
    if s.len() > 0 {
        assert forall|i: int| 0 <= i < s.drop_first().len() implies (#[trigger] s.drop_first()[i]) is Some by {
            assert(s.drop_first()[i] == s[i + 1]);
        }
        lemma_present_all(s.drop_first());
    }
}

/// When every identifier of the index still has its record, the first page of
/// `limit` items, for `limit` at most the index's size, holds exactly `limit` records.
pub proof fn full_first_page_has_limit_records<R>(index: Seq<Seq<char>>, records: Map<Seq<char>, R>, limit: int)
    requires
        1 <= limit <= index.len(),
        forall|i: int| 0 <= i < index.len() ==> records.contains_key(#[trigger] index[i]),
    ensures
        history_page(index, records, limit, 0).len() == limit,
{
    let ids = page_ids(index, limit, 0);
    assert(ids =~= index.subrange(0, limit));
    let f = |id: Seq<char>| if records.contains_key(id) { Some(records[id]) } else { None };
    let found = ids.map_values(f);
    assert forall|i: int| 0 <= i < found.len() implies (#[trigger] found[i]) is Some by {
        assert(ids[i] == index[i]);
    }
    lemma_present_all(found);
}

} // verus!
