//! Search result list layout and result-to-result navigation.

use vstd::prelude::*;

use crate::reader::{PdfReader, QaCounters};
use crate::text_field::{law_clearing_empties_the_field, replaced};
use crate::reader::comments::{is_blank, is_blank_text};
use crate::text_format::{decimal_spec, str_eq, with_number, with_two_numbers};
use crate::utf8_text::byte_len;

verus! {

/// Identity of one search match: its page and character range on that page.
#[derive(Clone, Copy, Debug, PartialEq, Eq, Hash, Structural)]
pub struct SearchMatchId {
    pub page: usize,
    pub start: usize,
    pub end: usize,
}

/// Query, results and progress of the document search.
#[derive(Clone, Debug, Default, PartialEq, Eq)]
pub struct SearchState {
    pub query: String,
    pub input_error: Option<String>,
    pub revision: u64,
    pub order: Vec<SearchMatchId>,
    pub active: Option<SearchMatchId>,
    pub searched_pages: usize,
    pub total_highlight_runs: usize,
    pub complete: bool,
    pub truncated: bool,
}

/// One row of the search result list: a page heading or a match.
#[derive(Clone, Copy, Debug, PartialEq, Eq, Structural)]
pub enum SearchListRow {
    Page(usize),
    Match { id: SearchMatchId, ordinal: usize },
}

/// Rows for matches in result order: each match is preceded by a heading for
/// its page whenever the page differs from the previous match's page.
pub open spec fn search_rows_spec(order: Seq<SearchMatchId>) -> Seq<SearchListRow>
    decreases order.len(),
{
    if order.len() == 0 {
        seq![]
    } else {
        let k = order.len() - 1;
        let heading = if k == 0 || order[k - 1].page != order[k].page {
            seq![SearchListRow::Page(order[k].page)]
        } else {
            seq![]
        };
        search_rows_spec(order.drop_last()) + heading + seq![
            SearchListRow::Match { id: order[k], ordinal: k as usize },
        ]
    }
}

/// Index of the first occurrence of `id` in `results`.
pub open spec fn first_position(results: Seq<SearchMatchId>, id: SearchMatchId) -> Option<int>
    decreases results.len(),
{
    if results.len() == 0 {
        None
    } else {
        match first_position(results.drop_last(), id) {
            Some(i) => Some(i),
            None => if results.last() == id {
                Some(results.len() - 1)
            } else {
                None
            },
        }
    }
}

/// The match after (or before) `active`, wrapping around; an absent or stale
/// `active` starts at the first (or last) match.
pub open spec fn next_search_spec(
    results: Seq<SearchMatchId>,
    active: Option<SearchMatchId>,
    forward: bool,
) -> Option<SearchMatchId> {
    let len = results.len() as int;
    if len == 0 {
        None
    } else {
        let current = match active {
            Some(id) => first_position(results, id),
            None => None,
        };
        let index = match current {
            Some(i) => if forward {
                if i + 1 < len {
                    i + 1
                } else {
                    0
                }
            } else {
                if i == 0 {
                    len - 1
                } else {
                    i - 1
                }
            },
            None => if forward {
                0
            } else {
                len - 1
            },
        };
        Some(results[index])
    }
}

/// Lays out search results under one heading per run of same-page matches.
pub fn search_list_rows(order: &[SearchMatchId]) -> (rows: Vec<SearchListRow>)
    ensures
        rows@ == search_rows_spec(order@),
{
    let mut rows: Vec<SearchListRow> = Vec::new();
    let mut previous_page: Option<usize> = None;
    let mut ordinal: usize = 0;
    while ordinal < order.len()
        invariant
            0 <= ordinal <= order@.len(),
            rows@ == search_rows_spec(order@.take(ordinal as int)),
            ordinal == 0 ==> previous_page is None,
            ordinal > 0 ==> previous_page == Some(order@[ordinal - 1].page),
        decreases order@.len() - ordinal,
    {
        let id = order[ordinal];
        proof {
            let next = order@.take(ordinal + 1);
            assert(next.drop_last() =~= order@.take(ordinal as int));
            assert(next[ordinal as int] == id);
            if ordinal > 0 {
                assert(next[ordinal - 1] == order@[ordinal - 1]);
            }
        }
        let starts_page = match previous_page {
            Some(page) => page != id.page,
            None => true,
        };
        if starts_page {
            rows.push(SearchListRow::Page(id.page));
            previous_page = Some(id.page);
        }
        rows.push(SearchListRow::Match { id, ordinal });
        proof {
            let next = order@.take(ordinal + 1);
            assert(rows@ =~= search_rows_spec(next));
        }
        ordinal = ordinal + 1;
    }
    proof {
        assert(order@.take(order@.len() as int) =~= order@);
    }
    rows
}

fn position_of(results: &[SearchMatchId], id: SearchMatchId) -> (position: Option<usize>)
    ensures
        match first_position(results@, id) {
            Some(i) => position == Some(i as usize),
            None => position is None,
        },
{
    let mut index: usize = 0;
    while index < results.len()
        invariant
            0 <= index <= results@.len(),
            first_position(results@.take(index as int), id) is None,
        decreases results@.len() - index,
    {
        proof {
            lemma_first_position_prefix(results@, id, index as int);
        }
        if results[index] == id {
            proof {
                let next = results@.take(index + 1);
                assert(next.drop_last() =~= results@.take(index as int));
                lemma_first_position_extends(results@, id, index + 1, index as int);
            }
            return Some(index);
        }
        proof {
            let next = results@.take(index + 1);
            assert(next.drop_last() =~= results@.take(index as int));
        }
        index = index + 1;
    }
    proof {
        assert(results@.take(results@.len() as int) =~= results@);
    }
    None
}

proof fn lemma_first_position_prefix(results: Seq<SearchMatchId>, id: SearchMatchId, k: int)
    requires
        0 <= k < results.len(),
        first_position(results.take(k), id) is None,
    ensures
        first_position(results.take(k + 1), id) == if results[k] == id {
            Some(k)
        } else {
            None::<int>
        },
{
    assert(results.take(k + 1).drop_last() =~= results.take(k));
}

/// A match found at the end of a prefix stays the first match of every longer prefix.
proof fn lemma_first_position_extends(
    results: Seq<SearchMatchId>,
    id: SearchMatchId,
    k: int,
    p: int,
)
    requires
        0 < k <= results.len(),
        first_position(results.take(k), id) == Some(p),
    ensures
        first_position(results, id) == Some(p),
    decreases results.len() - k,
{
    if k == results.len() {
        assert(results.take(k) =~= results);
    } else {
        assert(results.take(k + 1).drop_last() =~= results.take(k));
        lemma_first_position_extends(results, id, k + 1, p);
    }
}

/// The next (or previous) search match to activate, wrapping at either end.
pub fn next_search_match_id(
    results: &[SearchMatchId],
    active: Option<SearchMatchId>,
    forward: bool,
) -> (next: Option<SearchMatchId>)
    ensures
        next == next_search_spec(results@, active, forward),
{
    let len = results.len();
    if len == 0 {
        return None;
    }
    let current = match active {
        Some(id) => position_of(results, id),
        None => None,
    };
    proof {
        if let Some(id) = active {
            lemma_first_position_bounds(results@, id);
        }
    }
    let index = match current {
        Some(index) => if forward {
            if index + 1 < len {
                index + 1
            } else {
                0
            }
        } else {
            if index == 0 {
                len - 1
            } else {
                index - 1
            }
        },
        None => if forward {
            0
        } else {
            len - 1
        },
    };
    Some(results[index])
}

proof fn lemma_first_position_bounds(results: Seq<SearchMatchId>, id: SearchMatchId)
    ensures
        first_position(results, id) matches Some(i) ==> 0 <= i < results.len() && results[i] == id,
        first_position(results, id) is None ==> !results.contains(id),
        forall|j: int|
            0 <= j < results.len() && results[j] == id ==> (first_position(results, id) matches Some(
                i,
            ) && i <= j),
    decreases results.len(),
{
    if results.len() > 0 {
        let rest = results.drop_last();
        lemma_first_position_bounds(rest, id);
        assert forall|j: int| 0 <= j < results.len() && results[j] == id implies (first_position(
            results,
            id,
        ) matches Some(i) && i <= j) by {
            if j < results.len() - 1 {
                assert(rest[j] == id);
            }
        }
        if first_position(results, id) is None {
            assert forall|j: int| 0 <= j < results.len() implies results[j] != id by {
                if j < results.len() - 1 {
                    assert(rest[j] == results[j]);
                }
            }
        }
    }
}

/// Stepping forward and then backward through distinct results returns to the
/// match the step started from.
pub proof fn law_search_step_round_trip(results: Seq<SearchMatchId>, i: int)
    requires
        0 <= i < results.len(),
        forall|a: int, b: int| 0 <= a < b < results.len() ==> results[a] != results[b],
    ensures
        next_search_spec(results, next_search_spec(results, Some(results[i]), true), false)
            == Some(results[i]),
{
    let len = results.len() as int;
    lemma_first_position_bounds(results, results[i]);
    let j = if i + 1 < len {
        i + 1
    } else {
        0
    };
    lemma_first_position_bounds(results, results[j]);
    assert(first_position(results, results[j]) == Some(j));
}

/// Forward navigation wraps from the last match to the first, and backward
/// navigation from the first to the last.
pub proof fn law_search_wraps(results: Seq<SearchMatchId>)
    requires
        results.len() > 0,
        forall|a: int, b: int| 0 <= a < b < results.len() ==> results[a] != results[b],
    ensures
        next_search_spec(results, Some(results.last()), true) == Some(results[0]),
        next_search_spec(results, Some(results[0]), false) == Some(results.last()),
{
    let len = results.len() as int;
    lemma_first_position_bounds(results, results[len - 1]);
    lemma_first_position_bounds(results, results[0]);
    assert(first_position(results, results[len - 1]) == Some(len - 1));
    assert(first_position(results, results[0]) == Some(0int));
}

/// The row list ends with the last match, carrying its ordinal, and holds at
/// least one page heading besides the match rows.
pub proof fn law_search_rows_end_with_last_match(order: Seq<SearchMatchId>)
    requires
        order.len() > 0,
    ensures
        search_rows_spec(order).last() == (SearchListRow::Match {
            id: order.last(),
            ordinal: (order.len() - 1) as usize,
        }),
        search_rows_spec(order).len() >= order.len() + 1,
    decreases order.len(),
{
    if order.len() > 1 {
        law_search_rows_end_with_last_match(order.drop_last());
    }
}

/// Every heading after the first row follows a match of another page.
#[verifier::opaque]
pub open spec fn headings_follow_other_pages(rows: Seq<SearchListRow>) -> bool {
    forall|r: int|
        1 <= r < rows.len() && (#[trigger] rows[r]) is Page ==> rows[r - 1] is Match && rows[r
            - 1]->id.page != rows[r]->Page_0
}

/// Adjacent match rows are of one page, and the ordinals count the match rows
/// from 0: the second row holds ordinal 0, and each match row carries one more
/// than the match row before it (directly above, or above its heading).
#[verifier::opaque]
pub open spec fn matches_counted_in_page_runs(rows: Seq<SearchListRow>) -> bool {
    forall|r: int|
        1 <= r < rows.len() && (#[trigger] rows[r]) is Match ==> {
            &&& r == 1 ==> rows[0] is Page && rows[r]->ordinal == 0
            &&& rows[r - 1] is Match ==> rows[r - 1]->id.page == rows[r]->id.page && rows[r]->ordinal
                == rows[r - 1]->ordinal + 1
            &&& (rows[r - 1] is Page && r >= 2) ==> rows[r - 2] is Match && rows[r]->ordinal
                == rows[r - 2]->ordinal + 1
        }
}

/// Where the result list places its page headings and ordinals: it opens with
/// the first match's page heading; a heading follows a match of another page,
/// so a run of same-page matches gets one heading; two adjacent match rows
/// are of the same page; and each match row's ordinal is one more than that of
/// the match row before it.
pub proof fn law_search_rows_head_each_page_run_once(order: Seq<SearchMatchId>)
    requires
        order.len() <= usize::MAX,
    ensures
        order.len() > 0 ==> search_rows_spec(order)[0] == SearchListRow::Page(order[0].page),
        headings_follow_other_pages(search_rows_spec(order)),
        matches_counted_in_page_runs(search_rows_spec(order)),
    decreases order.len(),
{
    if order.len() == 0 {
        reveal(headings_follow_other_pages);
        reveal(matches_counted_in_page_runs);
    } else {
        let k = order.len() - 1;
        let head = order.drop_last();
        let before = search_rows_spec(head);
        let starts = k == 0 || order[k - 1].page != order[k].page;
        let heading = if starts {
            seq![SearchListRow::Page(order[k].page)]
        } else {
            seq![]
        };
        let tail = seq![SearchListRow::Match { id: order[k], ordinal: k as usize }];
        law_search_rows_head_each_page_run_once(head);
        let rows = search_rows_spec(order);
        assert(rows == before + heading + tail);
        if k > 0 {
            law_search_rows_end_with_last_match(head);
            assert(head.last() == order[k - 1]);
            assert(head[0] == order[0]);
            assert(before[0] is Page);
            assert(rows[0] == before[0]);
        } else {
            assert(before.len() == 0);
            assert(rows[0] == heading[0]);
        }
        lemma_headings_step(before, heading, tail, rows, order[k], k > 0);
        lemma_matches_step(before, heading, tail, rows, order[k], k, k > 0);
    }
}

proof fn lemma_headings_step(
    before: Seq<SearchListRow>,
    heading: Seq<SearchListRow>,
    tail: Seq<SearchListRow>,
    rows: Seq<SearchListRow>,
    id: SearchMatchId,
    has_before: bool,
)
    requires
        rows == before + heading + tail,
        tail.len() == 1,
        tail[0] is Match,
        headings_follow_other_pages(before),
        has_before ==> before.len() >= 1 && before.last() is Match,
        !has_before ==> before.len() == 0,
        heading.len() <= 1,
        heading.len() == 1 ==> heading[0] == SearchListRow::Page(id.page) && (has_before
            ==> before.last()->id.page != id.page),
    ensures
        headings_follow_other_pages(rows),
{
    reveal(headings_follow_other_pages);
    let b = before.len() as int;
    assert forall|r: int| 1 <= r < rows.len() && (#[trigger] rows[r]) is Page implies rows[r - 1] is Match
        && rows[r - 1]->id.page != rows[r]->Page_0 by {
        if r < b {
            assert(rows[r] == before[r]);
            assert(rows[r - 1] == before[r - 1]);
        } else if r == b && heading.len() > 0 {
            assert(rows[r] == heading[0]);
            assert(rows[r - 1] == before[b - 1]);
        } else {
            assert(rows[r] == tail[0]);
        }
    }
}

proof fn lemma_matches_step(
    before: Seq<SearchListRow>,
    heading: Seq<SearchListRow>,
    tail: Seq<SearchListRow>,
    rows: Seq<SearchListRow>,
    id: SearchMatchId,
    k: int,
    has_before: bool,
)
    requires
        0 <= k <= usize::MAX,
        rows == before + heading + tail,
        tail == seq![SearchListRow::Match { id, ordinal: k as usize }],
        matches_counted_in_page_runs(before),
        has_before ==> before.len() >= 1 && before[0] is Page && before.last() is Match
            && before.last()->ordinal == k - 1,
        !has_before ==> before.len() == 0 && k == 0,
        heading.len() <= 1,
        heading.len() == 1 ==> heading[0] is Page,
        heading.len() == 0 ==> has_before && before.last()->id.page == id.page,
    ensures
        matches_counted_in_page_runs(rows),
{
    reveal(matches_counted_in_page_runs);
    let b = before.len() as int;
    assert forall|r: int| 1 <= r < rows.len() && (#[trigger] rows[r]) is Match implies {
        &&& r == 1 ==> rows[0] is Page && rows[r]->ordinal == 0
        &&& rows[r - 1] is Match ==> rows[r - 1]->id.page == rows[r]->id.page && rows[r]->ordinal
            == rows[r - 1]->ordinal + 1
        &&& (rows[r - 1] is Page && r >= 2) ==> rows[r - 2] is Match && rows[r]->ordinal == rows[r
            - 2]->ordinal + 1
    } by {
        if r < b {
            assert(rows[r] == before[r]);
            assert(rows[r - 1] == before[r - 1]);
            if r >= 2 {
                assert(rows[r - 2] == before[r - 2]);
            }
            assert(rows[0] == before[0]);
        } else {
            assert(r == rows.len() - 1);
            assert(rows[r] == tail[0]);
            if heading.len() > 0 {
                assert(rows[r - 1] == heading[0]);
                if has_before {
                    assert(rows[r - 2] == before[b - 1]);
                } else {
                    assert(rows[0] == heading[0]);
                }
            } else {
                assert(rows[r - 1] == before[b - 1]);
                if r == 1 {
                    assert(rows[0] == before[0]);
                }
            }
        }
    }
}

/// The matches listed by `rows`, in row order.
pub open spec fn listed_matches(rows: Seq<SearchListRow>) -> Seq<SearchMatchId>
    decreases rows.len(),
{
    if rows.len() == 0 {
        seq![]
    } else {
        match rows.last() {
            SearchListRow::Match { id, .. } => listed_matches(rows.drop_last()).push(id),
            SearchListRow::Page(_) => listed_matches(rows.drop_last()),
        }
    }
}

proof fn lemma_listed_matches_concat(a: Seq<SearchListRow>, b: Seq<SearchListRow>)
    ensures
        listed_matches(a + b) == listed_matches(a) + listed_matches(b),
    decreases b.len(),
{
    if b.len() == 0 {
        assert(a + b =~= a);
        assert(listed_matches(b) =~= Seq::<SearchMatchId>::empty());
        assert(listed_matches(a) + listed_matches(b) =~= listed_matches(a));
    } else {
        assert((a + b).drop_last() =~= a + b.drop_last());
        lemma_listed_matches_concat(a, b.drop_last());
        match b.last() {
            SearchListRow::Match { id, .. } => {
                assert(listed_matches(a) + listed_matches(b.drop_last()).push(id) =~= (listed_matches(a)
                    + listed_matches(b.drop_last())).push(id));
            },
            SearchListRow::Page(_) => {},
        }
    }
}

/// The heading at row `r` stands directly above a match of its page.
pub open spec fn heading_above_its_match(rows: Seq<SearchListRow>, r: int) -> bool {
    r + 1 < rows.len() && (rows[r + 1] matches SearchListRow::Match { id, .. } && id.page
        == rows[r]->Page_0)
}

/// The result list shows every match exactly once, in result order, and every
/// page heading stands directly above a match of that page.
pub proof fn law_search_rows_list_every_match_once(order: Seq<SearchMatchId>)
    ensures
        listed_matches(search_rows_spec(order)) == order,
        forall|r: int|
            0 <= r < search_rows_spec(order).len() && (#[trigger] search_rows_spec(order)[r]) is Page
                ==> heading_above_its_match(search_rows_spec(order), r),
    decreases order.len(),
{
    if order.len() > 0 {
        let k = order.len() - 1;
        let before = search_rows_spec(order.drop_last());
        let heading = if k == 0 || order[k - 1].page != order[k].page {
            seq![SearchListRow::Page(order[k].page)]
        } else {
            seq![]
        };
        let tail = seq![SearchListRow::Match { id: order[k], ordinal: k as usize }];
        law_search_rows_list_every_match_once(order.drop_last());
        lemma_listed_matches_concat(before, heading);
        lemma_listed_matches_concat(before + heading, tail);
        let rows = search_rows_spec(order);
        assert(rows == before + heading + tail);
        assert(listed_matches(heading) =~= Seq::<SearchMatchId>::empty()) by {
            reveal_with_fuel(listed_matches, 2);
            if heading.len() > 0 {
                assert(heading.drop_last() =~= Seq::<SearchListRow>::empty());
            }
        }
        assert(listed_matches(tail) =~= seq![order[k]]) by {
            reveal_with_fuel(listed_matches, 2);
            assert(tail.drop_last() =~= Seq::<SearchListRow>::empty());
        }
        assert(order.drop_last() + seq![order[k]] =~= order);
        if k > 0 {
            law_search_rows_end_with_last_match(order.drop_last());
        }
        assert forall|r: int| 0 <= r < rows.len() && (#[trigger] rows[r]) is Page implies heading_above_its_match(
            rows,
            r,
        ) by {
            if r < before.len() {
                assert(rows[r] == before[r]);
                if r + 1 < before.len() {
                    assert(before[r] is Page);
                    assert(heading_above_its_match(before, r));
                    assert(rows[r + 1] == before[r + 1]);
                } else {
                    assert(before[r] is Match);
                }
            } else if r == before.len() && heading.len() > 0 {
                assert(rows[r] == heading[0]);
                assert(rows[r + 1] == tail[0]);
            } else {
                assert(rows[r] == tail[0]);
            }
        }
    }
}

/// The row is the list entry of match `id`.
pub open spec fn is_row_of(row: SearchListRow, id: SearchMatchId) -> bool {
    row matches SearchListRow::Match { id: found, .. } && found == id
}

/// Index of the first list row of match `id`.
pub open spec fn first_row_of(rows: Seq<SearchListRow>, id: SearchMatchId) -> Option<int>
    decreases rows.len(),
{
    if rows.len() == 0 {
        None
    } else {
        match first_row_of(rows.drop_last(), id) {
            Some(i) => Some(i),
            None => if is_row_of(rows.last(), id) {
                Some(rows.len() - 1)
            } else {
                None
            },
        }
    }
}

/// The list row that shows match `id`, if the list has one.
pub fn search_row_of(rows: &[SearchListRow], id: SearchMatchId) -> (row: Option<usize>)
    ensures
        row == (match first_row_of(rows@, id) {
            Some(i) => Some(i as usize),
            None => None,
        }),
{
    let mut index: usize = 0;
    while index < rows.len()
        invariant
            0 <= index <= rows@.len(),
            first_row_of(rows@.take(index as int), id) is None,
        decreases rows@.len() - index,
    {
        let found = match rows[index] {
            SearchListRow::Match { id: candidate, .. } => candidate == id,
            SearchListRow::Page(_) => false,
        };
        proof {
            assert(rows@.take(index + 1).drop_last() =~= rows@.take(index as int));
        }
        if found {
            proof {
                lemma_first_row_of_prefix(rows@, id, index + 1);
            }
            return Some(index);
        }
        index = index + 1;
    }
    proof {
        assert(rows@.take(rows@.len() as int) =~= rows@);
    }
    None
}

proof fn lemma_first_row_of_prefix(rows: Seq<SearchListRow>, id: SearchMatchId, n: int)
    requires
        0 < n <= rows.len(),
        first_row_of(rows.take(n - 1), id) is None,
        is_row_of(rows[n - 1], id),
    ensures
        first_row_of(rows, id) == Some(n - 1),
    decreases rows.len() - n,
{
    assert(rows.take(n).drop_last() =~= rows.take(n - 1));
    assert(first_row_of(rows.take(n), id) == Some(n - 1));
    if n < rows.len() {
        assert(rows.take(n + 1).drop_last() =~= rows.take(n));
        lemma_first_row_of_extends(rows, id, n);
    } else {
        assert(rows.take(n) =~= rows);
    }
}

proof fn lemma_first_row_of_extends(rows: Seq<SearchListRow>, id: SearchMatchId, n: int)
    requires
        0 < n <= rows.len(),
        first_row_of(rows.take(n), id) is Some,
    ensures
        first_row_of(rows, id) == first_row_of(rows.take(n), id),
    decreases rows.len() - n,
{
    if n < rows.len() {
        assert(rows.take(n + 1).drop_last() =~= rows.take(n));
        lemma_first_row_of_extends(rows, id, n + 1);
    } else {
        assert(rows.take(n) =~= rows);
    }
}

/// How the host validated a search query before it reached the reader.
#[derive(Clone, Debug, PartialEq, Eq)]
pub enum QueryValidation {
    /// A searchable query.
    Valid,
    /// An empty query: nothing to search.
    Empty,
    /// A query that cannot be searched, with the message to show.
    Invalid { message: String },
}

/// What the host does after the search query was set.
#[derive(Clone, Copy, Debug, PartialEq, Eq, Structural)]
pub enum SearchStep {
    /// The query did not change; nothing is cancelled or started.
    Unchanged,
    /// The previous search (of an older revision) is cancelled and no new one
    /// starts: the query is empty or was refused.
    Finished { revision: u64 },
    /// The previous search is cancelled; after the debounce a search of
    /// `revision` starts.
    Debounce { revision: u64 },
}

impl SearchState {
    /// The query-setting rule on the search state alone; see
    /// `PdfReader::set_search_query`.
    fn set_query(&mut self, query: &str, validation: QueryValidation) -> (step: SearchStep)
        ensures
            old(self).query@ == query@ ==> {
                &&& step == SearchStep::Unchanged
                &&& *final(self) == (SearchState { input_error: final(self).input_error, ..*old(self) })
                &&& final(self).input_error == (match validation {
                    QueryValidation::Invalid { message } => if old(self).input_error is Some {
                        Some(message)
                    } else {
                        None
                    },
                    _ => None,
                })
            },
            old(self).query@ != query@ ==> {
                let revision = old(self).revision.wrapping_add(1);
                &&& final(self).query@ == query@
                &&& final(self).revision == revision
                &&& final(self).order@.len() == 0
                &&& final(self).active is None
                &&& final(self).searched_pages == 0
                &&& final(self).total_highlight_runs == 0
                &&& !final(self).truncated
                &&& final(self).complete == (validation != QueryValidation::Valid)
                &&& final(self).input_error == (match validation {
                    QueryValidation::Invalid { message } => Some(message),
                    _ => None,
                })
                &&& step == (if validation == QueryValidation::Valid {
                    SearchStep::Debounce { revision }
                } else {
                    SearchStep::Finished { revision }
                })
            },
    {
        let had_error = self.input_error.is_some();
        self.input_error = None;
        if str_eq(self.query.as_str(), query) {
            if had_error {
                match validation {
                    QueryValidation::Invalid { message } => {
                        self.input_error = Some(message);
                    },
                    _ => {},
                }
            }
            return SearchStep::Unchanged;
        }
        let revision = self.revision.wrapping_add(1);
        self.revision = revision;
        self.query = query.to_owned();
        self.order.clear();
        self.active = None;
        self.searched_pages = 0;
        self.total_highlight_runs = 0;
        self.truncated = false;
        match validation {
            QueryValidation::Valid => {
                self.complete = false;
                SearchStep::Debounce { revision }
            },
            QueryValidation::Empty => {
                self.complete = true;
                SearchStep::Finished { revision }
            },
            QueryValidation::Invalid { message } => {
                self.complete = true;
                self.input_error = Some(message);
                SearchStep::Finished { revision }
            },
        }
    }
}

impl PdfReader {
    /// Sets the search query. An unchanged query only refreshes its input error;
    /// a new one starts a new revision with no results, which is already
    /// complete when the query is empty or invalid and otherwise waits for the
    /// debounce.
    #[verifier::rlimit(100)]
    pub fn set_search_query(&mut self, query: &str, validation: QueryValidation) -> (step: SearchStep)
        ensures
            old(self).search.query@ == query@ ==> {
                &&& step == SearchStep::Unchanged
                &&& *final(self) == (PdfReader { search: final(self).search, ..*old(self) })
                &&& final(self).search == (SearchState {
                    input_error: final(self).search.input_error,
                    ..old(self).search
                })
                &&& final(self).search.input_error == (match validation {
                    QueryValidation::Invalid { message } => if old(self).search.input_error is Some {
                        Some(message)
                    } else {
                        None
                    },
                    _ => None,
                })
            },
            old(self).search.query@ != query@ ==> {
                let revision = old(self).search.revision.wrapping_add(1);
                &&& *final(self) == (PdfReader {
                    search: final(self).search,
                    search_debounce_pending: validation == QueryValidation::Valid,
                    ..*old(self)
                })
                &&& final(self).search.query@ == query@
                &&& final(self).search.revision == revision
                &&& final(self).search.order@.len() == 0
                &&& final(self).search.active is None
                &&& final(self).search.searched_pages == 0
                &&& final(self).search.total_highlight_runs == 0
                &&& !final(self).search.truncated
                &&& final(self).search.complete == (validation != QueryValidation::Valid)
                &&& final(self).search.input_error == (match validation {
                    QueryValidation::Invalid { message } => Some(message),
                    _ => None,
                })
                &&& step == (if validation == QueryValidation::Valid {
                    SearchStep::Debounce { revision }
                } else {
                    SearchStep::Finished { revision }
                })
            },
    {
        let step = self.search.set_query(query, validation);
        let pending = match step {
            SearchStep::Unchanged => self.search_debounce_pending,
            SearchStep::Finished { .. } => false,
            SearchStep::Debounce { .. } => true,
        };
        self.search_debounce_pending = pending;
        step
    }

    /// The search debounce armed for `revision` is over: the search starts only
    /// when no later query or reset superseded it.
    pub fn search_debounce_due(&mut self, revision: u64) -> (start: bool)
        ensures
            start == (revision == old(self).search.revision),
            *final(self) == (if start {
                PdfReader { search_debounce_pending: false, ..*old(self) }
            } else {
                *old(self)
            }),
    {
        if self.search.revision == revision {
            self.search_debounce_pending = false;
            true
        } else {
            false
        }
    }

    /// Clears the search: a new revision (returned, so the host cancels older
    /// searches) with no query, no results and nothing in progress, and an
    /// empty search field.
    #[verifier::rlimit(100)]
    pub fn reset_search(&mut self) -> (revision: u64)
        ensures
            revision == old(self).search.revision.wrapping_add(1),
            *final(self) == (PdfReader {
                search: final(self).search,
                search_field: final(self).search_field,
                search_debounce_pending: false,
                ..*old(self)
            }),
            final(self).search.query@.len() == 0,
            final(self).search.input_error is None,
            final(self).search.revision == revision,
            final(self).search.order@.len() == 0,
            final(self).search.active is None,
            final(self).search.searched_pages == 0,
            final(self).search.total_highlight_runs == 0,
            final(self).search.complete,
            !final(self).search.truncated,
            final(self).search_field.buffer.text@.len() == 0,
            old(self).search_field.buffer.text@.len() == 0 ==> final(self).search_field
                == old(self).search_field,
            old(self).search_field.buffer.text@.len() > 0 ==> {
                &&& replaced(
                    old(self).search_field.buffer,
                    final(self).search_field.buffer,
                    0,
                    byte_len(old(self).search_field.buffer.text@),
                    Seq::<char>::empty(),
                    old(self).search_field.max_bytes,
                )
                &&& final(self).search_field.max_bytes == old(self).search_field.max_bytes
                &&& final(self).search_field.borderless == old(self).search_field.borderless
            },
    {
        let revision = self.search.revision.wrapping_add(1);
        let mut input_error: Option<String> = None;
        if !self.search_field.text().is_empty() {
            let ghost before = self.search_field.buffer;
            let cleared = self.search_field.set_text("");
            proof {
                reveal_strlit("");
                law_clearing_empties_the_field(
                    before,
                    self.search_field.buffer,
                    old(self).search_field.max_bytes,
                );
            }
            match cleared {
                Ok(()) => {},
                Err(rejection) => {
                    input_error = Some(rejection.message());
                },
            }
        }
        self.search = SearchState {
            query: String::new(),
            input_error,
            revision,
            order: Vec::new(),
            active: None,
            searched_pages: 0,
            total_highlight_runs: 0,
            complete: true,
            truncated: false,
        };
        self.search_debounce_pending = false;
        revision
    }

    /// Makes `id` the active match when it is one of the results, counts the
    /// focus, and returns the result list row to reveal.
    pub fn activate_search_match(&mut self, id: SearchMatchId) -> (row: Option<usize>)
        requires
            old(self).qa_counts.search_focuses < usize::MAX,
        ensures
            !old(self).search.order@.contains(id) ==> row is None && *final(self) == *old(self),
            old(self).search.order@.contains(id) ==> {
                &&& *final(self) == (PdfReader {
                    search: SearchState { active: Some(id), ..old(self).search },
                    qa_counts: QaCounters {
                        search_focuses: (old(self).qa_counts.search_focuses + 1) as usize,
                        ..old(self).qa_counts
                    },
                    ..*old(self)
                })
                &&& row == (match first_row_of(search_rows_spec(old(self).search.order@), id) {
                    Some(i) => Some(i as usize),
                    None => None,
                })
            },
    {
        let position = position_of(self.search.order.as_slice(), id);
        proof {
            lemma_first_position_bounds(self.search.order@, id);
        }
        if position.is_none() {
            return None;
        }
        self.search.active = Some(id);
        self.qa_counts.search_focuses = self.qa_counts.search_focuses + 1;
        let rows = search_list_rows(self.search.order.as_slice());
        search_row_of(rows.as_slice(), id)
    }

    /// Moves to the next (or previous) match, wrapping around, and activates it.
    pub fn navigate_search(&mut self, forward: bool) -> (moved: Option<(SearchMatchId, Option<usize>)>)
        requires
            old(self).qa_counts.search_focuses < usize::MAX,
        ensures
            next_search_spec(old(self).search.order@, old(self).search.active, forward) is None
                ==> moved is None && *final(self) == *old(self),
            next_search_spec(old(self).search.order@, old(self).search.active, forward) matches Some(id)
                ==> {
                &&& moved matches Some((found, row)) && found == id && row == (match first_row_of(
                    search_rows_spec(old(self).search.order@),
                    id,
                ) {
                    Some(i) => Some(i as usize),
                    None => None,
                })
                &&& *final(self) == (PdfReader {
                    search: SearchState { active: Some(id), ..old(self).search },
                    qa_counts: QaCounters {
                        search_focuses: (old(self).qa_counts.search_focuses + 1) as usize,
                        ..old(self).qa_counts
                    },
                    ..*old(self)
                })
            },
    {
        let next = next_search_match_id(self.search.order.as_slice(), self.search.active, forward);
        match next {
            None => None,
            Some(id) => {
                proof {
                    lemma_next_is_a_result(old(self).search.order@, old(self).search.active, forward);
                }
                let row = self.activate_search_match(id);
                Some((id, row))
            },
        }
    }
}

proof fn lemma_next_is_a_result(results: Seq<SearchMatchId>, active: Option<SearchMatchId>, forward: bool)
    ensures
        next_search_spec(results, active, forward) matches Some(id) ==> results.contains(id),
{
    let len = results.len() as int;
    if len > 0 {
        if let Some(a) = active {
            lemma_first_position_bounds(results, a);
        }
        let current = match active {
            Some(a) => first_position(results, a),
            None => None,
        };
        let index = match current {
            Some(i) => if forward {
                if i + 1 < len {
                    i + 1
                } else {
                    0
                }
            } else {
                if i == 0 {
                    len - 1
                } else {
                    i - 1
                }
            },
            None => if forward {
                0
            } else {
                len - 1
            },
        };
        assert(next_search_spec(results, active, forward) == Some(results[index]));
        assert(results.contains(results[index]));
    }
}

/// The search panel's status: the query's error, a prompt while the query is
/// blank, the result count once the search is complete, or its progress.
pub open spec fn search_status_spec(search: SearchState, page_count: usize) -> Seq<char> {
    match search.input_error {
        Some(error) => error@,
        None => if is_blank(search.query@) {
            "Type to search the document"@
        } else if search.complete {
            let count = search.order@.len();
            decimal_spec(count) + " result"@ + (if count == 1 {
                Seq::<char>::empty()
            } else {
                "s"@
            }) + (if search.truncated {
                " (limit reached)"@
            } else {
                Seq::<char>::empty()
            })
        } else {
            "Searching… "@ + decimal_spec(search.searched_pages as nat) + " / "@ + decimal_spec(
                page_count as nat,
            ) + " pages"@
        },
    }
}

/// The label above the result list: the active match's place among the
/// results, or else the status.
pub open spec fn search_label_spec(search: SearchState, page_count: usize) -> Seq<char> {
    match search.active {
        Some(id) => match first_position(search.order@, id) {
            Some(i) => decimal_spec((i + 1) as nat) + " of "@ + decimal_spec(search.order@.len()),
            None => search_status_spec(search, page_count),
        },
        None => search_status_spec(search, page_count),
    }
}

impl SearchState {
    /// The status text for a document of `page_count` pages.
    pub fn status_text(&self, page_count: usize) -> (text: String)
        ensures
            text@ == search_status_spec(*self, page_count),
    {
        if let Some(error) = &self.input_error {
            return error.clone();
        }
        if is_blank_text(self.query.as_str()) {
            return "Type to search the document".to_owned();
        }
        if self.complete {
            let count = self.order.len();
            let mut text = with_number("", count, " result");
            proof {
                reveal_strlit("");
                assert(""@ + decimal_spec(count as nat) =~= decimal_spec(count as nat));
            }
            if count != 1 {
                text.append("s");
            }
            if self.truncated {
                text.append(" (limit reached)");
            }
            proof {
                if count == 1 {
                    assert(text@ =~= decimal_spec(count as nat) + " result"@ + Seq::<char>::empty()
                        + (if self.truncated {
                        " (limit reached)"@
                    } else {
                        Seq::<char>::empty()
                    }));
                } else {
                    assert(text@ =~= decimal_spec(count as nat) + " result"@ + "s"@ + (
                    if self.truncated {
                        " (limit reached)"@
                    } else {
                        Seq::<char>::empty()
                    }));
                }
            }
            return text;
        }
        with_two_numbers("Searching… ", self.searched_pages, " / ", page_count, " pages")
    }

    /// The label above the result list for a document of `page_count` pages.
    pub fn status_label(&self, page_count: usize) -> (text: String)
        ensures
            text@ == search_label_spec(*self, page_count),
    {
        if let Some(active) = self.active {
            let order = self.order.as_slice();
            let position = position_of(order, active);
            let count = self.order.len();
            proof {
                assert(order@ == self.order@);
                lemma_first_position_bounds(self.order@, active);
            }
            if let Some(index) = position {
                proof {
                    match first_position(self.order@, active) {
                        Some(i) => assert(index as int == i),
                        None => assert(false),
                    }
                }
                let text = with_two_numbers("", index + 1, " of ", count, "");
                proof {
                    reveal_strlit("");
                    assert(text@ =~= decimal_spec((index + 1) as nat) + " of "@ + decimal_spec(
                        self.order@.len(),
                    ));
                }
                return text;
            }
        }
        self.status_text(page_count)
    }
}

/// A debounce armed for a query never starts a search once the query changed
/// again or the search was reset: each of them issues a newer revision.
pub proof fn law_superseded_search_never_starts(revision: u64)
    ensures
        revision.wrapping_add(1) != revision,
        revision.wrapping_add(1).wrapping_add(1) != revision.wrapping_add(1),
{
}

} // verus!
