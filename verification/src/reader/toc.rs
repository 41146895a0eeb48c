//! Table-of-contents helpers: the active entry, its breadcrumb trail, the
//! labels shown in the callout, hover timing and pending navigation.

use vstd::prelude::*;

use crate::reader::qa::toc_count;
use crate::reader::{PdfReader, ReaderFocus, TextCacheState, TocEntry};
use crate::text_format::push_char;
use crate::utf8_text::chars_vec;

verus! {

/// Characters the whole breadcrumb line may use, separators included.
pub const TOC_BREADCRUMB_CHARACTER_BUDGET: usize = 46;

/// Fewest characters a breadcrumb label is cut to.
pub const TOC_BREADCRUMB_MIN_LABEL_CHARACTERS: usize = 8;

/// Most characters a breadcrumb label keeps.
pub const TOC_BREADCRUMB_MAX_LABEL_CHARACTERS: usize = 20;

/// Characters a separator between two breadcrumbs takes.
pub const TOC_BREADCRUMB_SEPARATOR_CHARACTERS: usize = 3;

/// The entry for `current_page`: the last one starting on or before it, else
/// the first entry; `None` only for an empty table of contents.
pub open spec fn active_toc_spec(entries: Seq<TocEntry>, current_page: int) -> Option<int> {
    if exists|i: int| 0 <= i < entries.len() && entries[i].page <= current_page {
        Some(
            choose|i: int|
                0 <= i < entries.len() && entries[i].page <= current_page && forall|j: int|
                    i < j < entries.len() ==> entries[j].page > current_page,
        )
    } else if entries.len() > 0 {
        Some(0)
    } else {
        None
    }
}

/// The entry the reader is in: the last entry whose page is at or before
/// `current_page`, or the first entry when every entry starts later.
pub fn active_toc_index(entries: &[TocEntry], current_page: usize) -> (index: Option<usize>)
    ensures
        match index {
            Some(i) => {
                &&& i < entries@.len()
                &&& forall|j: int| i < j < entries@.len() ==> entries@[j].page > current_page
                &&& (entries@[i as int].page <= current_page || (i == 0 && forall|j: int|
                    0 <= j < entries@.len() ==> entries@[j].page > current_page))
            },
            None => entries@.len() == 0,
        },
        index == (match active_toc_spec(entries@, current_page as int) {
            Some(i) => Some(i as usize),
            None => None,
        }),
{
    let mut index = entries.len();
    while index > 0
        invariant
            index <= entries@.len(),
            forall|j: int| index <= j < entries@.len() ==> entries@[j].page > current_page,
        decreases index,
    {
        if entries[index - 1].page <= current_page {
            let found = index - 1;
            proof {
                let i = found as int;
                assert(0 <= i < entries@.len() && entries@[i].page <= current_page);
                let c = choose|c: int|
                    0 <= c < entries@.len() && entries@[c].page <= current_page && forall|j: int|
                        c < j < entries@.len() ==> entries@[j].page > current_page;
                assert(0 <= c < entries@.len() && entries@[c].page <= current_page && forall|j: int|
                    c < j < entries@.len() ==> entries@[j].page > current_page);
                if c < i {
                    assert(entries@[i].page > current_page);
                }
                if c > i {
                    assert(entries@[c].page > current_page);
                }
            }
            return Some(found);
        }
        index = index - 1;
    }
    if entries.len() == 0 {
        None
    } else {
        Some(0)
    }
}

/// Ancestors of an entry found by scanning the entries before position `end`
/// backwards for the nearest entry one level up, starting from `depth`: nearest
/// ancestor first.
pub open spec fn ancestor_scan(entries: Seq<TocEntry>, end: int, depth: int) -> Seq<int>
    decreases end,
{
    if end <= 0 || depth <= 0 {
        Seq::empty()
    } else if entries[end - 1].depth == depth - 1 {
        seq![end - 1] + ancestor_scan(entries, end - 1, depth - 1)
    } else {
        ancestor_scan(entries, end - 1, depth)
    }
}

/// Positions of the breadcrumb trail of entry `index`, outermost first and the
/// entry itself last.
pub open spec fn breadcrumb_indices(entries: Seq<TocEntry>, index: int) -> Seq<int> {
    (seq![index] + ancestor_scan(entries, index, entries[index].depth as int)).reverse()
}

proof fn lemma_ancestor_scan_shape(entries: Seq<TocEntry>, end: int, depth: int)
    requires
        0 <= end <= entries.len(),
    ensures
        forall|k: int|
            0 <= k < ancestor_scan(entries, end, depth).len() ==> {
                &&& 0 <= #[trigger] ancestor_scan(entries, end, depth)[k] < end
                &&& entries[ancestor_scan(entries, end, depth)[k]].depth == depth - 1 - k
            },
        forall|k: int|
            0 <= k < ancestor_scan(entries, end, depth).len() - 1 ==> ancestor_scan(
                entries,
                end,
                depth,
            )[k + 1] < #[trigger] ancestor_scan(entries, end, depth)[k],
    decreases end,
{
    if end <= 0 || depth <= 0 {
    } else if entries[end - 1].depth == depth - 1 {
        lemma_ancestor_scan_shape(entries, end - 1, depth - 1);
        let rest = ancestor_scan(entries, end - 1, depth - 1);
        let all = ancestor_scan(entries, end, depth);
        assert(all == seq![end - 1] + rest);
        assert forall|k: int| 0 <= k < all.len() implies {
            &&& 0 <= #[trigger] all[k] < end
            &&& entries[all[k]].depth == depth - 1 - k
        } by {
            if k > 0 {
                assert(all[k] == rest[k - 1]);
            }
        }
        assert forall|k: int| 0 <= k < all.len() - 1 implies all[k + 1] < #[trigger] all[k] by {
            assert(all[k + 1] == rest[k]);
            if k > 0 {
                assert(all[k] == rest[k - 1]);
            }
        }
    } else {
        lemma_ancestor_scan_shape(entries, end - 1, depth);
        assert(ancestor_scan(entries, end, depth) == ancestor_scan(entries, end - 1, depth));
    }
}

/// A breadcrumb trail goes from an outer entry down to the entry itself: its
/// positions increase, the last is the entry, and each crumb is nested exactly
/// one level inside the one before it.
pub proof fn law_breadcrumbs_descend_to_the_entry(entries: Seq<TocEntry>, index: int)
    requires
        0 <= index < entries.len(),
    ensures
        breadcrumb_indices(entries, index).len() >= 1,
        breadcrumb_indices(entries, index).last() == index,
        forall|k: int|
            0 <= k < breadcrumb_indices(entries, index).len() ==> 0 <= #[trigger] breadcrumb_indices(
                entries,
                index,
            )[k] <= index,
        forall|k: int|
            0 <= k < breadcrumb_indices(entries, index).len() - 1 ==> {
                &&& #[trigger] breadcrumb_indices(entries, index)[k] < breadcrumb_indices(
                    entries,
                    index,
                )[k + 1]
                &&& entries[breadcrumb_indices(entries, index)[k]].depth + 1 == entries[breadcrumb_indices(
                    entries,
                    index,
                )[k + 1]].depth
            },
{
    let depth = entries[index].depth as int;
    let scan = ancestor_scan(entries, index, depth);
    let path = seq![index] + scan;
    let crumbs = breadcrumb_indices(entries, index);
    lemma_ancestor_scan_shape(entries, index, depth);
    assert(crumbs == path.reverse());
    let n = path.len();
    assert forall|k: int| 0 <= k < n implies 0 <= #[trigger] path[k] <= index && entries[path[k]].depth
        == depth - k by {
        if k > 0 {
            assert(path[k] == scan[k - 1]);
        }
    }
    assert forall|k: int| 0 <= k < n - 1 implies path[k + 1] < #[trigger] path[k] by {
        assert(path[k + 1] == scan[k]);
        if k > 0 {
            assert(path[k] == scan[k - 1]);
        }
    }
    assert forall|k: int| 0 <= k < crumbs.len() implies 0 <= #[trigger] crumbs[k] <= index by {
        assert(crumbs[k] == path[n - 1 - k]);
    }
    assert forall|k: int| 0 <= k < crumbs.len() - 1 implies {
        &&& #[trigger] crumbs[k] < crumbs[k + 1]
        &&& entries[crumbs[k]].depth + 1 == entries[crumbs[k + 1]].depth
    } by {
        assert(crumbs[k] == path[n - 1 - k]);
        assert(crumbs[k + 1] == path[n - 2 - k]);
    }
    assert(crumbs.last() == path[0]);
}

/// No entry in positions `from < j < to` sits at depth `depth`.
pub open spec fn no_entry_at_depth_between(entries: Seq<TocEntry>, from: int, to: int, depth: int) -> bool {
    forall|j: int| from < j < to ==> (#[trigger] entries[j]).depth != depth
}

proof fn lemma_ancestor_scan_nearest(entries: Seq<TocEntry>, end: int, depth: int)
    requires
        0 <= end <= entries.len(),
    ensures
        ({
            let s = ancestor_scan(entries, end, depth);
            &&& s.len() > 0 ==> no_entry_at_depth_between(entries, s[0], end, depth - 1)
            &&& s.len() == 0 && depth > 0 ==> no_entry_at_depth_between(entries, -1, end, depth - 1)
            &&& forall|k: int|
                0 <= k < s.len() - 1 ==> no_entry_at_depth_between(
                    entries,
                    s[k + 1],
                    #[trigger] s[k],
                    depth - 2 - k,
                )
            &&& s.len() > 0 && depth - s.len() > 0 ==> no_entry_at_depth_between(
                entries,
                -1,
                s[s.len() - 1],
                depth - 1 - s.len(),
            )
        }),
    decreases end,
{
    if end <= 0 || depth <= 0 {
    } else if entries[end - 1].depth == depth - 1 {
        lemma_ancestor_scan_nearest(entries, end - 1, depth - 1);
        let rest = ancestor_scan(entries, end - 1, depth - 1);
        let s = ancestor_scan(entries, end, depth);
        assert(s == seq![end - 1] + rest);
        assert forall|k: int| 0 <= k < s.len() - 1 implies no_entry_at_depth_between(
            entries,
            s[k + 1],
            #[trigger] s[k],
            depth - 2 - k,
        ) by {
            assert(s[k + 1] == rest[k]);
            if k > 0 {
                assert(s[k] == rest[k - 1]);
            }
        }
        if rest.len() > 0 {
            assert(s[s.len() - 1] == rest[rest.len() - 1]);
        }
    } else {
        lemma_ancestor_scan_nearest(entries, end - 1, depth);
        assert(ancestor_scan(entries, end, depth) == ancestor_scan(entries, end - 1, depth));
    }
}

/// Each crumb's parent is the nearest entry before it one level up: between
/// two consecutive crumbs no entry sits at the outer crumb's depth, and when
/// the trail does not start at depth 0, no entry before its first crumb sits
/// one level above that crumb.
pub proof fn law_breadcrumbs_take_the_nearest_parent(entries: Seq<TocEntry>, index: int)
    requires
        0 <= index < entries.len(),
    ensures
        forall|k: int|
            0 <= k < breadcrumb_indices(entries, index).len() - 1 ==> no_entry_at_depth_between(
                entries,
                #[trigger] breadcrumb_indices(entries, index)[k],
                breadcrumb_indices(entries, index)[k + 1],
                entries[breadcrumb_indices(entries, index)[k + 1]].depth - 1,
            ),
        entries[breadcrumb_indices(entries, index)[0]].depth > 0 ==> no_entry_at_depth_between(
            entries,
            -1,
            breadcrumb_indices(entries, index)[0],
            entries[breadcrumb_indices(entries, index)[0]].depth - 1,
        ),
{
    let depth = entries[index].depth as int;
    let scan = ancestor_scan(entries, index, depth);
    let path = seq![index] + scan;
    let crumbs = breadcrumb_indices(entries, index);
    lemma_ancestor_scan_shape(entries, index, depth);
    lemma_ancestor_scan_nearest(entries, index, depth);
    assert(crumbs == path.reverse());
    let n = path.len();
    assert forall|k: int| 0 <= k < crumbs.len() - 1 implies no_entry_at_depth_between(
        entries,
        #[trigger] crumbs[k],
        crumbs[k + 1],
        entries[crumbs[k + 1]].depth - 1,
    ) by {
        assert(crumbs[k] == path[n - 1 - k]);
        assert(crumbs[k + 1] == path[n - 2 - k]);
        if n - 2 - k == 0 {
            assert(path[0] == index);
            assert(path[1] == scan[0]);
        } else {
            let m = n - 3 - k;
            assert(path[n - 2 - k] == scan[m]);
            assert(path[n - 1 - k] == scan[m + 1]);
            assert(entries[scan[m]].depth == depth - 1 - m);
        }
    }
    assert(crumbs[0] == path[n - 1]);
    if n == 1 {
        assert(path[0] == index);
    } else {
        assert(path[n - 1] == scan[scan.len() - 1]);
        assert(entries[scan[scan.len() - 1]].depth == depth - 1 - (scan.len() - 1));
    }
}

/// The breadcrumb trail of entry `index`: the entry and its ancestors, each
/// with its position and title, outermost first; `None` for a position past
/// the end.
pub fn toc_breadcrumb_entries(entries: &[TocEntry], index: usize) -> (trail: Option<Vec<(usize, String)>>)
    ensures
        index >= entries@.len() ==> trail is None,
        index < entries@.len() ==> trail is Some && {
            let crumbs = breadcrumb_indices(entries@, index as int);
            let t = trail->0@;
            &&& t.len() == crumbs.len()
            &&& forall|k: int|
                0 <= k < t.len() ==> (#[trigger] t[k]).0 == crumbs[k] && t[k].1@ == entries@[crumbs[k]].title@
        },
{
    if index >= entries.len() {
        return None;
    }
    let ghost all = entries@;
    let ghost depth0 = all[index as int].depth as int;
    let mut path: Vec<usize> = Vec::new();
    path.push(index);
    let mut expected_depth = entries[index].depth;
    let mut position = index;
    while position > 0 && expected_depth > 0
        invariant
            all == entries@,
            index < all.len(),
            position <= index,
            path@.len() >= 1,
            forall|p: int| 0 <= p < path@.len() ==> path@[p] <= index,
            path@.map_values(|p: usize| p as int) + ancestor_scan(all, position as int, expected_depth as int)
                == seq![index as int] + ancestor_scan(all, index as int, depth0),
        decreases position,
    {
        let ghost before = path@.map_values(|p: usize| p as int);
        let entry_depth = entries[position - 1].depth;
        if entry_depth == expected_depth - 1 {
            path.push(position - 1);
            proof {
                assert(path@.map_values(|p: usize| p as int) =~= before.push(position - 1));
                assert(ancestor_scan(all, position as int, expected_depth as int) == seq![position - 1]
                    + ancestor_scan(all, position - 1, expected_depth - 1));
                assert(before.push(position - 1) + ancestor_scan(all, position - 1, expected_depth - 1)
                    =~= before + (seq![position - 1] + ancestor_scan(all, position - 1, expected_depth - 1)));
            }
            expected_depth = expected_depth - 1;
        }
        position = position - 1;
    }
    proof {
        assert(ancestor_scan(all, position as int, expected_depth as int) =~= Seq::<int>::empty());
        assert(path@.map_values(|p: usize| p as int) =~= seq![index as int] + ancestor_scan(
            all,
            index as int,
            depth0,
        ));
    }
    let ghost forward = path@.map_values(|p: usize| p as int);
    let ghost crumbs = breadcrumb_indices(all, index as int);
    proof {
        assert(crumbs == forward.reverse());
    }
    let mut trail: Vec<(usize, String)> = Vec::new();
    let mut remaining = path.len();
    while remaining > 0
        invariant
            all == entries@,
            forward == path@.map_values(|p: usize| p as int),
            crumbs == forward.reverse(),
            remaining <= path@.len(),
            trail@.len() == path@.len() - remaining,
            forall|p: int| 0 <= p < path@.len() ==> path@[p] < all.len(),
            forall|k: int|
                0 <= k < trail@.len() ==> (#[trigger] trail@[k]).0 == crumbs[k] && trail@[k].1@
                    == all[crumbs[k]].title@,
        decreases remaining,
    {
        remaining = remaining - 1;
        let at = path[remaining];
        let title = entries[at].title.clone();
        proof {
            assert(crumbs[trail@.len() as int] == forward[remaining as int]);
        }
        trail.push((at, title));
    }
    Some(trail)
}

/// `text` cut to `maximum_characters` characters, its last one replaced by `…`;
/// unchanged when it fits or the limit is below two characters.
pub open spec fn end_truncate_spec(text: Seq<char>, maximum_characters: nat) -> Seq<char> {
    if text.len() <= maximum_characters || maximum_characters < 2 {
        text
    } else {
        text.take(maximum_characters - 1).push('…')
    }
}

/// Shortens `text` to `maximum_characters` characters, ending it with `…` when
/// it was cut.
pub fn end_truncate(text: &str, maximum_characters: usize) -> (truncated: String)
    ensures
        truncated@ == end_truncate_spec(text@, maximum_characters as nat),
{
    let chars = chars_vec(text);
    if chars.len() <= maximum_characters || maximum_characters < 2 {
        return text.to_owned();
    }
    let keep = maximum_characters - 1;
    let mut truncated = String::new();
    for index in 0..keep
        invariant
            chars@ == text@,
            keep < chars@.len(),
            truncated@ == chars@.take(index as int),
    {
        proof {
            assert(chars@.take(index + 1) =~= chars@.take(index as int).push(chars@[index as int]));
        }
        push_char(&mut truncated, chars[index]);
    }
    push_char(&mut truncated, '…');
    truncated
}

/// Characters each label of a trail of `count` breadcrumbs may keep: an equal
/// share of what the separators leave of the line, between the minimum and the
/// maximum label length.
pub open spec fn breadcrumb_label_budget(count: nat) -> nat {
    let separators = (count - 1) * TOC_BREADCRUMB_SEPARATOR_CHARACTERS;
    let left = if separators < TOC_BREADCRUMB_CHARACTER_BUDGET {
        TOC_BREADCRUMB_CHARACTER_BUDGET - separators
    } else {
        0
    };
    let share = left / count as int;
    if share < TOC_BREADCRUMB_MIN_LABEL_CHARACTERS {
        TOC_BREADCRUMB_MIN_LABEL_CHARACTERS as nat
    } else if share > TOC_BREADCRUMB_MAX_LABEL_CHARACTERS {
        TOC_BREADCRUMB_MAX_LABEL_CHARACTERS as nat
    } else {
        share as nat
    }
}

/// The breadcrumb trail as the callout shows it: every label cut to the shared
/// label budget.
pub fn toc_display_breadcrumbs(breadcrumbs: &[(usize, String)]) -> (display: Vec<(usize, String)>)
    ensures
        display@.len() == breadcrumbs@.len(),
        forall|k: int|
            0 <= k < display@.len() ==> (#[trigger] display@[k]).0 == breadcrumbs@[k].0
                && display@[k].1@ == end_truncate_spec(
                breadcrumbs@[k].1@,
                breadcrumb_label_budget(breadcrumbs@.len()),
            ),
{
    let count = breadcrumbs.len();
    let mut display: Vec<(usize, String)> = Vec::new();
    if count == 0 {
        return display;
    }
    let gaps = count - 1;
    let separators = if gaps > usize::MAX / TOC_BREADCRUMB_SEPARATOR_CHARACTERS {
        usize::MAX
    } else {
        gaps * TOC_BREADCRUMB_SEPARATOR_CHARACTERS
    };
    proof {
        if gaps > usize::MAX / 3 {
            assert(gaps * 3 > usize::MAX) by (nonlinear_arith)
                requires
                    gaps > usize::MAX / 3,
            ;
        }
    }
    let left = TOC_BREADCRUMB_CHARACTER_BUDGET.saturating_sub(separators);
    let share = left / count;
    let budget = if share < TOC_BREADCRUMB_MIN_LABEL_CHARACTERS {
        TOC_BREADCRUMB_MIN_LABEL_CHARACTERS
    } else if share > TOC_BREADCRUMB_MAX_LABEL_CHARACTERS {
        TOC_BREADCRUMB_MAX_LABEL_CHARACTERS
    } else {
        share
    };
    assert(budget == breadcrumb_label_budget(count as nat));
    for k in 0..count
        invariant
            count == breadcrumbs@.len(),
            budget == breadcrumb_label_budget(count as nat),
            display@.len() == k,
            forall|j: int|
                0 <= j < k ==> (#[trigger] display@[j]).0 == breadcrumbs@[j].0 && display@[j].1@
                    == end_truncate_spec(breadcrumbs@[j].1@, budget as nat),
    {
        let label = end_truncate(breadcrumbs[k].1.as_str(), budget);
        display.push((breadcrumbs[k].0, label));
    }
    display
}

/// What the host does after a table-of-contents entry was chosen.
#[derive(Clone, Copy, Debug, PartialEq, Eq, Structural)]
pub enum TocNavigation {
    /// Nothing: the entry does not exist or no navigation is waiting.
    Ignored,
    /// The entry's page text is at hand: resolve its destination (extension,
    /// outline, title match or the explicit position) and jump there.
    Resolve { index: usize, page: usize },
    /// The entry's page text is missing: the navigation waits for it. When
    /// `request` is set the host must ask for the page's text; otherwise it was
    /// already asked for.
    AwaitText { index: usize, page: usize, request: bool },
    /// The page's text cannot be had: jump to the entry's explicit destination
    /// without matching its title.
    JumpToDestination { index: usize, page: usize },
}

/// Page of table-of-contents entry `index` of the open document, if it exists.
pub open spec fn toc_page_spec(r: &PdfReader, index: int) -> Option<usize> {
    match r.document {
        Some(d) => if 0 <= index < d.toc@.len() {
            Some(d.toc@[index].page)
        } else {
            None
        },
        None => None,
    }
}

/// The reader once a table-of-contents entry was chosen: no selection, no
/// active annotation, no sidebar anchor and no navigation waiting.
pub open spec fn toc_chosen(r: PdfReader) -> PdfReader {
    PdfReader {
        focus: ReaderFocus { selection: None, active_annotation: None, sidebar_anchored: false },
        pending_toc_navigation: None,
        ..r
    }
}

/// What choosing table-of-contents entry `index` does: nothing for a missing
/// entry; otherwise the reader becomes `toc_chosen`, and when the page text is
/// not at hand the navigation waits for it, asking for the text unless it was
/// already asked for.
pub open spec fn navigate_toc_outcome(
    before: PdfReader,
    after: PdfReader,
    index: usize,
    page_text_ready: bool,
    step: TocNavigation,
) -> bool {
    match toc_page_spec(&before, index as int) {
        None => step == TocNavigation::Ignored && after == before,
        Some(page) => {
            let chosen = toc_chosen(before);
            if page_text_ready {
                step == (TocNavigation::Resolve { index, page }) && after == chosen
            } else {
                let request = !before.text_cache.pending@.contains(page);
                &&& step == (TocNavigation::AwaitText { index, page, request })
                &&& after == (PdfReader {
                    pending_toc_navigation: Some(index),
                    text_cache: TextCacheState { pending: after.text_cache.pending, ..before.text_cache },
                    ..chosen
                })
                &&& after.text_cache.pending@ == (if request {
                    before.text_cache.pending@.push(page)
                } else {
                    before.text_cache.pending@
                })
            }
        },
    }
}

fn contains_page(pages: &Vec<usize>, page: usize) -> (found: bool)
    ensures
        found == pages@.contains(page),
{
    let mut index: usize = 0;
    while index < pages.len()
        invariant
            0 <= index <= pages@.len(),
            forall|j: int| 0 <= j < index ==> pages@[j] != page,
        decreases pages@.len() - index,
    {
        if pages[index] == page {
            return true;
        }
        index = index + 1;
    }
    false
}

fn without_page(pages: &Vec<usize>, page: usize) -> (kept: Vec<usize>)
    ensures
        kept@ == pages@.filter(|p: usize| p != page),
{
    let mut kept: Vec<usize> = Vec::new();
    for index in 0..pages.len()
        invariant
            kept@ == pages@.take(index as int).filter(|p: usize| p != page),
    {
        proof {
            reveal(Seq::filter);
            assert(pages@.take(index + 1).drop_last() =~= pages@.take(index as int));
        }
        if pages[index] != page {
            kept.push(pages[index]);
        }
    }
    proof {
        assert(pages@.take(pages@.len() as int) =~= pages@);
    }
    kept
}

impl PdfReader {
    fn toc_page(&self, index: usize) -> (page: Option<usize>)
        ensures
            page == toc_page_spec(self, index as int),
    {
        match &self.document {
            Some(document) => {
                if index < document.toc.len() {
                    Some(document.toc[index].page)
                } else {
                    None
                }
            },
            None => None,
        }
    }

    /// Navigation to table-of-contents entry `index`. Choosing an entry drops
    /// the selection, the active annotation, the sidebar anchor and any
    /// navigation still waiting. When the entry's page text is not at hand the
    /// navigation waits for it, asking for the text unless it was already asked for.
    #[verifier::rlimit(100)]
    pub fn navigate_toc(&mut self, index: usize, page_text_ready: bool) -> (step: TocNavigation)
        ensures
            navigate_toc_outcome(*old(self), *final(self), index, page_text_ready, step),
    {
        let page = match self.toc_page(index) {
            Some(page) => page,
            None => {
                return TocNavigation::Ignored;
            },
        };
        let request = !page_text_ready && !contains_page(&self.text_cache.pending, page);
        self.focus = ReaderFocus { selection: None, active_annotation: None, sidebar_anchored: false };
        self.pending_toc_navigation = if page_text_ready {
            None
        } else {
            Some(index)
        };
        if request {
            self.text_cache.pending.push(page);
        }
        if page_text_ready {
            TocNavigation::Resolve { index, page }
        } else {
            TocNavigation::AwaitText { index, page, request }
        }
    }

    /// The text of `page` cannot be extracted: the page is no longer awaited,
    /// no navigation waits, and the host jumps to the entry's explicit destination.
    pub fn toc_text_unavailable(&mut self, index: usize, page: usize) -> (step: TocNavigation)
        ensures
            step == (TocNavigation::JumpToDestination { index, page }),
            *final(self) == (PdfReader {
                pending_toc_navigation: None,
                text_cache: TextCacheState { pending: final(self).text_cache.pending, ..old(self).text_cache },
                ..*old(self)
            }),
            final(self).text_cache.pending@ == old(self).text_cache.pending@.filter(|p: usize| p != page),
    {
        let kept = without_page(&self.text_cache.pending, page);
        self.text_cache.pending = kept;
        self.pending_toc_navigation = None;
        TocNavigation::JumpToDestination { index, page }
    }

    /// The text of `page` arrived. A navigation waiting for exactly that page
    /// resumes; one whose entry no longer exists is dropped; one waiting for
    /// another page keeps waiting.
    pub fn complete_pending_toc_navigation(&mut self, page: usize) -> (step: TocNavigation)
        ensures
            match old(self).pending_toc_navigation {
                None => step == TocNavigation::Ignored && *final(self) == *old(self),
                Some(index) => match toc_page_spec(old(self), index as int) {
                    None => step == TocNavigation::Ignored && *final(self) == (PdfReader {
                        pending_toc_navigation: None,
                        ..*old(self)
                    }),
                    Some(entry_page) => if entry_page != page {
                        step == TocNavigation::Ignored && *final(self) == *old(self)
                    } else {
                        step == (TocNavigation::Resolve { index, page }) && *final(self) == (PdfReader {
                            pending_toc_navigation: None,
                            ..*old(self)
                        })
                    },
                },
            },
    {
        let (step, clear) = self.pending_toc_decision(page);
        if clear {
            self.pending_toc_navigation = None;
        }
        step
    }

    fn pending_toc_decision(&self, page: usize) -> (decision: (TocNavigation, bool))
        ensures
            match self.pending_toc_navigation {
                None => decision == (TocNavigation::Ignored, false),
                Some(index) => match toc_page_spec(self, index as int) {
                    None => decision == (TocNavigation::Ignored, true),
                    Some(entry_page) => if entry_page != page {
                        decision == (TocNavigation::Ignored, false)
                    } else {
                        decision == (TocNavigation::Resolve { index, page }, true)
                    },
                },
            },
    {
        let index = match self.pending_toc_navigation {
            Some(index) => index,
            None => {
                return (TocNavigation::Ignored, false);
            },
        };
        match self.toc_page(index) {
            None => (TocNavigation::Ignored, true),
            Some(entry_page) => {
                if entry_page != page {
                    (TocNavigation::Ignored, false)
                } else {
                    (TocNavigation::Resolve { index, page }, true)
                }
            },
        }
    }

    /// The pointer entered or left table-of-contents entry `index`. Entering
    /// hovers it at once; leaving the hovered entry arms a delayed clear and
    /// returns the revision its timer must carry.
    pub fn set_toc_hovered(&mut self, index: usize, hovered: bool) -> (clear_revision: Option<u64>)
        ensures
            hovered ==> clear_revision is None && *final(self) == (PdfReader {
                toc_hover_revision: old(self).toc_hover_revision.wrapping_add(1),
                toc_hovered: Some(index),
                ..*old(self)
            }),
            !hovered && old(self).toc_hovered == Some(index) ==> clear_revision == Some(
                old(self).toc_hover_revision.wrapping_add(1),
            ) && *final(self) == (PdfReader {
                toc_hover_revision: old(self).toc_hover_revision.wrapping_add(1),
                ..*old(self)
            }),
            !hovered && old(self).toc_hovered != Some(index) ==> clear_revision is None && *final(self)
                == *old(self),
    {
        if hovered {
            self.toc_hover_revision = self.toc_hover_revision.wrapping_add(1);
            self.toc_hovered = Some(index);
            None
        } else {
            let is_hovered = match self.toc_hovered {
                Some(current) => current == index,
                None => false,
            };
            if is_hovered {
                self.toc_hover_revision = self.toc_hover_revision.wrapping_add(1);
                Some(self.toc_hover_revision)
            } else {
                None
            }
        }
    }

    /// The pointer entered or left the callout of the hovered entry. Entering
    /// keeps the hover (any armed clear is superseded); leaving arms a delayed
    /// clear and returns its revision.
    pub fn set_toc_callout_hovered(&mut self, hovered: bool) -> (clear_revision: Option<u64>)
        ensures
            final(self).toc_hover_revision == old(self).toc_hover_revision.wrapping_add(1),
            *final(self) == (PdfReader {
                toc_hover_revision: old(self).toc_hover_revision.wrapping_add(1),
                ..*old(self)
            }),
            clear_revision == (if hovered {
                None
            } else {
                Some(old(self).toc_hover_revision.wrapping_add(1))
            }),
    {
        self.toc_hover_revision = self.toc_hover_revision.wrapping_add(1);
        if hovered {
            None
        } else {
            Some(self.toc_hover_revision)
        }
    }

    /// A delayed hover clear armed for `revision` has fired: the hover ends only
    /// when nothing touched the table of contents since it was armed.
    pub fn toc_hover_clear_due(&mut self, revision: u64) -> (cleared: bool)
        ensures
            cleared == (revision == old(self).toc_hover_revision),
            *final(self) == (if cleared {
                PdfReader { toc_hovered: None, ..*old(self) }
            } else {
                *old(self)
            }),
    {
        if self.toc_hover_revision == revision {
            self.toc_hovered = None;
            true
        } else {
            false
        }
    }
}

/// Choosing a table-of-contents entry keeps the reader well formed: a page's
/// text is asked for at most once while it is awaited.
pub proof fn law_toc_navigation_keeps_the_reader_well_formed(
    before: PdfReader,
    after: PdfReader,
    index: usize,
    page_text_ready: bool,
    step: TocNavigation,
)
    requires
        before.well_formed(),
        navigate_toc_outcome(before, after, index, page_text_ready, step),
    ensures
        after.well_formed(),
{
    if let Some(page) = toc_page_spec(&before, index as int) {
        if !page_text_ready && !before.text_cache.pending@.contains(page) {
            let grown = before.text_cache.pending@.push(page);
            assert forall|i: int, j: int| 0 <= i < j < grown.len() implies grown[i] != grown[j] by {
                if j == grown.len() - 1 {
                    assert(before.text_cache.pending@[i] == grown[i]);
                }
            }
        }
    }
}

} // verus!
