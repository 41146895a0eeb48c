//! Decisions of the native QA driver: whether a configuration asks for it,
//! trace labels, workspace resource totals and the deterministic chaos
//! generator. Reading the environment, timers and windows stay with the host.

use vstd::prelude::*;

use crate::paths::{components_equal, nested_chars, path_components, path_components_of};
use crate::reader::ActivityLevel;
use crate::reader::qa::QaReaderResourceSnapshot;
use crate::text_format::{decimal_spec, push_char, with_number, with_two_numbers};
use crate::utf8_text::chars_vec;

verus! {

/// What the QA environment asked the driver to do. Durations are in
/// milliseconds; wheel deltas are floating point and stay with the host, which
/// records how many were given.
pub struct QaConfig {
    pub keystrokes: Vec<String>,
    pub wheel_delta_count: usize,
    pub interval_ms: u64,
    pub timeout_ms: u64,
    pub report: bool,
    pub exit_after_report: bool,
    pub feature_scenario: bool,
    pub fluid_scenario: bool,
    pub toc_hover: Option<usize>,
    pub toc_navigate: Option<usize>,
    pub link_navigate: Option<usize>,
    pub link_hover: Option<usize>,
    pub internal_link_hover: Option<usize>,
    pub scientific_reference_hover: Option<usize>,
    pub toc_callout_hold: bool,
    pub reference_details: bool,
    pub extension_scenario: Option<String>,
    pub expected_window_count: Option<usize>,
    pub expected_tab_count: Option<usize>,
    pub tab_drag_scenario: Option<String>,
    pub split_view_scenario: bool,
    pub split_view_hold: bool,
    pub tab_hover_hold: bool,
    pub control_bar_scenario: bool,
    pub multi_annotation_scenario: bool,
    pub resource_trace: bool,
    pub resource_sample_interval_ms: u64,
    pub resource_stress: bool,
    pub progressive_open: bool,
    pub resource_chaos: bool,
    pub chaos_rounds: usize,
    pub chaos_actions_per_window: usize,
    pub chaos_seed: u64,
    pub render_dwell_ms: u64,
}

/// The configuration sets up hovering or navigation before the scripted run.
pub open spec fn navigation_setup_spec(config: &QaConfig) -> bool {
    ||| config.toc_hover is Some
    ||| config.toc_navigate is Some
    ||| config.link_navigate is Some
    ||| config.link_hover is Some
    ||| config.internal_link_hover is Some
    ||| config.scientific_reference_hover is Some
    ||| config.toc_callout_hold
}

/// The configuration asks for any QA action at all.
pub open spec fn requested_spec(config: &QaConfig) -> bool {
    ||| config.keystrokes@.len() > 0
    ||| config.wheel_delta_count > 0
    ||| config.report
    ||| config.exit_after_report
    ||| config.feature_scenario
    ||| config.fluid_scenario
    ||| config.toc_hover is Some
    ||| config.toc_navigate is Some
    ||| config.link_navigate is Some
    ||| config.link_hover is Some
    ||| config.internal_link_hover is Some
    ||| config.scientific_reference_hover is Some
    ||| config.toc_callout_hold
    ||| config.reference_details
    ||| config.extension_scenario is Some
    ||| config.expected_window_count is Some
    ||| config.expected_tab_count is Some
    ||| config.tab_drag_scenario is Some
    ||| config.split_view_scenario
    ||| config.split_view_hold
    ||| config.tab_hover_hold
    ||| config.control_bar_scenario
    ||| config.multi_annotation_scenario
    ||| config.resource_trace
    ||| config.resource_stress
    ||| config.progressive_open
    ||| config.resource_chaos
}

impl QaConfig {
    /// Whether the driver has anything to do; an inactive configuration does not
    /// start it.
    pub fn requested(&self) -> (requested: bool)
        ensures
            requested == requested_spec(self),
    {
        self.keystrokes.len() > 0 || self.wheel_delta_count > 0 || self.report
            || self.exit_after_report || self.feature_scenario || self.fluid_scenario
            || self.toc_hover.is_some() || self.toc_navigate.is_some() || self.link_navigate.is_some()
            || self.link_hover.is_some() || self.internal_link_hover.is_some()
            || self.scientific_reference_hover.is_some() || self.toc_callout_hold
            || self.reference_details || self.extension_scenario.is_some()
            || self.expected_window_count.is_some() || self.expected_tab_count.is_some()
            || self.tab_drag_scenario.is_some() || self.split_view_scenario || self.split_view_hold
            || self.tab_hover_hold || self.control_bar_scenario || self.multi_annotation_scenario
            || self.resource_trace || self.resource_stress || self.progressive_open
            || self.resource_chaos
    }

    /// Whether hovering or navigation must be set up before the scripted run.
    pub fn has_navigation_setup(&self) -> (setup: bool)
        ensures
            setup == navigation_setup_spec(self),
    {
        self.toc_hover.is_some() || self.toc_navigate.is_some() || self.link_navigate.is_some()
            || self.link_hover.is_some() || self.internal_link_hover.is_some()
            || self.scientific_reference_hover.is_some() || self.toc_callout_hold
    }
}

/// Every navigation setup is a request: a configuration that sets one up always
/// starts the driver.
pub proof fn law_navigation_setup_is_requested(config: &QaConfig)
    ensures
        navigation_setup_spec(config) ==> requested_spec(config),
{
}

/// Most characters of a trace detail kept in an operation label.
pub const TRACE_DETAIL_CHARACTERS: usize = 80;

/// A character that may stand in a trace label as it is.
pub open spec fn is_label_char(c: char) -> bool {
    ||| ('a' <= c && c <= 'z')
    ||| ('A' <= c && c <= 'Z')
    ||| ('0' <= c && c <= '9')
    ||| c == '-'
    ||| c == '_'
    ||| c == '.'
}

/// `c` as it appears in a trace label: itself when allowed, else `_`.
pub open spec fn label_char(c: char) -> char {
    if is_label_char(c) {
        c
    } else {
        '_'
    }
}

/// `kind-index-detail`, with the detail cut to its first characters and every
/// character outside `[A-Za-z0-9._-]` replaced by `_`.
pub open spec fn trace_label_spec(kind: Seq<char>, index: nat, detail: Seq<char>) -> Seq<char> {
    let kept = if detail.len() < TRACE_DETAIL_CHARACTERS {
        detail
    } else {
        detail.take(TRACE_DETAIL_CHARACTERS as int)
    };
    kind + "-"@ + decimal_spec(index) + "-"@ + kept.map_values(|c: char| label_char(c))
}

/// The label of a traced QA operation.
pub fn trace_operation_label(kind: &str, index: usize, detail: &str) -> (label: String)
    ensures
        label@ == trace_label_spec(kind@, index as nat, detail@),
{
    let mut label = kind.to_owned();
    let middle = with_number("-", index, "-");
    label.append(middle.as_str());
    let chars = chars_vec(detail);
    let keep = if chars.len() < TRACE_DETAIL_CHARACTERS {
        chars.len()
    } else {
        TRACE_DETAIL_CHARACTERS
    };
    let ghost prefix = kind@ + "-"@ + decimal_spec(index as nat) + "-"@;
    proof {
        assert(label@ =~= prefix);
    }
    for k in 0..keep
        invariant
            chars@ == detail@,
            keep <= chars@.len(),
            label@ == prefix + chars@.take(k as int).map_values(|c: char| label_char(c)),
    {
        let c = chars[k];
        let allowed = ('a' <= c && c <= 'z') || ('A' <= c && c <= 'Z') || ('0' <= c && c <= '9')
            || c == '-' || c == '_' || c == '.';
        let shown = if allowed {
            c
        } else {
            '_'
        };
        push_char(&mut label, shown);
        proof {
            assert(chars@.take(k + 1).map_values(|c: char| label_char(c)) =~= chars@.take(
                k as int,
            ).map_values(|c: char| label_char(c)).push(label_char(c)));
        }
    }
    proof {
        let kept = if detail@.len() < TRACE_DETAIL_CHARACTERS {
            detail@
        } else {
            detail@.take(TRACE_DETAIL_CHARACTERS as int)
        };
        assert(chars@.take(keep as int) =~= kept);
    }
    label
}

/// Resource use summed over every reader view of every workspace window.
#[derive(Clone, Copy, Debug, Default, PartialEq, Eq, Structural)]
pub struct QaWorkspaceResourceTotals {
    pub views: u64,
    pub interactive: u64,
    pub visible: u64,
    pub idle: u64,
    pub warm: u64,
    pub cold: u64,
    pub suspended: u64,
    pub allocated_cpu_bytes: u64,
    pub allocated_gpu_bytes: u64,
    pub allocated_workers: u64,
    pub cached_tile_bytes: u64,
    pub estimated_tile_resident_bytes: u64,
    pub tile_cache_limit_bytes: u64,
    pub base_tile_cache_limit_bytes: u64,
    pub cached_tiles: u64,
    pub pending_tiles: u64,
    pub cached_text_pages: u64,
    pub trimmed_views: u64,
    pub hibernated_views: u64,
    pub cache_retention_percent: u64,
}

/// `a + b`, or `u64::MAX` when the sum does not fit.
pub open spec fn saturating_sum(a: u64, b: u64) -> u64 {
    if a + b > u64::MAX {
        u64::MAX
    } else {
        (a + b) as u64
    }
}

/// 1 for `true`, 0 for `false`.
pub open spec fn flag_count(b: bool) -> u64 {
    if b {
        1
    } else {
        0
    }
}

/// The totals after counting one more reader view.
pub open spec fn totals_with(t: QaWorkspaceResourceTotals, s: QaReaderResourceSnapshot) -> QaWorkspaceResourceTotals {
    QaWorkspaceResourceTotals {
        views: (t.views + 1) as u64,
        interactive: (t.interactive + flag_count(s.activity == ActivityLevel::ForegroundInteractive)) as u64,
        visible: (t.visible + flag_count(s.activity == ActivityLevel::ForegroundVisible)) as u64,
        idle: (t.idle + flag_count(s.activity == ActivityLevel::ForegroundIdle)) as u64,
        warm: (t.warm + flag_count(s.activity == ActivityLevel::BackgroundWarm)) as u64,
        cold: (t.cold + flag_count(s.activity == ActivityLevel::BackgroundCold)) as u64,
        suspended: (t.suspended + flag_count(s.activity == ActivityLevel::Suspended)) as u64,
        allocated_cpu_bytes: saturating_sum(t.allocated_cpu_bytes, s.allocated_cpu_bytes),
        allocated_gpu_bytes: saturating_sum(t.allocated_gpu_bytes, s.allocated_gpu_bytes),
        allocated_workers: saturating_sum(t.allocated_workers, s.allocated_workers),
        cached_tile_bytes: saturating_sum(t.cached_tile_bytes, s.cached_tile_bytes),
        estimated_tile_resident_bytes: saturating_sum(
            t.estimated_tile_resident_bytes,
            s.estimated_tile_resident_bytes,
        ),
        tile_cache_limit_bytes: saturating_sum(t.tile_cache_limit_bytes, s.tile_cache_limit_bytes),
        base_tile_cache_limit_bytes: saturating_sum(
            t.base_tile_cache_limit_bytes,
            s.base_tile_cache_limit_bytes,
        ),
        cached_tiles: saturating_sum(t.cached_tiles, s.cached_tiles),
        pending_tiles: saturating_sum(t.pending_tiles, s.pending_tiles),
        cached_text_pages: saturating_sum(t.cached_text_pages, s.cached_text_pages),
        trimmed_views: (t.trimmed_views + flag_count(s.cache_trimmed)) as u64,
        hibernated_views: (t.hibernated_views + flag_count(s.worker_hibernated)) as u64,
        cache_retention_percent: if s.cache_retention_percent > t.cache_retention_percent {
            s.cache_retention_percent
        } else {
            t.cache_retention_percent
        },
    }
}

impl QaWorkspaceResourceTotals {
    /// Counts one more reader view: its activity level, its byte and tile
    /// counts (saturating), whether it was trimmed or hibernated, and the
    /// largest retention percentage seen.
    pub fn add(&mut self, snapshot: QaReaderResourceSnapshot)
        requires
            old(self).views < u64::MAX,
            old(self).interactive < u64::MAX,
            old(self).visible < u64::MAX,
            old(self).idle < u64::MAX,
            old(self).warm < u64::MAX,
            old(self).cold < u64::MAX,
            old(self).suspended < u64::MAX,
            old(self).trimmed_views < u64::MAX,
            old(self).hibernated_views < u64::MAX,
        ensures
            *final(self) == totals_with(*old(self), snapshot),
    {
        self.views = self.views + 1;
        match snapshot.activity {
            ActivityLevel::ForegroundInteractive => self.interactive = self.interactive + 1,
            ActivityLevel::ForegroundVisible => self.visible = self.visible + 1,
            ActivityLevel::ForegroundIdle => self.idle = self.idle + 1,
            ActivityLevel::BackgroundWarm => self.warm = self.warm + 1,
            ActivityLevel::BackgroundCold => self.cold = self.cold + 1,
            ActivityLevel::Suspended => self.suspended = self.suspended + 1,
        }
        self.allocated_cpu_bytes = self.allocated_cpu_bytes.saturating_add(snapshot.allocated_cpu_bytes);
        self.allocated_gpu_bytes = self.allocated_gpu_bytes.saturating_add(snapshot.allocated_gpu_bytes);
        self.allocated_workers = self.allocated_workers.saturating_add(snapshot.allocated_workers);
        self.cached_tile_bytes = self.cached_tile_bytes.saturating_add(snapshot.cached_tile_bytes);
        self.estimated_tile_resident_bytes = self.estimated_tile_resident_bytes.saturating_add(
            snapshot.estimated_tile_resident_bytes,
        );
        self.tile_cache_limit_bytes = self.tile_cache_limit_bytes.saturating_add(
            snapshot.tile_cache_limit_bytes,
        );
        self.base_tile_cache_limit_bytes = self.base_tile_cache_limit_bytes.saturating_add(
            snapshot.base_tile_cache_limit_bytes,
        );
        self.cached_tiles = self.cached_tiles.saturating_add(snapshot.cached_tiles);
        self.pending_tiles = self.pending_tiles.saturating_add(snapshot.pending_tiles);
        self.cached_text_pages = self.cached_text_pages.saturating_add(snapshot.cached_text_pages);
        if snapshot.cache_trimmed {
            self.trimmed_views = self.trimmed_views + 1;
        }
        if snapshot.worker_hibernated {
            self.hibernated_views = self.hibernated_views + 1;
        }
        if snapshot.cache_retention_percent > self.cache_retention_percent {
            self.cache_retention_percent = snapshot.cache_retention_percent;
        }
    }
}

/// Every view counted falls under exactly one activity level.
pub proof fn law_activity_counts_add_up(t: QaWorkspaceResourceTotals, s: QaReaderResourceSnapshot)
    requires
        t.views == t.interactive + t.visible + t.idle + t.warm + t.cold + t.suspended,
        t.views < u64::MAX,
    ensures
        totals_with(t, s).views == totals_with(t, s).interactive + totals_with(t, s).visible
            + totals_with(t, s).idle + totals_with(t, s).warm + totals_with(t, s).cold + totals_with(
            t,
            s,
        ).suspended,
{
}

/// Multiplier of the chaos generator's linear congruential step.
pub const QA_RANDOM_MULTIPLIER: u64 = 6364136223846793005;

/// Increment of the chaos generator's linear congruential step.
pub const QA_RANDOM_INCREMENT: u64 = 1442695040888963407;

/// The generator state after one step.
#[verifier::opaque]
pub open spec fn random_step(state: u64) -> u64 {
    state.wrapping_mul(QA_RANDOM_MULTIPLIER).wrapping_add(QA_RANDOM_INCREMENT)
}

/// `values` with the elements at `i` and `j` exchanged.
pub open spec fn swapped<T>(values: Seq<T>, i: int, j: int) -> Seq<T> {
    values.update(i, values[j]).update(j, values[i])
}

/// The Fisher–Yates pass over positions `index` down to 1, starting from
/// generator state `state`: the shuffled values and the final state.
pub open spec fn shuffle_spec<T>(values: Seq<T>, state: u64, index: int) -> (Seq<T>, u64)
    decreases index,
{
    if index < 1 {
        (values, state)
    } else {
        let next = random_step(state);
        let j = (next % ((index + 1) as u64)) as int;
        shuffle_spec(swapped(values, index, j), next, index - 1)
    }
}

/// Deterministic pseudo-random numbers for the chaos scenario, so that a seed
/// replays the same run.
pub struct QaRandom(u64);

impl View for QaRandom {
    type V = u64;

    /// The generator state.
    closed spec fn view(&self) -> u64 {
        self.0
    }
}

impl QaRandom {
    /// A generator seeded with `seed` (a zero seed counts as 1).
    pub fn new(seed: u64) -> (random: Self)
        ensures
            random@ == (if seed == 0 {
                1
            } else {
                seed
            }),
    {
        QaRandom(
            if seed == 0 {
                1
            } else {
                seed
            },
        )
    }

    /// Advances the generator and returns its new state.
    pub fn next(&mut self) -> (value: u64)
        ensures
            value == random_step(old(self)@),
            final(self)@ == value,
    {
        self.0 = self.0.wrapping_mul(QA_RANDOM_MULTIPLIER).wrapping_add(QA_RANDOM_INCREMENT);
        proof {
            reveal(random_step);
        }
        self.0
    }

    /// A number below `upper`.
    pub fn next_usize(&mut self, upper: usize) -> (value: usize)
        requires
            upper > 0,
        ensures
            final(self)@ == random_step(old(self)@),
            value == random_step(old(self)@) % (upper as u64),
            value < upper,
    {
        let next = self.next();
        (next % (upper as u64)) as usize
    }

    /// Shuffles `values` in place with a Fisher–Yates pass driven by the generator.
    pub fn shuffle<T>(&mut self, values: &mut [T])
        ensures
            (final(values)@, final(self)@) == shuffle_spec(old(values)@, old(self)@, old(values)@.len() - 1),
    {
        let len = values.len();
        if len < 2 {
            return;
        }
        let mut index = len - 1;
        while index > 0
            invariant
                len == values@.len(),
                index < len,
                shuffle_spec(values@, self@, index as int) == shuffle_spec(
                    old(values)@,
                    old(self)@,
                    len - 1,
                ),
            decreases index,
        {
            let ghost before = values@;
            let ghost before_state = self@;
            let j = self.next_usize(index + 1);
            swap_in_slice(values, index, j);
            proof {
                assert(shuffle_spec(before, before_state, index as int) == shuffle_spec(
                    values@,
                    self@,
                    index - 1,
                ));
            }
            index = index - 1;
        }
    }
}

/// `<[T]>::swap`: exchanges the elements at `i` and `j` (both in bounds, which
/// the slice method panics without); with `i == j` nothing changes.
#[verifier::external_body]
fn swap_in_slice<T>(values: &mut [T], i: usize, j: usize)
    requires
        i < old(values)@.len(),
        j < old(values)@.len(),
    ensures
        final(values)@ == swapped(old(values)@, i as int, j as int),
{
    values.swap(i, j);
}

proof fn lemma_swap_keeps_multiset<T>(s: Seq<T>, i: int, j: int)
    requires
        0 <= i < s.len(),
        0 <= j < s.len(),
    ensures
        swapped(s, i, j).to_multiset() == s.to_multiset(),
        swapped(s, i, j).len() == s.len(),
{
    if i == j {
        assert(swapped(s, i, j) =~= s);
    } else {
        let first = s.update(i, s[j]);
        vstd::seq_lib::to_multiset_update(s, i, s[j]);
        vstd::seq_lib::to_multiset_update(first, j, s[i]);
        vstd::seq_lib::to_multiset_contains(s, s[i]);
        let m = s.to_multiset();
        assert(first[j] == s[j]);
        assert(m.count(s[i]) > 0);
        assert(m.insert(s[j]).remove(s[i]).insert(s[i]).remove(s[j]) =~= m) by {
            broadcast use vstd::multiset::group_multiset_axioms;

        }
    }
}

/// A shuffle only reorders: it keeps every element as often as it occurs.
pub proof fn law_shuffle_is_a_permutation<T>(values: Seq<T>, state: u64, index: int)
    requires
        index < values.len() <= usize::MAX,
    ensures
        shuffle_spec(values, state, index).0.to_multiset() == values.to_multiset(),
        shuffle_spec(values, state, index).0.len() == values.len(),
    decreases index,
{
    if index >= 1 {
        let next = random_step(state);
        let j = (next % ((index + 1) as u64)) as int;
        assert(0 <= j <= index) by (nonlinear_arith)
            requires
                j == (next % ((index + 1) as u64)) as int,
                0 <= index < usize::MAX,
        ;
        lemma_swap_keeps_multiset(values, index, j);
        law_shuffle_is_a_permutation(swapped(values, index, j), next, index - 1);
    }
}

/// The outcome of one poll of a QA wait.
#[derive(Clone, Debug, PartialEq, Eq)]
pub enum QaPoll {
    /// The awaited state was reached.
    Settled,
    /// Not yet: poll again after the poll interval.
    Wait,
    /// The run fails with this message.
    Fail { message: String },
}

/// One poll while waiting for the expected number of workspace windows: done
/// once every window shows a settled PDF view, failed as soon as there are too
/// many windows or the deadline passed.
pub fn window_count_poll(
    expected: usize,
    windows: usize,
    pdf_views: usize,
    settled: usize,
    timed_out: bool,
) -> (poll: QaPoll)
    ensures
        windows == expected && pdf_views == expected && settled == expected ==> poll
            == QaPoll::Settled,
        !(windows == expected && pdf_views == expected && settled == expected) && windows > expected
            ==> (poll matches QaPoll::Fail { message } && message@ == "expected "@ + decimal_spec(
            expected as nat,
        ) + " workspace windows, found "@ + decimal_spec(windows as nat)),
        !(windows == expected && pdf_views == expected && settled == expected) && windows <= expected
            && timed_out ==> (poll matches QaPoll::Fail { message } && message@
            == "multi-window startup did not settle: expected="@ + decimal_spec(expected as nat)
            + " windows="@ + decimal_spec(windows as nat) + " pdf_views="@ + decimal_spec(
            pdf_views as nat,
        ) + " settled="@ + decimal_spec(settled as nat)),
        !(windows == expected && pdf_views == expected && settled == expected) && windows <= expected
            && !timed_out ==> poll == QaPoll::Wait,
{
    if windows == expected && pdf_views == expected && settled == expected {
        return QaPoll::Settled;
    }
    if windows > expected {
        let message = with_two_numbers("expected ", expected, " workspace windows, found ", windows, "");
        proof {
            reveal_strlit("");
            assert(message@ =~= "expected "@ + decimal_spec(expected as nat)
                + " workspace windows, found "@ + decimal_spec(windows as nat));
        }
        return QaPoll::Fail { message };
    }
    if timed_out {
        let mut message = with_two_numbers(
            "multi-window startup did not settle: expected=",
            expected,
            " windows=",
            windows,
            " pdf_views=",
        );
        let rest = with_two_numbers("", pdf_views, " settled=", settled, "");
        message.append(rest.as_str());
        proof {
            reveal_strlit("");
            assert(message@ =~= "multi-window startup did not settle: expected="@ + decimal_spec(
                expected as nat,
            ) + " windows="@ + decimal_spec(windows as nat) + " pdf_views="@ + decimal_spec(
                pdf_views as nat,
            ) + " settled="@ + decimal_spec(settled as nat));
        }
        return QaPoll::Fail { message };
    }
    QaPoll::Wait
}

/// One poll while waiting for every reader view of every window to settle.
pub fn resources_settled_poll(windows: usize, pdf_views: usize, settled: usize, timed_out: bool) -> (poll:
    QaPoll)
    ensures
        windows > 0 && pdf_views > 0 && settled == pdf_views ==> poll == QaPoll::Settled,
        !(windows > 0 && pdf_views > 0 && settled == pdf_views) && timed_out ==> (poll matches QaPoll::Fail {
            message,
        } && message@ == "resource settlement timed out: windows="@ + decimal_spec(windows as nat)
            + " pdf_views="@ + decimal_spec(pdf_views as nat) + " settled="@ + decimal_spec(
            settled as nat,
        )),
        !(windows > 0 && pdf_views > 0 && settled == pdf_views) && !timed_out ==> poll == QaPoll::Wait,
{
    if windows > 0 && pdf_views > 0 && settled == pdf_views {
        return QaPoll::Settled;
    }
    if timed_out {
        let mut message = with_two_numbers(
            "resource settlement timed out: windows=",
            windows,
            " pdf_views=",
            pdf_views,
            " settled=",
        );
        let rest = with_number("", settled, "");
        message.append(rest.as_str());
        proof {
            reveal_strlit("");
            assert(message@ =~= "resource settlement timed out: windows="@ + decimal_spec(
                windows as nat,
            ) + " pdf_views="@ + decimal_spec(pdf_views as nat) + " settled="@ + decimal_spec(
                settled as nat,
            ));
        }
        return QaPoll::Fail { message };
    }
    QaPoll::Wait
}

/// One poll while waiting for a reader view to settle and stay settled for
/// `dwell_ms`. `stable_since_ms` is when the current settled stretch began.
/// Returns the poll outcome and the new start of the settled stretch.
pub fn reader_settled_poll(
    settled: bool,
    stable_since_ms: Option<u64>,
    now_ms: u64,
    dwell_ms: u64,
    deadline_ms: u64,
) -> (step: (QaPoll, Option<u64>))
    ensures
        ({
            let since = if settled {
                match stable_since_ms {
                    Some(t) => t,
                    None => now_ms,
                }
            } else {
                0
            };
            &&& settled && now_ms - since >= dwell_ms ==> step.0 == QaPoll::Settled && step.1 == Some(
                since,
            )
            &&& !(settled && now_ms - since >= dwell_ms) ==> step.1 == (if settled {
                Some(since)
            } else {
                None::<u64>
            })
            &&& !(settled && now_ms - since >= dwell_ms) && now_ms >= deadline_ms ==> (step.0 matches QaPoll::Fail {
                message,
            } && message@ == "PDF viewport did not settle during progressive resource QA"@)
            &&& !(settled && now_ms - since >= dwell_ms) && now_ms < deadline_ms ==> step.0
                == QaPoll::Wait
        }),
{
    let since = if settled {
        match stable_since_ms {
            Some(t) => Some(t),
            None => Some(now_ms),
        }
    } else {
        None
    };
    if let Some(start) = since {
        if now_ms >= start && now_ms - start >= dwell_ms {
            return (QaPoll::Settled, since);
        }
    }
    if now_ms >= deadline_ms {
        return (
            QaPoll::Fail {
                message: "PDF viewport did not settle during progressive resource QA".to_owned(),
            },
            since,
        );
    }
    (QaPoll::Wait, since)
}

/// Checks the number of workspace tabs against the expected count.
pub fn tab_count_check(expected: usize, actual: usize) -> (checked: Result<(), String>)
    ensures
        actual == expected ==> checked == Ok::<(), String>(()),
        actual != expected ==> (checked matches Err(message) && message@ == "expected "@
            + decimal_spec(expected as nat) + " workspace tabs, found "@ + decimal_spec(actual as nat)),
{
    if actual != expected {
        let message = with_two_numbers("expected ", expected, " workspace tabs, found ", actual, "");
        proof {
            reveal_strlit("");
            assert(message@ =~= "expected "@ + decimal_spec(expected as nat) + " workspace tabs, found "@
                + decimal_spec(actual as nat));
        }
        return Err(message);
    }
    Ok(())
}

/// The tab order expected after moving the first of `before` to the end.
pub open spec fn reordered_spec(before: Seq<u64>) -> Seq<u64> {
    before.skip(1).push(before[0])
}

/// The tab order a reorder must produce from `before` (tab view identifiers):
/// the first tab moved to the end. A reorder needs at least three tabs; with
/// fewer the run fails with the returned message.
pub fn tab_reorder_expected(before: &[u64]) -> (expected: Result<Vec<u64>, String>)
    ensures
        before@.len() < 3 ==> (expected matches Err(message) && message@
            == "tab reorder requires at least three tabs"@),
        before@.len() >= 3 ==> (expected matches Ok(order) && order@ == reordered_spec(before@)),
{
    if before.len() < 3 {
        return Err("tab reorder requires at least three tabs".to_owned());
    }
    let mut order: Vec<u64> = Vec::new();
    for index in 1..before.len()
        invariant
            before@.len() >= 3,
            order@ == before@.subrange(1, index as int),
    {
        order.push(before[index]);
        proof {
            assert(before@.subrange(1, index + 1) =~= before@.subrange(1, index as int).push(
                before@[index as int],
            ));
        }
    }
    order.push(before[0]);
    proof {
        assert(before@.subrange(1, before@.len() as int) =~= before@.skip(1));
    }
    Ok(order)
}

/// Whether the tab order after the reorder is the expected one.
pub fn tab_order_matches(expected: &[u64], after: &[u64]) -> (matches: bool)
    ensures
        matches == (expected@ == after@),
{
    if expected.len() != after.len() {
        return false;
    }
    let mut index: usize = 0;
    while index < expected.len()
        invariant
            expected@.len() == after@.len(),
            0 <= index <= expected@.len(),
            forall|i: int| 0 <= i < index ==> expected@[i] == after@[i],
        decreases expected@.len() - index,
    {
        if expected[index] != after[index] {
            return false;
        }
        index = index + 1;
    }
    proof {
        assert(expected@ =~= after@);
    }
    true
}

/// A tab transfer needs exactly two workspace windows.
pub fn tab_transfer_window_check(windows: usize) -> (checked: Result<(), String>)
    ensures
        windows == 2 ==> checked == Ok::<(), String>(()),
        windows != 2 ==> (checked matches Err(message) && message@
            == "tab transfer requires two windows, found "@ + decimal_spec(windows as nat)),
{
    if windows != 2 {
        let message = with_number("tab transfer requires two windows, found ", windows, "");
        proof {
            reveal_strlit("");
            assert(message@ =~= "tab transfer requires two windows, found "@ + decimal_spec(
                windows as nat,
            ));
        }
        return Err(message);
    }
    Ok(())
}

/// The outcome of one poll after a tab transfer.
#[derive(Clone, Copy, Debug, PartialEq, Eq, Structural)]
pub enum TransferPoll {
    /// The target window holds both tabs, its view is settled, and the source
    /// window closed.
    Settled,
    /// Not yet: poll again.
    Wait,
    /// The deadline passed; the host reports the last state it saw.
    TimedOut,
}

/// One poll after a tab transfer. `target` is the target window's tab count and
/// whether its view is settled (`None` when the window could not be read).
pub fn tab_transfer_poll(target: Option<(usize, bool)>, windows: usize, timed_out: bool) -> (poll:
    TransferPoll)
    ensures
        poll == (if target == Some((2usize, true)) && windows == 1 {
            TransferPoll::Settled
        } else if timed_out {
            TransferPoll::TimedOut
        } else {
            TransferPoll::Wait
        }),
{
    let done = match target {
        Some((tabs, settled)) => tabs == 2 && settled && windows == 1,
        None => false,
    };
    if done {
        TransferPoll::Settled
    } else if timed_out {
        TransferPoll::TimedOut
    } else {
        TransferPoll::Wait
    }
}

/// Number of distinct values of `s`.
pub open spec fn distinct_count<T>(s: Seq<T>) -> int
    decreases s.len(),
{
    if s.len() == 0 {
        0
    } else {
        distinct_count(s.drop_last()) + if s.drop_last().contains(s.last()) {
            0int
        } else {
            1
        }
    }
}

fn distinct_ids(ids: &[u64]) -> (count: usize)
    ensures
        count == distinct_count(ids@),
{
    let mut count: usize = 0;
    for index in 0..ids.len()
        invariant
            count == distinct_count(ids@.take(index as int)),
            count <= index,
    {
        let mut seen = false;
        let mut j: usize = 0;
        while j < index
            invariant
                index < ids@.len(),
                j <= index,
                seen == exists|k: int| 0 <= k < j && ids@[k] == ids@[index as int],
            decreases index - j,
        {
            if ids[j] == ids[index] {
                seen = true;
            }
            j = j + 1;
        }
        proof {
            let prefix = ids@.take(index + 1);
            assert(prefix.drop_last() =~= ids@.take(index as int));
            if seen {
                let k = choose|k: int| 0 <= k < index && ids@[k] == ids@[index as int];
                assert(ids@.take(index as int)[k] == prefix.last());
            }
            if ids@.take(index as int).contains(prefix.last()) {
                let k = choose|k: int| 0 <= k < index && ids@.take(index as int)[k] == prefix.last();
                assert(ids@[k] == ids@[index as int]);
            }
        }
        if !seen {
            count = count + 1;
        }
    }
    proof {
        assert(ids@.take(ids@.len() as int) =~= ids@);
    }
    count
}

/// The paths, each as its list of components.
pub open spec fn path_views(paths: Seq<String>) -> Seq<Seq<Seq<char>>> {
    paths.map_values(|p: String| path_components(p@))
}

fn distinct_paths(paths: &[String]) -> (count: usize)
    ensures
        count == distinct_count(path_views(paths@)),
{
    let ghost views = path_views(paths@);
    let mut components: Vec<Vec<Vec<char>>> = Vec::new();
    for index in 0..paths.len()
        invariant
            views == path_views(paths@),
            components@.len() == index,
            forall|k: int| 0 <= k < index ==> nested_chars(#[trigger] components@[k]@) == views[k],
    {
        let parts = path_components_of(paths[index].as_str());
        components.push(parts);
    }
    let mut count: usize = 0;
    for index in 0..components.len()
        invariant
            views == path_views(paths@),
            components@.len() == views.len(),
            forall|k: int| 0 <= k < views.len() ==> nested_chars(#[trigger] components@[k]@) == views[k],
            count == distinct_count(views.take(index as int)),
            count <= index,
    {
        let mut seen = false;
        let mut j: usize = 0;
        while j < index
            invariant
                views == path_views(paths@),
                components@.len() == views.len(),
                forall|k: int| 0 <= k < views.len() ==> nested_chars(#[trigger] components@[k]@) == views[k],
                index < views.len(),
                j <= index,
                seen == exists|k: int| 0 <= k < j && views[k] == views[index as int],
            decreases index - j,
        {
            proof {
                assert(nested_chars(components@[j as int]@) == views[j as int]);
                assert(nested_chars(components@[index as int]@) == views[index as int]);
            }
            if components_equal(&components[j], &components[index]) {
                seen = true;
            }
            j = j + 1;
        }
        proof {
            let prefix = views.take(index + 1);
            assert(prefix.drop_last() =~= views.take(index as int));
            if seen {
                let k = choose|k: int| 0 <= k < index && views[k] == views[index as int];
                assert(views.take(index as int)[k] == prefix.last());
            }
            if views.take(index as int).contains(prefix.last()) {
                let k = choose|k: int| 0 <= k < index && views.take(index as int)[k] == prefix.last();
                assert(views[k] == views[index as int]);
            }
        }
        if !seen {
            count = count + 1;
        }
    }
    proof {
        assert(views.take(views.len() as int) =~= views);
    }
    count
}

/// Checks that every PDF tab owns its own annotation context: as many distinct
/// view identifiers and distinct document paths as tabs, two paths being the
/// same document when their components are the same. Returns the two
/// distinct counts.
pub fn annotation_contexts_check(view_ids: &[u64], paths: &[String], tab_count: usize) -> (checked:
    Result<(usize, usize), String>)
    ensures
        ({
            let views = distinct_count(view_ids@);
            let files = distinct_count(path_views(paths@));
            &&& views == tab_count && files == tab_count ==> checked == Ok::<(usize, usize), String>(
                (views as usize, files as usize),
            )
            &&& !(views == tab_count && files == tab_count) ==> (checked matches Err(message) && message@
                == "multi-annotation contexts were reused across PDF tabs"@)
        }),
{
    let views = distinct_ids(view_ids);
    let files = distinct_paths(paths);
    if views != tab_count || files != tab_count {
        return Err("multi-annotation contexts were reused across PDF tabs".to_owned());
    }
    Ok((views, files))
}

} // verus!
