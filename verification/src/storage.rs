//! Session records and the statistics computed over them.
//!
//! The history file itself (JSON Lines on disk) is read and written by the
//! program; this module holds what a session is and every computation over a
//! list of sessions.

use vstd::prelude::*;
use vstd::string::*;

use crate::clock::{
    earliest_day, has_local_day, in_local_range, local_day, new_session_id, not_after, now, utc_day,
    Timestamp, CHRONO_MAX_SECS,
};
use crate::text::{
    chars_lt, lemma_seq_lt_irreflexive, lemma_seq_lt_total, lemma_seq_lt_transitive, seq_lt,
    all_ascii, ascii_lower, chars_eq, chars_of, split_chars,
    split_on, str_eq, string_of, to_lowercase, trim, trim_chars, unicode_lowercase,
};

verus! {

/// The character views of a list of strings.
pub open spec fn views(v: Seq<String>) -> Seq<Seq<char>> {
    v.map_values(|s: String| s@)
}

/// A single Pomodoro session record.
#[derive(Debug, Clone)]
pub struct Session {
    /// Unique session identifier (UUIDv4)
    pub id: String,
    /// When the session started
    pub started_at: Timestamp,
    /// When the session ended
    pub ended_at: Timestamp,
    /// Intended duration in minutes
    pub duration_minutes: u64,
    /// Phase type: "work", "short_break", or "long_break"
    pub phase: String,
    /// Whether the full duration was completed (not skipped/reset)
    pub completed: bool,
    /// Whether this session has been synced to the API
    pub synced: bool,
    /// Labels describing what this session was spent on.
    pub tags: Vec<String>,
    /// Seconds actually spent running this phase, excluding paused time.
    pub focus_seconds: u64,
}

impl Session {
    /// Create a new session record, ending now, with a fresh identifier.
    pub fn new(
        started_at: Timestamp,
        duration_minutes: u64,
        phase: &str,
        completed: bool,
        tags: Vec<String>,
        focus_seconds: u64,
    ) -> (s: Self)
        ensures
            s.started_at == started_at,
            s.duration_minutes == duration_minutes,
            s.phase@ == phase@,
            s.completed == completed,
            !s.synced,
            s.tags == tags,
            s.focus_seconds == focus_seconds,
    {
        Session {
            id: new_session_id(),
            started_at,
            ended_at: now(),
            duration_minutes,
            phase: String::from_str(phase),
            completed,
            synced: false,
            tags,
            focus_seconds,
        }
    }

    /// The session carries `tag`, ignoring case: some tag lowercases (by
    /// Unicode rules) to what `tag` lowercases to.
    pub open spec fn has_tag_spec(&self, tag: Seq<char>) -> bool {
        exists|i: int|
            0 <= i < self.tags@.len() && #[trigger] unicode_lowercase(self.tags@[i]@)
                == unicode_lowercase(tag)
    }

    /// Whether this session carries the given tag (case-insensitive).
    pub fn has_tag(&self, tag: &str) -> (b: bool)
        ensures
            b == self.has_tag_spec(tag@),
    {
        let wanted = to_lowercase(tag);
        let w = chars_of(wanted.as_str());
        let mut i: usize = 0;
        while i < self.tags.len()
            invariant
                i <= self.tags.len(),
                w@ == unicode_lowercase(tag@),
                forall|j: int|
                    0 <= j < i ==> #[trigger] unicode_lowercase(self.tags@[j]@) != unicode_lowercase(
                        tag@,
                    ),
            decreases self.tags.len() - i,
        {
            let lowered = to_lowercase(self.tags[i].as_str());
            let l = chars_of(lowered.as_str());
            if chars_eq(&l, &w) {
                return true;
            }
            i = i + 1;
        }
        false
    }

    /// A completed work session: the only kind that counts in statistics.
    pub open spec fn counts(&self) -> bool {
        self.phase@ == "work"@ && self.completed
    }
}

/// A tag as it is stored: trimmed, then lowercased.
pub open spec fn normalize_tag(piece: Seq<char>) -> Seq<char> {
    unicode_lowercase(trim(piece))
}

/// Every comma-separated piece of every entry, normalized, in order.
pub open spec fn tag_pieces(raw: Seq<Seq<char>>) -> Seq<Seq<char>>
    decreases raw.len(),
{
    if raw.len() == 0 {
        Seq::empty()
    } else {
        tag_pieces(raw.drop_last()) + split_on(raw.last(), ',').map_values(
            |p: Seq<char>| normalize_tag(p),
        )
    }
}

/// Keep the first occurrence of each non-empty piece, in order.
pub open spec fn distinct_nonempty(s: Seq<Seq<char>>) -> Seq<Seq<char>>
    decreases s.len(),
{
    if s.len() == 0 {
        Seq::empty()
    } else {
        let acc = distinct_nonempty(s.drop_last());
        if s.last().len() == 0 || acc.contains(s.last()) {
            acc
        } else {
            acc.push(s.last())
        }
    }
}

/// The tags `parse_tags` makes of a list of raw entries.
pub open spec fn parsed_tags(raw: Seq<Seq<char>>) -> Seq<Seq<char>> {
    distinct_nonempty(tag_pieces(raw))
}

proof fn lemma_distinct_nonempty(s: Seq<Seq<char>>)
    ensures
        forall|i: int| 0 <= i < distinct_nonempty(s).len() ==> #[trigger] distinct_nonempty(s)[i].len() > 0,
        forall|i: int, j: int|
            0 <= i < j < distinct_nonempty(s).len() ==> distinct_nonempty(s)[i] != distinct_nonempty(s)[j],
    decreases s.len(),
{
    if s.len() > 0 {
        lemma_distinct_nonempty(s.drop_last());
        let acc = distinct_nonempty(s.drop_last());
        if !(s.last().len() == 0 || acc.contains(s.last())) {
            let d = acc.push(s.last());
            assert(d == distinct_nonempty(s));
            assert forall|i: int, j: int| 0 <= i < j < d.len() implies d[i] != d[j] by {
                if j == d.len() - 1 {
                    assert(d[i] == acc[i]);
                    if d[i] == d[j] {
                        assert(acc.contains(s.last()));
                    }
                } else {
                    assert(d[i] == acc[i] && d[j] == acc[j]);
                }
            }
            assert forall|i: int| 0 <= i < d.len() implies #[trigger] d[i].len() > 0 by {
                if i < acc.len() {
                    assert(d[i] == acc[i]);
                }
            }
        }
    }
}

/// Normalized tags never repeat and are never empty.
pub proof fn law_parsed_tags_are_distinct_and_nonempty(raw: Seq<Seq<char>>)
    ensures
        forall|i: int| 0 <= i < parsed_tags(raw).len() ==> #[trigger] parsed_tags(raw)[i].len() > 0,
        forall|i: int, j: int|
            0 <= i < j < parsed_tags(raw).len() ==> parsed_tags(raw)[i] != parsed_tags(raw)[j],
{
    lemma_distinct_nonempty(tag_pieces(raw));
}

fn contains_string(v: &Vec<String>, s: &String) -> (b: bool)
    ensures
        b == views(v@).contains(s@),
{
    let mut i: usize = 0;
    while i < v.len()
        invariant
            i <= v.len(),
            forall|j: int| 0 <= j < i ==> v@[j]@ != s@,
        decreases v.len() - i,
    {
        if str_eq(v[i].as_str(), s.as_str()) {
            assert(views(v@)[i as int] == s@);
            return true;
        }
        i = i + 1;
    }
    proof {
        if views(v@).contains(s@) {
            let k = choose|k: int| 0 <= k < views(v@).len() && views(v@)[k] == s@;
            assert(v@[k]@ == s@);
        }
    }
    false
}

/// Normalize a comma-separated tag list into trimmed, non-empty,
/// deduplicated lowercase tags. Used for both `--tag` flags and config values.
pub fn parse_tags(raw: &Vec<String>) -> (tags: Vec<String>)
    ensures
        views(tags@) == parsed_tags(views(raw@)),
{
    let mut tags: Vec<String> = Vec::new();
    let mut i: usize = 0;
    while i < raw.len()
        invariant
            i <= raw.len(),
            views(tags@) == distinct_nonempty(tag_pieces(views(raw@).take(i as int))),
        decreases raw.len() - i,
    {
        let entry = chars_of(raw[i].as_str());
        let pieces = split_chars(&entry, ',');
        let ghost before = tag_pieces(views(raw@).take(i as int));
        let ghost normed = split_on(entry@, ',').map_values(|p: Seq<char>| normalize_tag(p));
        proof {
            let t = views(raw@).take(i as int + 1);
            assert(t.drop_last() =~= views(raw@).take(i as int));
            assert(t.last() == raw@[i as int]@);
            assert(tag_pieces(t) == before + normed);
        }
        let mut j: usize = 0;
        while j < pieces.len()
            invariant
                j <= pieces.len(),
                pieces@.len() == split_on(entry@, ',').len(),
                forall|k: int| 0 <= k < pieces@.len() ==> #[trigger] pieces@[k]@ == split_on(entry@, ',')[k],
                normed.len() == pieces@.len(),
                forall|k: int| 0 <= k < normed.len() ==> #[trigger] normed[k] == normalize_tag(split_on(entry@, ',')[k]),
                views(tags@) == distinct_nonempty(before + normed.take(j as int)),
            decreases pieces.len() - j,
        {
            let piece = trim_chars(&pieces[j]);
            let piece_str = string_of(&piece);
            let tag = to_lowercase(piece_str.as_str());
            proof {
                assert(tag@ == normed[j as int]);
                let x = before + normed.take(j as int + 1);
                assert(x.drop_last() =~= before + normed.take(j as int));
                assert(x.last() == tag@);
            }
            if tag.as_str().unicode_len() > 0 && !contains_string(&tags, &tag) {
                let ghost old_tags = tags@;
                let ghost tv = tag@;
                tags.push(tag);
                proof {
                    assert(views(tags@) =~= views(old_tags).push(tv));
                }
            }
            j = j + 1;
        }
        proof {
            assert(normed.take(normed.len() as int) =~= normed);
        }
        i = i + 1;
    }
    proof {
        assert(views(raw@).take(raw@.len() as int) =~= views(raw@));
    }
    tags
}

/// Aggregated productivity stats.
#[derive(Debug, Clone, Copy, PartialEq, Eq, Structural)]
pub struct Stats {
    /// Completed pomodoros today
    pub today: u32,
    /// Completed pomodoros in the last 7 days (including today)
    pub week: u32,
    /// Completed pomodoros in the last 365 days
    pub year: u32,
    /// Days with at least one completed pomodoro in the last 365 days
    pub active_days: u32,
    /// Longest run of consecutive active days
    pub best_streak: u32,
    /// Consecutive active days ending today (or yesterday, if today has
    /// no pomodoros yet)
    pub current_streak: u32,
}

/// The counts of a list of (day, count) pairs.
pub open spec fn counts_of(daily: Seq<(i32, u32)>) -> Seq<nat> {
    daily.map_values(|p: (i32, u32)| p.1 as nat)
}

/// Sum of a list of counts.
pub open spec fn total(c: Seq<nat>) -> nat
    decreases c.len(),
{
    if c.len() == 0 {
        0
    } else {
        total(c.drop_last()) + c.last()
    }
}

/// Number of days with a positive count.
pub open spec fn active(c: Seq<nat>) -> nat
    decreases c.len(),
{
    if c.len() == 0 {
        0
    } else {
        active(c.drop_last()) + if c.last() > 0 {
            1nat
        } else {
            0nat
        }
    }
}

/// Length of the run of active days that ends with the last day.
pub open spec fn run_at_end(c: Seq<nat>) -> nat
    decreases c.len(),
{
    if c.len() == 0 || c.last() == 0 {
        0
    } else {
        run_at_end(c.drop_last()) + 1
    }
}

/// Longest run of consecutive active days.
pub open spec fn longest_run(c: Seq<nat>) -> nat
    decreases c.len(),
{
    if c.len() == 0 {
        0
    } else {
        let before = longest_run(c.drop_last());
        let here = run_at_end(c);
        if here > before {
            here
        } else {
            before
        }
    }
}

/// The streak that is still alive: the run ending today, or, while today
/// has nothing yet, the run ending yesterday.
pub open spec fn live_run(c: Seq<nat>) -> nat {
    if c.len() > 0 && c.last() == 0 {
        run_at_end(c.drop_last())
    } else {
        run_at_end(c)
    }
}

/// The last `k` counts (all of them when there are fewer).
pub open spec fn last_days(c: Seq<nat>, k: nat) -> Seq<nat> {
    if c.len() <= k {
        c
    } else {
        c.subrange(c.len() - k, c.len() as int)
    }
}

/// The statistics of a list of daily counts, oldest first.
pub open spec fn stats_of(daily: Seq<(i32, u32)>) -> (nat, nat, nat, nat, nat, nat) {
    let c = counts_of(daily);
    (
        if c.len() > 0 { c.last() } else { 0 },
        total(last_days(c, 7)),
        total(c),
        active(c),
        longest_run(c),
        live_run(c),
    )
}

proof fn lemma_runs_bounded(c: Seq<nat>)
    ensures
        run_at_end(c) <= active(c),
        longest_run(c) <= active(c),
        run_at_end(c) <= longest_run(c),
        active(c) <= c.len(),
        active(c) <= total(c),
    decreases c.len(),
{
    if c.len() > 0 {
        lemma_runs_bounded(c.drop_last());
    }
}

proof fn lemma_total_suffix(c: Seq<nat>, k: nat)
    ensures
        total(last_days(c, k)) <= total(c),
    decreases c.len(),
{
    if c.len() > k {
        let d = c.drop_last();
        lemma_total_suffix(d, k);
        if k == 0 {
            assert(last_days(c, k) =~= Seq::<nat>::empty());
        } else {
            if d.len() > k {
                assert(last_days(c, k).drop_last() =~= last_days(d, (k - 1) as nat));
                lemma_total_suffix(d, (k - 1) as nat);
            } else {
                assert(last_days(c, k).drop_last() =~= d.subrange(1, d.len() as int));
                lemma_total_drop_first(d);
            }
            assert(last_days(c, k).last() == c.last());
        }
    }
}

proof fn lemma_total_drop_first(c: Seq<nat>)
    requires
        c.len() > 0,
    ensures
        total(c.subrange(1, c.len() as int)) + c[0] == total(c),
    decreases c.len(),
{
    if c.len() > 1 {
        let d = c.drop_last();
        lemma_total_drop_first(d);
        assert(c.subrange(1, c.len() as int).drop_last() =~= d.subrange(1, d.len() as int));
    } else {
        assert(c.subrange(1, c.len() as int) =~= Seq::<nat>::empty());
        assert(c.drop_last() =~= Seq::<nat>::empty());
    }
}

/// Streak laws: the live streak never exceeds the best streak, no streak
/// exceeds the number of active days, active days never exceed the days
/// looked at, and the week never holds more than the year.
pub proof fn law_streaks_are_bounded(daily: Seq<(i32, u32)>)
    ensures
        stats_of(daily).5 <= stats_of(daily).4,
        stats_of(daily).4 <= stats_of(daily).3,
        stats_of(daily).3 <= daily.len(),
        stats_of(daily).3 <= stats_of(daily).2,
        stats_of(daily).0 <= stats_of(daily).1,
        stats_of(daily).1 <= stats_of(daily).2,
{
    let c = counts_of(daily);
    lemma_runs_bounded(c);
    lemma_total_suffix(c, 7);
    if c.len() > 0 {
        let d = c.drop_last();
        lemma_runs_bounded(d);
        assert(longest_run(d) <= longest_run(c));
        if c.last() == 0 {
            assert(run_at_end(d) <= longest_run(d));
        }
        if c.len() <= 7 {
            assert(total(c) == total(d) + c.last());
        } else {
            let w = last_days(c, 7);
            assert(w.last() == c.last());
            assert(total(w) == total(w.drop_last()) + w.last());
        }
    }
}

/// A day without pomodoros yet does not end the streak: while today is
/// empty, the live streak is the run that ended yesterday.
pub proof fn law_empty_today_keeps_streak(daily: Seq<(i32, u32)>)
    requires
        daily.len() > 0,
        daily.last().1 == 0,
    ensures
        stats_of(daily).5 == run_at_end(counts_of(daily.drop_last())),
{
    assert(counts_of(daily).drop_last() =~= counts_of(daily.drop_last()));
}

/// Longest run of consecutive days with at least one completed pomodoro.
pub fn calculate_streak(daily_counts: &Vec<(i32, u32)>) -> (r: u32)
    requires
        daily_counts@.len() <= u32::MAX,
    ensures
        r == longest_run(counts_of(daily_counts@)),
{
    let ghost c = counts_of(daily_counts@);
    let mut max_streak: u32 = 0;
    let mut current: u32 = 0;
    let mut i: usize = 0;
    while i < daily_counts.len()
        invariant
            i <= daily_counts.len(),
            c == counts_of(daily_counts@),
            current == run_at_end(c.take(i as int)),
            max_streak == longest_run(c.take(i as int)),
            current <= i,
            daily_counts@.len() <= u32::MAX,
        decreases daily_counts.len() - i,
    {
        proof {
            let t = c.take(i as int + 1);
            assert(t.drop_last() =~= c.take(i as int));
            assert(t.last() == daily_counts@[i as int].1 as nat);
        }
        if daily_counts[i].1 > 0 {
            current = current + 1;
            if current > max_streak {
                max_streak = current;
            }
        } else {
            current = 0;
        }
        i = i + 1;
    }
    proof {
        assert(c.take(daily_counts@.len() as int) =~= c);
    }
    max_streak
}

/// Consecutive active days ending today; an inactive today doesn't break
/// the streak (there's still time to keep it alive).
pub fn current_streak(daily_counts: &Vec<(i32, u32)>) -> (r: u32)
    requires
        daily_counts@.len() <= u32::MAX,
    ensures
        r == live_run(counts_of(daily_counts@)),
{
    let ghost c = counts_of(daily_counts@);
    let n = daily_counts.len();
    let mut end = n;
    if n > 0 && daily_counts[n - 1].1 == 0 {
        end = n - 1;
    }
    let ghost base = c.take(end as int);
    proof {
        if n > 0 && daily_counts@[n - 1].1 == 0 {
            assert(base =~= c.drop_last());
        } else {
            assert(base =~= c);
        }
    }
    let mut streak: u32 = 0;
    let mut k = end;
    while k > 0 && daily_counts[k - 1].1 > 0
        invariant
            k <= end <= n,
            n == daily_counts.len(),
            c == counts_of(daily_counts@),
            base == c.take(end as int),
            streak == end - k,
            n <= u32::MAX,
            run_at_end(base) == streak + run_at_end(c.take(k as int)),
        decreases k,
    {
        proof {
            let t = c.take(k as int);
            assert(t.drop_last() =~= c.take(k as int - 1));
            assert(t.last() == daily_counts@[k - 1].1 as nat);
        }
        streak = streak + 1;
        k = k - 1;
    }
    proof {
        if k > 0 {
            assert(c.take(k as int).last() == daily_counts@[k - 1].1 as nat);
        }
    }
    streak
}

/// Compute aggregate stats from daily counts (oldest first, today last).
pub fn stats_from_daily(daily: &Vec<(i32, u32)>) -> (s: Stats)
    requires
        total(counts_of(daily@)) <= u32::MAX,
        daily@.len() <= u32::MAX,
    ensures
        s.today == stats_of(daily@).0,
        s.week == stats_of(daily@).1,
        s.year == stats_of(daily@).2,
        s.active_days == stats_of(daily@).3,
        s.best_streak == stats_of(daily@).4,
        s.current_streak == stats_of(daily@).5,
{
    let ghost c = counts_of(daily@);
    proof {
        law_streaks_are_bounded(daily@);
    }
    let n = daily.len();
    let today = if n > 0 {
        daily[n - 1].1
    } else {
        0
    };
    let mut year: u32 = 0;
    let mut week: u32 = 0;
    let mut active_days: u32 = 0;
    let week_start = if n > 7 {
        n - 7
    } else {
        0
    };
    let mut i: usize = 0;
    while i < n
        invariant
            n == daily.len(),
            i <= n,
            c == counts_of(daily@),
            total(c) <= u32::MAX,
            active(c) <= total(c),
            week_start == if n > 7 { n - 7 } else { 0 },
            year == total(c.take(i as int)),
            active_days == active(c.take(i as int)),
            i <= week_start ==> week == 0,
            i > week_start ==> week == total(c.subrange(week_start as int, i as int)),
        decreases n - i,
    {
        proof {
            let t = c.take(i as int + 1);
            assert(t.drop_last() =~= c.take(i as int));
            assert(t.last() == daily@[i as int].1 as nat);
            lemma_total_prefix_le(c, i as int + 1);
            lemma_active_prefix_le(c, i as int + 1);
            if i >= week_start {
                let w = c.subrange(week_start as int, i as int + 1);
                if i > week_start {
                    assert(w.drop_last() =~= c.subrange(week_start as int, i as int));
                } else {
                    assert(w.drop_last() =~= Seq::<nat>::empty());
                }
                assert(w.last() == c[i as int]);
                assert(c[i as int] == daily@[i as int].1 as nat);
                assert(total(w) == total(w.drop_last()) + w.last());
                lemma_total_window_le(c, week_start as int, i as int + 1);
            }
        }
        let v = daily[i].1;
        year = year + v;
        if v > 0 {
            active_days = active_days + 1;
        }
        if i >= week_start {
            week = week + v;
        }
        i = i + 1;
    }
    proof {
        assert(c.take(n as int) =~= c);
        if n > 7 {
            assert(last_days(c, 7) =~= c.subrange(week_start as int, n as int));
        } else {
            assert(last_days(c, 7) == c);
            if n > 0 {
                assert(c.subrange(0, n as int) =~= c);
            } else {
                assert(total(last_days(c, 7)) == 0);
            }
        }
    }
    Stats {
        today,
        week,
        year,
        active_days,
        best_streak: calculate_streak(daily),
        current_streak: current_streak(daily),
    }
}

proof fn lemma_total_prefix_le(c: Seq<nat>, k: int)
    requires
        0 <= k <= c.len(),
    ensures
        total(c.take(k)) <= total(c),
    decreases c.len(),
{
    if k < c.len() {
        let d = c.drop_last();
        assert(c.take(k) =~= d.take(k));
        lemma_total_prefix_le(d, k);
    } else {
        assert(c.take(k) =~= c);
    }
}

proof fn lemma_active_prefix_le(c: Seq<nat>, k: int)
    requires
        0 <= k <= c.len(),
    ensures
        active(c.take(k)) <= active(c),
    decreases c.len(),
{
    if k < c.len() {
        let d = c.drop_last();
        assert(c.take(k) =~= d.take(k));
        lemma_active_prefix_le(d, k);
    } else {
        assert(c.take(k) =~= c);
    }
}

proof fn lemma_total_window_le(c: Seq<nat>, a: int, b: int)
    requires
        0 <= a <= b <= c.len(),
    ensures
        total(c.subrange(a, b)) <= total(c),
    decreases b - a,
{
    if a < b {
        let w = c.subrange(a, b);
        assert(w.drop_last() =~= c.subrange(a, b - 1));
        lemma_total_window_le(c, a, b - 1);
        lemma_total_prefix_le(c, b);
        lemma_total_window_prefix(c, a, b);
    }
}

proof fn lemma_total_window_prefix(c: Seq<nat>, a: int, b: int)
    requires
        0 <= a <= b <= c.len(),
    ensures
        total(c.subrange(a, b)) + total(c.take(a)) == total(c.take(b)),
    decreases b - a,
{
    if a == b {
        assert(c.subrange(a, b) =~= Seq::<nat>::empty());
    } else {
        lemma_total_window_prefix(c, a, b - 1);
        assert(c.subrange(a, b).drop_last() =~= c.subrange(a, b - 1));
        assert(c.take(b).drop_last() =~= c.take(b - 1));
    }
}

/// The session counts on a tally: it started within `[from, to]`, it is a
/// completed work session, and it carries `tag` when one is asked for.
pub open spec fn tallied(s: Session, from: Timestamp, to: Timestamp, tag: Option<Seq<char>>) -> bool {
    &&& not_after(from, s.started_at)
    &&& not_after(s.started_at, to)
    &&& s.counts()
    &&& (tag matches Some(t) ==> s.has_tag_spec(t))
}

/// Among the first `n` sessions, how many are tallied and fell on day `d`
/// (`days[k]` is the local day of session `k`).
pub open spec fn count_on(
    ss: Seq<Session>,
    days: Seq<Option<i32>>,
    from: Timestamp,
    to: Timestamp,
    tag: Option<Seq<char>>,
    d: int,
    n: nat,
) -> nat
    decreases n,
{
    if n == 0 {
        0
    } else {
        count_on(ss, days, from, to, tag, d, (n - 1) as nat) + if tallied(
            ss[n - 1],
            from,
            to,
            tag,
        ) && days[n - 1] == Some(d as i32) {
            1nat
        } else {
            0nat
        }
    }
}

/// How many days a tally walks back from `today`: `days` of them, but never
/// before the earliest representable day.
pub open spec fn window_len(today: int, earliest: int, days: nat) -> nat {
    if today < earliest {
        0
    } else if today - earliest + 1 < days {
        (today - earliest + 1) as nat
    } else {
        days
    }
}

/// The view of an optional tag.
pub open spec fn tag_view(tag: Option<&str>) -> Option<Seq<char>> {
    match tag {
        Some(t) => Some(t@),
        None => None,
    }
}

fn is_tallied(s: &Session, from: Timestamp, to: Timestamp, tag: Option<&str>) -> (b: bool)
    ensures
        b == tallied(*s, from, to, tag_view(tag)),
{
    let in_range = from.le(&s.started_at) && s.started_at.le(&to);
    let is_work = crate::text::str_eq(s.phase.as_str(), "work");
    let tag_ok = match tag {
        Some(t) => s.has_tag(t),
        None => true,
    };
    in_range && is_work && s.completed && tag_ok
}

fn count_day(
    sessions: &Vec<Session>,
    days: &Vec<Option<i32>>,
    from: Timestamp,
    to: Timestamp,
    tag: Option<&str>,
    d: i32,
) -> (c: u32)
    requires
        sessions@.len() == days@.len(),
        sessions@.len() <= u32::MAX,
    ensures
        c == count_on(sessions@, days@, from, to, tag_view(tag), d as int, sessions@.len()),
{
    let mut c: u32 = 0;
    let mut k: usize = 0;
    while k < sessions.len()
        invariant
            k <= sessions.len(),
            sessions@.len() == days@.len(),
            sessions@.len() <= u32::MAX,
            c == count_on(sessions@, days@, from, to, tag_view(tag), d as int, k as nat),
            c <= k,
        decreases sessions.len() - k,
    {
        let hit = match days[k] {
            Some(x) => x == d,
            None => false,
        };
        if is_tallied(&sessions[k], from, to, tag) && hit {
            c = c + 1;
        }
        k = k + 1;
    }
    c
}

/// The instant `days` whole days before `to`, or the earliest instant an
/// `i64` count of seconds holds when that is further back.
pub open spec fn days_before(to: Timestamp, days: int) -> Timestamp {
    Timestamp {
        secs: if to.secs >= i64::MIN + days * 86400 {
            (to.secs - days * 86400) as i64
        } else {
            i64::MIN
        },
        nanos: to.nanos,
    }
}

/// `r` is the tally of `sessions` per day for the `days` days ending
/// `today` (oldest first, never before `earliest`), counting those
/// sessions started in `[from, to]` whose local day `session_days` gives.
pub open spec fn tally_ok(
    r: Seq<(i32, u32)>,
    sessions: Seq<Session>,
    session_days: Seq<Option<i32>>,
    from: Timestamp,
    to: Timestamp,
    today: int,
    earliest: int,
    days: nat,
    tag: Option<Seq<char>>,
) -> bool {
    &&& r.len() == window_len(today, earliest, days)
    &&& forall|j: int|
        0 <= j < r.len() ==> (#[trigger] r[j]).0 == today - (r.len() - 1 - j) && r[j].1
            == count_on(sessions, session_days, from, to, tag, r[j].0 as int, sessions.len())
}

/// A reading of the clock as `now` may give it: after 1970, within
/// chrono's range, with less than a second of nanoseconds.
pub open spec fn clock_reading_ok(to: Timestamp) -> bool {
    &&& 0 <= to.secs <= CHRONO_MAX_SECS
    &&& to.nanos < 1_000_000_000
}

/// `d` is the local day of instant `t` as the library takes it: none for an
/// instant too near the end of chrono's range to have one in every zone;
/// otherwise what `local_day` answered for `t` (chrono's local date in the
/// system time zone), which exists for a valid instant and lies within a day
/// of the UTC day (zone offsets are under a day).
pub open spec fn day_of_ok(t: Timestamp, d: Option<i32>) -> bool {
    &&& (!in_local_range(t) ==> d is None)
    &&& (in_local_range(t) ==> call_ensures(local_day, (t,), d))
    &&& (in_local_range(t) && t.nanos < 1_000_000_000 ==> d is Some)
    &&& (d matches Some(x) ==> utc_day(t) - 1 <= x <= utc_day(t) + 1)
}

/// `today` is the local day of the clock reading `to`, as `local_day`
/// answered it; for a reading too
/// near the end of chrono's range to have one, the day before the earliest
/// day, so that nothing is counted.
pub open spec fn today_ok(to: Timestamp, today: int) -> bool {
    if in_local_range(to) {
        &&& utc_day(to) - 1 <= today <= utc_day(to) + 1
        &&& i32::MIN <= today <= i32::MAX
        &&& call_ensures(local_day, (to,), Some(today as i32))
    } else {
        today == -95746130
    }
}

/// `r` is what `daily_counts_tagged` gives for some reading `to` of the
/// clock, `today` its local day, and `session_days` the local days of the
/// sessions' starts (each within a day of its UTC day): the tally of the
/// `days` days ending today, over the sessions started from `days + 1` days
/// before `to` up to `to`. For a reading with a local day, the table has
/// all `days` days (up to the 96465292 days since chrono's first date).
pub open spec fn daily_counts_ok(r: Seq<(i32, u32)>, sessions: Seq<Session>, days: nat, tag: Option<Seq<char>>) -> bool {
    exists|to: Timestamp, today: i32, session_days: Seq<Option<i32>>|
        {
            &&& clock_reading_ok(to)
            &&& today_ok(to, today as int)
            &&& session_days.len() == sessions.len()
            &&& (in_local_range(to) && days <= 96465292 ==> r.len() == days)
            &&& forall|k: int|
                0 <= k < sessions.len() ==> day_of_ok(sessions[k].started_at, #[trigger] session_days[k])
            &&& #[trigger] tally_ok(
                r,
                sessions,
                session_days,
                days_before(to, days as int + 1),
                to,
                today as int,
                -95746129,
                days,
                tag,
            )
        }
}

/// Count tallied sessions per day for the `days` days ending `today`,
/// oldest first. `session_days[k]` is the local day of `sessions[k]`;
/// the walk never goes before `earliest`.
pub fn tally_days(
    sessions: &Vec<Session>,
    session_days: &Vec<Option<i32>>,
    from: Timestamp,
    to: Timestamp,
    today: i32,
    earliest: i32,
    days: u32,
    tag: Option<&str>,
) -> (r: Vec<(i32, u32)>)
    requires
        sessions@.len() == session_days@.len(),
        sessions@.len() <= u32::MAX,
    ensures
        r@.len() == window_len(today as int, earliest as int, days as nat),
        forall|j: int|
            0 <= j < r@.len() ==> (#[trigger] r@[j]).0 == today - (r@.len() - 1 - j) && r@[j].1
                == count_on(
                sessions@,
                session_days@,
                from,
                to,
                tag_view(tag),
                r@[j].0 as int,
                sessions@.len(),
            ),
{
    let n: u32 = if today < earliest {
        0
    } else {
        let span: i64 = today as i64 - earliest as i64 + 1;
        if span < days as i64 {
            span as u32
        } else {
            days
        }
    };
    let mut r: Vec<(i32, u32)> = Vec::new();
    let mut j: u32 = 0;
    while j < n
        invariant
            j <= n,
            n == window_len(today as int, earliest as int, days as nat),
            n > 0 ==> today - (n - 1) >= earliest,
            sessions@.len() == session_days@.len(),
            sessions@.len() <= u32::MAX,
            r@.len() == j,
            forall|i: int|
                0 <= i < j ==> (#[trigger] r@[i]).0 == today - (n - 1 - i) && r@[i].1 == count_on(
                    sessions@,
                    session_days@,
                    from,
                    to,
                    tag_view(tag),
                    r@[i].0 as int,
                    sessions@.len(),
                ),
        decreases n - j,
    {
        let d: i32 = (today as i64 - (n - 1 - j) as i64) as i32;
        let c = count_day(sessions, session_days, from, to, tag, d);
        r.push((d, c));
        j = j + 1;
    }
    r
}

/// Consecutive days: each day of a tally is the day after the one before.
pub proof fn law_tally_days_are_consecutive(r: Seq<(i32, u32)>, today: int)
    requires
        forall|j: int| 0 <= j < r.len() ==> (#[trigger] r[j]).0 == today - (r.len() - 1 - j),
    ensures
        forall|j: int| 0 <= j < r.len() - 1 ==> #[trigger] r[j + 1].0 == r[j].0 + 1,
        r.len() > 0 ==> r.last().0 == today,
{
    assert forall|j: int| 0 <= j < r.len() - 1 implies #[trigger] r[j + 1].0 == r[j].0 + 1 by {
        assert(r[j + 1].0 == today - (r.len() - 1 - (j + 1)));
        assert(r[j].0 == today - (r.len() - 1 - j));
    }
    if r.len() > 0 {
        assert(r[r.len() - 1].0 == today);
    }
}

/// Whether session `k` is tallied on day `d`.
pub open spec fn hit(
    ss: Seq<Session>,
    days: Seq<Option<i32>>,
    from: Timestamp,
    to: Timestamp,
    tag: Option<Seq<char>>,
    d: int,
    k: int,
) -> bool {
    tallied(ss[k], from, to, tag) && days[k] == Some(d as i32)
}

/// Number of days of `ds` on which session `k` is tallied.
spec fn hits(
    ss: Seq<Session>,
    days: Seq<Option<i32>>,
    from: Timestamp,
    to: Timestamp,
    tag: Option<Seq<char>>,
    ds: Seq<(i32, u32)>,
    k: int,
) -> nat
    decreases ds.len(),
{
    if ds.len() == 0 {
        0
    } else {
        hits(ss, days, from, to, tag, ds.drop_last(), k) + if hit(
            ss,
            days,
            from,
            to,
            tag,
            ds.last().0 as int,
            k,
        ) {
            1nat
        } else {
            0nat
        }
    }
}

/// Sum over the days of `ds` of their counts among the first `n` sessions.
spec fn sum_counts(
    ss: Seq<Session>,
    days: Seq<Option<i32>>,
    from: Timestamp,
    to: Timestamp,
    tag: Option<Seq<char>>,
    ds: Seq<(i32, u32)>,
    n: nat,
) -> nat
    decreases ds.len(),
{
    if ds.len() == 0 {
        0
    } else {
        sum_counts(ss, days, from, to, tag, ds.drop_last(), n) + count_on(
            ss,
            days,
            from,
            to,
            tag,
            ds.last().0 as int,
            n,
        )
    }
}

proof fn lemma_sum_step(
    ss: Seq<Session>,
    days: Seq<Option<i32>>,
    from: Timestamp,
    to: Timestamp,
    tag: Option<Seq<char>>,
    ds: Seq<(i32, u32)>,
    n: nat,
)
    requires
        n > 0,
    ensures
        sum_counts(ss, days, from, to, tag, ds, n) == sum_counts(
            ss,
            days,
            from,
            to,
            tag,
            ds,
            (n - 1) as nat,
        ) + hits(ss, days, from, to, tag, ds, n - 1),
    decreases ds.len(),
{
    if ds.len() > 0 {
        lemma_sum_step(ss, days, from, to, tag, ds.drop_last(), n);
    }
}

proof fn lemma_hits_absent(
    ss: Seq<Session>,
    days: Seq<Option<i32>>,
    from: Timestamp,
    to: Timestamp,
    tag: Option<Seq<char>>,
    ds: Seq<(i32, u32)>,
    k: int,
)
    requires
        days[k] is Some,
        forall|i: int| 0 <= i < ds.len() ==> (#[trigger] ds[i]).0 != days[k]->0,
    ensures
        hits(ss, days, from, to, tag, ds, k) == 0,
    decreases ds.len(),
{
    if ds.len() > 0 {
        assert(ds.last() == ds[ds.len() - 1]);
        lemma_hits_absent(ss, days, from, to, tag, ds.drop_last(), k);
    }
}

proof fn lemma_hits_at_most_one(
    ss: Seq<Session>,
    days: Seq<Option<i32>>,
    from: Timestamp,
    to: Timestamp,
    tag: Option<Seq<char>>,
    ds: Seq<(i32, u32)>,
    k: int,
)
    requires
        forall|i: int, j: int| 0 <= i < j < ds.len() ==> ds[i].0 != ds[j].0,
    ensures
        hits(ss, days, from, to, tag, ds, k) <= 1,
    decreases ds.len(),
{
    if ds.len() > 0 {
        let front = ds.drop_last();
        lemma_hits_at_most_one(ss, days, from, to, tag, front, k);
        if hit(ss, days, from, to, tag, ds.last().0 as int, k) {
            assert forall|i: int| 0 <= i < front.len() implies (#[trigger] front[i]).0
                != days[k]->0 by {
                assert(front[i] == ds[i]);
                assert(ds.last() == ds[ds.len() - 1]);
            }
            lemma_hits_absent(ss, days, from, to, tag, front, k);
        }
    }
}

proof fn lemma_sum_bounded(
    ss: Seq<Session>,
    days: Seq<Option<i32>>,
    from: Timestamp,
    to: Timestamp,
    tag: Option<Seq<char>>,
    ds: Seq<(i32, u32)>,
    n: nat,
)
    requires
        forall|i: int, j: int| 0 <= i < j < ds.len() ==> ds[i].0 != ds[j].0,
    ensures
        sum_counts(ss, days, from, to, tag, ds, n) <= n,
    decreases n,
{
    if n == 0 {
        lemma_sum_zero(ss, days, from, to, tag, ds);
    } else {
        lemma_sum_bounded(ss, days, from, to, tag, ds, (n - 1) as nat);
        lemma_sum_step(ss, days, from, to, tag, ds, n);
        lemma_hits_at_most_one(ss, days, from, to, tag, ds, n - 1);
    }
}

proof fn lemma_sum_zero(
    ss: Seq<Session>,
    days: Seq<Option<i32>>,
    from: Timestamp,
    to: Timestamp,
    tag: Option<Seq<char>>,
    ds: Seq<(i32, u32)>,
)
    ensures
        sum_counts(ss, days, from, to, tag, ds, 0) == 0,
    decreases ds.len(),
{
    if ds.len() > 0 {
        lemma_sum_zero(ss, days, from, to, tag, ds.drop_last());
    }
}

proof fn lemma_total_is_sum(
    ss: Seq<Session>,
    days: Seq<Option<i32>>,
    from: Timestamp,
    to: Timestamp,
    tag: Option<Seq<char>>,
    ds: Seq<(i32, u32)>,
    n: nat,
)
    requires
        forall|j: int|
            0 <= j < ds.len() ==> (#[trigger] ds[j]).1 == count_on(
                ss,
                days,
                from,
                to,
                tag,
                ds[j].0 as int,
                n,
            ),
    ensures
        total(counts_of(ds)) == sum_counts(ss, days, from, to, tag, ds, n),
    decreases ds.len(),
{
    if ds.len() > 0 {
        let front = ds.drop_last();
        assert forall|j: int| 0 <= j < front.len() implies (#[trigger] front[j]).1 == count_on(
            ss,
            days,
            from,
            to,
            tag,
            front[j].0 as int,
            n,
        ) by {
            assert(front[j] == ds[j]);
        }
        lemma_total_is_sum(ss, days, from, to, tag, front, n);
        assert(counts_of(ds).drop_last() =~= counts_of(front));
        assert(ds.last() == ds[ds.len() - 1]);
    }
}

/// A session is tallied on one day at most, so a tally over distinct days
/// never counts more pomodoros than there are sessions.
pub proof fn law_tally_never_exceeds_sessions(
    ss: Seq<Session>,
    days: Seq<Option<i32>>,
    from: Timestamp,
    to: Timestamp,
    tag: Option<Seq<char>>,
    r: Seq<(i32, u32)>,
)
    requires
        forall|i: int, j: int| 0 <= i < j < r.len() ==> r[i].0 != r[j].0,
        forall|j: int|
            0 <= j < r.len() ==> (#[trigger] r[j]).1 == count_on(
                ss,
                days,
                from,
                to,
                tag,
                r[j].0 as int,
                ss.len(),
            ),
    ensures
        total(counts_of(r)) <= ss.len(),
{
    lemma_total_is_sum(ss, days, from, to, tag, r, ss.len());
    lemma_sum_bounded(ss, days, from, to, tag, r, ss.len());
}

/// The local day of `t` as `day` gives it, for an instant with one in every
/// time zone; none otherwise.
pub fn local_day_by<F: Fn(Timestamp) -> Option<i32>>(t: Timestamp, day: F) -> (r: Option<i32>)
    requires
        in_local_range(t) ==> call_requires(day, (t,)),
    ensures
        in_local_range(t) ==> call_ensures(day, (t,), r),
        !in_local_range(t) ==> r is None,
{
    if has_local_day(t) {
        day(t)
    } else {
        None
    }
}

/// Count completed work sessions per local calendar day, carrying `tag`
/// when one is given, for the `days` days ending today (oldest first).
///
/// Sessions are looked at from one day more than `days` before now (a local
/// day can start up to 14 hours before the same UTC day) up to now. Which
/// day is "today", and on which day each session fell, come from the
/// system's clock and time zone, so of those only the shape is stated.
pub fn daily_counts_tagged(sessions: &Vec<Session>, days: u32, tag: Option<&str>) -> (r: Vec<(i32, u32)>)
    requires
        sessions@.len() <= u32::MAX,
    ensures
        r@.len() <= days,
        forall|j: int| 0 <= j < r@.len() - 1 ==> #[trigger] r@[j + 1].0 == r@[j].0 + 1,
        total(counts_of(r@)) <= sessions@.len(),
        daily_counts_ok(r@, sessions@, days as nat, tag_view(tag)),
{
    let to = now();
    let reach: i64 = (days as i64 + 1) * 86400;
    let from = Timestamp {
        secs: if to.secs >= i64::MIN + reach {
            to.secs - reach
        } else {
            i64::MIN
        },
        nanos: to.nanos,
    };
    let mut session_days: Vec<Option<i32>> = Vec::new();
    let mut k: usize = 0;
    while k < sessions.len()
        invariant
            k <= sessions.len(),
            session_days@.len() == k,
            forall|j: int| 0 <= j < k ==> day_of_ok(sessions@[j].started_at, #[trigger] session_days@[j]),
        decreases sessions.len() - k,
    {
        // A start outside the range a local date can be computed for falls
        // on no day.
        let day = local_day_by(sessions[k].started_at, local_day);
        session_days.push(day);
        k = k + 1;
    }
    proof {
        assert(from == days_before(to, days as int + 1));
    }
    let today_of_clock = local_day_by(to, local_day);
    let today = match today_of_clock {
        Some(d) => d,
        None => {
            let r: Vec<(i32, u32)> = Vec::new();
            proof {
                assert(tally_ok(
                    r@,
                    sessions@,
                    session_days@,
                    days_before(to, days as int + 1),
                    to,
                    -95746130i32 as int,
                    -95746129,
                    days as nat,
                    tag_view(tag),
                ));
                assert(total(counts_of(r@)) == 0) by {
                    reveal_with_fuel(total, 1);
                }
            }
            return r;
        },
    };
    let r = tally_days(sessions, &session_days, from, to, today, earliest_day(), days, tag);
    proof {
        assert(tally_ok(
            r@,
            sessions@,
            session_days@,
            days_before(to, days as int + 1),
            to,
            today as int,
            -95746129,
            days as nat,
            tag_view(tag),
        ));
        law_tally_days_are_consecutive(r@, today as int);
        assert forall|i: int, j: int| 0 <= i < j < r@.len() implies r@[i].0 != r@[j].0 by {
            assert(r@[i].0 == today - (r@.len() - 1 - i));
            assert(r@[j].0 == today - (r@.len() - 1 - j));
        }
        law_tally_never_exceeds_sessions(sessions@, session_days@, from, to, tag_view(tag), r@);
    }
    r
}

/// Count completed work sessions per day for the last `days` days.
pub fn daily_counts(sessions: &Vec<Session>, days: u32) -> (r: Vec<(i32, u32)>)
    requires
        sessions@.len() <= u32::MAX,
    ensures
        r@.len() <= days,
        forall|j: int| 0 <= j < r@.len() - 1 ==> #[trigger] r@[j + 1].0 == r@[j].0 + 1,
        total(counts_of(r@)) <= sessions@.len(),
        daily_counts_ok(r@, sessions@, days as nat, None),
{
    daily_counts_tagged(sessions, days, None)
}

/// Aggregate stats over the last 365 days, optionally restricted to
/// sessions carrying `tag`.
pub fn stats_tagged(sessions: &Vec<Session>, tag: Option<&str>) -> (s: Stats)
    requires
        sessions@.len() <= u32::MAX,
    ensures
        s.current_streak <= s.best_streak,
        s.best_streak <= s.active_days,
        s.active_days <= 365,
        s.active_days <= s.year,
        s.today <= s.week,
        s.week <= s.year,
        s.year <= sessions@.len(),
        exists|daily: Seq<(i32, u32)>|
            #[trigger] daily_counts_ok(daily, sessions@, 365, tag_view(tag)) && s.today == stats_of(daily).0
                && s.week == stats_of(daily).1 && s.year == stats_of(daily).2 && s.active_days
                == stats_of(daily).3 && s.best_streak == stats_of(daily).4 && s.current_streak
                == stats_of(daily).5,
{
    let daily = daily_counts_tagged(sessions, 365, tag);
    let st = stats_from_daily(&daily);
    proof {
        law_streaks_are_bounded(daily@);
    }
    st
}

/// How many times `t` occurs in `tags`.
pub open spec fn occurrences(tags: Seq<Seq<char>>, t: Seq<char>) -> nat
    decreases tags.len(),
{
    if tags.len() == 0 {
        0
    } else {
        occurrences(tags.drop_last(), t) + if tags.last() == t {
            1nat
        } else {
            0nat
        }
    }
}

/// Uses of tag `t` among the first `n` sessions that are tallied in
/// `[from, to]`: a session counts once for each time it carries `t`.
pub open spec fn tag_total(ss: Seq<Session>, from: Timestamp, to: Timestamp, t: Seq<char>, n: nat) -> nat
    decreases n,
{
    if n == 0 {
        0
    } else {
        tag_total(ss, from, to, t, (n - 1) as nat) + if tallied(ss[n - 1], from, to, None) {
            occurrences(views(ss[n - 1].tags@), t)
        } else {
            0nat
        }
    }
}

/// Number of tags carried by the first `n` sessions.
pub open spec fn tag_slots(ss: Seq<Session>, n: nat) -> nat
    decreases n,
{
    if n == 0 {
        0
    } else {
        tag_slots(ss, (n - 1) as nat) + ss[n - 1].tags@.len()
    }
}

/// Ranking of tag totals: more uses first, alphabetical within a tie.
pub open spec fn ranks_before(a: (Seq<char>, nat), b: (Seq<char>, nat)) -> bool {
    a.1 > b.1 || (a.1 == b.1 && seq_lt(a.0, b.0))
}

/// The view of a (tag, count) pair.
pub open spec fn pair_view(p: (String, u32)) -> (Seq<char>, nat) {
    (p.0@, p.1 as nat)
}

proof fn lemma_occurrences_bounded(tags: Seq<Seq<char>>, t: Seq<char>)
    ensures
        occurrences(tags, t) <= tags.len(),
    decreases tags.len(),
{
    if tags.len() > 0 {
        lemma_occurrences_bounded(tags.drop_last(), t);
    }
}

proof fn lemma_tag_total_bounded(ss: Seq<Session>, from: Timestamp, to: Timestamp, t: Seq<char>, n: nat)
    requires
        n <= ss.len(),
    ensures
        tag_total(ss, from, to, t, n) <= tag_slots(ss, n),
    decreases n,
{
    if n > 0 {
        lemma_tag_total_bounded(ss, from, to, t, (n - 1) as nat);
        lemma_occurrences_bounded(views(ss[n - 1].tags@), t);
    }
}

proof fn lemma_tag_slots_mono(ss: Seq<Session>, m: nat, n: nat)
    requires
        m <= n <= ss.len(),
    ensures
        tag_slots(ss, m) <= tag_slots(ss, n),
    decreases n,
{
    if m < n {
        lemma_tag_slots_mono(ss, m, (n - 1) as nat);
    }
}

fn find_string(names: &Vec<String>, t: &String) -> (r: Option<usize>)
    ensures
        r matches Some(i) ==> i < names@.len() && names@[i as int]@ == t@,
        r is None ==> forall|i: int| 0 <= i < names@.len() ==> names@[i]@ != t@,
{
    let mut i: usize = 0;
    while i < names.len()
        invariant
            i <= names.len(),
            forall|j: int| 0 <= j < i ==> names@[j]@ != t@,
        decreases names.len() - i,
    {
        if crate::text::str_eq(names[i].as_str(), t.as_str()) {
            return Some(i);
        }
        i = i + 1;
    }
    None
}

/// Whether pair `a` ranks before pair `b`.
fn ranks_first(a: &(String, u32), b: &(String, u32)) -> (r: bool)
    ensures
        r == ranks_before(pair_view(*a), pair_view(*b)),
{
    if a.1 != b.1 {
        a.1 > b.1
    } else {
        let x = crate::text::chars_of(a.0.as_str());
        let y = crate::text::chars_of(b.0.as_str());
        chars_lt(&x, &y)
    }
}

proof fn lemma_ranks_total(a: (Seq<char>, nat), b: (Seq<char>, nat))
    requires
        a.0 != b.0,
    ensures
        ranks_before(a, b) || ranks_before(b, a),
        !(ranks_before(a, b) && ranks_before(b, a)),
{
    lemma_seq_lt_total(a.0, b.0);
}

proof fn lemma_ranks_transitive(a: (Seq<char>, nat), b: (Seq<char>, nat), c: (Seq<char>, nat))
    requires
        ranks_before(a, b),
        ranks_before(b, c),
    ensures
        ranks_before(a, c),
{
    if a.1 == b.1 && b.1 == c.1 {
        lemma_seq_lt_transitive(a.0, b.0, c.0);
    }
}

/// Pairs sorted strictly by rank.
pub open spec fn ranked(v: Seq<(String, u32)>) -> bool {
    forall|i: int, j: int| 0 <= i < j < v.len() ==> ranks_before(pair_view(v[i]), pair_view(v[j]))
}

/// Every pair of `a` has a pair of `b` with the same tag and count.
pub open spec fn covered_by(a: Seq<(String, u32)>, b: Seq<(String, u32)>) -> bool {
    forall|i: int| 0 <= i < a.len() ==> exists|j: int| 0 <= j < b.len() && pair_view(#[trigger] a[i]) == pair_view(b[j])
}

/// Insert `x` into ranked pairs at its place; returns the place.
fn insert_ranked(out: &mut Vec<(String, u32)>, x: (String, u32)) -> (p: usize)
    requires
        ranked(old(out)@),
        forall|q: int| 0 <= q < old(out)@.len() ==> (#[trigger] old(out)@[q]).0@ != x.0@,
    ensures
        p <= old(out)@.len(),
        final(out)@ == old(out)@.insert(p as int, x),
        ranked(final(out)@),
{
    let mut p: usize = 0;
    while p < out.len() && !ranks_first(&x, &out[p])
        invariant
            p <= out@.len(),
            forall|q: int| 0 <= q < p ==> !ranks_before(pair_view(x), pair_view(#[trigger] out@[q])),
        decreases out@.len() - p,
    {
        p = p + 1;
    }
    let ghost old_out = out@;
    proof {
        assert forall|q: int| 0 <= q < p implies ranks_before(pair_view(#[trigger] old_out[q]), pair_view(x)) by {
            lemma_ranks_total(pair_view(old_out[q]), pair_view(x));
        }
    }
    out.insert(p, x);
    proof {
        let n = out@;
        assert forall|i: int, j: int| 0 <= i < j < n.len() implies ranks_before(pair_view(n[i]), pair_view(n[j])) by {
            if j < p {
                assert(n[i] == old_out[i] && n[j] == old_out[j]);
            } else if j == p {
                assert(n[i] == old_out[i]);
            } else if i == p {
                assert(n[j] == old_out[j - 1]);
                assert(ranks_before(pair_view(x), pair_view(old_out[p as int])));
                if j - 1 > p {
                    lemma_ranks_transitive(pair_view(x), pair_view(old_out[p as int]), pair_view(old_out[j - 1]));
                }
            } else if i < p {
                assert(n[i] == old_out[i] && n[j] == old_out[j - 1]);
            } else {
                assert(n[i] == old_out[i - 1] && n[j] == old_out[j - 1]);
            }
        }
    }
    p
}

/// Sort pairs with distinct tags, most used first, alphabetical within a tie.
#[verifier::rlimit(40)]
fn rank_pairs(pairs: Vec<(String, u32)>) -> (out: Vec<(String, u32)>)
    requires
        forall|i: int, j: int| 0 <= i < j < pairs@.len() ==> pairs@[i].0@ != pairs@[j].0@,
    ensures
        covered_by(out@, pairs@),
        covered_by(pairs@, out@),
        ranked(out@),
{
    let mut out: Vec<(String, u32)> = Vec::new();
    let mut rest = pairs;
    let ghost orig = rest@;
    while rest.len() > 0
        invariant
            rest@ == orig.take(rest@.len() as int),
            rest@.len() <= orig.len(),
            forall|i: int, j: int| 0 <= i < j < orig.len() ==> orig[i].0@ != orig[j].0@,
            covered_by(out@, orig.skip(rest@.len() as int)),
            covered_by(orig.skip(rest@.len() as int), out@),
            ranked(out@),
        decreases rest@.len(),
    {
        let ghost k = rest@.len() as int - 1;
        let x = rest.pop().unwrap();
        let ghost old_out = out@;
        let ghost tail = orig.skip(k + 1);
        let ghost tail2 = orig.skip(k);
        proof {
            assert(x == orig[k]);
            assert(rest@ =~= orig.take(k));
            assert forall|q: int| 0 <= q < old_out.len() implies (#[trigger] old_out[q]).0@ != x.0@ by {
                let j = choose|j: int| 0 <= j < tail.len() && pair_view(old_out[q]) == pair_view(tail[j]);
                assert(tail[j] == orig[k + 1 + j]);
            }
        }
        let p = insert_ranked(&mut out, x);
        proof {
            let n = out@;
            assert(tail2[0] == orig[k]);
            assert forall|i: int| 0 <= i < n.len() implies exists|j: int| 0 <= j < tail2.len() && pair_view(#[trigger] n[i]) == pair_view(tail2[j]) by {
                if i < p {
                    assert(n[i] == old_out[i]);
                    let j = choose|j: int| 0 <= j < tail.len() && pair_view(old_out[i]) == pair_view(tail[j]);
                    assert(tail[j] == tail2[j + 1]);
                } else if i == p {
                    assert(pair_view(n[i]) == pair_view(tail2[0]));
                } else {
                    assert(n[i] == old_out[i - 1]);
                    let j = choose|j: int| 0 <= j < tail.len() && pair_view(old_out[i - 1]) == pair_view(tail[j]);
                    assert(tail[j] == tail2[j + 1]);
                }
            }
            assert forall|j: int| 0 <= j < tail2.len() implies exists|i: int| 0 <= i < n.len() && pair_view(#[trigger] tail2[j]) == pair_view(n[i]) by {
                if j == 0 {
                    assert(pair_view(n[p as int]) == pair_view(tail2[0]));
                } else {
                    assert(tail2[j] == tail[j - 1]);
                    let i = choose|i: int| 0 <= i < old_out.len() && pair_view(tail[j - 1]) == pair_view(old_out[i]);
                    if i < p {
                        assert(n[i] == old_out[i]);
                    } else {
                        assert(n[i + 1] == old_out[i]);
                    }
                }
            }
        }
    }
    proof {
        assert(orig.skip(0) =~= orig);
    }
    out
}

/// `r` lists each tag used by the completed work sessions started in
/// `[from, to]` with its count, once, most used first and alphabetical
/// within a tie.
pub open spec fn tag_totals_ok(r: Seq<(String, u32)>, ss: Seq<Session>, from: Timestamp, to: Timestamp) -> bool {
    &&& forall|i: int| 0 <= i < r.len() ==> (#[trigger] r[i]).1 > 0 && r[i].1 == tag_total(ss, from, to, r[i].0@, ss.len())
    &&& forall|t: Seq<char>| tag_total(ss, from, to, t, ss.len()) > 0 ==> exists|i: int| 0 <= i < r.len() && (#[trigger] r[i]).0@ == t
    &&& forall|i: int, j: int| 0 <= i < j < r.len() ==> ranks_before(pair_view(r[i]), pair_view(r[j]))
}

/// Completed work pomodoros per tag among the sessions started in
/// `[from, to]`, most used first, alphabetical within a tie. Sessions
/// without tags are not counted; a tag used nowhere does not appear.
pub fn tag_totals_between(sessions: &Vec<Session>, from: Timestamp, to: Timestamp) -> (r: Vec<(String, u32)>)
    requires
        tag_slots(sessions@, sessions@.len()) <= u32::MAX,
    ensures
        forall|i: int| 0 <= i < r@.len() ==> (#[trigger] r@[i]).1 > 0 && r@[i].1 == tag_total(sessions@, from, to, r@[i].0@, sessions@.len()),
        forall|t: Seq<char>| tag_total(sessions@, from, to, t, sessions@.len()) > 0 ==> exists|i: int| 0 <= i < r@.len() && (#[trigger] r@[i]).0@ == t,
        forall|i: int, j: int| 0 <= i < j < r@.len() ==> ranks_before(pair_view(r@[i]), pair_view(r@[j])),
{
    let ghost ss = sessions@;
    let mut names: Vec<String> = Vec::new();
    let mut counts: Vec<u32> = Vec::new();
    let mut k: usize = 0;
    while k < sessions.len()
        invariant
            ss == sessions@,
            k <= sessions.len(),
            tag_slots(ss, ss.len()) <= u32::MAX,
            names@.len() == counts@.len(),
            forall|i: int, j: int| 0 <= i < j < names@.len() ==> names@[i]@ != names@[j]@,
            forall|i: int| 0 <= i < names@.len() ==> counts@[i] > 0 && #[trigger] counts@[i] == tag_total(ss, from, to, names@[i]@, k as nat),
            forall|t: Seq<char>| tag_total(ss, from, to, t, k as nat) > 0 ==> exists|i: int| 0 <= i < names@.len() && #[trigger] names@[i]@ == t,
        decreases sessions.len() - k,
    {
        let s = &sessions[k];
        let take = is_tallied(s, from, to, None);
        let ghost tv = views(s.tags@);
        let mut j: usize = 0;
        proof {
            lemma_tag_slots_mono(ss, k as nat + 1, ss.len());
        }
        while take && j < s.tags.len()
            invariant
                ss == sessions@,
                s == ss[k as int],
                tv == views(s.tags@),
                k < ss.len(),
                take == tallied(ss[k as int], from, to, None),
                j <= s.tags@.len(),
                tag_slots(ss, k as nat + 1) <= u32::MAX,
                names@.len() == counts@.len(),
                forall|a: int, b: int| 0 <= a < b < names@.len() ==> names@[a]@ != names@[b]@,
                forall|i: int| 0 <= i < names@.len() ==> counts@[i] > 0 && #[trigger] counts@[i] == tag_total(ss, from, to, names@[i]@, k as nat) + if take { occurrences(tv.take(j as int), names@[i]@) } else { 0 },
                forall|t: Seq<char>| tag_total(ss, from, to, t, k as nat) + (if take { occurrences(tv.take(j as int), t) } else { 0 }) > 0 ==> exists|i: int| 0 <= i < names@.len() && #[trigger] names@[i]@ == t,
            decreases s.tags@.len() - j,
        {
            let t = &s.tags[j];
            proof {
                assert(tv.take(j as int + 1).drop_last() =~= tv.take(j as int));
                assert(tv.take(j as int + 1).last() == t@);
            }
            let ghost old_names = names@;
            let ghost old_counts = counts@;
            let ghost mut w: int = 0;
            match find_string(&names, t) {
                Some(i) => {
                    proof {
                        w = i as int;
                    }
                    proof {
                        lemma_tag_total_bounded(ss, from, to, t@, k as nat);
                        lemma_occurrences_bounded(tv.take(j as int), t@);
                        assert(tag_slots(ss, k as nat + 1) == tag_slots(ss, k as nat) + s.tags@.len());
                    }
                    let c = counts[i] + 1;
                    counts.set(i, c);
                },
                None => {
                    proof {
                        assert(tag_total(ss, from, to, t@, k as nat) == 0);
                        assert(occurrences(tv.take(j as int), t@) == 0);
                    }
                    names.push(t.clone());
                    counts.push(1);
                    proof {
                        w = names@.len() - 1;
                        assert forall|a: int, b: int| 0 <= a < b < names@.len() implies names@[a]@ != names@[b]@ by {
                            if b == names@.len() - 1 {
                                assert(names@[a] == old_names[a]);
                            }
                        }
                    }
                },
            }
            proof {
                let tt = tv.take(j as int + 1);
                assert(tt.drop_last() =~= tv.take(j as int));
                assert forall|u: Seq<char>| tag_total(ss, from, to, u, k as nat) + (if take { occurrences(tt, u) } else { 0 }) > 0 implies exists|i: int| 0 <= i < names@.len() && #[trigger] names@[i]@ == u by {
                    if u == t@ {
                        assert(0 <= w < names@.len() && names@[w]@ == t@);
                    } else {
                        assert(occurrences(tt, u) == occurrences(tv.take(j as int), u));
                        let i = choose|i: int| 0 <= i < old_names.len() && old_names[i]@ == u;
                        assert(names@[i] == old_names[i]);
                    }
                }
            }
            j = j + 1;
        }
        proof {
            if take {
                assert(tv.take(j as int) =~= tv);
            }
            let k1: nat = k as nat + 1;
            assert forall|i: int| 0 <= i < names@.len() implies counts@[i] > 0 && #[trigger] counts@[i] == tag_total(ss, from, to, names@[i]@, k1) by {
            }
            assert forall|u: Seq<char>| tag_total(ss, from, to, u, k1) > 0 implies exists|i: int| 0 <= i < names@.len() && #[trigger] names@[i]@ == u by {
                assert(tag_total(ss, from, to, u, k1) == tag_total(ss, from, to, u, k as nat) + (if take { occurrences(tv.take(j as int), u) } else { 0 }));
            }
        }
        k = k + 1;
    }
    // Pair each tag with its count, then rank them.
    let mut pairs: Vec<(String, u32)> = Vec::new();
    let mut i: usize = 0;
    while i < names.len()
        invariant
            i <= names@.len(),
            names@.len() == counts@.len(),
            pairs@.len() == i,
            forall|a: int| 0 <= a < i ==> #[trigger] pairs@[a].0@ == names@[a]@ && pairs@[a].1 == counts@[a],
        decreases names@.len() - i,
    {
        pairs.push((names[i].clone(), counts[i]));
        i = i + 1;
    }
    let r = rank_pairs(pairs);
    proof {
        assert forall|a: int| 0 <= a < r@.len() implies (#[trigger] r@[a]).1 > 0 && r@[a].1 == tag_total(ss, from, to, r@[a].0@, ss.len()) by {
            assert(covered_by(r@, pairs@));
            let j = choose|j: int| 0 <= j < pairs@.len() && pair_view(r@[a]) == pair_view(pairs@[j]);
            assert(pairs@[j].0@ == names@[j]@);
        }
        assert forall|t: Seq<char>| tag_total(ss, from, to, t, ss.len()) > 0 implies exists|a: int| 0 <= a < r@.len() && (#[trigger] r@[a]).0@ == t by {
            let j = choose|j: int| 0 <= j < names@.len() && names@[j]@ == t;
            assert(pairs@[j].0@ == t);
            assert(covered_by(pairs@, r@));
            let a = choose|a: int| 0 <= a < r@.len() && pair_view(pairs@[j]) == pair_view(r@[a]);
            assert(r@[a].0@ == t);
        }
    }
    r
}

/// Completed work pomodoros per tag over the last 365 days, most used first.
pub fn tag_totals(sessions: &Vec<Session>) -> (r: Vec<(String, u32)>)
    requires
        tag_slots(sessions@, sessions@.len()) <= u32::MAX,
    ensures
        forall|i: int| 0 <= i < r@.len() ==> (#[trigger] r@[i]).1 > 0,
        forall|i: int, j: int| 0 <= i < j < r@.len() ==> ranks_before(pair_view(r@[i]), pair_view(r@[j])),
        exists|to: Timestamp| #[trigger] tag_totals_ok(r@, sessions@, days_before(to, 365), to),
{
    let to = now();
    let reach: i64 = 365 * 86400;
    let from = Timestamp {
        secs: if to.secs >= i64::MIN + reach {
            to.secs - reach
        } else {
            i64::MIN
        },
        nanos: to.nanos,
    };
    let r = tag_totals_between(sessions, from, to);
    proof {
        assert(from == days_before(to, 365));
        assert(tag_totals_ok(r@, sessions@, days_before(to, 365), to));
    }
    r
}

/// Whether a session started within `[from, to]`.
pub fn started_within(s: &Session, from: Timestamp, to: Timestamp) -> (b: bool)
    ensures
        b == (not_after(from, s.started_at) && not_after(s.started_at, to)),
{
    from.le(&s.started_at) && s.started_at.le(&to)
}

/// The identifiers of a list of sessions.
pub open spec fn ids(ss: Seq<Session>) -> Seq<Seq<char>> {
    ss.map_values(|s: Session| s.id@)
}

/// Which legacy sessions still have to be copied into the JSON Lines
/// history: the positions, in order, of those whose identifier is not in
/// the history yet. An interrupted migration can be replayed this way
/// without duplicating records.
pub fn legacy_to_migrate(legacy: &Vec<Session>, existing: &Vec<Session>) -> (r: Vec<usize>)
    ensures
        r@ == Seq::new(legacy@.len(), |i: int| i as usize).filter(
            |i: usize| !ids(existing@).contains(legacy@[i as int].id@),
        ),
        forall|k: int| 0 <= k < r@.len() ==> #[trigger] r@[k] < legacy@.len() && !ids(existing@).contains(legacy@[r@[k] as int].id@),
{
    let ghost all = Seq::new(legacy@.len(), |i: int| i as usize);
    let ghost keep = |i: usize| !ids(existing@).contains(legacy@[i as int].id@);
    let mut r: Vec<usize> = Vec::new();
    let mut i: usize = 0;
    while i < legacy.len()
        invariant
            i <= legacy@.len(),
            all == Seq::new(legacy@.len(), |i: int| i as usize),
            keep == (|i: usize| !ids(existing@).contains(legacy@[i as int].id@)),
            r@ == all.take(i as int).filter(keep),
            forall|k: int| 0 <= k < r@.len() ==> #[trigger] r@[k] < i && !ids(existing@).contains(legacy@[r@[k] as int].id@),
        decreases legacy@.len() - i,
    {
        let mut found = false;
        let mut j: usize = 0;
        while j < existing.len()
            invariant
                j <= existing@.len(),
                i < legacy@.len(),
                found <==> exists|k: int| 0 <= k < j && existing@[k].id@ == legacy@[i as int].id@,
            decreases existing@.len() - j,
        {
            if crate::text::str_eq(existing[j].id.as_str(), legacy[i].id.as_str()) {
                found = true;
            }
            j = j + 1;
        }
        proof {
            let e = ids(existing@);
            if found {
                let k = choose|k: int| 0 <= k < j && existing@[k].id@ == legacy@[i as int].id@;
                assert(e[k] == legacy@[i as int].id@);
            } else {
                if e.contains(legacy@[i as int].id@) {
                    let k = choose|k: int| 0 <= k < e.len() && e[k] == legacy@[i as int].id@;
                    assert(existing@[k].id@ == legacy@[i as int].id@);
                }
            }
            let t = all.take(i as int + 1);
            assert(t.drop_last() =~= all.take(i as int));
            assert(t.last() == i);
            reveal_with_fuel(Seq::<usize>::filter, 1);
        }
        if !found {
            r.push(i);
        }
        i = i + 1;
    }
    proof {
        assert(all.take(legacy@.len() as int) =~= all);
    }
    r
}

/// Replaying a migration after it completed migrates nothing: once every
/// legacy record's identifier is in the history, no position is left.
pub proof fn law_migration_replay_adds_nothing(legacy: Seq<Session>, existing: Seq<Session>)
    requires
        legacy.len() <= usize::MAX,
        forall|i: int| 0 <= i < legacy.len() ==> ids(existing).contains(#[trigger] legacy[i].id@),
    ensures
        Seq::new(legacy.len(), |i: int| i as usize).filter(
            |i: usize| !ids(existing).contains(legacy[i as int].id@),
        ).len() == 0,
{
    let all = Seq::new(legacy.len(), |i: int| i as usize);
    let keep = |i: usize| !ids(existing).contains(legacy[i as int].id@);
    assert forall|k: int| 0 <= k < all.len() implies !keep(all[k]) by {
        assert(all[k] as int == k);
    }
    lemma_filter_none(all, keep);
}

proof fn lemma_filter_none(s: Seq<usize>, f: spec_fn(usize) -> bool)
    requires
        forall|k: int| 0 <= k < s.len() ==> !f(s[k]),
    ensures
        s.filter(f).len() == 0,
    decreases s.len(),
{
    reveal_with_fuel(Seq::<usize>::filter, 1);
    if s.len() > 0 {
        lemma_filter_none(s.drop_last(), f);
    }
}

/// Counting a prefix of the sessions does not look past it, so sessions
/// appended later leave the count of the prefix alone.
proof fn lemma_count_on_prefix(
    ss: Seq<Session>,
    days: Seq<Option<i32>>,
    s: Session,
    sd: Option<i32>,
    from: Timestamp,
    to: Timestamp,
    tag: Option<Seq<char>>,
    d: int,
    n: nat,
)
    requires
        n <= ss.len(),
        days.len() == ss.len(),
    ensures
        count_on(ss.push(s), days.push(sd), from, to, tag, d, n) == count_on(ss, days, from, to, tag, d, n),
    decreases n,
{
    if n > 0 {
        lemma_count_on_prefix(ss, days, s, sd, from, to, tag, d, (n - 1) as nat);
        assert(ss.push(s)[n - 1] == ss[n - 1]);
        assert(days.push(sd)[n - 1] == days[n - 1]);
    }
}

/// Tag totals of a prefix of the sessions do not look past it.
proof fn lemma_tag_total_prefix(ss: Seq<Session>, s: Session, from: Timestamp, to: Timestamp, t: Seq<char>, n: nat)
    requires
        n <= ss.len(),
    ensures
        tag_total(ss.push(s), from, to, t, n) == tag_total(ss, from, to, t, n),
    decreases n,
{
    if n > 0 {
        lemma_tag_total_prefix(ss, s, from, to, t, (n - 1) as nat);
        assert(ss.push(s)[n - 1] == ss[n - 1]);
    }
}

/// Only completed work blocks count: recording a skipped, abandoned or
/// break session adds nothing to any day's count nor to any tag's total.
pub proof fn law_unfinished_sessions_never_count(
    ss: Seq<Session>,
    days: Seq<Option<i32>>,
    s: Session,
    sd: Option<i32>,
    from: Timestamp,
    to: Timestamp,
    tag: Option<Seq<char>>,
    d: int,
    t: Seq<char>,
)
    requires
        days.len() == ss.len(),
        !s.counts(),
    ensures
        count_on(ss.push(s), days.push(sd), from, to, tag, d, ss.len() + 1) == count_on(
            ss,
            days,
            from,
            to,
            tag,
            d,
            ss.len(),
        ),
        tag_total(ss.push(s), from, to, t, ss.len() + 1) == tag_total(ss, from, to, t, ss.len()),
{
    lemma_count_on_prefix(ss, days, s, sd, from, to, tag, d, ss.len());
    lemma_tag_total_prefix(ss, s, from, to, t, ss.len());
    assert(ss.push(s)[ss.len() as int] == s);
}

/// A session counts toward every tag it carries: recording a completed work
/// session adds, to each tag's total, the number of times it carries that
/// tag (once, for the normalized tags a run records).
pub proof fn law_sessions_count_for_each_tag(ss: Seq<Session>, s: Session, from: Timestamp, to: Timestamp, t: Seq<char>)
    requires
        tallied(s, from, to, None),
    ensures
        tag_total(ss.push(s), from, to, t, ss.len() + 1) == tag_total(ss, from, to, t, ss.len())
            + occurrences(views(s.tags@), t),
        views(s.tags@).contains(t) ==> tag_total(ss.push(s), from, to, t, ss.len() + 1) > tag_total(
            ss,
            from,
            to,
            t,
            ss.len(),
        ),
{
    lemma_tag_total_prefix(ss, s, from, to, t, ss.len());
    assert(ss.push(s)[ss.len() as int] == s);
    if views(s.tags@).contains(t) {
        lemma_occurrences_positive(views(s.tags@), t);
    }
}

/// A tag that occurs in a list occurs in it at least once.
proof fn lemma_occurrences_positive(tags: Seq<Seq<char>>, t: Seq<char>)
    requires
        tags.contains(t),
    ensures
        occurrences(tags, t) > 0,
    decreases tags.len(),
{
    if tags.last() != t {
        let i = choose|i: int| 0 <= i < tags.len() && tags[i] == t;
        assert(tags.drop_last()[i] == t);
        lemma_occurrences_positive(tags.drop_last(), t);
    }
}

/// Tag searches ignore case: two spellings of a tag with the same
/// lowercase form (by Unicode rules) find the same sessions.
pub proof fn law_tag_search_ignores_case(s: Session, t1: Seq<char>, t2: Seq<char>)
    requires
        unicode_lowercase(t1) == unicode_lowercase(t2),
    ensures
        s.has_tag_spec(t1) == s.has_tag_spec(t2),
{
}

/// Whether no pomodoro has been completed in the given days (for today's
/// count alone: whether today's first work session is still ahead).
pub fn no_pomodoros_yet(daily_counts: &Vec<(i32, u32)>) -> (b: bool)
    ensures
        b == forall|k: int| 0 <= k < daily_counts@.len() ==> (#[trigger] daily_counts@[k]).1 == 0,
{
    let mut i: usize = 0;
    while i < daily_counts.len()
        invariant
            i <= daily_counts@.len(),
            forall|k: int| 0 <= k < i ==> (#[trigger] daily_counts@[k]).1 == 0,
        decreases daily_counts@.len() - i,
    {
        if daily_counts[i].1 != 0 {
            return false;
        }
        i = i + 1;
    }
    true
}

/// Days are local calendar days: for a table `daily_counts_tagged` may
/// give, there is a clock reading `to` such that the last bucket is the
/// local day `local_day` answers for `to`, the buckets run back one day at a
/// time, and each bucket counts exactly the completed work sessions (with the
/// tag, if any) started within the window whose own start `local_day`
/// places on that bucket's day.
pub proof fn law_days_are_local_days(r: Seq<(i32, u32)>, sessions: Seq<Session>, days: nat, tag: Option<Seq<char>>)
    requires
        daily_counts_ok(r, sessions, days, tag),
    ensures
        exists|to: Timestamp, session_days: Seq<Option<i32>>|
            {
                &&& 0 <= to.secs
                &&& session_days.len() == sessions.len()
                &&& forall|k: int|
                    0 <= k < sessions.len() && in_local_range(sessions[k].started_at) ==> call_ensures(
                        local_day,
                        (sessions[k].started_at,),
                        #[trigger] session_days[k],
                    )
                &&& (in_local_range(to) && r.len() > 0) ==> call_ensures(
                    local_day,
                    (to,),
                    Some(r.last().0),
                )
                &&& forall|j: int|
                    0 <= j < r.len() - 1 ==> (#[trigger] r[j + 1]).0 == r[j].0 + 1
                &&& forall|j: int|
                    0 <= j < r.len() ==> (#[trigger] r[j]).1 == count_on(
                        sessions,
                        session_days,
                        days_before(to, days as int + 1),
                        to,
                        tag,
                        r[j].0 as int,
                        sessions.len(),
                    )
            },
{
    let (to, today, sd) = choose|to: Timestamp, today: i32, session_days: Seq<Option<i32>>|
        {
            &&& clock_reading_ok(to)
            &&& today_ok(to, today as int)
            &&& session_days.len() == sessions.len()
            &&& (in_local_range(to) && days <= 96465292 ==> r.len() == days)
            &&& forall|k: int|
                0 <= k < sessions.len() ==> day_of_ok(sessions[k].started_at, #[trigger] session_days[k])
            &&& #[trigger] tally_ok(
                r,
                sessions,
                session_days,
                days_before(to, days as int + 1),
                to,
                today as int,
                -95746129,
                days,
                tag,
            )
        };
    if in_local_range(to) && r.len() > 0 {
        assert(r[r.len() - 1].0 == today);
    }
    assert forall|j: int| 0 <= j < r.len() - 1 implies (#[trigger] r[j + 1]).0 == r[j].0 + 1 by {
        assert(r[j].0 == today - (r.len() - 1 - j));
        assert(r[j + 1].0 == today - (r.len() - 1 - (j + 1)));
    }
    assert forall|k: int|
        0 <= k < sessions.len() && in_local_range(sessions[k].started_at) implies call_ensures(
        local_day,
        (sessions[k].started_at,),
        #[trigger] sd[k],
    ) by {
        assert(day_of_ok(sessions[k].started_at, sd[k]));
    }
}

} // verus!
