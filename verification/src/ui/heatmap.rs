//! The GitHub-style contribution grid of completed pomodoros.

use vstd::prelude::*;

use crate::storage::{active, counts_of, total};
use crate::clock::{month0, month0_of};
use crate::theme::Rgb;
use crate::text::{chars_of, string_of};

verus! {

/// One day of the grid: its day number and count, or nothing.
pub type Cell = Option<(i32, u32)>;

/// Weekday of a day counted as chrono's `num_days_from_ce`, Monday = 0.
/// Day 1 (January 1 of year 1, proleptic Gregorian) was a Monday.
pub open spec fn weekday0(day: int) -> int {
    (day - 1) % 7
}

/// The Monday of the week holding the first day.
pub open spec fn anchor(daily: Seq<(i32, u32)>) -> int {
    daily[0].0 - weekday0(daily[0].0 as int)
}

/// The week column a day falls in: whole weeks after the anchor, counted
/// toward zero, so a day of the week before the anchor still falls in
/// column 0.
pub open spec fn column(daily: Seq<(i32, u32)>, day: int) -> int {
    if day >= anchor(daily) {
        (day - anchor(daily)) / 7
    } else {
        0
    }
}

/// Number of week columns needed for the first `n` days.
pub open spec fn columns_needed(daily: Seq<(i32, u32)>, n: nat) -> nat
    decreases n,
{
    if n == 0 {
        0
    } else {
        let before = columns_needed(daily, (n - 1) as nat);
        let here = column(daily, daily[n - 1].0 as int) + 1;
        if here > before {
            here as nat
        } else {
            before
        }
    }
}

/// What the grid shows at week `w`, weekday `r` after the first `n` days:
/// the last of them that falls there.
pub open spec fn cell_at(daily: Seq<(i32, u32)>, w: int, r: int, n: nat) -> Cell
    decreases n,
{
    if n == 0 {
        None
    } else if column(daily, daily[n - 1].0 as int) == w && weekday0(daily[n - 1].0 as int) == r {
        Some(daily[n - 1])
    } else {
        cell_at(daily, w, r, (n - 1) as nat)
    }
}

/// Weekday of a day, Monday = 0 (see `weekday0`).
pub fn weekday_from_monday(day: i32) -> (w: u32)
    ensures
        w == weekday0(day as int),
        w < 7,
{
    let x: i64 = (day as i64) - 1 + 2_800_000_000;
    let r = x % 7;
    proof {
        let y = (day as int) - 1;
        assert(x == y + 7 * 400_000_000);
        assert((y + 7 * 400_000_000) % 7 == y % 7) by (nonlinear_arith);
    }
    r as u32
}

/// Arrange daily counts (oldest first) into week columns, each a
/// Monday-to-Sunday week anchored on the week of the first date, every date
/// in the row of its own weekday. A date up to six days before that week's
/// Monday still lands in the first column; one earlier has no column.
pub fn build_grid(daily_counts: &Vec<(i32, u32)>) -> (grid: Vec<[Cell; 7]>)
    requires
        daily_counts@.len() > 0 ==> forall|k: int| 0 <= k < daily_counts@.len() ==> (#[trigger] daily_counts@[k]).0 >= anchor(daily_counts@) - 6,
        daily_counts@.len() > 0 ==> forall|k: int| 0 <= k < daily_counts@.len() ==> column(daily_counts@, (#[trigger] daily_counts@[k]).0 as int) < usize::MAX,
    ensures
        grid@.len() == columns_needed(daily_counts@, daily_counts@.len()),
        forall|w: int, r: int| 0 <= w < grid@.len() && 0 <= r < 7 ==> #[trigger] grid@[w][r] == cell_at(daily_counts@, w, r, daily_counts@.len()),
{
    let mut grid: Vec<[Cell; 7]> = Vec::new();
    if daily_counts.len() == 0 {
        return grid;
    }
    let first = daily_counts[0].0;
    let anchor_day: i64 = (first as i64) - (weekday_from_monday(first) as i64);
    let ghost d = daily_counts@;
    let mut k: usize = 0;
    while k < daily_counts.len()
        invariant
            d == daily_counts@,
            d.len() > 0,
            k <= d.len(),
            anchor_day == anchor(d),
            forall|j: int| 0 <= j < d.len() ==> (#[trigger] d[j]).0 >= anchor(d) - 6,
            forall|j: int| 0 <= j < d.len() ==> column(d, (#[trigger] d[j]).0 as int) < usize::MAX,
            grid@.len() == columns_needed(d, k as nat),
            forall|w: int, r: int| 0 <= w < grid@.len() && 0 <= r < 7 ==> #[trigger] grid@[w][r] == cell_at(d, w, r, k as nat),
        decreases d.len() - k,
    {
        let (date, count) = daily_counts[k];
        proof {
            assert(d[k as int].0 >= anchor(d) - 6);
            assert(weekday0(d[0].0 as int) < 7);
        }
        let offset: i64 = (date as i64) - anchor_day;
        let col: usize = if offset >= 0 {
            (offset / 7) as usize
        } else {
            0
        };
        let row = weekday_from_monday(date) as usize;
        let ghost before = grid@;
        while grid.len() <= col
            invariant
                grid@.len() >= before.len(),
                grid@.len() > before.len() ==> grid@.len() <= col + 1,
                forall|w: int| 0 <= w < before.len() ==> #[trigger] grid@[w] == before[w],
                forall|w: int, r: int| before.len() <= w < grid@.len() && 0 <= r < 7 ==> #[trigger] grid@[w][r] == None::<(i32, u32)>,
            decreases col + 1 - grid@.len(),
        {
            grid.push([None, None, None, None, None, None, None]);
        }
        let mut week = grid[col];
        week[row] = Some((date, count));
        grid.set(col, week);
        proof {
            let k1 = k as nat + 1;
            assert forall|w: int, r: int| 0 <= w < grid@.len() && 0 <= r < 7 implies #[trigger] grid@[w][r] == cell_at(d, w, r, k1) by {
                if w == col && r == row {
                } else if w < before.len() {
                    assert(grid@[w][r] == before[w][r]);
                } else {
                    assert(cell_at(d, w, r, k as nat) == None::<(i32, u32)>) by {
                        lemma_cell_beyond(d, w, r, k as nat);
                    }
                }
            }
        }
        k = k + 1;
    }
    grid
}

proof fn lemma_cell_beyond(d: Seq<(i32, u32)>, w: int, r: int, n: nat)
    requires
        n <= d.len(),
        w >= columns_needed(d, n),
    ensures
        cell_at(d, w, r, n) == None::<(i32, u32)>,
    decreases n,
{
    if n > 0 {
        lemma_cell_beyond(d, w, r, (n - 1) as nat);
    }
}

/// Color of a heatmap cell for a day's count: dark for none, then ever
/// brighter greens for 1, 2, 3 to 4, and 5 or more.
pub fn intensity_color(count: u32) -> (c: Rgb)
    ensures
        c == if count == 0 {
            Rgb { r: 44, g: 62, b: 80 }
        } else if count == 1 {
            Rgb { r: 72, g: 145, b: 83 }
        } else if count == 2 {
            Rgb { r: 57, g: 172, b: 57 }
        } else if count <= 4 {
            Rgb { r: 39, g: 174, b: 96 }
        } else {
            Rgb { r: 25, g: 210, b: 70 }
        },
{
    if count == 0 {
        Rgb { r: 44, g: 62, b: 80 }
    } else if count == 1 {
        Rgb { r: 72, g: 145, b: 83 }
    } else if count == 2 {
        Rgb { r: 57, g: 172, b: 57 }
    } else if count <= 4 {
        Rgb { r: 39, g: 174, b: 96 }
    } else {
        Rgb { r: 25, g: 210, b: 70 }
    }
}

/// The summary under the grid: total pomodoros and active days.
pub fn summary(daily_counts: &Vec<(i32, u32)>) -> (r: (u32, u32))
    requires
        total(counts_of(daily_counts@)) <= u32::MAX,
        daily_counts@.len() <= u32::MAX,
    ensures
        r.0 == total(counts_of(daily_counts@)),
        r.1 == active(counts_of(daily_counts@)),
{
    let s = crate::storage::stats_from_daily(daily_counts);
    (s.year, s.active_days)
}

/// Three-letter month names, January first.
pub open spec fn month_name(m: int) -> Seq<char> {
    if m == 0 {
        "Jan"@
    } else if m == 1 {
        "Feb"@
    } else if m == 2 {
        "Mar"@
    } else if m == 3 {
        "Apr"@
    } else if m == 4 {
        "May"@
    } else if m == 5 {
        "Jun"@
    } else if m == 6 {
        "Jul"@
    } else if m == 7 {
        "Aug"@
    } else if m == 8 {
        "Sep"@
    } else if m == 9 {
        "Oct"@
    } else if m == 10 {
        "Nov"@
    } else {
        "Dec"@
    }
}

fn month_abbrev(m: u32) -> (s: &'static str)
    requires
        m < 12,
    ensures
        s@ == month_name(m as int),
{
    let names = ["Jan", "Feb", "Mar", "Apr", "May", "Jun", "Jul", "Aug", "Sep", "Oct", "Nov", "Dec"];
    names[m as usize]
}

/// The first day shown in a week column, if any.
pub open spec fn first_cell(week: [Cell; 7]) -> Cell {
    if week[0] is Some {
        week[0]
    } else if week[1] is Some {
        week[1]
    } else if week[2] is Some {
        week[2]
    } else if week[3] is Some {
        week[3]
    } else if week[4] is Some {
        week[4]
    } else if week[5] is Some {
        week[5]
    } else {
        week[6]
    }
}

/// `row` with `name` written from position `pos`, as far as it fits.
pub open spec fn write_at(row: Seq<char>, pos: int, name: Seq<char>) -> Seq<char> {
    Seq::new(row.len(), |i: int| if pos <= i < pos + name.len() { name[i - pos] } else { row[i] })
}

/// The month label row after the first `n` columns: the text, the month
/// (1 to 12, 0 before any) last seen, and the first free position.
pub open spec fn labels_after(grid: Seq<[Cell; 7]>, n: nat) -> (Seq<char>, int, int)
    decreases n,
{
    if n == 0 {
        (Seq::new((grid.len() * 2) as nat, |i: int| ' '), 0, 0)
    } else {
        let (row, prev, free) = labels_after(grid, (n - 1) as nat);
        let col = n - 1;
        match first_cell(grid[col]) {
            None => (row, prev, free),
            Some(cell) => match month0_of(cell.0) {
                None => (row, prev, free),
                Some(m) => if m + 1 == prev {
                    (row, prev, free)
                } else if col * 2 >= free {
                    (write_at(row, col * 2, month_name(m as int)), m + 1, col * 2 + 4)
                } else {
                    (row, m + 1, free)
                },
            },
        }
    }
}

fn first_of_week(week: &[Cell; 7]) -> (c: Cell)
    ensures
        c == first_cell(*week),
{
    let mut i: usize = 0;
    while i < 7
        invariant
            i <= 7,
            forall|k: int| 0 <= k < i ==> week[k] is None,
        decreases 7 - i,
    {
        if week[i].is_some() {
            return week[i];
        }
        i = i + 1;
    }
    None
}

/// The month label row: each week column is two characters wide, and a
/// month's abbreviation starts at the first column belonging to it, unless
/// that would run into the previous label.
pub fn month_label_row(grid: &Vec<[Cell; 7]>) -> (s: String)
    requires
        grid@.len() * 2 + 4 <= usize::MAX,
    ensures
        s@ == labels_after(grid@, grid@.len()).0,
{
    let n = grid.len();
    let mut row: Vec<char> = Vec::new();
    let mut k: usize = 0;
    while k < n * 2
        invariant
            k <= n * 2,
            n == grid@.len(),
            n * 2 + 4 <= usize::MAX,
            row@ == Seq::new(k as nat, |i: int| ' '),
        decreases n * 2 - k,
    {
        row.push(' ');
        k = k + 1;
        proof {
            assert(row@ =~= Seq::new(k as nat, |i: int| ' '));
        }
    }
    let mut prev: u32 = 0;
    let mut next_free: usize = 0;
    let mut col: usize = 0;
    while col < n
        invariant
            col <= n,
            n == grid@.len(),
            n * 2 + 4 <= usize::MAX,
            next_free <= col * 2 + 2,
            (row@, prev as int, next_free as int) == labels_after(grid@, col as nat),
            row@.len() == n * 2,
        decreases n - col,
    {
        let ghost before = row@;
        let first = first_of_week(&grid[col]);
        proof {
            assert(grid@[col as int] == grid[col as int]);
        }
        match first {
            None => {},
            Some(cell) => {
                match month0(cell.0) {
                    None => {},
                    Some(m) => {
                        if m + 1 != prev {
                            prev = m + 1;
                            let pos = col * 2;
                            if pos >= next_free {
                                let name = chars_of(month_abbrev(m));
                                let mut i: usize = 0;
                                while i < name.len()
                                    invariant
                                        i <= name@.len(),
                                        name@ == month_name(m as int),
                                        row@.len() == before.len(),
                                        pos == col * 2,
                                        pos < row@.len(),
                                        forall|j: int| 0 <= j < row@.len() ==> #[trigger] row@[j] == if pos <= j < pos + i { name@[j - pos] } else { before[j] },
                                    decreases name@.len() - i,
                                {
                                    if i < row.len() - pos {
                                        row.set(pos + i, name[i]);
                                    }
                                    i = i + 1;
                                }
                                proof {
                                    assert(row@ =~= write_at(before, pos as int, month_name(m as int)));
                                }
                                next_free = pos + 4;
                            }
                        }
                    },
                }
            },
        }
        col = col + 1;
    }
    string_of(&row)
}

/// The last `limit` week columns of a grid (all of them when there are
/// fewer), so the heatmap fits a normal terminal.
pub fn recent_weeks(grid: &Vec<[Cell; 7]>, limit: usize) -> (r: Vec<[Cell; 7]>)
    ensures
        r@ == grid@.skip(if grid@.len() > limit { grid@.len() - limit } else { 0 }),
{
    let skip: usize = if grid.len() > limit {
        grid.len() - limit
    } else {
        0
    };
    let mut r: Vec<[Cell; 7]> = Vec::new();
    let mut i: usize = skip;
    while i < grid.len()
        invariant
            skip <= i <= grid@.len(),
            r@ == grid@.subrange(skip as int, i as int),
        decreases grid@.len() - i,
    {
        r.push(grid[i]);
        i = i + 1;
        proof {
            assert(r@ =~= grid@.subrange(skip as int, i as int));
        }
    }
    proof {
        assert(r@ =~= grid@.skip(skip as int));
    }
    r
}

} // verus!
