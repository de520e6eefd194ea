use vstd::prelude::*;
use crate::calendar::{count_spec, Calendar};
use crate::window::Window;

verus! {

/// How strongly a cell of the grid is lit, from the count of commits on its day.
#[derive(Debug, Clone, Copy, PartialEq, Eq, Structural)]
pub enum Intensity {
    Lowest,
    Low,
    Medium,
    High,
    Highest,
}

/// The intensity of a day with `count` commits.
pub open spec fn intensity_spec(count: nat) -> Intensity {
    if count == 0 {
        Intensity::Lowest
    } else if count == 1 {
        Intensity::Low
    } else if count == 2 {
        Intensity::Medium
    } else if count == 3 {
        Intensity::High
    } else {
        Intensity::Highest
    }
}

/// The grid of a calendar over a window: seven rows, Sunday first, of one cell per week,
/// oldest week first.
pub open spec fn grid_spec(m: Map<i64, u64>, window: Window) -> Seq<Seq<Intensity>> {
    Seq::new(
        7,
        |row: int|
            Seq::new(
                window.nb_weeks as nat,
                |week: int| intensity_spec(count_spec(m, window.cell_day(row, week))),
            ),
    )
}

impl Intensity {
    /// The 256-color terminal palette entry that shows this intensity.
    pub open spec fn color_spec(self) -> u8 {
        match self {
            Intensity::Lowest => 238,
            Intensity::Low => 246,
            Intensity::Medium => 249,
            Intensity::High => 251,
            Intensity::Highest => 255,
        }
    }

    /// The 256-color terminal palette entry that shows this intensity.
    pub fn color(&self) -> (r: u8)
        ensures
            r == self.color_spec(),
    {
        match self {
            Intensity::Lowest => 238,
            Intensity::Low => 246,
            Intensity::Medium => 249,
            Intensity::High => 251,
            Intensity::Highest => 255,
        }
    }
}

/// The intensity of a day with `count` commits.
pub fn intensity(count: u64) -> (r: Intensity)
    ensures
        r == intensity_spec(count as nat),
{
    if count > 3 {
        Intensity::Highest
    } else if count > 2 {
        Intensity::High
    } else if count > 1 {
        Intensity::Medium
    } else if count > 0 {
        Intensity::Low
    } else {
        Intensity::Lowest
    }
}

/// The grid of the calendar over the window: row `r`, column `w` shows the day
/// `w` weeks and `r` days after the window's first day.
pub fn render_grid(cal: &Calendar, window: &Window) -> (r: Vec<Vec<Intensity>>)
    requires
        window.wf(),
    ensures
        r@.len() == 7,
        forall|row: int| 0 <= row < 7 ==> #[trigger] r@[row]@ == grid_spec(cal@, *window)[row],
{
    let ghost grid = grid_spec(cal@, *window);
    let mut rows: Vec<Vec<Intensity>> = Vec::new();
    let mut row: i64 = 0;
    while row < 7
        invariant
            0 <= row <= 7,
            rows@.len() == row,
            window.wf(),
            grid == grid_spec(cal@, *window),
            forall|i: int| 0 <= i < row ==> #[trigger] rows@[i]@ == grid[i],
        decreases 7 - row,
    {
        let mut cells: Vec<Intensity> = Vec::new();
        let mut week: u64 = 0;
        while week < window.nb_weeks
            invariant
                0 <= row < 7,
                week <= window.nb_weeks,
                window.wf(),
                cells@.len() == week,
                grid == grid_spec(cal@, *window),
                forall|k: int| 0 <= k < week ==> #[trigger] cells@[k] == grid[row as int][k],
            decreases window.nb_weeks - week,
        {
            let day: i64 = window.start_day as i64 + row + 7 * (week as i64);
            cells.push(intensity(cal.count(day)));
            week = week + 1;
        }
        assert(cells@ =~= grid[row as int]);
        rows.push(cells);
        row = row + 1;
    }
    rows
}

/// The grid depends on the calendar only through the counts of the window's days: two
/// calendars that agree on those give the same grid over the same window.
pub proof fn lemma_grid_reads_window_days(first: Map<i64, u64>, second: Map<i64, u64>, window: Window)
    requires
        forall|row: int, week: int|
            0 <= row < 7 && 0 <= week < window.nb_weeks ==> count_spec(
                first,
                #[trigger] window.cell_day(row, week),
            ) == count_spec(second, window.cell_day(row, week)),
    ensures
        grid_spec(first, window) == grid_spec(second, window),
{
    let a = grid_spec(first, window);
    let b = grid_spec(second, window);
    assert forall|row: int| 0 <= row < 7 implies #[trigger] a[row] == b[row] by {
        assert(a[row] =~= b[row]);
    }
    assert(a =~= b);
}

} // verus!
