//! A calendar heatmap of one author's commit activity over a trailing window of weeks.
//!
//! Dates are day numbers counted from the start of the common era: day 1 is Monday,
//! January 1st of year 1, so a day whose number is a multiple of seven is a Sunday.
//! Times are seconds since the Unix epoch, in UTC.
mod calendar;
mod date;
mod render;
mod scan;
mod window;

pub use calendar::{bump_spec, count_spec, Calendar};
pub use date::{
    chrono_has_day, day_of_timestamp, day_spec, timestamp_of_day, timestamp_spec, weekday_of,
    EPOCH_DAY, SECONDS_PER_DAY,
};
pub use render::{
    grid_spec, intensity, intensity_spec, lemma_grid_reads_window_days, render_grid, Intensity,
};
pub use scan::{
    authored_by, lemma_scan_counts, lemma_scan_repeatable, lemma_scan_stops_at_old_commit,
    matching_on, scan_commits, scan_spec, scan_step, step_spec, CommitRecord,
};
pub use window::{
    current_window, lemma_window_starts_on_sunday, week_sunday, window_start, window_start_spec,
    Window, WindowError, NOON_SECONDS,
};
