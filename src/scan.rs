use vstd::prelude::*;
use crate::calendar::{bump_spec, count_spec, Calendar};
use crate::date::{day_of_timestamp, day_spec};
use crate::window::Window;

verus! {

/// What the scan reads of a commit: its author's email, if it has one, and the time at
/// which it was authored, in seconds since the Unix epoch.
pub struct CommitRecord {
    pub email: Option<String>,
    pub time: i64,
}

/// Whether a commit was authored under the email `user`, compared character for character.
pub open spec fn authored_by(c: CommitRecord, user: Seq<char>) -> bool {
    match c.email {
        Some(e) => e@ == user,
        None => false,
    }
}

/// The calendar after a commit of the window: one more on its day if `user` wrote it.
pub open spec fn step_spec(m: Map<i64, u64>, user: Seq<char>, c: CommitRecord) -> Map<i64, u64> {
    if authored_by(c, user) {
        bump_spec(m, day_spec(c.time as int) as i64)
    } else {
        m
    }
}

/// The calendar after walking `commits` in order from `m`, stopping at the first commit
/// authored before `start`.
pub open spec fn scan_spec(
    m: Map<i64, u64>,
    start: int,
    user: Seq<char>,
    commits: Seq<CommitRecord>,
) -> Map<i64, u64>
    decreases commits.len(),
{
    if commits.len() == 0 || commits[0].time < start {
        m
    } else {
        scan_spec(step_spec(m, user, commits[0]), start, user, commits.drop_first())
    }
}

/// How many commits of `commits` were authored by `user` on `day`.
pub open spec fn matching_on(commits: Seq<CommitRecord>, user: Seq<char>, day: int) -> nat
    decreases commits.len(),
{
    if commits.len() == 0 {
        0
    } else {
        (if authored_by(commits[0], user) && day_spec(commits[0].time as int) == day {
            1nat
        } else {
            0nat
        }) + matching_on(commits.drop_first(), user, day)
    }
}

/// Takes one commit of a walk that goes from the newest commit to older ones. A commit
/// authored before the window opens ends the walk: it returns `false` and leaves the
/// calendar as it was. Any other commit is counted on its day when `user` wrote it, and
/// the walk goes on.
pub fn scan_step(cal: &mut Calendar, window: &Window, user: &String, commit: &CommitRecord) -> (r:
    bool)
    requires
        old(cal).wf(),
    ensures
        r == (commit.time >= window.start_time()),
        r ==> final(cal)@ == step_spec(old(cal)@, user@, *commit),
        !r ==> final(cal)@ == old(cal)@,
        final(cal).wf(),
{
    if commit.time < window.start_timestamp() {
        return false;
    }
    let matches = match &commit.email {
        Some(e) => *e == *user,
        None => false,
    };
    if matches {
        cal.record(day_of_timestamp(commit.time));
    }
    true
}

/// Walks `commits`, newest first, into the calendar, and stops at the first commit
/// authored before the window opens. It returns how many commits it took: that commit
/// and those after it are never looked at.
pub fn scan_commits(
    cal: &mut Calendar,
    window: &Window,
    user: &String,
    commits: &Vec<CommitRecord>,
) -> (r: usize)
    requires
        old(cal).wf(),
    ensures
        final(cal)@ == scan_spec(old(cal)@, window.start_time(), user@, commits@),
        final(cal).wf(),
        r <= commits@.len(),
        forall|i: int| 0 <= i < r ==> commits@[i].time >= window.start_time(),
        r < commits@.len() ==> commits@[r as int].time < window.start_time(),
{
    let ghost start = window.start_time();
    let mut i: usize = 0;
    assert(commits@.skip(0) =~= commits@);
    while i < commits.len()
        invariant
            i <= commits@.len(),
            cal.wf(),
            scan_spec(old(cal)@, start, user@, commits@) == scan_spec(
                cal@,
                start,
                user@,
                commits@.skip(i as int),
            ),
            forall|j: int| 0 <= j < i ==> commits@[j].time >= start,
            start == window.start_time(),
        decreases commits@.len() - i,
    {
        let ghost before = cal@;
        let ghost rest = commits@.skip(i as int);
        assert(rest[0] == commits@[i as int]);
        if !scan_step(cal, window, user, &commits[i]) {
            return i;
        }
        assert(rest.drop_first() =~= commits@.skip(i + 1));
        i = i + 1;
    }
    assert(commits@.skip(i as int).len() == 0);
    i
}

proof fn lemma_day_fits(ts: i64)
    ensures
        i64::MIN <= day_spec(ts as int) <= i64::MAX,
{
    let q = ts as int / 86400;
    assert(-106751991167301 <= q <= 106751991167300) by (nonlinear_arith)
        requires
            q == ts as int / 86400,
            i64::MIN <= ts <= i64::MAX,
    ;
}

/// Each commit of the window written by `user` adds exactly one to the count of its day,
/// and no other commit changes any count, as long as no count reaches `u64::MAX`.
pub proof fn lemma_scan_counts(m: Map<i64, u64>, start: int, user: Seq<char>, commits: Seq<CommitRecord>)
    requires
        forall|i: int| 0 <= i < commits.len() ==> #[trigger] commits[i].time >= start,
        commits.len() <= u64::MAX,
        forall|d: i64| #[trigger] m.contains_key(d) ==> m[d] + commits.len() <= u64::MAX,
    ensures
        forall|d: i64|
            #[trigger] count_spec(scan_spec(m, start, user, commits), d as int) == count_spec(
                m,
                d as int,
            ) + matching_on(commits, user, d as int),
    decreases commits.len(),
{
    if commits.len() > 0 {
        let c = commits[0];
        let rest = commits.drop_first();
        let m1 = step_spec(m, user, c);
        assert(c.time >= start);
        lemma_day_fits(c.time);
        let cd = day_spec(c.time as int) as i64;
        assert forall|d: i64| #[trigger] m1.contains_key(d) implies m1[d] + rest.len() <= u64::MAX by {
            if m.contains_key(d) {
                assert(m[d] + commits.len() <= u64::MAX);
            }
        }
        assert forall|i: int| 0 <= i < rest.len() implies #[trigger] rest[i].time >= start by {
            assert(rest[i] == commits[i + 1]);
        }
        lemma_scan_counts(m1, start, user, rest);
        assert forall|d: i64|
            #[trigger] count_spec(scan_spec(m, start, user, commits), d as int) == count_spec(
                m,
                d as int,
            ) + matching_on(commits, user, d as int) by {
            assert(count_spec(scan_spec(m1, start, user, rest), d as int) == count_spec(m1, d as int)
                + matching_on(rest, user, d as int));
            if authored_by(c, user) && cd == d && m.contains_key(d) {
                assert(m[d] + commits.len() <= u64::MAX);
            }
        }
    }
}

/// A commit authored before the window opens ends the scan: neither it nor any commit
/// after it changes the calendar.
pub proof fn lemma_scan_stops_at_old_commit(
    m: Map<i64, u64>,
    start: int,
    user: Seq<char>,
    commits: Seq<CommitRecord>,
    i: int,
)
    requires
        0 <= i < commits.len(),
        commits[i].time < start,
    ensures
        scan_spec(m, start, user, commits) == scan_spec(m, start, user, commits.take(i)),
    decreases i,
{
    if i > 0 && commits[0].time >= start {
        let rest = commits.drop_first();
        assert(rest[i - 1] == commits[i]);
        lemma_scan_stops_at_old_commit(step_spec(m, user, commits[0]), start, user, rest, i - 1);
        assert(commits.take(i).drop_first() =~= rest.take(i - 1));
        assert(commits.take(i)[0] == commits[0]);
    } else if i == 0 {
        assert(commits.take(0).len() == 0);
    } else {
        assert(commits.take(i)[0] == commits[0]);
    }
}

/// Scanning the same commits into the same calendar, for the same window and author,
/// gives the same calendar every time.
pub proof fn lemma_scan_repeatable(
    m: Map<i64, u64>,
    start: int,
    user: Seq<char>,
    first: Seq<CommitRecord>,
    second: Seq<CommitRecord>,
)
    requires
        first == second,
    ensures
        scan_spec(m, start, user, first) == scan_spec(m, start, user, second),
{
}

} // verus!
