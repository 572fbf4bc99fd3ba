//! Where fetched data is stored, and in what order it is written.
//!
//! Every data point of a time series goes to a file of its own, named by its
//! calendar date, in a directory named by the granularity of the series. The
//! description of a repository goes to a file named by the day it was fetched.
//! The writing itself is the caller's; this module names the files and keeps
//! the account of what has been written.

use crate::cli::strings_view;
use crate::command::Command;
use crate::github::api::{Frequency, GitHubTrafficStat};
use crate::github::GitHubStats;
use crate::iso8601date::{date_key, lemma_date_key_injective, ISO8601Date};
use vstd::prelude::*;
use vstd::string::StringExecFns;

verus! {

// ---------------------------------------------------------------------------
// File names
// ---------------------------------------------------------------------------

/// The file of the day `year-month-day`.
pub open spec fn day_file(year: nat, month: nat, day: nat) -> Seq<char> {
    date_key(year, month, day) + ".json"@
}

/// The file of a data point, below the directory of its repository and kind:
/// the granularity, `/`, and the file of the day of the data point.
pub open spec fn stat_path_spec(frequency: Frequency, stat: GitHubTrafficStat) -> Seq<char> {
    frequency.name() + seq!['/'] + day_file(
        stat.timestamp@.year,
        stat.timestamp@.month,
        stat.timestamp@.day,
    )
}

/// The files of the data points `stats`, in their order.
pub open spec fn stats_paths(frequency: Frequency, stats: Seq<GitHubTrafficStat>) -> Seq<
    Seq<char>,
> {
    Seq::new(stats.len(), |i: int| stat_path_spec(frequency, stats[i]))
}

/// The directory of what a command fetches, below the directory of its
/// repository.
pub open spec fn kind_dir(command: Command) -> Seq<char> {
    match command {
        Command::Traffic(_) => "traffic"@,
        Command::Clones(_) => "clones"@,
        Command::Repo(_) => "repo"@,
    }
}

/// The file of the data point `stat` of a series of granularity `frequency`.
pub fn stat_path(frequency: &Frequency, stat: &GitHubTrafficStat) -> (path: String)
    ensures
        path@ == stat_path_spec(*frequency, *stat),
{
    let mut path = String::from_str(frequency.as_str());
    path.append("/");
    path.append(stat.timestamp.as_date_str().as_str());
    path.append(".json");
    proof {
        reveal_strlit("/");
        assert("/"@ =~= seq!['/']);
        assert(path@ =~= stat_path_spec(*frequency, *stat));
    }
    path
}

/// The files of all data points of `stats`, in the order of the data points.
pub fn planned_paths<S: GitHubStats>(stats: &S) -> (paths: Vec<String>)
    ensures
        strings_view(paths@) == stats_paths(stats.frequency(), stats.stats()),
{
    let points = stats.get_stats();
    let frequency = stats.get_frequency();
    let n = points.len();
    let mut paths: Vec<String> = Vec::new();
    let mut i: usize = 0;
    while i < n
        invariant
            n == points.len(),
            i <= n,
            points@ == stats.stats(),
            *frequency == stats.frequency(),
            paths.len() == i,
            forall|j: int| 0 <= j < i ==> (#[trigger] paths@[j])@ == stat_path_spec(*frequency, points@[j]),
        decreases n - i,
    {
        paths.push(stat_path(frequency, &points[i]));
        i += 1;
    }
    proof {
        assert(strings_view(paths@) =~= stats_paths(stats.frequency(), stats.stats()));
    }
    paths
}

/// The file of a description fetched at the instant `now`.
pub fn snapshot_path(now: &ISO8601Date) -> (path: String)
    ensures
        path@ == day_file(now@.year, now@.month, now@.day),
{
    let mut path = now.as_date_str();
    path.append(".json");
    path
}

impl Command {
    /// The directory of what the command fetches, below the directory of its
    /// repository.
    pub fn dir_name(&self) -> (name: &'static str)
        ensures
            name@ == kind_dir(*self),
    {
        match self {
            Command::Traffic(_) => "traffic",
            Command::Clones(_) => "clones",
            Command::Repo(_) => "repo",
        }
    }
}

/// Whether two data points are of the same calendar day.
pub open spec fn same_day(a: GitHubTrafficStat, b: GitHubTrafficStat) -> bool {
    &&& a.timestamp@.year == b.timestamp@.year
    &&& a.timestamp@.month == b.timestamp@.month
    &&& a.timestamp@.day == b.timestamp@.day
}

/// Two days have the same file exactly if they are the same day: what is
/// fetched on one day replaces what was fetched earlier that day, and nothing
/// that was fetched on another.
pub proof fn lemma_day_files(
    year1: nat,
    month1: nat,
    day1: nat,
    year2: nat,
    month2: nat,
    day2: nat,
)
    ensures
        day_file(year1, month1, day1) == day_file(year2, month2, day2) <==> year1 == year2
            && month1 == month2 && day1 == day2,
{
    let a = date_key(year1, month1, day1);
    let b = date_key(year2, month2, day2);
    if day_file(year1, month1, day1) == day_file(year2, month2, day2) {
        assert(a.len() == b.len()) by {
            assert(day_file(year1, month1, day1).len() == a.len() + ".json"@.len());
            assert(day_file(year2, month2, day2).len() == b.len() + ".json"@.len());
        }
        assert(a =~= day_file(year1, month1, day1).take(a.len() as int));
        assert(b =~= day_file(year2, month2, day2).take(b.len() as int));
        lemma_date_key_injective(year1, month1, day1, year2, month2, day2);
    }
}

/// Within one series two data points have the same file exactly if they are of
/// the same day.
pub proof fn lemma_stat_paths(frequency: Frequency, a: GitHubTrafficStat, b: GitHubTrafficStat)
    ensures
        stat_path_spec(frequency, a) == stat_path_spec(frequency, b) <==> same_day(a, b),
{
    let head = frequency.name() + seq!['/'];
    let fa = day_file(a.timestamp@.year, a.timestamp@.month, a.timestamp@.day);
    let fb = day_file(b.timestamp@.year, b.timestamp@.month, b.timestamp@.day);
    lemma_day_files(
        a.timestamp@.year,
        a.timestamp@.month,
        a.timestamp@.day,
        b.timestamp@.year,
        b.timestamp@.month,
        b.timestamp@.day,
    );
    if stat_path_spec(frequency, a) == stat_path_spec(frequency, b) {
        assert(fa =~= stat_path_spec(frequency, a).skip(head.len() as int));
        assert(fb =~= stat_path_spec(frequency, b).skip(head.len() as int));
    }
}

/// The files of a series depend on its granularity and on the days of its data
/// points, and on nothing else: the same data, planned again, goes to the same
/// files in the same order.
pub proof fn lemma_plan_repeats(
    frequency: Frequency,
    first: Seq<GitHubTrafficStat>,
    second: Seq<GitHubTrafficStat>,
)
    requires
        first.len() == second.len(),
        forall|i: int| 0 <= i < first.len() ==> same_day(first[i], second[i]),
    ensures
        stats_paths(frequency, first) == stats_paths(frequency, second),
{
    assert forall|i: int| 0 <= i < first.len() implies stats_paths(frequency, first)[i]
        == stats_paths(frequency, second)[i] by {
        lemma_stat_paths(frequency, first[i], second[i]);
    }
    assert(stats_paths(frequency, first) =~= stats_paths(frequency, second));
}

/// A series whose data points are of different days has one file for each data
/// point: no two of its files are the same.
pub proof fn lemma_plan_distinct(frequency: Frequency, stats: Seq<GitHubTrafficStat>)
    requires
        forall|i: int, j: int| 0 <= i < j < stats.len() ==> !same_day(stats[i], stats[j]),
    ensures
        stats_paths(frequency, stats).len() == stats.len(),
        forall|i: int, j: int|
            0 <= i < j < stats.len() ==> stats_paths(frequency, stats)[i] != stats_paths(
                frequency,
                stats,
            )[j],
{
    assert forall|i: int, j: int| 0 <= i < j < stats.len() implies stats_paths(frequency, stats)[i]
        != stats_paths(frequency, stats)[j] by {
        lemma_stat_paths(frequency, stats[i], stats[j]);
    }
}

// ---------------------------------------------------------------------------
// Writing one series
// ---------------------------------------------------------------------------

/// How far the writing of one series has come.
#[derive(Debug, Clone, Copy, PartialEq, Eq, Structural)]
pub enum WriterState {
    /// The data point at this position is to be written next.
    Next(usize),
    /// Every data point has been written.
    Done,
    /// The data point at this position could not be written; none after it is
    /// written.
    Failed(usize),
}

/// The state before anything is written of a series of `len` data points.
pub open spec fn writer_start_spec(len: nat) -> WriterState {
    if len == 0 {
        WriterState::Done
    } else {
        WriterState::Next(0)
    }
}

/// The state after the write that `state` asked for has ended, well (`ok`) or
/// not. A state that asks for no write does not change.
pub open spec fn writer_advance_spec(state: WriterState, len: nat, ok: bool) -> WriterState {
    match state {
        WriterState::Next(i) => if !ok {
            WriterState::Failed(i)
        } else if i + 1 < len {
            WriterState::Next((i + 1) as usize)
        } else {
            WriterState::Done
        },
        _ => state,
    }
}

/// The state after the writes that were asked for, one after the other, have
/// ended as `outcomes` says.
pub open spec fn after_writes(len: nat, outcomes: Seq<bool>) -> WriterState
    decreases outcomes.len(),
{
    if outcomes.len() == 0 {
        writer_start_spec(len)
    } else {
        writer_advance_spec(after_writes(len, outcomes.drop_last()), len, outcomes.last())
    }
}

/// The state before anything is written of a series of `len` data points.
pub fn writer_start(len: usize) -> (state: WriterState)
    ensures
        state == writer_start_spec(len as nat),
{
    if len == 0 {
        WriterState::Done
    } else {
        WriterState::Next(0)
    }
}

/// The state after the write that `state` asked for has ended.
pub fn writer_advance(state: WriterState, len: usize, ok: bool) -> (next: WriterState)
    ensures
        next == writer_advance_spec(state, len as nat, ok),
{
    match state {
        WriterState::Next(i) => {
            if !ok {
                WriterState::Failed(i)
            } else if i < len && i + 1 < len {
                WriterState::Next(i + 1)
            } else {
                WriterState::Done
            }
        },
        _ => state,
    }
}

/// As long as every write succeeds, the data points are asked for in their
/// order, each once, and after the last of them the writing is done.
pub proof fn lemma_writes_in_order(len: nat, outcomes: Seq<bool>)
    requires
        len <= usize::MAX,
        forall|j: int| 0 <= j < outcomes.len() ==> outcomes[j],
    ensures
        after_writes(len, outcomes) == if outcomes.len() < len {
            WriterState::Next(outcomes.len() as usize)
        } else {
            WriterState::Done
        },
    decreases outcomes.len(),
{
    if outcomes.len() > 0 {
        let init = outcomes.drop_last();
        assert forall|j: int| 0 <= j < init.len() implies init[j] by {
            assert(init[j] == outcomes[j]);
        }
        lemma_writes_in_order(len, init);
        assert(outcomes.last() == outcomes[outcomes.len() - 1]);
    }
}

/// The first write that fails ends the writing: the state names the data point
/// that failed, whatever is reported afterwards, and no later data point is
/// asked for.
pub proof fn lemma_first_failure_stops(len: nat, outcomes: Seq<bool>, k: int)
    requires
        len <= usize::MAX,
        0 <= k < outcomes.len(),
        k < len,
        !outcomes[k],
        forall|j: int| 0 <= j < k ==> outcomes[j],
    ensures
        after_writes(len, outcomes) == WriterState::Failed(k as usize),
    decreases outcomes.len(),
{
    let init = outcomes.drop_last();
    if k == outcomes.len() - 1 {
        assert forall|j: int| 0 <= j < init.len() implies init[j] by {
            assert(init[j] == outcomes[j]);
        }
        lemma_writes_in_order(len, init);
        assert(outcomes.last() == outcomes[k]);
    } else {
        assert(init[k] == outcomes[k]);
        assert forall|j: int| 0 <= j < k implies init[j] by {
            assert(init[j] == outcomes[j]);
        }
        lemma_first_failure_stops(len, init, k);
    }
}

// ---------------------------------------------------------------------------
// Two series fetched together
// ---------------------------------------------------------------------------

/// How a command that fetches a weekly and a daily series has ended.
#[derive(Debug, Clone, Copy, PartialEq, Eq, Structural)]
pub enum PairVerdict {
    /// Both series were fetched and written.
    Completed,
    /// The series of this granularity could not be fetched.
    FetchFailed(Frequency),
    /// The series of this granularity was fetched and could not be written.
    WriteFailed(Frequency),
}

/// What is to be done next for a pair of series.
#[derive(Debug, Clone, Copy, PartialEq, Eq, Structural)]
pub enum PairStep {
    /// Write the series of this granularity.
    Write(Frequency),
    /// Nothing more; report this.
    Finish(PairVerdict),
}

/// What is reported when no write has failed: the weekly fetch is looked at
/// before the daily one.
pub open spec fn fetch_verdict(weekly_fetched: bool, daily_fetched: bool) -> PairVerdict {
    if !weekly_fetched {
        PairVerdict::FetchFailed(Frequency::Week)
    } else if !daily_fetched {
        PairVerdict::FetchFailed(Frequency::Day)
    } else {
        PairVerdict::Completed
    }
}

/// The step once the weekly series is dealt with.
pub open spec fn daily_step(weekly_fetched: bool, daily_fetched: bool) -> PairStep {
    if daily_fetched {
        PairStep::Write(Frequency::Day)
    } else {
        PairStep::Finish(fetch_verdict(weekly_fetched, daily_fetched))
    }
}

/// The first step, once both fetches have ended.
pub open spec fn pair_start_spec(weekly_fetched: bool, daily_fetched: bool) -> PairStep {
    if weekly_fetched {
        PairStep::Write(Frequency::Week)
    } else {
        daily_step(weekly_fetched, daily_fetched)
    }
}

/// The step after the write that `step` asked for has ended, well (`ok`) or
/// not. A failed write ends the command at once.
pub open spec fn pair_next_spec(
    weekly_fetched: bool,
    daily_fetched: bool,
    step: PairStep,
    ok: bool,
) -> PairStep {
    match step {
        PairStep::Write(frequency) => if !ok {
            PairStep::Finish(PairVerdict::WriteFailed(frequency))
        } else {
            match frequency {
                Frequency::Week => daily_step(weekly_fetched, daily_fetched),
                Frequency::Day => PairStep::Finish(fetch_verdict(weekly_fetched, daily_fetched)),
            }
        },
        PairStep::Finish(_) => step,
    }
}

/// The series that are written, in order, and the verdict, when the weekly
/// series writes as `weekly_written` says and the daily as `daily_written`.
pub open spec fn pair_run(
    weekly_fetched: bool,
    daily_fetched: bool,
    weekly_written: bool,
    daily_written: bool,
) -> (Seq<Frequency>, PairVerdict) {
    let written = |frequency: Frequency|
        match frequency {
            Frequency::Week => weekly_written,
            Frequency::Day => daily_written,
        };
    match pair_start_spec(weekly_fetched, daily_fetched) {
        PairStep::Finish(verdict) => (Seq::empty(), verdict),
        PairStep::Write(first) => match pair_next_spec(
            weekly_fetched,
            daily_fetched,
            PairStep::Write(first),
            written(first),
        ) {
            PairStep::Finish(verdict) => (seq![first], verdict),
            PairStep::Write(second) => match pair_next_spec(
                weekly_fetched,
                daily_fetched,
                PairStep::Write(second),
                written(second),
            ) {
                PairStep::Finish(verdict) => (seq![first, second], verdict),
                PairStep::Write(_) => (seq![first, second], PairVerdict::Completed),
            },
        },
    }
}

/// The first step for a pair of series, once both fetches have ended.
pub fn pair_start(weekly_fetched: bool, daily_fetched: bool) -> (step: PairStep)
    ensures
        step == pair_start_spec(weekly_fetched, daily_fetched),
{
    if weekly_fetched {
        PairStep::Write(Frequency::Week)
    } else {
        pair_daily(weekly_fetched, daily_fetched)
    }
}

/// The step once the weekly series is dealt with.
fn pair_daily(weekly_fetched: bool, daily_fetched: bool) -> (step: PairStep)
    ensures
        step == daily_step(weekly_fetched, daily_fetched),
{
    if daily_fetched {
        PairStep::Write(Frequency::Day)
    } else {
        PairStep::Finish(pair_verdict(weekly_fetched, daily_fetched))
    }
}

/// What is reported when no write has failed.
fn pair_verdict(weekly_fetched: bool, daily_fetched: bool) -> (verdict: PairVerdict)
    ensures
        verdict == fetch_verdict(weekly_fetched, daily_fetched),
{
    if !weekly_fetched {
        PairVerdict::FetchFailed(Frequency::Week)
    } else if !daily_fetched {
        PairVerdict::FetchFailed(Frequency::Day)
    } else {
        PairVerdict::Completed
    }
}

/// The step after the write that `step` asked for has ended.
pub fn pair_next(weekly_fetched: bool, daily_fetched: bool, step: PairStep, ok: bool) -> (next:
    PairStep)
    ensures
        next == pair_next_spec(weekly_fetched, daily_fetched, step, ok),
{
    match step {
        PairStep::Write(frequency) => {
            if !ok {
                PairStep::Finish(PairVerdict::WriteFailed(frequency))
            } else {
                match frequency {
                    Frequency::Week => pair_daily(weekly_fetched, daily_fetched),
                    Frequency::Day => PairStep::Finish(pair_verdict(weekly_fetched, daily_fetched)),
                }
            }
        },
        PairStep::Finish(_) => step,
    }
}

/// A series that was fetched is written whether or not the other was fetched,
/// unless a write before it failed; and the command completes only if both
/// series were fetched and written.
pub proof fn lemma_pair_run(
    weekly_fetched: bool,
    daily_fetched: bool,
    weekly_written: bool,
    daily_written: bool,
)
    ensures
        ({
            let (writes, verdict) = pair_run(
                weekly_fetched,
                daily_fetched,
                weekly_written,
                daily_written,
            );
            &&& writes.contains(Frequency::Week) <==> weekly_fetched
            &&& writes.contains(Frequency::Day) <==> daily_fetched && (!weekly_fetched
                || weekly_written)
            &&& writes.len() == 2 ==> writes[0] == Frequency::Week
            &&& verdict == if weekly_fetched && !weekly_written {
                PairVerdict::WriteFailed(Frequency::Week)
            } else if daily_fetched && !daily_written {
                PairVerdict::WriteFailed(Frequency::Day)
            } else {
                fetch_verdict(weekly_fetched, daily_fetched)
            }
            &&& verdict == PairVerdict::Completed <==> weekly_fetched && daily_fetched
                && weekly_written && daily_written
        }),
{
    let (writes, verdict) = pair_run(weekly_fetched, daily_fetched, weekly_written, daily_written);
    if weekly_fetched {
        assert(writes[0] == Frequency::Week);
    }
    if daily_fetched && (!weekly_fetched || weekly_written) {
        assert(writes[writes.len() - 1] == Frequency::Day);
    }
}

/// Where the weekly fetch has failed and the daily one has not, the daily
/// series is written all the same, and the command still reports the failed
/// fetch.
pub proof fn lemma_partial_failure(daily_written: bool)
    ensures
        pair_start_spec(false, true) == PairStep::Write(Frequency::Day),
        pair_next_spec(false, true, PairStep::Write(Frequency::Day), true) == PairStep::Finish(
            PairVerdict::FetchFailed(Frequency::Week),
        ),
        pair_run(false, true, true, daily_written).0 == seq![Frequency::Day],
        pair_run(false, true, true, daily_written).1 != PairVerdict::Completed,
{
}

} // verus!
