//! What one run of the program does: which step a command asks for, and what
//! the two steps that read the history report.

use crate::frequency::{is_top_ranking, lemma_top_ranking_shape};
use crate::history::{commands, item_views, HistoryItem};
use crate::paths::path_file_name;
use crate::predict::{dir_key, predict_next_command, suggestion};
use crate::stats::{display_command, display_text, top_commands, TOP_COUNT};
use crate::tally::ranked_view;
use crate::text::same_text;
use vstd::prelude::*;

verus! {

/// What the user asks for.
#[derive(Clone, Copy, Debug, PartialEq, Eq, Structural)]
pub enum Command {
    Now,
    Stats,
    Learn,
    Which,
    Version,
    Update,
}

/// What the program does next.
#[derive(Clone, Copy, Debug, PartialEq, Eq, Structural)]
pub enum Step {
    /// Say that the shell is not known, and fail.
    RefuseUnknownShell,
    /// Read the history and suggest the next command.
    SuggestNext,
    /// Read the history and show the commands used most.
    ShowStats,
    /// Say that learning is not there yet.
    Learn,
    /// Show the shell.
    ShowShell,
    /// Show the version.
    ShowVersion,
    /// Say that updating is not there yet.
    Update,
}

/// The step for `command` under `shell`. With an unknown shell everything is
/// refused but the question which shell it is; no command at all asks for a
/// suggestion.
pub open spec fn planned(command: Option<Command>, shell: Seq<char>) -> Step {
    if shell == "unknown"@ && command != Some(Command::Which) {
        Step::RefuseUnknownShell
    } else {
        match command {
            None => Step::SuggestNext,
            Some(Command::Now) => Step::SuggestNext,
            Some(Command::Stats) => Step::ShowStats,
            Some(Command::Learn) => Step::Learn,
            Some(Command::Which) => Step::ShowShell,
            Some(Command::Version) => Step::ShowVersion,
            Some(Command::Update) => Step::Update,
        }
    }
}

/// Whether `step` reads the history file.
pub open spec fn reads_history(step: Step) -> bool {
    step == Step::SuggestNext || step == Step::ShowStats
}

/// The step for `command` under `shell`.
pub fn plan(command: Option<Command>, shell: &str) -> (step: Step)
    ensures
        step == planned(command, shell@),
{
    let which = match command {
        Some(Command::Which) => true,
        _ => false,
    };
    if same_text(shell, "unknown") && !which {
        Step::RefuseUnknownShell
    } else {
        match command {
            None => Step::SuggestNext,
            Some(Command::Now) => Step::SuggestNext,
            Some(Command::Stats) => Step::ShowStats,
            Some(Command::Learn) => Step::Learn,
            Some(Command::Which) => Step::ShowShell,
            Some(Command::Version) => Step::ShowVersion,
            Some(Command::Update) => Step::Update,
        }
    }
}

/// With an unknown shell the question which shell it is gets its answer, and
/// no other command reads the history.
pub proof fn lemma_unknown_shell(command: Option<Command>)
    ensures
        planned(Some(Command::Which), "unknown"@) == Step::ShowShell,
        command != Some(Command::Which) ==> planned(command, "unknown"@)
            == Step::RefuseUnknownShell,
        !reads_history(planned(command, "unknown"@)),
{
}

/// What the step that suggests a command reports.
#[derive(Clone, Debug, PartialEq, Eq)]
pub enum NowReport {
    /// The history holds nothing: the step fails.
    HistoryMissing,
    /// The history gives no suggestion.
    NoSuggestion,
    /// The command suggested.
    Suggestion(String),
}

/// What the step that suggests a command owes for a history with these
/// commands in a directory of this name.
pub open spec fn is_now_report(report: NowReport, cmds: Seq<Seq<char>>, dir: Seq<char>) -> bool {
    if cmds.len() == 0 {
        report is HistoryMissing
    } else {
        match suggestion(cmds, dir) {
            Some(cmd) => report matches NowReport::Suggestion(text) && text@ == cmd,
            None => report is NoSuggestion,
        }
    }
}

/// The report of the step that suggests a command, for the history read and
/// the current directory `cwd`.
pub fn soon_now(history: &[HistoryItem], cwd: &str) -> (report: NowReport)
    ensures
        is_now_report(report, commands(item_views(history@)), dir_key(path_file_name(cwd@))),
{
    if history.len() == 0 {
        return NowReport::HistoryMissing;
    }
    match predict_next_command(history, cwd) {
        Some(cmd) => NowReport::Suggestion(cmd),
        None => NowReport::NoSuggestion,
    }
}

/// One row of the table of the commands used most.
#[derive(Clone, Debug, PartialEq, Eq)]
pub struct StatsRow {
    /// The place in the ranking, from one.
    pub rank: usize,
    /// The command, shortened to the width of its column.
    pub shown: String,
    /// How often the command was used.
    pub count: usize,
}

/// What the step that shows the commands used most reports.
#[derive(Clone, Debug, PartialEq, Eq)]
pub enum StatsReport {
    /// The history holds nothing: the step fails.
    HistoryMissing,
    /// The rows of the table, from the top.
    Table(Vec<StatsRow>),
}

/// Whether `rows` show the entries `top`, in their order.
pub open spec fn shows(rows: Seq<StatsRow>, top: Seq<(Seq<char>, nat)>) -> bool {
    &&& rows.len() == top.len()
    &&& forall|i: int|
        0 <= i < rows.len() ==> (#[trigger] rows[i]).rank == i + 1 && rows[i].shown@
            == display_text(top[i].0) && rows[i].count == top[i].1
}

/// What the step that shows the commands used most owes for a history with
/// these commands.
pub open spec fn is_stats_report(report: StatsReport, cmds: Seq<Seq<char>>) -> bool {
    if cmds.len() == 0 {
        report is HistoryMissing
    } else {
        report matches StatsReport::Table(rows) && exists|top: Seq<(Seq<char>, nat)>| #[trigger]
            is_top_ranking(cmds, top, TOP_COUNT as nat) && shows(rows@, top)
    }
}

/// The report of the step that shows the commands used most, for the history
/// read.
pub fn soon_stats(history: &[HistoryItem]) -> (report: StatsReport)
    ensures
        is_stats_report(report, commands(item_views(history@))),
{
    if history.len() == 0 {
        return StatsReport::HistoryMissing;
    }
    let top = top_commands(history);
    let ghost entries = ranked_view(top@);
    proof {
        lemma_top_ranking_shape(
            commands(item_views(history@)),
            entries,
            TOP_COUNT as nat,
        );
    }
    let mut rows: Vec<StatsRow> = Vec::new();
    let mut i: usize = 0;
    while i < top.len()
        invariant
            i <= top@.len() <= TOP_COUNT,
            entries == ranked_view(top@),
            shows(rows@, entries.take(i as int)),
        decreases top@.len() - i,
    {
        let shown = display_command(top[i].0.as_str());
        rows.push(StatsRow { rank: i + 1, shown, count: top[i].1 });
        i += 1;
    }
    StatsReport::Table(rows)
}

/// The exit code after a step that read the history: one where the history
/// held nothing, and else zero.
pub open spec fn exit_code_of(history_missing: bool) -> int {
    if history_missing {
        1
    } else {
        0
    }
}

impl NowReport {
    /// The exit code of the program after this report.
    pub fn exit_code(&self) -> (code: i32)
        ensures
            code == exit_code_of(self is HistoryMissing),
    {
        match self {
            NowReport::HistoryMissing => 1,
            _ => 0,
        }
    }
}

impl StatsReport {
    /// The exit code of the program after this report.
    pub fn exit_code(&self) -> (code: i32)
        ensures
            code == exit_code_of(self is HistoryMissing),
    {
        match self {
            StatsReport::HistoryMissing => 1,
            _ => 0,
        }
    }
}

} // verus!
