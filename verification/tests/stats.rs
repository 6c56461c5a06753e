use soon::history::HistoryItem;
use soon::session::{plan, soon_now, soon_stats, Command, NowReport, StatsReport, StatsRow, Step};
use soon::stats::top_commands;

fn history(cmds: &[&str]) -> Vec<HistoryItem> {
    cmds.iter().map(|c| HistoryItem { cmd: c.to_string(), path: None }).collect()
}

#[test]
fn stats_count_every_command_and_cd_too() {
    let top = top_commands(&history(&["ls", "ls", "cd x", "pwd", "ls"]));
    assert_eq!(
        top,
        vec![("ls".to_string(), 3), ("cd x".to_string(), 1), ("pwd".to_string(), 1)]
    );
}

#[test]
fn stats_of_an_empty_history_are_empty() {
    assert_eq!(top_commands(&history(&[])), Vec::<(String, usize)>::new());
}

#[test]
fn stats_keep_the_ten_at_the_top() {
    let h = history(&[
        "c01", "c02", "c03", "c04", "c05", "c06", "c07", "c08", "c09", "c10", "c11", "c12", "c12",
        "c11", "c12",
    ]);
    let top = top_commands(&h);
    let expected: Vec<(String, usize)> = [
        ("c12", 3),
        ("c11", 2),
        ("c01", 1),
        ("c02", 1),
        ("c03", 1),
        ("c04", 1),
        ("c05", 1),
        ("c06", 1),
        ("c07", 1),
        ("c08", 1),
    ]
    .iter()
    .map(|(c, n)| (c.to_string(), *n))
    .collect();
    assert_eq!(top, expected);
}

#[test]
fn stats_do_not_trim_or_merge_commands() {
    let top = top_commands(&history(&["ls", " ls", "ls "]));
    assert_eq!(
        top,
        vec![("ls".to_string(), 1), (" ls".to_string(), 1), ("ls ".to_string(), 1)]
    );
}

#[test]
fn stats_report_has_ranks_and_shortened_commands() {
    let long = "x".repeat(50);
    let h = history(&["ls", long.as_str(), long.as_str()]);
    let report = soon_stats(&h);
    assert_eq!(
        report,
        StatsReport::Table(vec![
            StatsRow { rank: 1, shown: format!("{}\u{2026}", "x".repeat(37)), count: 2 },
            StatsRow { rank: 2, shown: "ls".to_string(), count: 1 },
        ])
    );
    assert_eq!(report.exit_code(), 0);
}

#[test]
fn stats_report_fails_on_an_empty_history() {
    let report = soon_stats(&history(&[]));
    assert_eq!(report, StatsReport::HistoryMissing);
    assert_eq!(report.exit_code(), 1);
}

#[test]
fn now_report_tells_the_three_outcomes() {
    let report = soon_now(&history(&[]), "/home/u/foo");
    assert_eq!(report, NowReport::HistoryMissing);
    assert_eq!(report.exit_code(), 1);
    let report = soon_now(&history(&["cd foo", "cd bar"]), "/home/u/foo");
    assert_eq!(report, NowReport::NoSuggestion);
    assert_eq!(report.exit_code(), 0);
    let report = soon_now(&history(&["cd foo", "npm test", "ls"]), "/home/u/foo");
    assert_eq!(report, NowReport::Suggestion("npm test".to_string()));
    assert_eq!(report.exit_code(), 0);
}

#[test]
fn unknown_shell_answers_which_and_refuses_the_rest() {
    assert_eq!(plan(Some(Command::Which), "unknown"), Step::ShowShell);
    assert_eq!(plan(Some(Command::Now), "unknown"), Step::RefuseUnknownShell);
    assert_eq!(plan(Some(Command::Stats), "unknown"), Step::RefuseUnknownShell);
    assert_eq!(plan(Some(Command::Learn), "unknown"), Step::RefuseUnknownShell);
    assert_eq!(plan(Some(Command::Version), "unknown"), Step::RefuseUnknownShell);
    assert_eq!(plan(Some(Command::Update), "unknown"), Step::RefuseUnknownShell);
    assert_eq!(plan(None, "unknown"), Step::RefuseUnknownShell);
}

#[test]
fn known_shell_runs_the_command_asked_for() {
    assert_eq!(plan(None, "zsh"), Step::SuggestNext);
    assert_eq!(plan(Some(Command::Now), "bash"), Step::SuggestNext);
    assert_eq!(plan(Some(Command::Stats), "fish"), Step::ShowStats);
    assert_eq!(plan(Some(Command::Learn), "zsh"), Step::Learn);
    assert_eq!(plan(Some(Command::Which), "zsh"), Step::ShowShell);
    assert_eq!(plan(Some(Command::Version), "zsh"), Step::ShowVersion);
    assert_eq!(plan(Some(Command::Update), "tcsh"), Step::Update);
}
