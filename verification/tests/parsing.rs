use soon::history::{load_history, parse_history, read_fish, read_plain, read_zsh, HistoryItem};
use soon::lines::read_lines;

fn lines(text: &[&str]) -> Vec<String> {
    text.iter().map(|l| l.to_string()).collect()
}

fn bare(cmd: &str) -> HistoryItem {
    HistoryItem { cmd: cmd.to_string(), path: None }
}

#[test]
fn bash_lines_are_trimmed_and_blank_lines_dropped() {
    let items = read_plain(&lines(&["  ls -la  ", "", "   ", "\tgit status\t", "cd foo"]));
    assert_eq!(items, vec![bare("ls -la"), bare("git status"), bare("cd foo")]);
}

#[test]
fn bash_keeps_leading_digits_and_colons() {
    let items = parse_history("bash", &lines(&["7z x a.7z", ": 1700000000:0;ls"]));
    assert_eq!(items, vec![bare("7z x a.7z"), bare(": 1700000000:0;ls")]);
}

#[test]
fn zsh_marker_of_digits_colons_and_semicolons_is_stripped() {
    let items = read_zsh(&lines(&[":1700000000:0;ls -la", "1700000001;pwd", ";;:42: make  "]));
    assert_eq!(items, vec![bare("ls -la"), bare("pwd"), bare("make")]);
    for item in &items {
        assert_eq!(item.path, None);
    }
}

#[test]
fn zsh_marker_ends_at_the_first_other_character() {
    let items = read_zsh(&lines(&[": 1700000000:0;ls -la"]));
    assert_eq!(items, vec![bare("1700000000:0;ls -la")]);
}

#[test]
fn zsh_line_of_marker_only_is_dropped() {
    let items = read_zsh(&lines(&[":1700000000:0;", "", "  ", "echo hi"]));
    assert_eq!(items, vec![bare("echo hi")]);
}

#[test]
fn zsh_plain_lines_pass_unchanged() {
    let items = parse_history("zsh", &lines(&["ls", "  cargo test  "]));
    assert_eq!(items, vec![bare("ls"), bare("cargo test")]);
}

#[test]
fn fish_record_with_path_closed_by_empty_line() {
    let items = read_fish(&lines(&["- cmd: git status", "  path: /home/u/proj", ""]));
    assert_eq!(
        items,
        vec![HistoryItem {
            cmd: "git status".to_string(),
            path: Some("/home/u/proj".to_string()),
        }]
    );
}

#[test]
fn fish_record_from_bytes() {
    let items = load_history("fish", b"- cmd: git status\n  path: /home/u/proj\n\n");
    assert_eq!(
        items,
        vec![HistoryItem {
            cmd: "git status".to_string(),
            path: Some("/home/u/proj".to_string()),
        }]
    );
}

#[test]
fn fish_record_closed_by_next_record_and_by_end() {
    let items = read_fish(&lines(&[
        "- cmd: cd proj",
        "  when: 1700000000",
        "  path: /home/u",
        "- cmd:   make test  ",
        "- cmd: ls",
        "  path:   /tmp  ",
    ]));
    assert_eq!(
        items,
        vec![
            HistoryItem { cmd: "cd proj".to_string(), path: Some("/home/u".to_string()) },
            bare("make test"),
            HistoryItem { cmd: "ls".to_string(), path: Some("/tmp".to_string()) },
        ]
    );
}

#[test]
fn fish_path_without_record_is_dropped() {
    let items = read_fish(&lines(&["  path: /nowhere", "- cmd: ls", "", "  path: /late", "- cmd: pwd"]));
    assert_eq!(items, vec![bare("ls"), bare("pwd")]);
}

#[test]
fn fish_later_path_replaces_earlier() {
    let items = read_fish(&lines(&["- cmd: ls", "  path: /a", "  path: /b"]));
    assert_eq!(items, vec![HistoryItem { cmd: "ls".to_string(), path: Some("/b".to_string()) }]);
}

#[test]
fn fish_record_with_empty_command_gives_no_item() {
    let items = read_fish(&lines(&["- cmd:    ", "  path: /a", "", "- cmd: ls"]));
    assert_eq!(items, vec![bare("ls")]);
}

#[test]
fn fish_key_needs_its_space() {
    let items = read_fish(&lines(&["- cmd:ls", "-cmd: ls", " - cmd: ls"]));
    assert_eq!(items, Vec::<HistoryItem>::new());
}

#[test]
fn other_shells_have_no_history() {
    let text = lines(&["ls", "- cmd: ls"]);
    assert_eq!(parse_history("unknown", &text), Vec::<HistoryItem>::new());
    assert_eq!(parse_history("tcsh", &text), Vec::<HistoryItem>::new());
    assert_eq!(parse_history("", &text), Vec::<HistoryItem>::new());
    assert_eq!(parse_history("Bash", &text), Vec::<HistoryItem>::new());
}

#[test]
fn empty_file_has_no_items() {
    assert_eq!(load_history("bash", b""), Vec::<HistoryItem>::new());
    assert_eq!(load_history("zsh", b""), Vec::<HistoryItem>::new());
    assert_eq!(load_history("fish", b""), Vec::<HistoryItem>::new());
}

#[test]
fn lines_end_at_newlines_and_lose_one_carriage_return() {
    assert_eq!(read_lines(b"a\nb\r\nc\r\r\n\nd"), lines(&["a", "b", "c\r", "", "d"]));
    assert_eq!(read_lines(b"a\n"), lines(&["a"]));
    assert_eq!(read_lines(b"a\r"), lines(&["a\r"]));
    assert_eq!(read_lines(b"\n"), lines(&[""]));
    assert_eq!(read_lines(b"\r\n"), lines(&[""]));
    assert_eq!(read_lines(b""), Vec::<String>::new());
}

#[test]
fn lines_that_are_not_utf8_are_passed_over() {
    assert_eq!(read_lines(b"ls\n\xff\xfe\npwd\n"), lines(&["ls", "pwd"]));
    assert_eq!(read_lines(b"caf\xc3\xa9\n\xc3\n"), lines(&["caf\u{e9}"]));
    assert_eq!(load_history("bash", b"ls\n\xc3\x28\npwd"), vec![bare("ls"), bare("pwd")]);
}

#[test]
fn parsing_twice_gives_the_same_items() {
    let bytes: &[u8] = b": 1700000000:0;ls -la\n  make  \n\ncd src\r\n";
    for shell in ["bash", "zsh", "fish", "unknown"] {
        assert_eq!(load_history(shell, bytes), load_history(shell, bytes));
    }
}

#[test]
fn bash_history_written_out_reads_the_same() {
    let first = load_history("bash", b"  ls -la \n\n 7z x\r\n: 1;make\n");
    let written: Vec<String> = first.iter().map(|item| item.cmd.clone()).collect();
    assert_eq!(read_plain(&written), first);
}

#[test]
fn parsed_commands_are_trimmed_and_not_empty() {
    let bytes: &[u8] = b" ls \n\n- cmd:  \n- cmd: x \n;; \n\t\n";
    for shell in ["bash", "zsh", "fish"] {
        for item in load_history(shell, bytes) {
            assert!(!item.cmd.is_empty());
            assert_eq!(item.cmd.trim(), item.cmd);
        }
    }
}
