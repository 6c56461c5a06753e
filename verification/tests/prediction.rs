use soon::history::HistoryItem;
use soon::predict::{
    cd_target_of, commands_after_cd, commands_but_cd, most_frequent_command, predict_in_directory,
    predict_next_command,
};
use soon::tally::{first_positions, rank_commands};

fn history(cmds: &[&str]) -> Vec<HistoryItem> {
    cmds.iter().map(|c| HistoryItem { cmd: c.to_string(), path: None }).collect()
}

fn strings(text: &[&str]) -> Vec<String> {
    text.iter().map(|l| l.to_string()).collect()
}

#[test]
fn command_after_cd_is_suggested_in_that_directory() {
    let h = history(&["cd foo", "npm test", "ls"]);
    assert_eq!(predict_in_directory(&h, "foo"), Some("npm test".to_string()));
    assert_eq!(predict_next_command(&h, "/home/u/foo"), Some("npm test".to_string()));
}

#[test]
fn most_frequent_command_is_the_fallback() {
    let h = history(&["cd foo", "npm test", "npm test", "build"]);
    assert_eq!(predict_in_directory(&h, "bar"), Some("npm test".to_string()));
    assert_eq!(predict_next_command(&h, "/home/u/bar"), Some("npm test".to_string()));
}

#[test]
fn empty_history_gives_no_suggestion() {
    let h = history(&[]);
    assert_eq!(predict_in_directory(&h, "foo"), None);
    assert_eq!(predict_next_command(&h, "/home/u/foo"), None);
}

#[test]
fn history_of_cd_only_gives_no_suggestion() {
    let h = history(&["cd foo", "cd bar", "  cd baz  "]);
    assert_eq!(predict_in_directory(&h, "foo"), None);
    assert_eq!(predict_in_directory(&h, "baz"), None);
    assert_eq!(predict_next_command(&h, "/"), None);
}

#[test]
fn only_the_command_right_after_cd_is_attributed() {
    let h = history(&["cd foo", "a", "b", "b", "b", "cd foo", "a", "cd foo", "c"]);
    assert_eq!(commands_after_cd(&h, "foo"), strings(&["a", "a", "c"]));
    assert_eq!(predict_in_directory(&h, "foo"), Some("a".to_string()));
    assert_eq!(predict_in_directory(&h, "elsewhere"), Some("b".to_string()));
}

#[test]
fn cd_after_cd_takes_the_attribution() {
    let h = history(&["cd foo", "cd bar", "ls", "pwd"]);
    assert_eq!(commands_after_cd(&h, "foo"), Vec::<String>::new());
    assert_eq!(commands_after_cd(&h, "bar"), strings(&["ls"]));
    assert_eq!(predict_in_directory(&h, "foo"), Some("ls".to_string()));
}

#[test]
fn attributed_commands_are_trimmed_and_fallback_ones_are_not() {
    let h = history(&["  cd   foo  ", "  make  ", " ls "]);
    assert_eq!(commands_after_cd(&h, "foo"), strings(&["make"]));
    assert_eq!(commands_but_cd(&h), strings(&["  make  ", " ls "]));
    assert_eq!(predict_in_directory(&h, "other"), Some("  make  ".to_string()));
}

#[test]
fn ties_go_to_the_command_met_first() {
    let h = history(&["b", "a", "a", "b", "c"]);
    assert_eq!(predict_in_directory(&h, "x"), Some("b".to_string()));
    let h = history(&["cd d", "z", "cd d", "y", "cd d", "y", "cd d", "z"]);
    assert_eq!(predict_in_directory(&h, "d"), Some("z".to_string()));
}

#[test]
fn directory_is_looked_up_by_the_last_component_of_the_path() {
    let h = history(&["cd foo", "npm test", "ls", "ls"]);
    assert_eq!(predict_next_command(&h, "/home/u/foo/"), Some("npm test".to_string()));
    assert_eq!(predict_next_command(&h, "foo"), Some("npm test".to_string()));
    assert_eq!(predict_next_command(&h, "/foo/bar"), Some("ls".to_string()));
    assert_eq!(predict_next_command(&h, "/"), Some("ls".to_string()));
    assert_eq!(predict_next_command(&h, ""), Some("ls".to_string()));
    assert_eq!(predict_next_command(&h, "/home/u/foo/.."), Some("ls".to_string()));
}

#[test]
fn cd_into_a_path_is_keyed_by_the_text_after_cd() {
    let h = history(&["cd src/foo", "make", "cd foo", "ls"]);
    assert_eq!(predict_in_directory(&h, "src/foo"), Some("make".to_string()));
    assert_eq!(predict_next_command(&h, "/home/u/src/foo"), Some("ls".to_string()));
}

#[test]
fn cd_target_is_the_trimmed_rest() {
    assert_eq!(cd_target_of("cd foo"), Some("foo".to_string()));
    assert_eq!(cd_target_of("  cd    foo bar  "), Some("foo bar".to_string()));
    assert_eq!(cd_target_of("cd"), None);
    assert_eq!(cd_target_of("cd "), None);
    assert_eq!(cd_target_of("cdfoo"), None);
    assert_eq!(cd_target_of("CD foo"), None);
    assert_eq!(cd_target_of("cd\tfoo"), None);
    assert_eq!(cd_target_of("ls"), None);
    assert_eq!(cd_target_of(""), None);
}

#[test]
fn most_frequent_of_nothing_is_nothing() {
    assert_eq!(most_frequent_command(&Vec::new()), None);
    assert_eq!(most_frequent_command(&strings(&["x"])), Some("x".to_string()));
    assert_eq!(most_frequent_command(&strings(&["x", "y", "y"])), Some("y".to_string()));
}

#[test]
fn first_positions_point_at_the_first_equal_text() {
    assert_eq!(first_positions(&strings(&["a", "b", "a", "c", "b", "a"])), vec![0, 1, 0, 3, 1, 0]);
    assert_eq!(first_positions(&Vec::new()), Vec::<usize>::new());
}

#[test]
fn ranking_is_by_count_then_by_first_occurrence() {
    let ranked = rank_commands(&strings(&["c", "a", "b", "a", "b", "d", "a", "c"]));
    assert_eq!(
        ranked,
        vec![
            ("a".to_string(), 3),
            ("c".to_string(), 2),
            ("b".to_string(), 2),
            ("d".to_string(), 1),
        ]
    );
    assert_eq!(rank_commands(&Vec::new()), Vec::<(String, usize)>::new());
}
