use soon::shell::{
    classify_shell, detect_shell, history_file_of, history_path, resolve_shell, text_contains,
};

#[test]
fn shell_is_detected_from_its_path() {
    assert_eq!(detect_shell(Some("/bin/zsh")), "zsh");
    assert_eq!(detect_shell(Some("/usr/bin/bash")), "bash");
    assert_eq!(detect_shell(Some("/usr/local/bin/fish")), "fish");
    assert_eq!(detect_shell(Some("/bin/sh")), "unknown");
    assert_eq!(detect_shell(Some("")), "unknown");
    assert_eq!(detect_shell(None), "unknown");
}

#[test]
fn shell_path_is_read_in_lower_case() {
    assert_eq!(detect_shell(Some("/BIN/ZSH")), "zsh");
    assert_eq!(detect_shell(Some("C:/Tools/Bash.exe")), "bash");
    assert_eq!(detect_shell(Some("/opt/FiSh")), "fish");
}

#[test]
fn zsh_is_looked_for_before_bash_before_fish() {
    assert_eq!(detect_shell(Some("/opt/bash-or-zsh")), "zsh");
    assert_eq!(detect_shell(Some("/opt/fish/bin/bash")), "bash");
    assert_eq!(detect_shell(Some("/opt/fish/bin/zsh")), "zsh");
}

#[test]
fn classify_takes_the_text_as_it_is() {
    assert_eq!(classify_shell("/bin/zsh"), "zsh");
    assert_eq!(classify_shell("/BIN/ZSH"), "unknown");
}

#[test]
fn asked_shell_is_taken_as_written() {
    assert_eq!(resolve_shell(Some("fish".to_string()), Some("/bin/zsh")), "fish");
    assert_eq!(resolve_shell(Some("Weird Shell".to_string()), None), "Weird Shell");
    assert_eq!(resolve_shell(Some("unknown".to_string()), Some("/bin/bash")), "unknown");
    assert_eq!(resolve_shell(None, Some("/bin/bash")), "bash");
    assert_eq!(resolve_shell(None, None), "unknown");
}

#[test]
fn history_files_of_the_three_shells() {
    assert_eq!(history_file_of("bash"), Some(".bash_history".to_string()));
    assert_eq!(history_file_of("zsh"), Some(".zsh_history".to_string()));
    assert_eq!(history_file_of("fish"), Some(".local/share/fish/fish_history".to_string()));
    assert_eq!(history_file_of("unknown"), None);
    assert_eq!(history_file_of("BASH"), None);
}

#[test]
fn history_path_lies_below_home() {
    assert_eq!(history_path("bash", Some("/home/u")), Some("/home/u/.bash_history".to_string()));
    assert_eq!(history_path("zsh", Some("/home/u/")), Some("/home/u/.zsh_history".to_string()));
    assert_eq!(
        history_path("fish", Some("/home/u")),
        Some("/home/u/.local/share/fish/fish_history".to_string())
    );
}

#[test]
fn history_path_is_absent_without_home_or_shell() {
    assert_eq!(history_path("bash", None), None);
    assert_eq!(history_path("unknown", Some("/home/u")), None);
    assert_eq!(history_path("tcsh", Some("/home/u")), None);
    assert_eq!(history_path("unknown", None), None);
}

#[test]
fn text_contains_finds_a_pattern_anywhere() {
    assert!(text_contains("/bin/zsh", "zsh"));
    assert!(text_contains("zsh", "zsh"));
    assert!(text_contains("xzshx", "zsh"));
    assert!(!text_contains("zs", "zsh"));
    assert!(!text_contains("z-s-h", "zsh"));
    assert!(text_contains("abc", ""));
    assert!(text_contains("", ""));
    assert!(!text_contains("", "a"));
}
