use hal9001::agent::{AgentCommand, AgentKind};
use hal9001::terminal::{is_executable_mode, path_candidates, pty_term, shell_program};

#[test]
fn agents() {
    assert_eq!(AgentKind::OpenCode.program(), "opencode");
    assert_eq!(AgentKind::OpenCode.label(), "OpenCode");
    let c = AgentCommand::new(AgentKind::Bash, vec!["-l".to_string()]);
    assert_eq!(c.argv(), vec!["bash".to_string(), "-l".to_string()]);
}

#[test]
fn path_lookup_candidates() {
    assert_eq!(
        path_candidates("yazi", "/usr/bin:/opt/bin/"),
        vec!["/usr/bin/yazi".to_string(), "/opt/bin/yazi".to_string()]
    );
    assert_eq!(path_candidates("yazi", "/a::/b"), vec!["/a/yazi".to_string(), "yazi".to_string(), "/b/yazi".to_string()]);
    assert_eq!(path_candidates("yazi", ""), vec!["yazi".to_string()]);
    assert!(is_executable_mode(true, 0o755));
    assert!(!is_executable_mode(true, 0o644));
    assert!(!is_executable_mode(false, 0o755));
}

#[test]
fn terminal_shell_choice() {
    assert_eq!(shell_program(Some("/usr/bin/zsh".to_string()), true), "/usr/bin/zsh");
    assert_eq!(shell_program(Some(String::new()), true), "/bin/bash");
    assert_eq!(shell_program(None, false), "/bin/sh");
    assert_eq!(pty_term(), "xterm-256color");
}
