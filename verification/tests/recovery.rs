use ddp_router::recovery::{requires_fresh_recovery, FailureKind};

fn command(code: i32, code_name: &str, message: &str) -> FailureKind {
    FailureKind::Command {
        code,
        code_name: code_name.to_owned(),
        message: message.to_owned(),
    }
}

#[test]
fn missing_resume_token_requires_fresh_recovery() {
    assert!(requires_fresh_recovery(&FailureKind::MissingResumeToken));
}

#[test]
fn other_failures_do_not_require_fresh_recovery() {
    assert!(!requires_fresh_recovery(&FailureKind::Other));
}

#[test]
fn commands_require_fresh_recovery_by_number() {
    for code in [237, 260, 280, 286] {
        assert!(requires_fresh_recovery(&command(code, "", "")));
    }
    for code in [0, 236, 238, 259, 261, 281, 285, 287, -286] {
        assert!(!requires_fresh_recovery(&command(code, "", "")));
    }
}

#[test]
fn commands_require_fresh_recovery_by_name() {
    for name in ["ChangeStreamFatalError", "ChangeStreamHistoryLost", "ResumeTokenException"] {
        assert!(requires_fresh_recovery(&command(1, name, "")));
    }
    for name in ["ChangeStreamFatalErrors", "changeStreamHistoryLost", "Interrupted", ""] {
        assert!(!requires_fresh_recovery(&command(1, name, "")));
    }
}

#[test]
fn commands_require_fresh_recovery_in_words() {
    assert!(requires_fresh_recovery(&command(1, "", "cannot resume stream")));
    assert!(requires_fresh_recovery(&command(1, "", "Resume of change stream was not possible")));
    assert!(requires_fresh_recovery(&command(1, "", "presumed lost; r\u{e9}sum\u{e9}, resumed")));
    assert!(!requires_fresh_recovery(&command(1, "", "RESUME")));
    assert!(!requires_fresh_recovery(&command(1, "", "resum e")));
    assert!(!requires_fresh_recovery(&command(1, "", "")));
}
