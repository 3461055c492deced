use branch_diff_viewer::process::{
    spawn_error, stderr_trimmed, stdout_trimmed, wait_action, wait_error, GitError, GitOutput, Poll,
    WaitAction,
};

#[test]
fn git_error_display_uses_the_documented_wire_prefixes() {
    assert!(GitError::NotFound.to_message().starts_with("GIT_NOT_FOUND:"));
    assert!(GitError::Timeout.to_message().starts_with("GIT_TIMEOUT:"));
    assert_eq!(GitError::Io("plain message".to_string()).to_message(), "plain message");
}

#[test]
fn timeout_message_names_the_budget() {
    assert_eq!(
        GitError::Timeout.to_message(),
        "GIT_TIMEOUT: git command exceeded 30s and was terminated"
    );
}

#[test]
fn spawn_and_wait_errors_are_classified() {
    assert_eq!(spawn_error(true, "ignored"), GitError::NotFound);
    assert_eq!(
        spawn_error(false, "permission denied"),
        GitError::Io("failed to execute git: permission denied".to_string())
    );
    assert_eq!(wait_error("boom"), GitError::Io("failed to wait on git: boom".to_string()));
}

#[test]
fn wait_loop_decisions() {
    assert_eq!(wait_action(Poll::Exited, 0, 10), WaitAction::Collect);
    assert_eq!(wait_action(Poll::Exited, 99, 10), WaitAction::Collect);
    assert_eq!(wait_action(Poll::Failed, 0, 10), WaitAction::Abort);
    assert_eq!(wait_action(Poll::Running, 9, 10), WaitAction::Sleep);
    assert_eq!(wait_action(Poll::Running, 10, 10), WaitAction::KillForTimeout);
    assert_eq!(wait_action(Poll::Running, 11, 10), WaitAction::KillForTimeout);
}

#[test]
fn output_text_is_decoded_and_trimmed() {
    let out = GitOutput {
        success: true,
        stdout: b"  main\r\n\t".to_vec(),
        stderr: b"\n fatal: nope \n".to_vec(),
    };
    assert_eq!(stdout_trimmed(&out), "main");
    assert_eq!(stderr_trimmed(&out), "fatal: nope");
}
