//! Port errors, and the types that the ports exchange.

use knot::entities::{AgentConfig, KnotId, LoomId, StrandPath};
use knot::errors::PortError;
use knot::ports::{
    is_session_resumable, AgentOutput, ExecutionContext, KnotEventType, KnotState,
    ProcessingStatus,
};

#[test]
fn port_error_rig_log_variants_display() {
    let err = PortError::RigLogWriteFailed("disk full".to_string());
    assert_eq!(err.display(), "rig-log write failed: disk full");

    let err = PortError::RigLogReadFailed("file not found".to_string());
    assert_eq!(err.display(), "rig-log read failed: file not found");
}

#[test]
fn port_error_rig_log_variants_are_std_error() {
    let err = PortError::RigLogWriteFailed("io".to_string());
    let shown: Box<dyn std::error::Error> = err.display().into();
    assert_eq!(shown.to_string(), err.display());

    let err = PortError::RigLogReadFailed("io".to_string());
    let shown: Box<dyn std::error::Error> = err.display().into();
    assert_eq!(shown.to_string(), err.display());
}

#[test]
fn port_error_model_ref_not_found_display() {
    let err = PortError::ModelRefNotFound("fast".to_string());
    assert_eq!(
        err.display(),
        "model-ref 'fast' not found in rig/models.yml"
    );
    let shown: Box<dyn std::error::Error> = err.display().into();
    assert_eq!(shown.to_string(), err.display());
}

#[test]
fn port_error_git_commit_display() {
    let err = PortError::GitCommitFailed("not a git repo".to_string());
    assert_eq!(err.display(), "git commit failed: not a git repo");
}

#[test]
fn port_error_state_write_display() {
    let err = PortError::StateWriteFailed("permission denied".to_string());
    assert_eq!(err.display(), "state write failed: permission denied");
}

#[test]
fn knot_state_fields() {
    let state = KnotState {
        knot_id: KnotId("k1".to_string()),
        event_type: KnotEventType::Modified,
        strand_path: StrandPath(String::from("input.md")),
        tie_off_path: None,
        status: ProcessingStatus::Processing,
        error: Some("timeout".to_string()),
        last_updated: "2026-06-03T12:00:00Z".to_string(),
    };

    assert_eq!(state.knot_id, KnotId("k1".to_string()));
    assert_eq!(state.event_type, KnotEventType::Modified);
    assert_eq!(state.status, ProcessingStatus::Processing);
    assert_eq!(state.error.as_deref(), Some("timeout"));
    assert!(state.tie_off_path.is_none());
}

#[test]
fn execution_context_fields() {
    let ctx = ExecutionContext {
        agent_config: AgentConfig {
            goal: "process".to_string(),
            provider: "openai".to_string(),
            model: "gpt-4o".to_string(),
            tools: vec![],
            extra_args: vec![],
            thinking_level: None,
            ctx_wrap_up_limit: None,
        },
        prompt: "Process this file".to_string(),
        profile_prompt: "You are an agent.".to_string(),
        strand_path: StrandPath(String::from("src/main.rs")),
        event_type: "Created".to_string(),
        knot_name: Some("review".to_string()),
        timeout: None,
    };

    assert_eq!(ctx.agent_config.model, "gpt-4o");
    assert!(!ctx.prompt.is_empty());
    assert!(!ctx.profile_prompt.is_empty());
    assert_eq!(ctx.event_type, "Created");
    assert_eq!(ctx.knot_name.as_deref(), Some("review"));
    assert!(ctx.timeout.is_none());
}

#[test]
fn agent_output_fields() {
    let output = AgentOutput {
        stdout: "done".to_string(),
        stderr: "warning: slow".to_string(),
        exit_code: 0,
        metadata: None,
    };

    assert_eq!(output.exit_code, 0);
    assert!(!output.stdout.is_empty());
    assert!(!output.stderr.is_empty());
    assert!(output.metadata.is_none());
}

#[test]
fn port_error_display() {
    let loom_id = LoomId("missing".to_string());
    let err = PortError::LoomNotFound(loom_id);
    assert_eq!(err.display(), "loom 'missing' not found");

    let err = PortError::RigScanFailed("permission denied".to_string());
    assert_eq!(err.display(), "rig scan failed: permission denied");

    let err = PortError::KnotStatusDeriveFailed("log empty".to_string());
    assert_eq!(err.display(), "knot status derive failed: log empty");

    let err = PortError::AgentExecutionFailed {
        message: "crash".to_string(),
        session_id: None,
    };
    assert_eq!(err.display(), "agent execution failed: crash");

    let err = PortError::TieOffWriteFailed("disk full".to_string());
    assert_eq!(err.display(), "tie-off write failed: disk full");
}

#[test]
fn port_error_is_std_error() {
    let err = PortError::LoomNotFound(LoomId("x".to_string()));
    let shown: Box<dyn std::error::Error> = err.display().into();
    assert_eq!(shown.to_string(), err.display());
}
#[test]
fn agent_no_response_is_resumable() {
    let err = PortError::AgentNoResponse {
        message: "agent returned empty response".to_string(),
        session_id: Some("sess-abc".to_string()),
    };

    assert!(
        err.is_resumable(),
        "AgentNoResponse should be resumable (session can be re-entered)"
    );
    assert_eq!(
        err.session_id().map(String::as_str),
        Some("sess-abc"),
        "session_id() should return the captured session ID"
    );
    assert!(
        err.display().starts_with("no final response:"),
        "Display should start with 'no final response:', got: {}",
        err.display()
    );
    assert!(!err.display().starts_with("timeout:"));
}
#[test]
fn agent_no_response_without_session() {
    let err = PortError::AgentNoResponse {
        message: "agent returned empty response".to_string(),
        session_id: None,
    };

    assert!(err.session_id().is_none());
    assert!(
        !is_session_resumable(&None, &err),
        "is_session_resumable must be false without a session ID"
    );
}
#[test]
fn context_limit_reached_not_resumable() {
    let err = PortError::ContextLimitReached {
        message: "session context cannot fit the model window even after compaction".to_string(),
        session_id: Some("sess-ctx".to_string()),
    };

    assert!(
        !err.is_resumable(),
        "ContextLimitReached must not be resumable — re-entry cannot help"
    );
    assert_eq!(
        err.session_id().map(String::as_str),
        Some("sess-ctx"),
        "session_id() should return the captured session ID"
    );
    assert!(
        err.display().contains("context limit reached"),
        "Display should contain 'context limit reached', got: {}",
        err.display()
    );
    assert!(
        !is_session_resumable(&Some("sess-ctx".to_string()), &err),
        "is_session_resumable must be false for ContextLimitReached"
    );
}
#[test]
fn compaction_interrupted_is_resumable_with_session() {
    let err = PortError::CompactionInterrupted {
        message: "pi's in-process overflow compaction was interrupted".to_string(),
        reason: "overflow".to_string(),
        session_id: Some("sess-int".to_string()),
    };

    assert!(
        err.is_resumable(),
        "CompactionInterrupted with a session id is resumable"
    );
    assert_eq!(
        err.session_id().map(String::as_str),
        Some("sess-int"),
        "session_id() should return the captured session ID"
    );
    assert!(
        is_session_resumable(&Some("sess-int".to_string()), &err),
        "is_session_resumable must be true for CompactionInterrupted with a session"
    );
    assert!(
        err.display().contains("compaction interrupted"),
        "Display should contain 'compaction interrupted', got: {}",
        err.display()
    );
}
#[test]
fn compaction_interrupted_without_session_is_not_resumable() {
    let err = PortError::CompactionInterrupted {
        message: "pi's in-process overflow compaction was interrupted".to_string(),
        reason: "overflow".to_string(),
        session_id: None,
    };

    assert!(
        !err.is_resumable(),
        "CompactionInterrupted without a session id is not resumable"
    );
    assert!(err.session_id().is_none());
    assert!(
        !is_session_resumable(&None, &err),
        "is_session_resumable must be false without a session ID"
    );
}
#[test]
fn manual_compaction_failed_is_terminal() {
    let err = PortError::ManualCompactionFailed {
        message: "manual compact could not reduce the context".to_string(),
        session_id: Some("sess-manual".to_string()),
    };

    assert!(
        !err.is_resumable(),
        "ManualCompactionFailed must not be resumable — re-entry would overflow again"
    );
    assert_eq!(
        err.session_id().map(String::as_str),
        Some("sess-manual"),
        "session_id() should return the captured session ID"
    );
    assert!(
        !is_session_resumable(&Some("sess-manual".to_string()), &err),
        "is_session_resumable must be false for ManualCompactionFailed"
    );
    assert!(
        err.display().contains("manual compaction failed"),
        "Display should contain 'manual compaction failed', got: {}",
        err.display()
    );
}
#[test]
fn agent_inactivity_is_resumable_with_session() {
    let err = PortError::AgentInactivity {
        message: "no output for 300s (inactivity window 300s) (mock)"
            .to_string(),
        silent_secs: 300,
        window_secs: 300,
        blocked_call: Some("bash(\"npm run build\")".to_string()),
        session_id: Some("sess-inact".to_string()),
    };

    assert!(
        err.is_resumable(),
        "AgentInactivity should be resumable (the session can be restarted)"
    );
    assert_eq!(
        err.session_id().map(String::as_str),
        Some("sess-inact"),
        "session_id() should return the captured session ID"
    );
    assert!(
        err.display().starts_with("inactivity:"),
        "Display should start with 'inactivity:', got: {}",
        err.display()
    );
    assert!(
        err.display().contains("no output for 300s"),
        "Display should carry the message, got: {}",
        err.display()
    );
    assert!(!err.display().starts_with("timeout:"));
}
#[test]
fn agent_inactivity_is_resumable_without_session() {
    let err = PortError::AgentInactivity {
        message: "no output for 42s (inactivity window 300s) (mock)"
            .to_string(),
        silent_secs: 42,
        window_secs: 300,
        blocked_call: None,
        session_id: None,
    };

    assert!(
        err.is_resumable(),
        "AgentInactivity is resumable even without a session ID"
    );
    assert!(err.session_id().is_none());
    assert!(!is_session_resumable(&None, &err));
}

#[test]
fn processing_status_variants() {
    assert!(matches!(
        ProcessingStatus::Idle,
        ProcessingStatus::Idle
    ));
    assert!(matches!(
        ProcessingStatus::Processing,
        ProcessingStatus::Processing
    ));
    assert!(matches!(
        ProcessingStatus::Completed,
        ProcessingStatus::Completed
    ));
    assert!(matches!(
        ProcessingStatus::Failed,
        ProcessingStatus::Failed
    ));
}

#[test]
fn knot_event_type_variants() {
    assert!(matches!(
        KnotEventType::Created,
        KnotEventType::Created
    ));
    assert!(matches!(
        KnotEventType::Modified,
        KnotEventType::Modified
    ));
    assert!(matches!(KnotEventType::Deleted, KnotEventType::Deleted));
}

#[test]
fn test_port_error_session_id_timeout() {
    let err = PortError::Timeout {
        message: "timed out".to_string(),
        session_id: Some("sess-xyz".to_string()),
    };
    assert_eq!(
        err.session_id().map(|s| s.as_str()),
        Some("sess-xyz")
    );
}

#[test]
fn test_port_error_session_id_execution_failed() {
    let err = PortError::AgentExecutionFailed {
        message: "crash".to_string(),
        session_id: Some("sess-abc".to_string()),
    };
    assert_eq!(
        err.session_id().map(|s| s.as_str()),
        Some("sess-abc")
    );
}

#[test]
fn test_port_error_session_id_command_not_found() {
    let err = PortError::CommandNotFound("pi not found".to_string());
    assert!(err.session_id().is_none());
}

#[test]
fn test_port_error_is_resumable_timeout() {
    let err = PortError::Timeout {
        message: "timed out".to_string(),
        session_id: None,
    };
    assert!(err.is_resumable());
}

#[test]
fn test_port_error_is_resumable_execution_failed() {
    let err = PortError::AgentExecutionFailed {
        message: "crash".to_string(),
        session_id: None,
    };
    assert!(err.is_resumable());
}

#[test]
fn test_port_error_is_resumable_command_not_found() {
    let err = PortError::CommandNotFound("not found".to_string());
    assert!(!err.is_resumable());
}

#[test]
fn test_port_error_display_timeout_with_session() {
    let err = PortError::Timeout {
        message: "exceeded 60s".to_string(),
        session_id: Some("sess-123".to_string()),
    };
    assert_eq!(err.display(), "timeout: exceeded 60s");
}

#[test]
fn is_session_resumable_with_session_and_timeout() {
    let session_id = Some("sess-abc".to_string());
    let err = PortError::Timeout {
        message: "timed out".to_string(),
        session_id: Some("sess-abc".to_string()),
    };
    assert!(is_session_resumable(&session_id, &err));
}

#[test]
fn is_session_resumable_with_session_and_execution_failed() {
    let session_id = Some("sess-def".to_string());
    let err = PortError::AgentExecutionFailed {
        message: "crash".to_string(),
        session_id: Some("sess-def".to_string()),
    };
    assert!(is_session_resumable(&session_id, &err));
}

#[test]
fn is_session_resumable_without_session() {
    let session_id = None;
    let err = PortError::Timeout {
        message: "timed out".to_string(),
        session_id: None,
    };
    assert!(!is_session_resumable(&session_id, &err));
}

#[test]
fn is_session_resumable_command_not_found() {
    let session_id = Some("sess-ghi".to_string());
    let err = PortError::CommandNotFound("pi not found".to_string());
    assert!(!is_session_resumable(&session_id, &err));
}

#[test]
fn port_error_event_store_failed_display() {
    let err = PortError::EventStoreFailed("disk full".to_string());
    assert_eq!(err.display(), "event store failed: disk full");
}

#[test]
fn port_error_event_store_failed_is_std_error() {
    let err = PortError::EventStoreFailed("io error".to_string());
    let shown: Box<dyn std::error::Error> = err.display().into();
    assert_eq!(shown.to_string(), err.display());
}
