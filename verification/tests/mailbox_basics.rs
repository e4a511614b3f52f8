//! Configuration, validation, classification and the small types of the mailbox.

use remo_server::activation::{AdapterKind, RunActivation, RunMode};
use remo_server::error::{MailboxError, StorageError};
use remo_server::mailbox::config::{
    MailboxConfig, MailboxLifecycleConfig, INLINE_CLAIM_GUARD_MS, SIGNAL_NACK_BASE_DELAY_MS,
    SIGNAL_NACK_MAX_DELAY_MS,
};
use remo_server::mailbox::facade::{ExecutorFacilities, Mailbox, RuntimeEventDurability};
use remo_server::mailbox::helpers::{
    dispatch_signal_blocked_nack_delay, retry_delay, validate_run_inputs,
};
use remo_server::mailbox::legacy::LegacyRunSnapshotExtras;
use remo_server::mailbox::live_delivery::{MailboxDispatchStatus, MailboxSubmitResult};
use remo_server::mailbox::signal_loop::{suspended_after, SuspensionEvent};
use remo_server::mailbox::submit::build_dispatch;
use remo_server::message::Message;
use remo_server::run::TerminationReason;
use remo_server::runtime::{
    classify_error, AgentLoopError, AgentRunResult, InferenceExecutionError, MailboxRunOutcome,
    RuntimeError,
};

fn user(text: &str) -> Message {
    Message::user(text.to_string())
}

#[test]
fn mailbox_config_defaults() {
    let config = MailboxConfig::default();
    assert_eq!(config.lease_ms, 30_000);
    assert_eq!(config.suspended_lease_ms, 600_000);
    assert_eq!(config.lease_renewal_interval, 10 * 1_000);
    assert_eq!(config.sweep_interval, 30 * 1_000);
    assert_eq!(config.gc_interval, 60 * 1_000);
    assert_eq!(config.gc_ttl, 24 * 60 * 60 * 1_000);
    assert_eq!(config.default_max_attempts, 5);
    assert_eq!(config.default_retry_delay_ms, 250);
    assert_eq!(config.max_retry_delay_ms, 30_000);
}

fn blocked_delay(redelivery_attempts: Option<u64>) -> u64 {
    dispatch_signal_blocked_nack_delay(
        redelivery_attempts,
        SIGNAL_NACK_BASE_DELAY_MS,
        SIGNAL_NACK_MAX_DELAY_MS,
    )
}

#[test]
fn dispatch_signal_blocked_nack_delay_backs_off_and_caps() {
    assert_eq!(blocked_delay(None), 500);
    assert_eq!(blocked_delay(Some(3)), 2 * 1_000);
    assert_eq!(blocked_delay(Some(100)), 30 * 1_000);
}

#[test]
fn mailbox_lifecycle_config_defaults() {
    let config = MailboxLifecycleConfig::default();
    assert_eq!(config.startup_delay, 0);
    assert_eq!(config.startup_recovery.max_attempts, 1);
    assert_eq!(config.startup_recovery.retry_delay, 250);
    assert!(!config.has_maintenance_callback);
}

#[test]
fn run_request_fields() {
    let req = RunActivation::new("t-1".to_string(), vec![user("hello")])
        .with_agent_id("agent-a".to_string());
    assert_eq!(req.intent.thread_id, "t-1");
    assert_eq!(req.intent.agent_id.as_deref(), Some("agent-a"));
    assert_eq!(req.messages.len(), 1);
    assert_eq!(req.trace.run_mode, RunMode::Foreground);
    assert_eq!(req.trace.adapter, AdapterKind::Internal);
}

#[test]
fn run_spec_validation_empty_messages_errors() {
    let result = validate_run_inputs("thread-1".into(), vec![], false);
    assert!(result.is_err());
    assert!(matches!(result.unwrap_err(), MailboxError::Validation(_)));
}

#[test]
fn run_spec_validation_allows_decision_only_resume() {
    let result = validate_run_inputs("thread-1".into(), vec![], true);
    assert!(result.is_ok());
    let (thread_id, messages) = result.unwrap();
    assert_eq!(thread_id, "thread-1");
    assert!(messages.is_empty());
}

#[test]
fn run_spec_validation_blank_thread_id_generates_new() {
    let result = validate_run_inputs("  ".into(), vec![user("hi")], false);
    assert!(result.is_ok());
    let (thread_id, _) = result.unwrap();
    assert!(!thread_id.is_empty());
    assert_ne!(thread_id.trim(), "");
}

#[test]
fn run_spec_validation_trims_thread_id() {
    let result = validate_run_inputs("  my-thread  ".into(), vec![user("hi")], false);
    assert!(result.is_ok());
    let (thread_id, _) = result.unwrap();
    assert_eq!(thread_id, "my-thread");
}

#[test]
fn dispatch_status_enum_variants() {
    let running = MailboxDispatchStatus::Running;
    let queued = MailboxDispatchStatus::Queued;
    assert!(matches!(running, MailboxDispatchStatus::Running));
    assert!(matches!(queued, MailboxDispatchStatus::Queued));
}

fn noop_executor() -> ExecutorFacilities {
    ExecutorFacilities { has_commit_coordinator: false, has_staged_coordinator: false }
}

#[test]
fn mailbox_construction_depends_on_runtime_boundary_not_agent_runtime() {
    let mailbox = Mailbox::new(
        noop_executor(),
        "decoupled-consumer".to_string(),
        MailboxConfig::default(),
    );
    assert_eq!(mailbox.consumer_id, "decoupled-consumer");
}

#[test]
fn mailbox_error_display() {
    let e = MailboxError::Validation("test".to_string());
    assert_eq!(e.to_text(), "validation error: test");

    let e = MailboxError::Internal("oops".to_string());
    assert_eq!(e.to_text(), "internal error: oops");
}

#[test]
fn mailbox_submit_result_fields() {
    let result = MailboxSubmitResult {
        dispatch_id: "dispatch-1".into(),
        run_id: "run-1".into(),
        thread_id: "thread-1".into(),
        status: MailboxDispatchStatus::Running,
    };
    assert_eq!(result.dispatch_id, "dispatch-1");
    assert_eq!(result.run_id, "run-1");
    assert_eq!(result.thread_id, "thread-1");
    assert!(matches!(result.status, MailboxDispatchStatus::Running));
}

#[test]
fn suspension_aware_sink_sets_flag_on_suspended_tool_call() {
    let mut suspended = false;

    // A tool call that is not suspended does not set the flag.
    suspended = suspended_after(suspended, SuspensionEvent::ToolCallDone { suspended: false });
    assert!(!suspended);

    // A suspended tool call sets the flag.
    suspended = suspended_after(suspended, SuspensionEvent::ToolCallDone { suspended: true });
    assert!(suspended);

    // Anything else leaves it.
    suspended = suspended_after(suspended, SuspensionEvent::Other);
    assert!(suspended);

    // A resumed tool call resets the flag.
    suspended = suspended_after(suspended, SuspensionEvent::ToolCallResumed);
    assert!(!suspended);
}

#[test]
fn classify_error_ok_is_completed() {
    let result = Ok(AgentRunResult {
        run_id: "run-1".to_string(),
        response: "done".to_string(),
        termination: TerminationReason::NaturalEnd,
        steps: 1,
    });
    assert!(matches!(classify_error(&result), MailboxRunOutcome::Completed));
}

#[test]
fn classify_error_thread_already_running_is_permanent() {
    let result = Err(AgentLoopError::RuntimeError(RuntimeError::ThreadAlreadyRunning {
        thread_id: "t1".to_string(),
    }));
    assert!(matches!(classify_error(&result), MailboxRunOutcome::PermanentError(_)));
}

#[test]
fn classify_error_agent_not_found_is_permanent() {
    let result = Err(AgentLoopError::RuntimeError(RuntimeError::AgentNotFound {
        agent_id: "missing".to_string(),
    }));
    assert!(matches!(classify_error(&result), MailboxRunOutcome::PermanentError(_)));
}

#[test]
fn classify_error_resolve_failed_is_permanent() {
    let result = Err(AgentLoopError::RuntimeError(RuntimeError::ResolveFailed {
        message: "not found".to_string(),
    }));
    assert!(matches!(classify_error(&result), MailboxRunOutcome::PermanentError(_)));
}

#[test]
fn classify_error_storage_error_is_transient() {
    let result = Err(AgentLoopError::StorageError("disk full".to_string()));
    assert!(matches!(classify_error(&result), MailboxRunOutcome::TransientError(_)));
}

#[test]
fn classify_error_inference_failed_is_transient() {
    let result = Err(AgentLoopError::InferenceFailed("timeout".to_string()));
    assert!(matches!(classify_error(&result), MailboxRunOutcome::TransientError(_)));
}

#[test]
fn classify_error_invalid_activation_is_permanent() {
    let result = Err(AgentLoopError::InvalidActivation("blank thread".to_string()));
    assert!(matches!(classify_error(&result), MailboxRunOutcome::PermanentError(_)));
}

#[test]
fn classify_error_permanent_inference_error_is_permanent() {
    let result = Err(AgentLoopError::from(InferenceExecutionError::Unauthorized(
        "403 pre_consume_token_quota_failed".to_string(),
    )));
    assert!(matches!(classify_error(&result), MailboxRunOutcome::PermanentError(_)));
}

#[test]
fn classify_error_context_overflow_is_permanent() {
    let result = Err(AgentLoopError::from(InferenceExecutionError::ContextOverflow(
        "prompt is too long".to_string(),
    )));
    assert!(matches!(classify_error(&result), MailboxRunOutcome::PermanentError(_)));
}

#[test]
fn classify_error_model_not_found_is_permanent() {
    let result = Err(AgentLoopError::from(InferenceExecutionError::ModelNotFound(
        "404 unknown model".to_string(),
    )));
    assert!(matches!(classify_error(&result), MailboxRunOutcome::PermanentError(_)));
}

#[test]
fn classify_error_transient_inference_error_is_transient() {
    let rate_limited = Err(AgentLoopError::from(InferenceExecutionError::rate_limited(
        "429 too many requests".to_string(),
    )));
    assert!(matches!(classify_error(&rate_limited), MailboxRunOutcome::TransientError(_)));
    let provider =
        Err(AgentLoopError::from(InferenceExecutionError::Provider("502 bad gateway".to_string())));
    assert!(matches!(classify_error(&provider), MailboxRunOutcome::TransientError(_)));
}

#[test]
fn classify_error_covers_all_inference_variants() {
    let cases: Vec<(InferenceExecutionError, bool)> = vec![
        (InferenceExecutionError::Provider("502".to_string()), false),
        (InferenceExecutionError::rate_limited("429".to_string()), false),
        (InferenceExecutionError::overloaded("529".to_string()), false),
        (InferenceExecutionError::Timeout("idle stall".to_string()), false),
        (InferenceExecutionError::Unauthorized("403 quota".to_string()), true),
        (InferenceExecutionError::ContextOverflow("prompt too long".to_string()), true),
        (InferenceExecutionError::InvalidRequest("422".to_string()), true),
        (InferenceExecutionError::ModelNotFound("404".to_string()), true),
        (InferenceExecutionError::ContentFiltered("policy".to_string()), true),
        (InferenceExecutionError::AllModelsUnavailable, true),
        (InferenceExecutionError::Cancelled, true),
    ];

    for (variant, expected_permanent) in cases {
        assert_eq!(
            variant.is_retryable(),
            !expected_permanent,
            "is_retryable disagrees with expected class for {variant:?}"
        );
        let result = Err(AgentLoopError::from(variant));
        let outcome = classify_error(&result);
        if expected_permanent {
            assert!(
                matches!(outcome, MailboxRunOutcome::PermanentError(_)),
                "expected PermanentError, got {outcome:?}"
            );
        } else {
            assert!(
                matches!(outcome, MailboxRunOutcome::TransientError(_)),
                "expected TransientError, got {outcome:?}"
            );
        }
    }
}

#[test]
fn classify_error_phase_error_is_completed() {
    let result = Err(AgentLoopError::PhaseError("unknown key: bad".to_string()));
    assert!(matches!(classify_error(&result), MailboxRunOutcome::Completed));
}

#[test]
fn classify_error_invalid_resume_is_completed() {
    let result = Err(AgentLoopError::InvalidResume("bad resume".to_string()));
    assert!(matches!(classify_error(&result), MailboxRunOutcome::Completed));
}

#[test]
fn classify_error_always_agrees_with_is_retryable() {
    for message in ["", "x", "429", "long message with \u{1F600}"] {
        for retry_after in [None, Some(0u64), Some(9_999u64)] {
            let variants = vec![
                InferenceExecutionError::Provider(message.to_string()),
                InferenceExecutionError::RateLimited { message: message.to_string(), retry_after },
                InferenceExecutionError::Overloaded { message: message.to_string(), retry_after },
                InferenceExecutionError::Timeout(message.to_string()),
                InferenceExecutionError::ContextOverflow(message.to_string()),
                InferenceExecutionError::InvalidRequest(message.to_string()),
                InferenceExecutionError::Unauthorized(message.to_string()),
                InferenceExecutionError::ModelNotFound(message.to_string()),
                InferenceExecutionError::ContentFiltered(message.to_string()),
                InferenceExecutionError::AllModelsUnavailable,
                InferenceExecutionError::Cancelled,
            ];
            for error in variants {
                let retryable = error.is_retryable();
                match classify_error(&Err(AgentLoopError::from(error))) {
                    MailboxRunOutcome::TransientError(_) => assert!(retryable),
                    MailboxRunOutcome::PermanentError(_) => assert!(!retryable),
                    MailboxRunOutcome::Completed => panic!("an inference error is no completion"),
                }
            }
        }
    }
}

#[test]
fn validate_run_inputs_preserves_normal_thread_id() {
    let (thread_id, msgs) =
        validate_run_inputs("my-thread".into(), vec![user("hi")], false).unwrap();
    assert_eq!(thread_id, "my-thread");
    assert_eq!(msgs.len(), 1);
}

#[test]
fn validate_run_inputs_multiple_messages() {
    let (_, msgs) =
        validate_run_inputs("t".into(), vec![user("a"), user("b"), user("c")], false).unwrap();
    assert_eq!(msgs.len(), 3);
}

#[test]
fn validate_run_inputs_empty_string_generates_uuid() {
    let (thread_id, _) = validate_run_inputs("".into(), vec![user("hi")], false).unwrap();
    assert!(!thread_id.is_empty());
    assert_eq!(thread_id.len(), 36);
}

#[test]
fn mailbox_config_custom_values() {
    let config = MailboxConfig {
        lease_ms: 5_000,
        suspended_lease_ms: 60_000,
        lease_renewal_interval: 2 * 1_000,
        sweep_interval: 5 * 1_000,
        gc_interval: 10 * 1_000,
        gc_ttl: 3600 * 1_000,
        default_max_attempts: 3,
        default_retry_delay_ms: 500,
        max_retry_delay_ms: 60_000,
    };
    assert_eq!(config.lease_ms, 5_000);
    assert_eq!(config.default_max_attempts, 3);
    assert_eq!(config.default_retry_delay_ms, 500);
    assert_eq!(config.max_retry_delay_ms, 60_000);
}

#[test]
fn build_dispatch_sets_correct_fields() {
    let request = RunActivation::new("thread-42".to_string(), vec![user("test")])
        .with_run_id_hint("run-42".to_string());
    let max_attempts = MailboxConfig::default().default_max_attempts;
    let dispatch = build_dispatch(&request, "thread-42", max_attempts, 1_000).unwrap();

    assert_eq!(dispatch.thread_id, "thread-42");
    assert_eq!(dispatch.run_id, "run-42");
    assert_eq!(dispatch.status, remo_server::dispatch::RunDispatchStatus::Queued);
    assert_eq!(dispatch.attempt_count, 0);
    assert_eq!(dispatch.max_attempts, 5);
    assert_eq!(dispatch.priority, 128);
    assert_eq!(dispatch.dispatch_epoch, 0);
    assert!(dispatch.claim_token.is_none());
    assert!(dispatch.claimed_by.is_none());
    assert!(dispatch.lease_until.is_none());
    assert!(dispatch.last_error.is_none());
    assert_eq!(dispatch.dispatch_id.len(), 36);
    assert_eq!(dispatch.available_at, 1_000);
}

#[test]
fn build_dispatch_requires_prepared_run_id() {
    let request = RunActivation::new("thread-1".to_string(), vec![user("hi")]);
    assert!(build_dispatch(&request, "thread-1", 5, 0).is_err());
    let error = build_dispatch(&request, "thread-1", 5, 0).unwrap_err().to_error();
    assert!(matches!(error, MailboxError::Internal(_)));
    assert_eq!(error.to_text(), "internal error: run_id missing after preparation");
}

fn plain_extras() -> LegacyRunSnapshotExtras {
    LegacyRunSnapshotExtras {
        overrides: None,
        decisions: vec![],
        frontend_tools: vec![],
        continue_run_id: None,
        run_id_hint: None,
        dispatch_id_hint: None,
        parent_thread_id: None,
        transport_request_id: None,
        run_mode: RunMode::Foreground,
        adapter: AdapterKind::Internal,
    }
}

#[test]
fn run_request_extras_empty_returns_none() {
    let extras = plain_extras();
    assert!(extras.to_value().unwrap().is_none());
}

#[test]
fn run_request_extras_apply_to_request() {
    let extras = LegacyRunSnapshotExtras {
        frontend_tools: vec![serde_json::Value::String("ft1".to_string())],
        run_id_hint: Some("run-1".into()),
        dispatch_id_hint: Some("dispatch-1".into()),
        parent_thread_id: Some("parent-thread".into()),
        transport_request_id: Some("transport-1".into()),
        run_mode: RunMode::Resume,
        adapter: AdapterKind::AgUi,
        ..plain_extras()
    };
    assert!(extras.to_value().unwrap().is_some());
    let request = RunActivation::new("t1".to_string(), vec![user("hi")]);
    let applied = extras.apply_to(request);
    assert_eq!(applied.options.frontend_tools.len(), 1);
    assert_eq!(applied.persistence.run_id_hint.as_deref(), Some("run-1"));
    assert_eq!(applied.persistence.dispatch_id_hint.as_deref(), Some("dispatch-1"));
    assert_eq!(applied.trace.parent_thread_id.as_deref(), Some("parent-thread"));
    assert_eq!(applied.trace.transport_request_id.as_deref(), Some("transport-1"));
    assert_eq!(applied.trace.run_mode, RunMode::Resume);
    assert_eq!(applied.trace.adapter, AdapterKind::AgUi);
}

#[test]
fn mailbox_error_store_variant() {
    let err: MailboxError = StorageError::NotFound("x".to_string()).into();
    let msg = err.to_text();
    assert!(msg.contains("store error"));
}

#[test]
fn mailbox_run_outcome_debug() {
    let completed = MailboxRunOutcome::Completed;
    let transient = MailboxRunOutcome::TransientError("oops".to_string());
    let permanent = MailboxRunOutcome::PermanentError("fatal".to_string());
    assert!(format!("{:?}", completed).contains("Completed"));
    assert!(format!("{:?}", transient).contains("oops"));
    assert!(format!("{:?}", permanent).contains("fatal"));
}

#[test]
fn mailbox_run_outcome_metric_labels_are_stable() {
    assert_eq!(MailboxRunOutcome::Completed.metric_label(), "completed");
    assert_eq!(
        MailboxRunOutcome::TransientError("retry".into()).metric_label(),
        "transient_error"
    );
    assert_eq!(
        MailboxRunOutcome::PermanentError("fatal".into()).metric_label(),
        "permanent_error"
    );
}

#[test]
fn dispatch_status_queued_zero() {
    let running = MailboxDispatchStatus::Running;
    let status = MailboxDispatchStatus::Queued;
    assert!(matches!(running, MailboxDispatchStatus::Running));
    assert!(matches!(status, MailboxDispatchStatus::Queued));
}

#[test]
fn inline_claim_guard_is_reasonable() {
    assert_eq!(INLINE_CLAIM_GUARD_MS, 60_000);
}

#[test]
fn nack_backoff_progression() {
    let config = MailboxConfig::default();
    for (attempt_count, expected_ms) in [
        (1, 250),
        (2, 500),
        (3, 1000),
        (4, 2000),
        (5, 4000),
        (6, 8000),
        (7, 16000),
    ] {
        let delay = retry_delay(&config, attempt_count);
        assert_eq!(delay, expected_ms, "attempt_count={attempt_count}");
    }
}

#[test]
fn nack_backoff_caps_at_max() {
    let config = MailboxConfig {
        max_retry_delay_ms: 5000,
        default_retry_delay_ms: 1000,
        ..Default::default()
    };
    assert_eq!(retry_delay(&config, 4), 5000);
}

#[test]
fn nack_backoff_zero_attempt_is_base_delay() {
    let config = MailboxConfig::default();
    assert_eq!(retry_delay(&config, 0), 250);
}

#[test]
fn nack_backoff_high_attempt_stays_capped() {
    let config = MailboxConfig::default();
    assert_eq!(retry_delay(&config, 100), 16000);

    let config2 = MailboxConfig { max_retry_delay_ms: 10_000, ..Default::default() };
    assert_eq!(retry_delay(&config2, 100), 10_000);
}

#[test]
fn runtime_event_capture_disabled_clears_prior_capture_and_skips_origin_validation() {
    let executor =
        ExecutorFacilities { has_commit_coordinator: true, has_staged_coordinator: true };
    let mailbox =
        Mailbox::new(executor, "test-consumer".to_string(), MailboxConfig::default())
            .with_runtime_event_capture(
                RuntimeEventDurability::Compacted,
                "server".to_string(),
                None,
            )
            .unwrap();
    assert!(mailbox.runtime_event_capture.is_some());
    let mailbox = mailbox
        .with_runtime_event_capture(
            RuntimeEventDurability::Disabled,
            "".to_string(),
            Some("origin must not be empty".to_string()),
        )
        .unwrap();
    assert!(mailbox.runtime_event_capture.is_none());
}

#[test]
fn runtime_event_capture_requires_commit_coordinator() {
    let result = Mailbox::new(noop_executor(), "c".into(), MailboxConfig::default())
        .with_runtime_event_capture(RuntimeEventDurability::Compacted, "test".to_string(), None);
    let error = match result {
        Ok(_) => panic!("capture without a coordinator must be rejected"),
        Err(error) => error,
    };
    assert_eq!(
        error.to_error().to_text(),
        "validation error: runtime event capture requires an executor with CommitCoordinator"
    );
}

#[test]
fn runtime_event_capture_requires_staged_commit_coordinator() {
    let executor =
        ExecutorFacilities { has_commit_coordinator: true, has_staged_coordinator: false };
    let result = Mailbox::new(executor, "c".into(), MailboxConfig::default())
        .with_runtime_event_capture(RuntimeEventDurability::Compacted, "test".to_string(), None);
    let error = match result {
        Ok(_) => panic!("capture without a staged coordinator must be rejected"),
        Err(error) => error,
    };
    assert_eq!(
        error.to_error().to_text(),
        "validation error: runtime event capture requires an executor with StagedCommitCoordinator"
    );
}
