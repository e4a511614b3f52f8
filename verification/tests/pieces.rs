//! The small pieces: media, errors in words, settings, latencies, queues, decisions.

use remo_server::activation::{
    ResumeDecisionAction, RunActivation, RunKind, RunMode, RunOrigin, ToolCallResume,
};
use remo_server::delivery::{
    boundary_name, DeliveryBoundary, DeliveryGranularity, DeliveryMode, PendingMessageRecord,
};
use remo_server::dispatch::{
    dispatch_status_label, live_target_for_dispatch, live_target_for_run, LiveRunTarget,
    MailboxInterruptDetails, RunDispatch, RunDispatchStatus,
};
use remo_server::error::{Fault, FaultKind, MailboxError, StorageError};
use remo_server::mailbox::cancel::{
    advance_active, advance_route, cancel_active_dispatch, reconcile_terminal_dispatch,
    ActiveReply, ActiveStep, MarkReply, MarkStep, ReconcileReply, ReconcileStep, RouteReply,
    RouteStep, TerminalKind, TerminalMark, TerminalReconciliation,
};
use remo_server::mailbox::checkpoint::{commit_run_append, CommitError, CommitOutcome};
use remo_server::mailbox::checkpoint_repair::{
    CheckpointRepairQueue, CheckpointRepairTask, CHECKPOINT_REPAIR_QUEUE_CAP,
};
use remo_server::mailbox::config::{
    dispatch_signal_nack_base_delay, dispatch_signal_nack_max_delay, env_duration_ms, env_usize,
    MailboxConfig,
};
use remo_server::mailbox::dispatch_execution::{
    holds_claim, recover_completed_ack_after_result_recorded, AckRecovery, AckRefusal, GiveUp,
    RunEnd, Unresolved,
};
use remo_server::mailbox::facade::{
    ExecutorFacilities, Mailbox, RuntimeEventDurability, SignalPull,
};
use remo_server::mailbox::helpers::{
    build_run_input, dispatch_completion_latencies, dispatch_start_latencies,
    dispatch_terminal_latencies, identify_messages, message_ids, normalize_mailbox_run_mode,
    normalize_message_ids, result_label, retry_at, thread_or,
};
use remo_server::mailbox::legacy::LegacyRunSnapshotExtras;
use remo_server::mailbox::lifecycle::{
    lifecycle_is_running, maintenance_work, may_collect, run_gc, run_startup_recovery_with_retry, start_lifecycle,
    start_lifecycle_internal, MaintenanceTick, StartDecision, StartupReply, StartupStep,
    TransitionTry, LIFECYCLE_START_TRIES,
};
use remo_server::mailbox::pending_boundary::{stage_pending_messages, BoundaryFault};
use remo_server::mailbox::pending_delivery::{
    delivery_mode_for_dispatch, delivery_mode_for_live_run, preflight_foreground_pending,
    preflight_verdict, prepare_pending_messages_for_dispatch, simulate_append,
};
use remo_server::mailbox::prepare_run::ensure_dispatch_id_hint;
use remo_server::mailbox::reconstruct::{messages_by_ids, Reconstruction, ReplayReply, ReplayStep};
use remo_server::mailbox::server_event_capture::{
    message_kind, permission_resolved_event, record_message_committed,
    record_tool_permission_resolved, validate_checkpoint_event_range, PayloadValue,
};
use remo_server::mailbox::signal_loop::{
    claim_dispatch_label, claim_label, concurrent_signal_handlers, dispatch_signal_still_available,
    effective_lease, is_redelivery, lease_renewal, wait_for_dispatch_not_claimed, LeaseRenewal,
    ReleasePoll,
};
use remo_server::mailbox::workers::{ClaimStart, MailboxWorkerStatus, WorkerTable};
use remo_server::mailbox::{MailboxLifecycleConfig, MailboxStartupRecoveryConfig};
use remo_server::message::{ContentBlock, MediaSource, Message, Role, Visibility};
use remo_server::message_convert::{
    content_block_from_media_base64, content_block_from_media_url, infer_media_kind,
    infer_media_type_from_url, message_from_role_blocks, parse_data_uri, MediaKind,
};
use remo_server::run::{
    MessageSeqRange, RunActivationSnapshot, RunInputSnapshot, RunRecord, RunStatus,
    TerminationReason,
};
use remo_server::runtime::{
    failed_run_result, mailbox_run_identity, mailbox_run_result, AgentLoopError, AgentRunResult,
    InferenceExecutionError, RunClass, RuntimeError,
};

fn user(text: &str) -> Message {
    Message::user(text.to_string())
}

fn nameless(text: &str) -> Message {
    let mut message = user(text);
    message.id = None;
    message
}

fn json(text: &str) -> serde_json::Value {
    serde_json::from_str(text).unwrap()
}

fn dispatch(id: &str) -> RunDispatch {
    RunDispatch::queued(id.to_string(), "thread-1".to_string(), "run-1".to_string(), 1_000, 5)
}

fn claimed(id: &str, token: &str) -> RunDispatch {
    let mut dispatch = dispatch(id);
    dispatch.status = RunDispatchStatus::Claimed;
    dispatch.claim_token = Some(token.to_string());
    dispatch
}

fn run(run_id: &str, thread_id: &str, status: RunStatus) -> RunRecord {
    RunRecord {
        run_id: run_id.to_string(),
        thread_id: thread_id.to_string(),
        agent_id: "agent".to_string(),
        parent_run_id: None,
        resolution_id: None,
        activation: None,
        request: None,
        input: None,
        output: None,
        status,
        termination_reason: None,
        final_output: None,
        error_payload: None,
        dispatch_id: None,
        session_id: None,
        transport_request_id: None,
        waiting: None,
        outcome: None,
        created_at: 1,
        started_at: None,
        finished_at: None,
        updated_at: 1,
        steps: 0,
        input_tokens: 0,
        output_tokens: 0,
        state: None,
    }
}

fn storage_error() -> StorageError {
    StorageError::Other("down".to_string())
}

// Media.

#[test]
fn data_uri_is_taken_apart() {
    assert_eq!(
        parse_data_uri("data:image/png;base64,AAAA"),
        Some(("image/png".to_string(), "AAAA".to_string()))
    );
    assert_eq!(
        parse_data_uri("data:;base64,A,B"),
        Some((String::new(), "A,B".to_string()))
    );
    assert_eq!(parse_data_uri("data:image/png,AAAA"), None);
    assert_eq!(parse_data_uri("data:image/png;base64"), None);
    assert_eq!(parse_data_uri("http://example.com/a.png"), None);
    assert_eq!(parse_data_uri("DATA:image/png;base64,AAAA"), None);
}

#[test]
fn media_type_is_inferred_from_the_ending() {
    let cases = [
        ("http://x/a.PNG", "image/png"),
        ("a.jpg", "image/jpeg"),
        ("a.JPEG", "image/jpeg"),
        ("a.gif", "image/gif"),
        ("a.webp", "image/webp"),
        ("a.mp3", "audio/mpeg"),
        ("a.wav", "audio/wav"),
        ("a.ogg", "audio/ogg"),
        ("a.mp4", "video/mp4"),
        ("a.webm", "video/webm"),
        ("a.pdf", "application/pdf"),
        ("a.json", "application/json"),
        ("a.txt", "text/plain"),
        ("README.md", "text/plain"),
        ("a.png?x=1", "application/octet-stream"),
        ("", "application/octet-stream"),
    ];
    for (url, expected) in cases {
        assert_eq!(infer_media_type_from_url(url), expected);
    }
}

#[test]
fn media_kind_goes_by_the_first_part_of_the_type() {
    assert_eq!(infer_media_kind("image/png"), MediaKind::Image);
    assert_eq!(infer_media_kind("audio/wav"), MediaKind::Audio);
    assert_eq!(infer_media_kind("video/mp4"), MediaKind::Video);
    assert_eq!(infer_media_kind("application/pdf"), MediaKind::Document);
    assert_eq!(infer_media_kind("Image/png"), MediaKind::Document);
    assert_eq!(infer_media_kind(""), MediaKind::Document);
}

#[test]
fn media_url_takes_the_type_given_or_the_one_inferred() {
    let url = MediaSource::Url { url: "a.png".to_string() };
    let inferred = content_block_from_media_url("a.png".to_string(), Some("  "), None);
    assert_eq!(inferred, ContentBlock::Image { source: url });
    let given = content_block_from_media_url("a.png".to_string(), Some("audio/x"), None);
    assert!(matches!(given, ContentBlock::Audio { .. }));
    let title = Some("notes".to_string());
    let document = content_block_from_media_url("a.bin".to_string(), None, title.clone());
    assert!(matches!(document, ContentBlock::Document { title: t, .. } if t == title));
}

#[test]
fn media_data_keeps_its_type() {
    let block =
        content_block_from_media_base64("AAAA".to_string(), "video/mp4".to_string(), None);
    let source =
        MediaSource::Base64 { media_type: "video/mp4".to_string(), data: "AAAA".to_string() };
    assert_eq!(block, ContentBlock::Video { source });
}

#[test]
fn blocks_make_the_message_of_a_role() {
    let blocks = || vec![ContentBlock::Text { text: "hi".to_string() }];
    let from_user = message_from_role_blocks("user", blocks(), "hi".to_string(), false).unwrap();
    assert_eq!(from_user.role, Role::User);
    assert_eq!(from_user.content, blocks());
    let system = message_from_role_blocks("system", blocks(), "hi".to_string(), false).unwrap();
    assert_eq!(system.role, Role::System);
    assert_eq!(system.text(), "hi");
    assert!(message_from_role_blocks("assistant", blocks(), String::new(), false).is_none());
    assert!(message_from_role_blocks("assistant", blocks(), String::new(), true).is_some());
    assert!(message_from_role_blocks("tool", blocks(), String::new(), true).is_none());
    assert!(message_from_role_blocks("user", Vec::new(), String::new(), true).is_none());
}

// Messages and requests.

#[test]
fn only_messages_without_an_id_are_given_one() {
    let named = user("a").with_id("mine".to_string());
    let blank = user("b").with_id(String::new());
    let given = normalize_message_ids(vec![named, blank, nameless("c")]);
    assert_eq!(given[0].id.as_deref(), Some("mine"));
    assert_eq!(given[1].id.as_ref().unwrap().len(), 36);
    assert_eq!(given[2].id.as_ref().unwrap().len(), 36);
    assert_ne!(given[1].id, given[2].id);
    assert_eq!(normalize_message_ids(given.clone()), given);
    let texts: Vec<String> = given.iter().map(|message| message.text()).collect();
    assert_eq!(texts, vec!["a", "b", "c"]);
}

#[test]
fn new_messages_have_ids_of_their_own() {
    let first = user("a").id.unwrap();
    let second = Message::assistant("a".to_string()).id.unwrap();
    assert_eq!(first.len(), 36);
    assert_eq!(&first[14..15], "7");
    assert_ne!(first, second);
    let blocks = vec![ContentBlock::Text { text: "a".to_string() }];
    assert!(Message::user_with_content(blocks).id.is_some());
}

#[test]
fn given_ids_go_to_the_messages_that_need_them() {
    let named = user("a").with_id("mine".to_string());
    let given = identify_messages(vec![named, nameless("b")], vec!["x".to_string(), "y".to_string()]);
    assert_eq!(message_ids(&given), vec!["mine".to_string(), "y".to_string()]);
}

#[test]
fn thread_id_is_trimmed_or_fresh() {
    assert_eq!(thread_or("  t ", "f".to_string()), "t");
    assert_eq!(thread_or(" \t\n", "f".to_string()), "f");
}

#[test]
fn a_dispatch_id_is_kept_or_fresh() {
    let request = || RunActivation::new("t".to_string(), vec![user("a")]);
    let fresh = ensure_dispatch_id_hint(request());
    assert_eq!(fresh.persistence.dispatch_id_hint.as_ref().unwrap().len(), 36);
    let again = ensure_dispatch_id_hint(fresh.clone());
    assert_eq!(again, fresh);
    let mut blank = request();
    blank.persistence.dispatch_id_hint = Some("  ".to_string());
    let given = ensure_dispatch_id_hint(blank);
    assert_eq!(given.persistence.dispatch_id_hint.unwrap().len(), 36);
}

#[test]
fn run_mode_is_normalized() {
    let request = || RunActivation::new("t".to_string(), vec![user("a")]);
    assert_eq!(normalize_mailbox_run_mode(request(), true).trace.run_mode, RunMode::Scheduled);
    assert_eq!(normalize_mailbox_run_mode(request(), false).trace.run_mode, RunMode::Foreground);
    let resumed = request().with_continue_run_id("run-1".to_string());
    assert_eq!(normalize_mailbox_run_mode(resumed, true).trace.run_mode, RunMode::Resume);
    let mut wake = request();
    wake.trace.run_mode = RunMode::InternalWake;
    assert_eq!(normalize_mailbox_run_mode(wake, true).trace.run_mode, RunMode::InternalWake);
}

#[test]
fn run_input_spans_the_whole_log() {
    let ids = vec!["m-1".to_string()];
    let (snapshot, input) = build_run_input("t", 7, &ids);
    assert_eq!(snapshot.range, Some(MessageSeqRange { from_seq: 1, to_seq: 7 }));
    assert_eq!(input.range, snapshot.range);
    assert_eq!(input.trigger_message_ids, ids);
    let (empty, _) = build_run_input("t", 0, &Vec::new());
    assert_eq!(empty.range, None);
    assert_eq!(MessageSeqRange::new(3, 2), None);
    assert!(MessageSeqRange::new(2, 2).is_some());
}

#[test]
fn hinted_and_continued_runs_are_named() {
    let request = RunActivation::new("t".to_string(), vec![user("a")]);
    assert_eq!(request.resume_run_id(), None);
    let hinted = request.clone().with_run_id_hint("run-7".to_string());
    assert_eq!(hinted.persistence.run_id_hint.as_deref(), Some("run-7"));
    let continued = request.with_continue_run_id("run-8".to_string());
    assert_eq!(continued.intent.kind, RunKind::HitlResume { run_id: "run-8".to_string() });
    assert_eq!(continued.resume_run_id().as_deref(), Some("run-8"));
}

// Errors in words.

#[test]
fn storage_errors_in_words() {
    let conflict = StorageError::VersionConflict { expected: 3, actual: 10 };
    assert_eq!(conflict.to_text(), "version conflict: expected 3, actual 10");
    assert!(conflict.is_conflict());
    assert_eq!(StorageError::NotFound("x".to_string()).to_text(), "not found: x");
    assert_eq!(StorageError::AlreadyExists("x".to_string()).to_text(), "already exists: x");
    let selection = StorageError::PendingSelectionConflict { detail: "gone".to_string() };
    assert_eq!(selection.to_text(), "pending selection conflict: gone");
    assert!(selection.is_conflict());
    assert!(!storage_error().is_conflict());
}

#[test]
fn faults_in_words() {
    let id = |text: &str| text.to_string();
    let cases = vec![
        (Fault::NoMessages, "at least one message is required"),
        (Fault::ActiveRunConflict, "thread has an active run that could not be cancelled"),
        (Fault::RunIdMissing, "run_id missing after preparation"),
        (Fault::LifecyclePoisoned, "mailbox lifecycle lock poisoned"),
        (Fault::LifecycleBusy, "mailbox lifecycle transition is already running"),
        (
            Fault::PendingStoreMissing,
            "pending thread-run store is not configured for this mailbox",
        ),
        (
            Fault::DispatchRunMissing { run_id: id("r"), dispatch_id: id("d") },
            "run 'r' not found for dispatch 'd'",
        ),
        (
            Fault::DispatchThreadMismatch {
                run_id: id("r"),
                run_thread: id("a"),
                dispatch_thread: id("b"),
            },
            "run 'r' belongs to thread 'a', not dispatch thread 'b'",
        ),
        (Fault::NoActivationSnapshot { run_id: id("r") }, "run 'r' has no activation snapshot"),
        (
            Fault::RunMessageMissing { message_id: id("m"), run_id: id("r") },
            "message 'm' not found for run 'r'",
        ),
        (Fault::CorruptExtras { error: id("e") }, "corrupt request_extras: e"),
        (
            Fault::LegacyConversion { error: id("e") },
            "legacy run snapshot conversion failed: e",
        ),
        (
            Fault::ClaimTokenMissing { dispatch_id: id("d") },
            "claimed dispatch 'd' is missing claim token",
        ),
        (
            Fault::AppendRetriesExhausted { thread_id: id("t") },
            "committed append exhausted 8 retries under version conflict for thread 't'",
        ),
        (
            Fault::TerminalRetriesExhausted { thread_id: id("t") },
            "terminal dispatch run checkpoint exhausted 8 retries under version conflict for \
             thread 't'",
        ),
        (
            Fault::PendingWithoutMessageId { pending_id: id("p") },
            "pending message 'p' has no message id",
        ),
        (Fault::CommitFailed { error: id("e") }, "commit checkpoint: e"),
        (
            Fault::CheckpointRange {
                first: 1,
                last: 2,
                thread_id: id("t"),
                run_id: id("r"),
                count: 1,
            },
            "checkpoint event range 1-2 for thread 't' run 'r' exceeds committed message count 1",
        ),
        (
            Fault::EventNotRecorded { what: "x", error: id("e") },
            "failed to record x: e",
        ),
    ];
    for (fault, expected) in cases {
        assert_eq!(fault.detail_text(), expected);
    }
}

#[test]
fn faults_become_errors_of_their_kind() {
    assert_eq!(Fault::NoMessages.kind_of(), FaultKind::Validation);
    assert!(matches!(Fault::NoMessages.to_error(), MailboxError::Validation(_)));
    assert!(matches!(Fault::LifecycleBusy.to_error(), MailboxError::Internal(_)));
    assert_eq!(Fault::Store(storage_error()).to_error(), MailboxError::Store(storage_error()));
    let unresolved = Fault::Resolution { source: "no agent".to_string() };
    let text = unresolved.to_error().to_text();
    assert!(text.starts_with("resolution error: "));
    assert!(text.ends_with(": no agent"));
    let blocked = Fault::DeliveryBlockedByBarrier { blocking_pending_id: "p".to_string() };
    assert_eq!(
        blocked.to_error().to_text(),
        "delivery blocked by pending barrier 'p'"
    );
}

#[test]
fn boundary_faults_become_loop_errors() {
    let missing = BoundaryFault::RunMissing {
        run_id: "r".to_string(),
        boundary: DeliveryBoundary::NextStep,
    };
    assert!(missing.to_loop_error().to_text().contains("'r'"));
    let failed = BoundaryFault::LoadRun(storage_error()).to_loop_error();
    assert!(failed.to_text().contains("down"));
}

#[test]
fn unresolved_runs_fail_for_good() {
    let end = RunEnd::NotRun(Unresolved::NoResolutionId { run_id: "r".to_string() });
    assert_eq!(end.class_of_end(), RunClass::Permanent);
    assert!(end.to_error_text().contains("persistent dispatch for run 'r' has no resolution id"));
    let gone = Unresolved::RunDisappeared { run_id: "r".to_string() };
    assert!(matches!(
        gone.to_loop_error(),
        AgentLoopError::RuntimeError(RuntimeError::ResolveFailed { message })
            if message == "persistent dispatch run 'r' disappeared before resolution"
    ));
    let text = GiveUp::Reconstruction(MailboxError::Validation("v".to_string())).to_text();
    assert!(text.contains("validation error: v"));
}

// Settings and times.

#[test]
fn settings_are_positive_numbers_or_else_the_default() {
    assert_eq!(env_usize(Some("7"), 3), 7);
    assert_eq!(env_usize(Some("0"), 3), 3);
    assert_eq!(env_usize(Some("-1"), 3), 3);
    assert_eq!(env_usize(Some("many"), 3), 3);
    assert_eq!(env_usize(None, 3), 3);
    assert_eq!(env_duration_ms(Some("250"), 10), 250);
    assert_eq!(env_duration_ms(Some("99999999999999999999"), 10), 10);
    assert_eq!(env_duration_ms(Some(""), 10), 10);
    assert_eq!(dispatch_signal_nack_base_delay(None), 500);
    assert_eq!(dispatch_signal_nack_base_delay(Some("20")), 20);
    assert_eq!(dispatch_signal_nack_max_delay(Some("x")), 30_000);
}

#[test]
fn latencies_are_measured_from_queueing_eligibility_and_claim() {
    let mut measured = dispatch("d");
    measured.created_at = 1_000;
    measured.available_at = 1_500;
    measured.updated_at = 1_800;
    let start = dispatch_start_latencies(&measured, 2_000);
    assert_eq!(start.enqueue_to_start_ms, 1_000);
    assert_eq!(start.eligible_to_start_ms, 500);
    assert_eq!(start.claim_to_start_ms, 200);
    let early = dispatch_start_latencies(&measured, 1_200);
    assert_eq!(early.eligible_to_start_ms, 0);
    let end = dispatch_completion_latencies(&measured, 2_000, 2_750);
    assert_eq!(end.runtime_ms, 750);
    assert_eq!(end.enqueue_to_complete_ms, 1_750);
    assert_eq!(dispatch_terminal_latencies(&measured, 3_000).enqueue_to_complete_ms, 2_000);
}

#[test]
fn retry_time_adds_the_delay() {
    let config = MailboxConfig::default();
    assert_eq!(retry_at(&config, 0, 1_000), 1_250);
    assert_eq!(retry_at(&config, 3, 1_000), 1_000 + 1_000);
    assert_eq!(run_gc(&config, 100_000_000), 13_600_000);
    assert_eq!(run_gc(&config, 5), 0);
}

#[test]
fn labels_are_stable() {
    assert_eq!(result_label(&Ok::<u8, u8>(1)), "ok");
    assert_eq!(result_label(&Err::<u8, u8>(1)), "error");
    assert_eq!(claim_label(&Ok(Vec::new())), "empty");
    assert_eq!(claim_label(&Ok(vec![dispatch("d")])), "ok");
    assert_eq!(claim_dispatch_label(&Ok(None)), "empty");
    assert_eq!(claim_dispatch_label(&Err(storage_error())), "error");
    assert_eq!(dispatch_status_label(RunDispatchStatus::DeadLetter), "dead_letter");
    assert_eq!(dispatch_status_label(RunDispatchStatus::Queued), "queued");
    assert_eq!(boundary_name(DeliveryBoundary::NextStep), "NextStep");
}

// Leases, signals and claims.

#[test]
fn a_suspended_run_has_the_longer_lease() {
    let config = MailboxConfig::default();
    assert_eq!(effective_lease(&config, false), 30_000);
    assert_eq!(effective_lease(&config, true), 600_000);
    assert_eq!(lease_renewal(&Ok(true)).0, LeaseRenewal::Held);
    assert_eq!(lease_renewal(&Ok(false)).0, LeaseRenewal::CancelRun);
    assert_eq!(lease_renewal(&Err(storage_error())).0, LeaseRenewal::Stop);
}

#[test]
fn release_is_polled_until_the_deadline() {
    let held = || Ok(Some(claimed("d", "t")));
    assert_eq!(wait_for_dispatch_not_claimed(held(), false), ReleasePoll::PollAgain);
    assert_eq!(wait_for_dispatch_not_claimed(held(), true), ReleasePoll::TimedOut);
    assert_eq!(wait_for_dispatch_not_claimed(Ok(None), true), ReleasePoll::Released);
    assert_eq!(wait_for_dispatch_not_claimed(Ok(Some(dispatch("d"))), true), ReleasePoll::Released);
    assert_eq!(
        wait_for_dispatch_not_claimed(Err(storage_error()), false),
        ReleasePoll::Failed { fault: Fault::Store(storage_error()) }
    );
}

#[test]
fn signal_handlers_are_bounded_and_never_none() {
    assert_eq!(concurrent_signal_handlers(16, 4), 4);
    assert_eq!(concurrent_signal_handlers(2, 4), 2);
    assert_eq!(concurrent_signal_handlers(0, 4), 1);
    assert!(!is_redelivery(None));
    assert!(!is_redelivery(Some(1)));
    assert!(is_redelivery(Some(2)));
    let mut later = dispatch("d");
    later.available_at = 2_000;
    assert!(!dispatch_signal_still_available(&Some(later.clone()), 1_999));
    assert!(dispatch_signal_still_available(&Some(later), 2_000));
    assert!(!dispatch_signal_still_available(&Some(claimed("d", "t")), 5_000));
    assert!(!dispatch_signal_still_available(&None, 5_000));
}

#[test]
fn signal_loop_handles_pulls_again_or_waits() {
    let executor =
        ExecutorFacilities { has_commit_coordinator: false, has_staged_coordinator: false };
    let mailbox = Mailbox::new(executor, "c".to_string(), MailboxConfig::default());
    let handled = mailbox.run_dispatch_signal_loop(&Ok(3), 16);
    assert_eq!(handled, SignalPull::Handle { concurrent: 3 });
    assert_eq!(mailbox.run_dispatch_signal_loop(&Ok(0), 16), SignalPull::PullAgain);
    assert_eq!(mailbox.run_dispatch_signal_loop(&Err(storage_error()), 16), SignalPull::Wait);
}

#[test]
fn the_claim_holds_while_the_token_does() {
    let token = "t".to_string();
    assert!(holds_claim(&token, &claimed("d", "t")));
    assert!(!holds_claim(&token, &claimed("d", "other")));
    assert!(!holds_claim(&token, &dispatch("d")));
}

#[test]
fn a_lost_ack_is_recovered_only_by_the_holder() {
    let id = "d".to_string();
    let token = "t".to_string();
    let recover = |stored: &Option<RunDispatch>| {
        recover_completed_ack_after_result_recorded(stored, &id, &token)
    };
    assert_eq!(
        recover(&None),
        AckRecovery::Refused(AckRefusal::Missing { dispatch_id: "d".to_string() })
    );
    let mut acked = dispatch("d");
    acked.status = RunDispatchStatus::Acked;
    acked.run_status = Some(RunStatus::Done);
    assert_eq!(recover(&Some(acked)), AckRecovery::AlreadyAcked);
    let mut recorded = claimed("d", "t");
    recorded.run_status = Some(RunStatus::Done);
    assert_eq!(recover(&Some(recorded)), AckRecovery::AckAgain);
    let lost = recover(&Some(claimed("d", "other")));
    assert_eq!(lost, AckRecovery::Refused(AckRefusal::ClaimLost));
    let queued = recover(&Some(dispatch("d")));
    assert!(matches!(queued, AckRecovery::Refused(AckRefusal::WrongStatus { .. })));
    let unrecorded = recover(&Some(claimed("d", "t")));
    match unrecorded {
        AckRecovery::Refused(refusal) => assert_eq!(
            refusal.to_storage_error(),
            StorageError::Validation(
                "cannot recover ack for dispatch 'd' without recorded Done result".to_string()
            )
        ),
        other => panic!("unexpected recovery: {other:?}"),
    }
    assert_eq!(
        AckRefusal::ClaimLost.to_storage_error(),
        StorageError::VersionConflict { expected: 0, actual: 1 }
    );
}

// Results of runs.

#[test]
fn results_of_runs_are_recorded() {
    let done = Ok(AgentRunResult {
        run_id: "other".to_string(),
        response: "finished".to_string(),
        termination: TerminationReason::NaturalEnd,
        steps: 2,
    });
    let result = mailbox_run_result("run-1", "inst-1", &done);
    assert_eq!(result.status, RunStatus::Done);
    assert_eq!(result.response.as_deref(), Some("finished"));
    assert_eq!(result.error, None);
    assert_eq!(result.dispatch_instance_id, "inst-1");
    let failed = failed_run_result("run-1", "inst-1", "boom".to_string());
    assert_eq!(failed.run_id, "run-1");
    assert_eq!(failed.status, RunStatus::Done);
    assert_eq!(failed.termination, Some(TerminationReason::Error("boom".to_string())));
    assert_eq!(failed.error.as_deref(), Some("boom"));
    assert_eq!(failed.response, None);
    let unauthorized = Err(AgentLoopError::Inference(InferenceExecutionError::Unauthorized(
        "403".to_string(),
    )));
    let refused = mailbox_run_result("run-1", "inst-1", &unauthorized);
    assert!(refused.error.unwrap().contains("unauthorized"));
}

#[test]
fn identity_of_a_failed_run_names_dispatch_and_session() {
    let identity = mailbox_run_identity(&dispatch("d"), "run-1", "inst-1");
    assert_eq!(identity.thread_id, "thread-1");
    assert_eq!(identity.run_id, "run-1");
    assert_eq!(identity.dispatch_id.as_deref(), Some("d"));
    assert_eq!(identity.session_id.as_deref(), Some("inst-1"));
    assert_eq!(identity.origin, RunOrigin::Internal);
}

#[test]
fn targets_name_the_dispatch_where_it_is_known() {
    let target = live_target_for_dispatch(&dispatch("d"));
    assert_eq!(target.dispatch_id.as_deref(), Some("d"));
    assert_eq!(target.run_id, "run-1");
    let target = live_target_for_run(&run("r", "t", RunStatus::Running));
    assert_eq!(target.dispatch_id, None);
    assert_eq!(target.thread_id, "t");
    let details = MailboxInterruptDetails {
        new_dispatch_epoch: 4,
        active_dispatch: None,
        superseded_count: 1,
        superseded_dispatches: vec![dispatch("d")],
    };
    let summary = details.summary();
    assert_eq!(summary.new_dispatch_epoch, 4);
    assert_eq!(summary.superseded_count, 1);
}

// Cancellation.

#[test]
fn only_ended_dispatches_are_reconciled() {
    assert_eq!(reconcile_terminal_dispatch(RunDispatchStatus::Queued), None);
    assert_eq!(reconcile_terminal_dispatch(RunDispatchStatus::Claimed), None);
    assert_eq!(reconcile_terminal_dispatch(RunDispatchStatus::Acked), None);
    let cancelled = reconcile_terminal_dispatch(RunDispatchStatus::Cancelled);
    assert_eq!(cancelled, Some(TerminalKind::Cancelled));
}

#[test]
fn a_run_that_is_done_is_not_marked_again() {
    let mark = TerminalMark::mark_cancelled_dispatch_run_cancelled(dispatch("d"));
    let done = run("run-1", "thread-1", RunStatus::Done);
    let mark = mark.advance(MarkReply::Run { result: Ok(Some(done)), now: 9 });
    assert_eq!(mark.step, MarkStep::Done { outcome: Ok(false) });
    let mark = TerminalMark::mark_cancelled_dispatch_run_cancelled(dispatch("d"));
    let foreign = run("run-1", "another-thread", RunStatus::Created);
    let mark = mark.advance(MarkReply::Run { result: Ok(Some(foreign)), now: 9 });
    assert_eq!(mark.step, MarkStep::Done { outcome: Ok(false) });
}

#[test]
fn marking_gives_up_after_too_many_conflicts() {
    let mut mark = TerminalMark::mark_dead_letter_dispatch_run_error(dispatch("d"));
    let open = run("run-1", "thread-1", RunStatus::Running);
    mark = mark.advance(MarkReply::Run { result: Ok(Some(open)), now: 9 });
    match &mark.step {
        MarkStep::LoadCommitted { record, .. } => {
            assert_eq!(record.finished_at, Some(9));
            assert_eq!(
                record.termination_reason,
                Some(TerminationReason::Error("mailbox dispatch dead-lettered".to_string()))
            );
        }
        other => panic!("unexpected step: {other:?}"),
    }
    let mut commits = 0;
    while !matches!(mark.step, MarkStep::Done { .. }) {
        mark = mark.advance(MarkReply::Messages(Ok(None)));
        mark = mark.advance(MarkReply::Committed(CommitOutcome::Conflict));
        commits += 1;
    }
    assert_eq!(commits, 8);
    let gave_up = Fault::TerminalRetriesExhausted { thread_id: "thread-1".to_string() };
    assert_eq!(mark.step, MarkStep::Done { outcome: Err(gave_up) });
}

#[test]
fn reconciliation_reads_page_after_page() {
    let scan = TerminalReconciliation::reconcile_terminal_dispatches(2);
    let mut ended = dispatch("d");
    ended.status = RunDispatchStatus::Cancelled;
    let page = ReconcileReply::Listed(Ok(vec![ended.clone(), dispatch("e")]));
    assert!(scan.expects(&page));
    let scan = scan.advance(page);
    assert_eq!(scan.due().unwrap().1, Some(TerminalKind::Cancelled));
    let scan = scan.advance(ReconcileReply::Performed);
    assert_eq!(scan.due().unwrap().1, None);
    let scan = scan.advance(ReconcileReply::Performed);
    assert_eq!(scan.step, ReconcileStep::List { offset: 2 });
    let scan = scan.advance(ReconcileReply::Listed(Ok(vec![ended])));
    let scan = scan.advance(ReconcileReply::Performed);
    assert_eq!(scan.step, ReconcileStep::Done);
    let failed = TerminalReconciliation::reconcile_terminal_dispatches(2);
    let failed = failed.advance(ReconcileReply::Listed(Err(storage_error())));
    assert_eq!(failed.step, ReconcileStep::Done);
}

#[test]
fn an_id_is_routed_by_dispatch_then_run_then_thread() {
    let step = RouteStep::LoadDispatch;
    let step = advance_route(step, RouteReply::Dispatch(Ok(None)));
    assert_eq!(step, RouteStep::LoadRun);
    let step = advance_route(step, RouteReply::Run(Ok(None)));
    assert_eq!(step, RouteStep::LatestRun);
    let live = run("r", "t", RunStatus::Running);
    let step = advance_route(step, RouteReply::Run(Ok(Some(live))));
    match step {
        RouteStep::Deliver { target } => assert_eq!(
            target,
            LiveRunTarget {
                thread_id: "t".to_string(),
                run_id: "r".to_string(),
                dispatch_id: None,
            }
        ),
        other => panic!("unexpected step: {other:?}"),
    }
}

#[test]
fn a_cancel_that_does_not_wait_asks_this_process_first() {
    let active = claimed("d", "t");
    let step = cancel_active_dispatch(false);
    assert_eq!(step, ActiveStep::Cancel);
    let here = advance_active(&active, false, step, ActiveReply::Accepted(true));
    assert_eq!(here, ActiveStep::Done { outcome: Ok(true) });
    let elsewhere =
        advance_active(&active, false, ActiveStep::Cancel, ActiveReply::Accepted(false));
    assert!(matches!(elsewhere, ActiveStep::Deliver { .. }));
    assert_eq!(cancel_active_dispatch(true), ActiveStep::CancelAndWait);
}

#[test]
fn commits_are_told_apart() {
    assert_eq!(commit_run_append(Ok(())), CommitOutcome::Committed);
    let conflict = commit_run_append(Err(CommitError::MessageVersionConflict));
    assert_eq!(conflict, CommitOutcome::Conflict);
    let failed = commit_run_append(Err(CommitError::Other { error: "e".to_string() }));
    assert!(matches!(failed, CommitOutcome::Failed { .. }));
}

// Replay.

fn snapshot(thread_id: &str) -> RunActivationSnapshot {
    let request = RunActivation::new(thread_id.to_string(), vec![user("a")]);
    RunActivationSnapshot {
        intent: request.intent,
        options: request.options,
        trace: request.trace,
        input: RunInputSnapshot {
            thread_id: thread_id.to_string(),
            range: None,
            trigger_message_ids: vec!["m-1".to_string()],
            selected_message_ids: Vec::new(),
            context_policy: None,
            compacted_snapshot_id: None,
        },
        seeded_decisions: Vec::new(),
        resolution_id: Some("res-1".to_string()),
    }
}

#[test]
fn messages_are_found_by_their_ids() {
    let log = vec![user("a").with_id("m-1".to_string()), user("b").with_id("m-2".to_string())];
    let ids = vec!["m-2".to_string(), "m-1".to_string()];
    let found = messages_by_ids(&log, &ids).unwrap();
    assert_eq!(found[0].text(), "b");
    assert_eq!(found[1].text(), "a");
    assert!(messages_by_ids(&log, &vec!["m-3".to_string()]).is_none());
}

#[test]
fn replay_names_run_and_dispatch() {
    let mut record = run("run-1", "thread-1", RunStatus::Created);
    record.activation = Some(snapshot("thread-1"));
    let flow = Reconstruction::reconstruct_run_request(dispatch("d"), None);
    assert_eq!(flow.step, ReplayStep::LoadRun);
    let flow = flow.advance(ReplayReply::Run(Ok(Some(record))));
    assert!(matches!(flow.step, ReplayStep::ReadCache { .. }));
    let log = vec![user("a").with_id("m-1".to_string())];
    let flow = flow.advance(ReplayReply::Cached(Some(log)));
    match flow.step {
        ReplayStep::Done { outcome: Ok(request) } => {
            assert_eq!(request.intent.thread_id, "thread-1");
            assert_eq!(request.persistence.run_id_hint.as_deref(), Some("run-1"));
            assert_eq!(request.trace.dispatch_id.as_deref(), Some("d"));
            assert_eq!(request.messages[0].text(), "a");
            assert!(request.persistence.messages_already_persisted);
        }
        other => panic!("unexpected step: {other:?}"),
    }
}

#[test]
fn replay_refuses_a_run_of_another_thread() {
    let mut record = run("run-1", "elsewhere", RunStatus::Created);
    record.activation = Some(snapshot("elsewhere"));
    let flow = Reconstruction::reconstruct_run_request(dispatch("d"), None);
    let flow = flow.advance(ReplayReply::Run(Ok(Some(record))));
    assert!(matches!(
        flow.step,
        ReplayStep::Done { outcome: Err(Fault::DispatchThreadMismatch { .. }) }
    ));
    let flow = Reconstruction::reconstruct_run_request(dispatch("d"), None);
    let flow = flow.advance(ReplayReply::Run(Ok(None)));
    assert!(matches!(
        flow.step,
        ReplayStep::Done { outcome: Err(Fault::DispatchRunMissing { .. }) }
    ));
}

#[test]
fn extras_survive_a_round_trip() {
    let mut request = RunActivation::new("t".to_string(), vec![user("a")]);
    request.options.frontend_tools.push(json(r#"{"id": "ft1"}"#));
    request.trace.run_mode = RunMode::Scheduled;
    request.trace.parent_thread_id = Some("p".to_string());
    let extras = LegacyRunSnapshotExtras::from_request(&request);
    assert!(extras.to_value().unwrap().is_some());
    let plain = RunActivation::new("t".to_string(), vec![user("a")]);
    let replayed = extras.apply_to(plain);
    assert_eq!(replayed.options.frontend_tools, vec![json(r#"{"id": "ft1"}"#)]);
    assert_eq!(replayed.trace.run_mode, RunMode::Scheduled);
    assert_eq!(replayed.trace.parent_thread_id.as_deref(), Some("p"));
}

// Pending messages.

fn entry(id: &str, mode: DeliveryMode) -> PendingMessageRecord {
    PendingMessageRecord {
        pending_id: id.to_string(),
        thread_id: "t".to_string(),
        position: 1,
        message: user("queued").with_id(id.to_string()),
        revision: 1,
        delivery_mode: mode,
        created_at: None,
        updated_at: None,
    }
}

#[test]
fn delivery_modes_follow_the_boundary() {
    let run_id = "r".to_string();
    let interrupt = delivery_mode_for_dispatch(DeliveryBoundary::Interrupt, &run_id);
    assert_eq!(interrupt.boundary, DeliveryBoundary::Interrupt);
    assert_eq!(interrupt.target_run_id, None);
    let next = delivery_mode_for_live_run(DeliveryBoundary::NextStep, &run_id);
    assert_eq!(next.boundary, DeliveryBoundary::NextStep);
    assert_eq!(next.granularity, DeliveryGranularity::Batch);
    assert_eq!(next.target_run_id.as_deref(), Some("r"));
    assert!(!next.fallback_to_new_run);
}

#[test]
fn pending_goes_through_the_boundary_of_the_run_mode() {
    let messages = vec![user("a").with_id("m".to_string())];
    let mut request = RunActivation::new("t".to_string(), messages.clone());
    let boundary =
        |request: &RunActivation| prepare_pending_messages_for_dispatch(true, request, &messages);
    assert_eq!(boundary(&request), Some(DeliveryBoundary::Interrupt));
    request.trace.run_mode = RunMode::Scheduled;
    assert_eq!(boundary(&request), Some(DeliveryBoundary::NewRun));
    request.trace.run_mode = RunMode::Resume;
    assert_eq!(boundary(&request), Some(DeliveryBoundary::ResumeInput));
    request.trace.run_mode = RunMode::InternalWake;
    assert_eq!(boundary(&request), None);
    request.trace.run_mode = RunMode::Foreground;
    assert_eq!(prepare_pending_messages_for_dispatch(false, &request, &messages), None);
    assert_eq!(prepare_pending_messages_for_dispatch(true, &request, &Vec::new()), None);
}

#[test]
fn preflight_asks_whether_the_new_message_would_get_through() {
    let thread_id = "t".to_string();
    assert!(preflight_foreground_pending(&thread_id, None).is_none());
    assert!(preflight_foreground_pending(&thread_id, Some(Vec::new())).is_none());
    let run_id = "r".to_string();
    let mode = delivery_mode_for_dispatch(DeliveryBoundary::NewRun, &run_id);
    let queue =
        preflight_foreground_pending(&thread_id, Some(vec![entry("p-1", mode)])).unwrap();
    assert_eq!(queue.len(), 2);
    assert_eq!(queue[1].pending_id, "__preflight_foreground__");
    assert!(preflight_verdict(&queue, 1).is_ok());
    assert_eq!(
        preflight_verdict(&queue, 0),
        Err(Fault::DeliveryBlockedByBarrier { blocking_pending_id: "p-1".to_string() })
    );
}

#[test]
fn appended_messages_come_last() {
    let run_id = "r".to_string();
    let mode = delivery_mode_for_dispatch(DeliveryBoundary::NewRun, &run_id);
    let stored = vec![entry("p-1", mode.clone())];
    let appended = vec![user("b").with_id("p-2".to_string())];
    let queue = simulate_append(stored, &"t".to_string(), &appended, &mode);
    let ids: Vec<&str> = queue.iter().map(|entry| entry.pending_id.as_str()).collect();
    assert_eq!(ids, vec!["p-1", "p-2"]);
    assert!(queue[0].position < queue[1].position);
}

#[test]
fn staging_of_nothing_stages_nothing() {
    let run_id = "r".to_string();
    assert!(stage_pending_messages(&run_id, DeliveryBoundary::NextStep, Vec::new()).is_none());
    let staged =
        stage_pending_messages(&run_id, DeliveryBoundary::NextStep, vec![nameless("a")]).unwrap();
    assert_eq!(staged.messages.len(), 1);
    assert!(staged.messages[0].id.is_some());
    assert_eq!(staged.mode.target_run_id.as_deref(), Some("r"));
}

// Events.

fn resume(result: serde_json::Value) -> ToolCallResume {
    ToolCallResume {
        decision_id: "d1".to_string(),
        action: ResumeDecisionAction::Resume,
        result,
        reason: None,
        updated_at: 0,
    }
}

fn target() -> LiveRunTarget {
    LiveRunTarget {
        thread_id: "t".to_string(),
        run_id: "r".to_string(),
        dispatch_id: None,
    }
}

#[test]
fn permission_follows_the_approved_flag() {
    let approved = resume(json(r#"{"approved": false}"#));
    let event = record_tool_permission_resolved(&target(), "tc", &approved, "local_live").unwrap();
    assert_eq!(event.kind, "ToolPermissionResolved");
    assert_eq!(event.run_id, "r");
    let text = resume(json(r#"{"approved": "yes"}"#));
    assert!(record_tool_permission_resolved(&target(), "tc", &text, "local_live").is_none());
    let other = resume(json("[true]"));
    assert!(record_tool_permission_resolved(&target(), "tc", &other, "local_live").is_none());
    assert!(permission_resolved_event(&target(), "tc", &other, Some(true), "local_live").is_some());
}

#[test]
fn message_kinds() {
    assert_eq!(message_kind(&user("a")), "user_input");
    assert_eq!(message_kind(&Message::assistant("a".to_string())), "assistant_output");
    assert_eq!(Message::internal_user("a".to_string()).visibility, Visibility::Internal);
}

#[test]
fn checkpoint_ranges_are_within_the_log() {
    let thread_id = "t".to_string();
    let run_id = "r".to_string();
    let log = vec![user("a").with_id("m-1".to_string()), nameless("b")];
    let check = |first: u64, last: u64| {
        validate_checkpoint_event_range(&thread_id, &run_id, &log, first, last)
    };
    assert!(check(1, 1).is_ok());
    assert!(matches!(check(1, 2), Err(Fault::CheckpointMessageId { seq: 2, .. })));
    assert!(matches!(check(0, 1), Err(Fault::CheckpointRange { count: 2, .. })));
    assert!(matches!(check(3, 3), Err(Fault::CheckpointRange { count: 2, .. })));
    assert!(check(2, 1).is_ok());
    let event = record_message_committed(&thread_id, &run_id, &log, 1).unwrap();
    assert_eq!(event.kind, "MessageCommitted");
    let seq = match &event.payload {
        remo_server::mailbox::server_event_capture::EventPayload::Fields(fields) => {
            fields.iter().any(|field| {
                field.name == "message_seq" && field.value == PayloadValue::Number(1)
            })
        }
        _ => false,
    };
    assert!(seq);
    assert!(record_message_committed(&thread_id, &run_id, &log, 3).is_none());
}

// What a run is given.

fn capturing_mailbox(has_pending_store: bool) -> Mailbox {
    let executor =
        ExecutorFacilities { has_commit_coordinator: true, has_staged_coordinator: true };
    let mailbox = if has_pending_store {
        Mailbox::new_with_pending_thread_run_store(
            executor,
            "c".to_string(),
            MailboxConfig::default(),
        )
    } else {
        Mailbox::new(executor, "c".to_string(), MailboxConfig::default())
    };
    mailbox
        .with_runtime_event_capture(RuntimeEventDurability::Compacted, "server".to_string(), None)
        .unwrap()
}

#[test]
fn captured_events_carry_the_ids_of_the_dispatch() {
    let mailbox = capturing_mailbox(false);
    let scope =
        mailbox.wrap_dispatch_runtime_event_sink(&dispatch("d"), "d".to_string(), true).unwrap();
    assert_eq!(scope.thread_id, "thread-1");
    assert_eq!(scope.run_id, "run-1");
    assert_eq!(scope.origin, "server");
    assert_eq!(scope.correlation_id, "d");
    assert!(scope.resumed);
    let disabled = mailbox
        .with_runtime_event_capture(RuntimeEventDurability::Disabled, String::new(), None)
        .unwrap();
    let none = disabled.wrap_dispatch_runtime_event_sink(&dispatch("d"), "d".to_string(), true);
    assert!(none.is_none());
}

#[test]
fn boundaries_are_handled_where_there_is_a_pending_store() {
    let request = RunActivation::new("t".to_string(), vec![user("a")]);
    let run_id = "r".to_string();
    let without = capturing_mailbox(false);
    assert!(without.pending_boundary_handler(&request, &run_id, "res".to_string()).is_none());
    assert_eq!(without.deliver(vec![user("a")]), Err(Fault::PendingStoreMissing));
    let with = capturing_mailbox(true);
    let handler = with.pending_boundary_handler(&request, &run_id, "res".to_string()).unwrap();
    assert_eq!(handler.thread_id, "t");
    assert_eq!(handler.run_id, "r");
    assert_eq!(handler.snapshot_template.resolution_id.as_deref(), Some("res"));
    assert!(handler.snapshot_template.input.trigger_message_ids.is_empty());
    assert!(with.deliver(vec![nameless("a")]).unwrap()[0].id.is_some());
}

// Tables and queues.

#[test]
fn a_worker_goes_round_from_idle_to_idle() {
    let mut workers: WorkerTable<u8, u8> = WorkerTable::new();
    let thread_id = "t".to_string();
    assert_eq!(workers.try_claim("t"), ClaimStart::NoWorker);
    workers.get_or_create_worker(&thread_id);
    assert_eq!(workers.try_claim("t"), ClaimStart::Claiming);
    assert_eq!(workers.try_claim("t"), ClaimStart::Busy);
    workers.start_running(&thread_id, "d".to_string(), "r".to_string(), 7, Some(1));
    assert_eq!(workers.active_run("t"), Some(("d".to_string(), "r".to_string())));
    assert_eq!(workers.reconnect_sink("t"), Some(&7));
    workers.revert_claiming_to_idle("t");
    assert!(workers.active_run("t").is_some());
    assert_eq!(workers.finish_execution(&thread_id, "another"), None);
    assert!(workers.active_run("t").is_some());
    assert_eq!(workers.finish_execution(&thread_id, "d"), Some(7));
    assert!(matches!(workers.get("t").unwrap().status, MailboxWorkerStatus::Idle));
    assert_eq!(workers.get("t").unwrap().thread_ctx, None);
    assert_eq!(workers.idle_threads(), vec!["t".to_string()]);
    assert_eq!(workers.gc_idle_workers(&vec!["t".to_string(), "u".to_string()]), 1);
    assert!(workers.get("t").is_none());
}

#[test]
fn a_full_repair_queue_gives_up_its_oldest_task() {
    let task = |n: usize| CheckpointRepairTask {
        thread_id: format!("t-{n}"),
        run_id: "r".to_string(),
        first_seq: 1,
        last_seq: 1,
    };
    let mut queue = CheckpointRepairQueue::new();
    assert_eq!(queue.enqueue_checkpoint_repair(false, task(0)), None);
    assert!(queue.take_tasks(true).is_empty());
    for n in 0..CHECKPOINT_REPAIR_QUEUE_CAP {
        assert_eq!(queue.enqueue_checkpoint_repair(true, task(n)), None);
    }
    assert_eq!(queue.enqueue_checkpoint_repair(true, task(9_999)), Some(task(0)));
    assert!(queue.take_tasks(false).is_empty());
    let tasks = queue.take_tasks(true);
    assert_eq!(tasks.len(), CHECKPOINT_REPAIR_QUEUE_CAP);
    assert_eq!(tasks[0], task(1));
    assert_eq!(tasks[CHECKPOINT_REPAIR_QUEUE_CAP - 1], task(9_999));
}

// Lifecycle.

#[test]
fn a_start_meets_a_transition() {
    assert_eq!(start_lifecycle(0, TransitionTry::Acquired), StartDecision::Start);
    let running = TransitionTry::Held { running: true };
    assert_eq!(start_lifecycle(3, running), StartDecision::AlreadyRunning);
    let held = TransitionTry::Held { running: false };
    assert_eq!(start_lifecycle(3, held), StartDecision::TryAgain { tries: 4 });
    let last = start_lifecycle(LIFECYCLE_START_TRIES - 1, held);
    assert_eq!(last, StartDecision::Fail { fault: Fault::LifecycleBusy });
    let poisoned = start_lifecycle(0, TransitionTry::Poisoned);
    assert_eq!(poisoned, StartDecision::Fail { fault: Fault::LifecyclePoisoned });
}

#[test]
fn tasks_are_started_once() {
    let config = MailboxLifecycleConfig::default();
    let tasks = start_lifecycle_internal(&config, Some(false), true, false).unwrap().unwrap();
    assert!(tasks.recover);
    assert!(tasks.maintenance);
    assert!(!tasks.dispatch_signals);
    assert_eq!(start_lifecycle_internal(&config, Some(true), true, true), Ok(None));
    assert_eq!(
        start_lifecycle_internal(&config, None, true, true),
        Err(Fault::LifecyclePoisoned)
    );
    assert_eq!(lifecycle_is_running(Some(true)), Ok(true));
    assert_eq!(lifecycle_is_running(None), Err(Fault::LifecyclePoisoned));
}

#[test]
fn startup_recovery_is_tried_at_least_once_and_at_most_as_often_as_allowed() {
    let config = MailboxStartupRecoveryConfig { max_attempts: 0, retry_delay: 0 };
    let failed = || StartupReply::Recovered(Err(Fault::LifecycleBusy));
    let step = StartupStep::Recover { attempt: 1 };
    let step = run_startup_recovery_with_retry(&config, step, failed());
    assert_eq!(step, StartupStep::Done { outcome: Err(Fault::LifecycleBusy) });
    let config = MailboxStartupRecoveryConfig { max_attempts: 2, retry_delay: 0 };
    let step = StartupStep::Recover { attempt: 1 };
    let step = run_startup_recovery_with_retry(&config, step, failed());
    let step = match step {
        StartupStep::Sleep { .. } => {
            run_startup_recovery_with_retry(&config, step, StartupReply::Performed)
        }
        other => other,
    };
    assert_eq!(step, StartupStep::Recover { attempt: 2 });
    let step = run_startup_recovery_with_retry(&config, step, StartupReply::Recovered(Ok(3)));
    assert_eq!(step, StartupStep::Done { outcome: Ok(3) });
}

#[test]
fn maintenance_callback_runs_on_gc_tick() {
    let sweep = maintenance_work(MaintenanceTick::Sweep, true);
    assert!(sweep.sweep && !sweep.collect && !sweep.callback);
    let collect = maintenance_work(MaintenanceTick::Collect, true);
    assert!(!collect.sweep && collect.collect && collect.callback);
    assert!(!maintenance_work(MaintenanceTick::Collect, false).callback);
    assert!(may_collect(&Ok(Vec::new())));
    assert!(!may_collect(&Ok(vec![dispatch("d")])));
    assert!(!may_collect(&Err(storage_error())));
}
