//! The mailbox: how runs are submitted, dispatched, executed and reconciled.
//!
//! What the mailbox asks of its stores, its executor and its event publisher is
//! written as steps. A step names the one operation that is due; the driver
//! performs it and hands the reply back, and the reply decides the next step.

pub mod cancel;
pub mod checkpoint;
pub mod checkpoint_repair;
pub mod concurrent_freeze;
pub mod concurrent_prepare;
pub mod config;
pub mod decision;
pub mod dispatch_execution;
pub mod event_contents;
pub mod event_repair;
pub mod facade;
pub mod helpers;
pub mod legacy;
pub mod lifecycle;
pub mod live_delivery;
pub mod pending_boundary;
pub mod pending_delivery;
pub mod pending_freeze;
pub mod prepare_run;
pub mod prepared_request;
pub mod reconstruct;
pub mod recovery;
pub mod recovery_coverage;
pub mod server_event_capture;
pub mod signal_loop;
pub mod submit;
pub mod submit_course;
pub mod workers;

pub use config::{MailboxConfig, MailboxLifecycleConfig, MailboxStartupRecoveryConfig};
pub use facade::{IntoDispatchExecutor, Mailbox};
pub use live_delivery::{MailboxDispatchStatus, MailboxSubmitResult};
