//! Configuration of the mailbox. Intervals and delays are in milliseconds.

use vstd::prelude::*;

use crate::text::{parse_u64, parsed_number};

verus! {

/// How far ahead an inline-claimed dispatch is made available, so that no sweep
/// takes it during the claim.
pub const INLINE_CLAIM_GUARD_MS: u64 = 60_000;

/// Page size of the recovery scan over threads with pending messages.
pub const PENDING_RECOVERY_PAGE_SIZE: usize = 256;

/// How many expired leases are reclaimed at once.
pub const RECLAIM_LIMIT: usize = 100;

/// Page size of the scans over run records.
pub const RUN_PAGE_SIZE: usize = 200;

/// Page size of the scan that repairs checkpoint events.
pub const REPAIR_PAGE_SIZE: usize = 100;

/// The delay of the first negative acknowledgement of a blocked signal.
pub const SIGNAL_NACK_BASE_DELAY_MS: u64 = 500;

/// The longest delay of a negative acknowledgement of a blocked signal.
pub const SIGNAL_NACK_MAX_DELAY_MS: u64 = 30_000;

/// Leases, intervals and retries.
#[derive(Clone, Copy, Debug, PartialEq, Eq, Structural)]
pub struct MailboxConfig {
    pub lease_ms: u64,
    pub suspended_lease_ms: u64,
    pub lease_renewal_interval: u64,
    pub sweep_interval: u64,
    pub gc_interval: u64,
    pub gc_ttl: u64,
    pub default_max_attempts: u32,
    pub default_retry_delay_ms: u64,
    pub max_retry_delay_ms: u64,
}

impl Default for MailboxConfig {
    fn default() -> (r: Self)
        ensures
            r == (MailboxConfig {
                lease_ms: 30_000,
                suspended_lease_ms: 600_000,
                lease_renewal_interval: 10_000,
                sweep_interval: 30_000,
                gc_interval: 60_000,
                gc_ttl: 86_400_000,
                default_max_attempts: 5,
                default_retry_delay_ms: 250,
                max_retry_delay_ms: 30_000,
            }),
    {
        MailboxConfig {
            lease_ms: 30_000,
            suspended_lease_ms: 600_000,
            lease_renewal_interval: 10_000,
            sweep_interval: 30_000,
            gc_interval: 60_000,
            gc_ttl: 86_400_000,
            default_max_attempts: 5,
            default_retry_delay_ms: 250,
            max_retry_delay_ms: 30_000,
        }
    }
}

/// How often startup recovery is tried, and how long it waits in between.
#[derive(Clone, Copy, Debug, PartialEq, Eq, Structural)]
pub struct MailboxStartupRecoveryConfig {
    pub max_attempts: usize,
    pub retry_delay: u64,
}

/// How the lifecycle of a mailbox is started. `has_maintenance_callback` tells
/// whether the application runs something of its own on each collection.
#[derive(Clone, Copy, Debug, PartialEq, Eq, Structural)]
pub struct MailboxLifecycleConfig {
    pub startup_delay: u64,
    pub startup_recovery: MailboxStartupRecoveryConfig,
    pub has_maintenance_callback: bool,
}

impl Default for MailboxLifecycleConfig {
    fn default() -> (r: Self)
        ensures
            r == (MailboxLifecycleConfig {
                startup_delay: 0,
                startup_recovery: MailboxStartupRecoveryConfig {
                    max_attempts: 1,
                    retry_delay: 250,
                },
                has_maintenance_callback: false,
            }),
    {
        MailboxLifecycleConfig {
            startup_delay: 0,
            startup_recovery: MailboxStartupRecoveryConfig { max_attempts: 1, retry_delay: 250 },
            has_maintenance_callback: false,
        }
    }
}

/// The positive number that a setting denotes, where it denotes one.
pub open spec fn positive_setting(value: Option<&str>, max: nat) -> Option<nat> {
    match value {
        Some(text) => match parsed_number(text@, max) {
            Some(n) if n > 0 => Some(n),
            _ => None,
        },
        None => None,
    }
}

/// A count from the environment: the setting where it is a positive number, else
/// the default.
pub fn env_usize(value: Option<&str>, default: usize) -> (r: usize)
    ensures
        r as nat == match positive_setting(value, usize::MAX as nat) {
            Some(n) => n,
            None => default as nat,
        },
{
    match value {
        Some(text) => match parse_u64(text) {
            Some(n) => if n > 0 && n <= usize::MAX as u64 {
                n as usize
            } else {
                default
            },
            None => default,
        },
        None => default,
    }
}

/// A duration from the environment, in milliseconds: the setting where it is a
/// positive number, else the default.
pub fn env_duration_ms(value: Option<&str>, default: u64) -> (r: u64)
    ensures
        r as nat == match positive_setting(value, u64::MAX as nat) {
            Some(n) => n,
            None => default as nat,
        },
{
    match value {
        Some(text) => match parse_u64(text) {
            Some(n) => if n > 0 {
                n
            } else {
                default
            },
            None => default,
        },
        None => default,
    }
}

/// How long a signal is put off at first, given its setting.
pub fn dispatch_signal_nack_base_delay(value: Option<&str>) -> (r: u64)
    ensures
        r as nat == match positive_setting(value, u64::MAX as nat) {
            Some(n) => n,
            None => SIGNAL_NACK_BASE_DELAY_MS as nat,
        },
{
    env_duration_ms(value, SIGNAL_NACK_BASE_DELAY_MS)
}

/// How long a signal is put off at most, given its setting.
pub fn dispatch_signal_nack_max_delay(value: Option<&str>) -> (r: u64)
    ensures
        r as nat == match positive_setting(value, u64::MAX as nat) {
            Some(n) => n,
            None => SIGNAL_NACK_MAX_DELAY_MS as nat,
        },
{
    env_duration_ms(value, SIGNAL_NACK_MAX_DELAY_MS)
}

/// A setting counts exactly where it is a positive number that fits; a missing one, zero
/// and what is not a number leave the default.
pub proof fn lemma_only_positive_numbers_are_settings(value: Option<&str>, max: nat, n: nat)
    ensures
        value is None ==> positive_setting(value, max) is None,
        positive_setting(value, max) matches Some(number) ==> 0 < number <= max,
        value is Some && value->0@ == crate::text::decimal(n) && 0 < n <= max ==> positive_setting(
            value,
            max,
        ) == Some(n),
        value is Some && value->0@ == crate::text::decimal(0) ==> positive_setting(value, max)
            is None,
        value is Some && value->0@.len() == 0 ==> positive_setting(value, max) is None,
{
    crate::text::lemma_number_is_read_back(n);
    crate::text::lemma_number_is_read_back(0);
}

} // verus!
