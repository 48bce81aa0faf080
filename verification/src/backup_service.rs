//! The backup scheduler: debounces write activity into one pending backup
//! deadline, and turns a due deadline into a backup job.
//!
//! The service owns a single optional deadline.  Every backup request
//! overwrites it with "now plus the debounce interval", so a burst of writes
//! is covered by one backup scheduled after the burst settles.  A check
//! clears the deadline before reporting it due, so each deadline fires at
//! most once; what the fired backup has to do is handed back as a plan of
//! plain values for the caller to carry out.

use vstd::prelude::*;

use crate::archive_name::{archive_file_name, spec_archive_file_name};
use crate::config::Configuration;

verus! {

/// How long after the latest backup request a backup becomes due, in seconds.
pub const BACKUP_DEBOUNCE_SECONDS: i64 = 10800;

/// Relies on std::time::SystemTime::now and its duration_since for the
/// current wall-clock time as whole seconds since the Unix epoch: a clock
/// before the epoch reads negative, and a reading outside the representable
/// range saturates, so the call never panics.  Nothing is assumed about the
/// clock's value.
#[verifier::external_body]
fn now_epoch_seconds() -> i64 {
    match std::time::SystemTime::now().duration_since(std::time::UNIX_EPOCH) {
        Ok(since) => i64::try_from(since.as_secs()).unwrap_or(i64::MAX),
        Err(before) => i64::try_from(before.duration().as_secs()).map_or(i64::MIN, |s| -s),
    }
}

/// The deadline scheduled by a backup request at time `now`: the debounce
/// interval later, held within the representable range.
pub open spec fn spec_scheduled_deadline(now: int) -> int {
    if now + BACKUP_DEBOUNCE_SECONDS <= i64::MAX {
        now + BACKUP_DEBOUNCE_SECONDS
    } else {
        i64::MAX as int
    }
}

/// What a backup request at time `now` does to the pending deadline: it
/// overwrites it, whatever it was.
pub open spec fn spec_request_transition(pending: Option<int>, now: int) -> Option<int> {
    Some(spec_scheduled_deadline(now))
}

/// Whether a pending deadline is due at time `now`.
pub open spec fn spec_backup_due(pending: Option<int>, now: int) -> bool {
    pending matches Some(deadline) && now >= deadline
}

/// What a backup check at time `now` does to the pending deadline: a due
/// deadline is cleared, anything else stays.
pub open spec fn spec_check_transition(pending: Option<int>, now: int) -> Option<int> {
    if spec_backup_due(pending, now) {
        None
    } else {
        pending
    }
}

/// The timestamp an archive created at time `now` is named after; a clock
/// before the epoch counts as the epoch itself.
pub open spec fn spec_archive_timestamp(now: int) -> int {
    if now < 0 {
        0
    } else {
        now
    }
}

/// A service that schedules and describes backups of the application.
pub struct BackupService {
    pub configuration: Configuration,
    pub next_timed_backup: Option<i64>,
}

/// The pending deadline of a service, as a mathematical value.
pub open spec fn spec_pending(service: BackupService) -> Option<int> {
    match service.next_timed_backup {
        Some(deadline) => Some(deadline as int),
        None => None,
    }
}

/// Everything a due backup asks of its caller, as plain values: where the
/// archive goes and what it is called, what to snapshot, and how many
/// archives may stay afterwards.
pub struct BackupPlan {
    pub archive_timestamp: u64,
    pub archive_file_name: String,
    pub backup_folder_path: String,
    pub database_file_path: String,
    pub attachments_folder_path: String,
    pub maximum_backups: usize,
}

/// Whether `plan` describes the backup that `configuration` asks for at the
/// archive timestamp it carries.
pub open spec fn spec_plan_matches(plan: BackupPlan, configuration: Configuration) -> bool {
    &&& plan.archive_file_name@ == spec_archive_file_name(plan.archive_timestamp)
    &&& plan.backup_folder_path@ == configuration.spec_backup_folder_path()
    &&& plan.database_file_path@ == Configuration::spec_database_file_path()
    &&& plan.attachments_folder_path@ == configuration.spec_attachments_folder_path()
    &&& plan.maximum_backups == configuration.spec_maximum_backups()
}

impl BackupService {
    /// A new service for the given configuration, with no backup pending.
    pub fn new(configuration: Configuration) -> (service: BackupService)
        ensures
            service.configuration == configuration,
            service.next_timed_backup is None,
    {
        BackupService { configuration, next_timed_backup: None }
    }

    /// Schedules or re-schedules the timed backup as of time `now`: the
    /// pending deadline becomes the debounce interval after `now`,
    /// overwriting any earlier deadline.
    pub fn schedule_backup_at(&mut self, now: i64)
        ensures
            final(self).configuration == old(self).configuration,
            spec_pending(*final(self)) == spec_request_transition(spec_pending(*old(self)), now as int),
    {
        let deadline = if now <= i64::MAX - BACKUP_DEBOUNCE_SECONDS {
            now + BACKUP_DEBOUNCE_SECONDS
        } else {
            i64::MAX
        };
        self.next_timed_backup = Some(deadline);
    }

    /// Schedules or re-schedules a timed backup as of the current wall-clock
    /// time.  Whatever the clock reads, afterwards a backup is pending, at a
    /// deadline the debounce interval after some reading.
    pub fn request_timed_backup(&mut self)
        ensures
            final(self).configuration == old(self).configuration,
            final(self).next_timed_backup is Some,
            exists|now: int|
                spec_pending(*final(self)) == #[trigger] spec_request_transition(
                    spec_pending(*old(self)),
                    now,
                ),
    {
        let now = now_epoch_seconds();
        self.schedule_backup_at(now);
        proof {
            assert(spec_pending(*self) == spec_request_transition(
                spec_pending(*old(self)),
                now as int,
            ));
        }
    }

    /// Clears a deadline that is due at time `now` and reports whether one
    /// was: true exactly when a deadline was pending and `now` has reached
    /// it, and then the deadline is gone; otherwise nothing changes.
    pub fn fire_due_backup(&mut self, now: i64) -> (fired: bool)
        ensures
            final(self).configuration == old(self).configuration,
            fired == spec_backup_due(spec_pending(*old(self)), now as int),
            spec_pending(*final(self)) == spec_check_transition(spec_pending(*old(self)), now as int),
            !fired ==> *final(self) == *old(self),
    {
        match self.next_timed_backup {
            Some(deadline) => {
                if now >= deadline {
                    self.next_timed_backup = None;
                    true
                } else {
                    false
                }
            },
            None => false,
        }
    }

    /// The backup the configuration asks for at time `now`: the archive is
    /// named after `now` as epoch seconds and goes to the backup folder, the
    /// snapshot sources are the database file and the attachments folder,
    /// and the retention budget is the configured maximum.
    pub fn backup_plan_at(&self, now: i64) -> (plan: BackupPlan)
        ensures
            spec_plan_matches(plan, self.configuration),
            plan.archive_timestamp == spec_archive_timestamp(now as int),
    {
        let archive_timestamp: u64 = if now < 0 {
            0
        } else {
            now as u64
        };
        BackupPlan {
            archive_timestamp,
            archive_file_name: archive_file_name(archive_timestamp),
            backup_folder_path: self.configuration.application_backup_folder_path(),
            database_file_path: Configuration::application_database_file_path(),
            attachments_folder_path: self.configuration.application_attachments_folder_path(),
            maximum_backups: self.configuration.maximum_backups(),
        }
    }

    /// Checks the pending deadline against the wall clock.  If a backup is
    /// due, the deadline is cleared first — so each deadline yields at most
    /// one backup, and a failure of the returned plan does not reschedule —
    /// and the backup to perform is returned; otherwise nothing changes and
    /// there is nothing to do.
    pub fn check_timed_backup(&mut self) -> (job: Option<BackupPlan>)
        ensures
            final(self).configuration == old(self).configuration,
            job is Some <==> *final(self) != *old(self),
            old(self).next_timed_backup is None ==> job is None,
            job is None ==> *final(self) == *old(self),
            job matches Some(plan) ==> {
                &&& old(self).next_timed_backup is Some
                &&& final(self).next_timed_backup is None
                &&& spec_plan_matches(plan, old(self).configuration)
            },
            exists|now: int|
                {
                    &&& spec_pending(*final(self)) == #[trigger] spec_check_transition(
                        spec_pending(*old(self)),
                        now,
                    )
                    &&& (job matches Some(plan) ==> spec_backup_due(spec_pending(*old(self)), now)
                        && plan.archive_timestamp == spec_archive_timestamp(now))
                    &&& (job is None ==> !spec_backup_due(spec_pending(*old(self)), now))
                },
    {
        let now = now_epoch_seconds();
        if self.fire_due_backup(now) {
            let plan = self.backup_plan_at(now);
            proof {
                assert(spec_pending(*self) == spec_check_transition(
                    spec_pending(*old(self)),
                    now as int,
                ));
            }
            Some(plan)
        } else {
            proof {
                assert(spec_pending(*self) == spec_check_transition(
                    spec_pending(*old(self)),
                    now as int,
                ));
            }
            None
        }
    }
}

/// The pending deadline after a burst of backup requests at the given times.
pub open spec fn spec_run_requests(pending: Option<int>, times: Seq<int>) -> Option<int>
    decreases times.len(),
{
    if times.len() == 0 {
        pending
    } else {
        spec_run_requests(spec_request_transition(pending, times[0]), times.drop_first())
    }
}

/// Debounce: after any burst of backup requests, the pending deadline is the
/// debounce interval after the *last* request, never an earlier one —
/// whatever was pending before the burst.
pub proof fn lemma_debounce(pending: Option<int>, times: Seq<int>)
    requires
        times.len() > 0,
    ensures
        spec_run_requests(pending, times) == Some(spec_scheduled_deadline(times.last())),
        times.last() + BACKUP_DEBOUNCE_SECONDS <= i64::MAX ==> spec_run_requests(pending, times)
            == Some(times.last() + BACKUP_DEBOUNCE_SECONDS),
    decreases times.len(),
{
    if times.len() == 1 {
        assert(times.drop_first().len() == 0);
        assert(spec_run_requests(pending, times) == spec_request_transition(pending, times[0]));
        assert(times.last() == times[0]);
    } else {
        lemma_debounce(spec_request_transition(pending, times[0]), times.drop_first());
        assert(times.drop_first().last() == times.last());
    }
}

/// At most one fire: once a check finds a deadline due, an immediately
/// following check — at any time, with no request in between — finds nothing
/// due, because the first check cleared the deadline.
pub proof fn lemma_at_most_one_fire(pending: Option<int>, now1: int, now2: int)
    ensures
        spec_backup_due(pending, now1) ==> !spec_backup_due(
            spec_check_transition(pending, now1),
            now2,
        ),
{
}

} // verus!

