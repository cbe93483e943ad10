//! What one look at the user interface means, at every moment.
use vstd::prelude::*;
use crate::state::UiLease;
use crate::watchdog::{
    first_guard, guarded_verdict, lease_check, next_guard, Guard, LeaseCheck, LeaseReading,
    Watch,
};

verus! {

/// Without a sign of life the service is on its own. One that is younger than the limit,
/// or from the future, counts if the process that gave it runs; and if it does not count,
/// it is told whether it is too old and whether its process is gone.
pub proof fn what_a_sign_of_life_means_at_the_start(
    lease: UiLease,
    owner_running: bool,
    stale_after: u64,
    now: u64,
)
    requires
        stale_after > 0,
    ensures
        lease_check(None, owner_running, stale_after, now) is Absent,
        now < lease.updated_at + stale_after && owner_running ==> lease_check(
            Some(lease),
            owner_running,
            stale_after,
            now,
        ) is Active,
        now >= lease.updated_at + stale_after ==> lease_check(
            Some(lease),
            owner_running,
            stale_after,
            now,
        ) == (LeaseCheck::Outdated { stale: true, owner_dead: !owner_running }),
        now < lease.updated_at + stale_after && !owner_running ==> lease_check(
            Some(lease),
            owner_running,
            stale_after,
            now,
        ) == (LeaseCheck::Outdated { stale: false, owner_dead: true }),
{
}

/// A limit of no seconds makes every sign of life too old.
pub proof fn without_patience_every_sign_is_old(lease: UiLease, owner_running: bool, now: u64)
    ensures
        lease_check(Some(lease), owner_running, 0, now) == (LeaseCheck::Outdated {
            stale: true,
            owner_dead: !owner_running,
        }),
{
}

/// Only a service whose user interface is there watches over it.
pub proof fn only_a_ui_that_is_there_is_watched(check: LeaseCheck)
    ensures
        first_guard(LeaseCheck::Active) == (Guard::On { missing_since: None }),
        check != LeaseCheck::Active ==> first_guard(check) == Guard::Off,
{
}

/// A service that does not watch never begins to, and nothing that it sees ends it.
pub proof fn a_service_never_begins_to_watch(reading: LeaseReading, now: u64)
    ensures
        next_guard(Guard::Off, reading, now) == Guard::Off,
        guarded_verdict(Guard::Off, reading, now) is GoOn,
{
}

/// The first look at which the sign of life is missing starts the time, later ones do not,
/// and the service ends once it is eight seconds.
pub proof fn a_missing_sign_is_timed_from_the_first_look(since: u64, now: u64)
    ensures
        next_guard(Guard::On { missing_since: None }, LeaseReading::Missing, now) == (Guard::On {
            missing_since: Some(now),
        }),
        guarded_verdict(Guard::On { missing_since: None }, LeaseReading::Missing, now) is GoOn,
        next_guard(Guard::On { missing_since: Some(since) }, LeaseReading::Missing, now) == (
        Guard::On { missing_since: Some(since) }),
        now < since + 8 ==> guarded_verdict(
            Guard::On { missing_since: Some(since) },
            LeaseReading::Missing,
            now,
        ) is GoOn,
        now >= since + 8 ==> guarded_verdict(
            Guard::On { missing_since: Some(since) },
            LeaseReading::Missing,
            now,
        ) == (Watch::EndMissing { seconds: (now - since) as u64 }),
{
}

/// A sign of life that cannot be read changes nothing.
pub proof fn an_unreadable_sign_changes_nothing(guard: Guard, now: u64)
    ensures
        next_guard(guard, LeaseReading::Unreadable, now) == guard,
        guarded_verdict(guard, LeaseReading::Unreadable, now) is GoOn,
{
}

/// A sign of life that is there is no longer missing; it ends the service, and names its
/// process, exactly if it is at least eight seconds old.
pub proof fn a_sign_that_is_there_is_dated(
    missing_since: Option<u64>,
    lease: UiLease,
    now: u64,
)
    ensures
        next_guard(Guard::On { missing_since }, LeaseReading::Present(lease), now) == (Guard::On {
            missing_since: None,
        }),
        now < lease.updated_at + 8 ==> guarded_verdict(
            Guard::On { missing_since },
            LeaseReading::Present(lease),
            now,
        ) is GoOn,
        now >= lease.updated_at + 8 ==> guarded_verdict(
            Guard::On { missing_since },
            LeaseReading::Present(lease),
            now,
        ) == (Watch::EndStale { owner_pid: lease.owner_pid }),
{
}

} // verus!
