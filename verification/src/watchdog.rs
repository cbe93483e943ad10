//! Watching over the user interface: a service that it started ends if it is
//! gone.
use vstd::prelude::*;
use crate::state::UiLease;
use crate::text::{decimal, decimal_text, joined3};

verus! {

/// After how many seconds a sign of life is too old.
pub const STALE_AFTER: u64 = 8;

/// The seconds from one moment to another, none if that is earlier.
pub open spec fn seconds_between(from: u64, to: u64) -> int {
    if to >= from {
        to - from
    } else {
        0
    }
}

/// The sign of life is at least so many seconds old. One from the future is
/// new.
pub open spec fn stale(lease: UiLease, stale_after: u64, now: u64) -> bool {
    seconds_between(lease.updated_at, now) >= stale_after
}

fn count_seconds(from: u64, to: u64) -> (seconds: u64)
    ensures
        seconds == seconds_between(from, to),
{
    if to >= from {
        to - from
    } else {
        0
    }
}

fn is_stale(lease: &UiLease, stale_after: u64, now: u64) -> (r: bool)
    ensures
        r == stale(*lease, stale_after, now),
{
    count_seconds(lease.updated_at, now) >= stale_after
}

/// What a sign of life says when the service starts.
#[derive(Clone, Copy, Debug, PartialEq, Eq, Structural)]
pub enum LeaseCheck {
    /// There is none: the service is on its own.
    Absent,
    /// The user interface is there: the service is watched.
    Active,
    /// It is from a user interface that is gone: it is forgotten, and the
    /// service is on its own.
    Outdated { stale: bool, owner_dead: bool },
}

/// What a sign of life means when the service starts: the user interface is
/// there if it is new and the process that gave it runs.
pub open spec fn lease_check(
    lease: Option<UiLease>,
    owner_running: bool,
    stale_after: u64,
    now: u64,
) -> LeaseCheck {
    match lease {
        None => LeaseCheck::Absent,
        Some(l) => if stale(l, stale_after, now) || !owner_running {
            LeaseCheck::Outdated { stale: stale(l, stale_after, now), owner_dead: !owner_running }
        } else {
            LeaseCheck::Active
        },
    }
}

/// Says what a sign of life means when the service starts.
pub fn active_ui_lease_exists(
    lease: Option<UiLease>,
    owner_running: bool,
    stale_after: u64,
    now: u64,
) -> (check: LeaseCheck)
    ensures
        check == lease_check(lease, owner_running, stale_after, now),
{
    match lease {
        None => LeaseCheck::Absent,
        Some(l) => {
            let old = is_stale(&l, stale_after, now);
            if old || !owner_running {
                LeaseCheck::Outdated { stale: old, owner_dead: !owner_running }
            } else {
                LeaseCheck::Active
            }
        },
    }
}

/// How the service watches over the user interface.
#[derive(Clone, Copy, Debug, PartialEq, Eq, Structural)]
pub enum Guard {
    /// Not at all: it is on its own.
    Off,
    /// It does, and this is since when the sign of life is missing, if it is.
    On { missing_since: Option<u64> },
}

/// How the service watches when it starts: only a user interface that is there
/// is watched.
pub open spec fn first_guard(check: LeaseCheck) -> Guard {
    if check is Active {
        Guard::On { missing_since: None }
    } else {
        Guard::Off
    }
}

/// Says how the service watches when it starts.
pub fn start_watching(check: LeaseCheck) -> (guard: Guard)
    ensures
        guard == first_guard(check),
{
    match check {
        LeaseCheck::Active => Guard::On { missing_since: None },
        _ => Guard::Off,
    }
}

/// What was seen of the user interface at one look.
#[derive(Clone, Copy, Debug, PartialEq, Eq, Structural)]
pub enum LeaseReading {
    /// No sign of life is there.
    Missing,
    /// It could not be read.
    Unreadable,
    Present(UiLease),
}

/// What follows from one look.
#[derive(Clone, Copy, Debug, PartialEq, Eq, Structural)]
pub enum Watch {
    /// Look again after a while.
    GoOn,
    /// The service ends: nothing was there for so many seconds.
    EndMissing { seconds: u64 },
    /// The service ends: the sign of life is too old.
    EndStale { owner_pid: u32 },
}

/// Since when the sign of life is missing, if it is. One that cannot be read
/// changes nothing.
pub open spec fn missing_after(missing_since: Option<u64>, reading: LeaseReading, now: u64) -> Option<
    u64,
> {
    match reading {
        LeaseReading::Missing => match missing_since {
            Some(t) => Some(t),
            None => Some(now),
        },
        LeaseReading::Unreadable => missing_since,
        LeaseReading::Present(_) => None,
    }
}

/// How the service watches after one look.
pub open spec fn next_guard(guard: Guard, reading: LeaseReading, now: u64) -> Guard {
    match guard {
        Guard::Off => Guard::Off,
        Guard::On { missing_since } => Guard::On {
            missing_since: missing_after(missing_since, reading, now),
        },
    }
}

/// What follows from one look at a user interface that is watched.
pub open spec fn verdict(missing_since: Option<u64>, reading: LeaseReading, now: u64) -> Watch {
    match reading {
        LeaseReading::Missing => {
            let since = missing_after(missing_since, reading, now)->0;
            if seconds_between(since, now) < STALE_AFTER {
                Watch::GoOn
            } else {
                Watch::EndMissing { seconds: seconds_between(since, now) as u64 }
            }
        },
        LeaseReading::Unreadable => Watch::GoOn,
        LeaseReading::Present(lease) => if stale(lease, STALE_AFTER, now) {
            Watch::EndStale { owner_pid: lease.owner_pid }
        } else {
            Watch::GoOn
        },
    }
}

/// What follows from one look: nothing, if the service is on its own.
pub open spec fn guarded_verdict(guard: Guard, reading: LeaseReading, now: u64) -> Watch {
    match guard {
        Guard::Off => Watch::GoOn,
        Guard::On { missing_since } => verdict(missing_since, reading, now),
    }
}

/// Says what follows from one look at the user interface.
pub fn ui_lease_tick(guard: Guard, reading: LeaseReading, now: u64) -> (r: (Guard, Watch))
    ensures
        r.0 == next_guard(guard, reading, now),
        r.1 == guarded_verdict(guard, reading, now),
{
    let missing_since: Option<u64> = match guard {
        Guard::Off => {
            return (Guard::Off, Watch::GoOn);
        },
        Guard::On { missing_since } => missing_since,
    };
    match reading {
        LeaseReading::Missing => {
            let since: u64 = match missing_since {
                Some(t) => t,
                None => now,
            };
            let seconds: u64 = count_seconds(since, now);
            let guard = Guard::On { missing_since: Some(since) };
            if seconds < STALE_AFTER {
                (guard, Watch::GoOn)
            } else {
                (guard, Watch::EndMissing { seconds })
            }
        },
        LeaseReading::Unreadable => (guard, Watch::GoOn),
        LeaseReading::Present(lease) => {
            let guard = Guard::On { missing_since: None };
            if is_stale(&lease, STALE_AFTER, now) {
                (guard, Watch::EndStale { owner_pid: lease.owner_pid })
            } else {
                (guard, Watch::GoOn)
            }
        },
    }
}

/// What is logged when the service ends because nothing was there.
pub fn missing_message(seconds: u64) -> (text: String)
    ensures
        text@ == "ui lease missing for "@ + decimal(seconds as nat)
            + "s while daemon is ui-managed; requesting shutdown"@,
{
    joined3(
        "ui lease missing for ",
        decimal_text(seconds).as_str(),
        "s while daemon is ui-managed; requesting shutdown",
    )
}

// ---------------------------------------------------------------------------
// Laws
// ---------------------------------------------------------------------------
/// One look: what was seen, and when, in seconds since 1970.
pub struct Look {
    pub reading: LeaseReading,
    pub now: u64,
}

/// Since when the sign of life is missing, after some looks.
pub open spec fn missing_since(looks: Seq<Look>) -> Option<u64>
    decreases looks.len(),
{
    if looks.len() == 0 {
        None
    } else {
        missing_after(missing_since(looks.drop_last()), looks.last().reading, looks.last().now)
    }
}

/// How the service watches after some looks.
pub open spec fn guard_after(check: LeaseCheck, looks: Seq<Look>) -> Guard
    decreases looks.len(),
{
    if looks.len() == 0 {
        first_guard(check)
    } else {
        next_guard(
            guard_after(check, looks.drop_last()),
            looks.last().reading,
            looks.last().now,
        )
    }
}

/// What follows from the last of some looks.
pub open spec fn watch(check: LeaseCheck, looks: Seq<Look>) -> Watch {
    guarded_verdict(guard_after(check, looks.drop_last()), looks.last().reading, looks.last().now)
}

proof fn guard_is_kept(check: LeaseCheck, looks: Seq<Look>)
    ensures
        guard_after(check, looks) == if check is Active {
            Guard::On { missing_since: missing_since(looks) }
        } else {
            Guard::Off
        },
    decreases looks.len(),
{
    if looks.len() > 0 {
        guard_is_kept(check, looks.drop_last());
    }
}

/// From the `i`th look on no sign of life was seen, and at that one it was
/// missing.
pub open spec fn missing_from(looks: Seq<Look>, i: int) -> bool {
    &&& 0 <= i < looks.len()
    &&& looks[i].reading is Missing
    &&& forall|j: int| i <= j < looks.len() ==> !((#[trigger] looks[j]).reading is Present)
}

proof fn missing_has_a_start(looks: Seq<Look>)
    ensures
        missing_since(looks) matches Some(t) ==> exists|i: int|
            #[trigger] missing_from(looks, i) && looks[i].now == t,
    decreases looks.len(),
{
    if looks.len() > 0 {
        let before = looks.drop_last();
        let last = looks.len() - 1;
        missing_has_a_start(before);
        if let Some(t) = missing_since(looks) {
            match missing_since(before) {
                Some(_) => {
                    let i = choose|i: int|
                        #[trigger] missing_from(before, i) && before[i].now == t;
                    assert(missing_from(looks, i)) by {
                        assert(looks[i] == before[i]);
                        assert forall|j: int| i <= j < looks.len() implies !((
                        #[trigger] looks[j]).reading is Present) by {
                            if j < last {
                                assert(looks[j] == before[j]);
                            }
                        }
                    }
                },
                None => {
                    assert(missing_from(looks, last));
                },
            }
        }
    }
}

/// A service that starts without a user interface is never ended for want of
/// one, whatever is seen later: neither if there is no sign of life at the start,
/// nor if it is too old or from a process that is gone.
pub proof fn a_service_on_its_own_is_left_alone(
    lease: Option<UiLease>,
    owner_running: bool,
    start: u64,
    looks: Seq<Look>,
)
    requires
        lease is None || stale(lease->0, STALE_AFTER, start) || !owner_running,
        looks.len() > 0,
    ensures
        watch(lease_check(lease, owner_running, STALE_AFTER, start), looks) is GoOn,
{
    guard_is_kept(lease_check(lease, owner_running, STALE_AFTER, start), looks.drop_last());
}

/// The service ends only if the user interface was there when it started and is
/// really gone: its sign of life is at least eight seconds old, or none was seen
/// for at least eight seconds, from a look at which it was missing until now.
pub proof fn the_service_ends_only_if_the_ui_is_gone(
    lease: Option<UiLease>,
    owner_running: bool,
    start: u64,
    looks: Seq<Look>,
)
    requires
        looks.len() > 0,
        !(watch(lease_check(lease, owner_running, STALE_AFTER, start), looks) is GoOn),
    ensures
        lease matches Some(l) && start - l.updated_at < 8 && owner_running,
        (looks.last().reading matches LeaseReading::Present(l) && looks.last().now - l.updated_at
            >= 8) || (looks.last().reading is Missing && exists|i: int| #[trigger]
            missing_from(looks, i) && looks.last().now - looks[i].now >= 8),
{
    guard_is_kept(lease_check(lease, owner_running, STALE_AFTER, start), looks.drop_last());
    missing_has_a_start(looks);
    if looks.last().reading is Missing {
        let t = missing_since(looks)->0;
        let i = choose|i: int| #[trigger] missing_from(looks, i) && looks[i].now == t;
        assert(missing_from(looks, i) && looks.last().now - looks[i].now >= 8);
    }
}

/// A sign of life that is new keeps the service running, whatever was seen
/// before and whether or not its process still runs, and the time for which it
/// was missing starts anew.
pub proof fn a_sign_of_life_is_heeded(
    check: LeaseCheck,
    looks: Seq<Look>,
    lease: UiLease,
    now: u64,
)
    requires
        now - lease.updated_at < 8,
    ensures
        watch(check, looks.push(Look { reading: LeaseReading::Present(lease), now })) is GoOn,
        missing_since(looks.push(Look { reading: LeaseReading::Present(lease), now })) is None,
{
    let more = looks.push(Look { reading: LeaseReading::Present(lease), now });
    assert(more.drop_last() =~= looks);
    guard_is_kept(check, looks);
}

/// A sign of life that cannot be read never ends the service.
pub proof fn an_unreadable_sign_ends_nothing(check: LeaseCheck, looks: Seq<Look>, now: u64)
    ensures
        watch(check, looks.push(Look { reading: LeaseReading::Unreadable, now })) is GoOn,
        missing_since(looks.push(Look { reading: LeaseReading::Unreadable, now }))
            == missing_since(looks),
{
    let more = looks.push(Look { reading: LeaseReading::Unreadable, now });
    assert(more.drop_last() =~= looks);
    guard_is_kept(check, looks);
}

/// A user interface that was there and stays away is noticed: once its sign of
/// life was missing for eight seconds, the next look at which it is missing ends
/// the service.
pub proof fn an_absent_ui_is_noticed(looks: Seq<Look>, since: u64, now: u64)
    requires
        missing_since(looks) == Some(since),
        now - since >= 8,
    ensures
        watch(LeaseCheck::Active, looks.push(Look { reading: LeaseReading::Missing, now }))
            == (Watch::EndMissing { seconds: (now - since) as u64 }),
{
    let more = looks.push(Look { reading: LeaseReading::Missing, now });
    assert(more.drop_last() =~= looks);
    guard_is_kept(LeaseCheck::Active, looks);
}

/// A sign of life of a user interface that was there, and that has become too
/// old, ends the service.
pub proof fn an_old_sign_of_life_ends_the_service(looks: Seq<Look>, lease: UiLease, now: u64)
    requires
        now - lease.updated_at >= 8,
    ensures
        watch(
            LeaseCheck::Active,
            looks.push(Look { reading: LeaseReading::Present(lease), now }),
        ) == (Watch::EndStale { owner_pid: lease.owner_pid }),
{
    let more = looks.push(Look { reading: LeaseReading::Present(lease), now });
    assert(more.drop_last() =~= looks);
    guard_is_kept(LeaseCheck::Active, looks);
}

} // verus!
