use vstd::prelude::*;

use crate::autoproxy::{resolved, step, AutoproxyResolver, GuildState};
use crate::matcher::{match_members, match_outcome, trim, TagMatch};
use crate::model::{Member, Message, SystemGuild};
use crate::registry::MessageRegistry;
use crate::relay::{next_send_step, send_step, RelayFailure, SendOutcome, SendStep};
use crate::switches::{SwitchError, SwitchTracker};

verus! {

/// What becomes of an incoming message.
pub enum Plan {
    /// Nobody speaks: the message stays as it is.
    PassThrough,
    /// A member's tag matched.
    Tagged(TagMatch),
    /// No tag matched; autoproxy picked the member at this position, and the
    /// whole message is relayed.
    Auto { member: usize },
}

/// The first position of a member with id `id`.
pub open spec fn first_with_id(members: Seq<Member>, id: u64, i: int) -> bool {
    &&& 0 <= i < members.len()
    &&& members[i].id == id
    &&& forall|k: int| 0 <= k < i ==> (#[trigger] members[k]).id != id
}

/// `r` is the plan for trimmed text `t` given the system's members and the
/// autoproxy state: a tag match first, then the autoproxy choice if that
/// member still exists, else nothing.
pub open spec fn plan_outcome(t: Seq<char>, att: bool, members: Seq<Member>, st: GuildState, front: Seq<u64>, r: Plan) -> bool {
    match r {
        Plan::Tagged(tm) => match_outcome(t, members, att, Some(tm)),
        Plan::Auto { member: i } => {
            &&& match_outcome(t, members, att, None)
            &&& resolved(st, front) matches Some(id) && first_with_id(members, id, i as int)
        },
        Plan::PassThrough => {
            &&& match_outcome(t, members, att, None)
            &&& match resolved(st, front) {
                None => true,
                Some(id) => forall|k: int| 0 <= k < members.len() ==> (#[trigger] members[k]).id != id,
            }
        },
    }
}

/// The autoproxy state in force: the mode of the server settings, the latch
/// the resolver keeps.
pub open spec fn effective_state(settings: SystemGuild, kept: GuildState) -> GuildState {
    GuildState { mode: settings.autoproxy_mode, latch: kept.latch }
}

/// The position of the first member with id `id`.
pub fn find_member(members: &Vec<Member>, id: u64) -> (r: Option<usize>)
    ensures
        r matches Some(i) ==> first_with_id(members@, id, i as int),
        r is None ==> forall|k: int| 0 <= k < members@.len() ==> (#[trigger] members@[k]).id != id,
{
    let mut i: usize = 0;
    while i < members.len()
        invariant
            i <= members@.len(),
            forall|k: int| 0 <= k < i ==> (#[trigger] members@[k]).id != id,
        decreases members.len() - i,
    {
        if members[i].id == id {
            return Some(i);
        }
        i = i + 1;
    }
    None
}

/// Decides an incoming message of a system in a chat server: which member,
/// if any, it is relayed as. A tag match wins over autoproxy; a speaker is
/// latched. Nothing is decided while proxying is off in the server, and a
/// message that is not relayed leaves the resolver as it was.
pub fn plan_message(
    text: &str,
    has_attachments: bool,
    members: &Vec<Member>,
    settings: &SystemGuild,
    resolver: &mut AutoproxyResolver,
    front: &Vec<u64>,
) -> (r: Plan)
    requires
        old(resolver).wf(),
    ensures
        final(resolver).wf(),
        !settings.proxy_enabled ==> r is PassThrough,
        settings.proxy_enabled ==> plan_outcome(
            trim(text@),
            has_attachments,
            members@,
            effective_state(*settings, old(resolver).state_of(settings.system, settings.guild)),
            front@,
            r,
        ),
        ({
            let st = effective_state(*settings, old(resolver).state_of(settings.system, settings.guild));
            final(resolver).state_of(settings.system, settings.guild) == match r {
                Plan::PassThrough => old(resolver).state_of(settings.system, settings.guild),
                Plan::Tagged(tm) => step(st, front@, Some(members@[tm.member as int].id)).1,
                Plan::Auto { member: _ } => step(st, front@, None).1,
            }
        }),
        forall|s: u64, g: u64| !(s == settings.system && g == settings.guild)
            ==> final(resolver).state_of(s, g) == old(resolver).state_of(s, g),
{
    if !settings.proxy_enabled {
        return Plan::PassThrough;
    }
    let kept = resolver.state(settings.system, settings.guild);
    let st = GuildState { mode: settings.autoproxy_mode, latch: kept.latch };
    match match_members(text, members, has_attachments) {
        Some(tm) => {
            let id = members[tm.member].id;
            let (_, next) = crate::autoproxy::decide(st, front, Some(id));
            resolver.put(settings.system, settings.guild, next);
            Plan::Tagged(tm)
        },
        None => {
            let (speaker, next) = crate::autoproxy::decide(st, front, None);
            match speaker {
                Some(id) => match find_member(members, id) {
                    Some(i) => {
                        resolver.put(settings.system, settings.guild, next);
                        Plan::Auto { member: i }
                    },
                    None => Plan::PassThrough,
                },
                None => Plan::PassThrough,
            }
        },
    }
}

/// Records a relayed message once it was sent.
pub fn record_relay(
    registry: &mut MessageRegistry,
    original: Option<u64>,
    relayed: u64,
    channel: u64,
    guild: Option<u64>,
    member: u64,
    sender: u64,
)
    requires
        old(registry).wf(),
    ensures
        final(registry).wf(),
        final(registry).record_of(relayed) == Some(
            Message { mid: relayed, channel, member, sender, original_mid: original, guild },
        ),
        forall|m: u64| m != relayed ==> final(registry).record_of(m) == old(registry).record_of(m),
{
    registry.register(Message { mid: relayed, channel, member, sender, original_mid: original, guild });
}

/// The platform reports a message gone: a relayed one is forgotten. Tells
/// whether it was a relayed message.
pub fn on_message_deleted(registry: &mut MessageRegistry, mid: u64) -> (r: bool)
    requires
        old(registry).wf(),
    ensures
        final(registry).wf(),
        r == old(registry).record_of(mid) is Some,
        final(registry).record_of(mid) is None,
        forall|m: u64| m != mid ==> final(registry).record_of(m) == old(registry).record_of(m),
{
    registry.forget(mid)
}

/// What to do about the original message after a delete attempt.
#[derive(Clone, Copy, Debug, PartialEq, Eq, Structural)]
pub enum DeleteStep {
    /// The original is gone.
    Done,
    /// Try the delete again.
    Retry,
    /// The original was already gone when the relay finished: do not delete.
    Skip,
    /// Leave the original in place; the relay stands.
    GiveUp,
}

/// The delete of an original is tried at most this many times.
pub const MAX_DELETE_ATTEMPTS: u32 = 3;

/// Decides what follows the `attempt`-th delete of an original (zero when none
/// was tried yet, `deleted` then false). The relay is never undone.
pub fn next_delete_step(attempt: u32, deleted: bool, invalidated: bool) -> (r: DeleteStep)
    ensures
        r == (if deleted {
            DeleteStep::Done
        } else if invalidated {
            DeleteStep::Skip
        } else if attempt >= MAX_DELETE_ATTEMPTS {
            DeleteStep::GiveUp
        } else {
            DeleteStep::Retry
        }),
{
    if deleted {
        DeleteStep::Done
    } else if invalidated {
        DeleteStep::Skip
    } else if attempt >= MAX_DELETE_ATTEMPTS {
        DeleteStep::GiveUp
    } else {
        DeleteStep::Retry
    }
}

/// Where the relay of one message stands.
#[derive(Clone, Copy, Debug, PartialEq, Eq, Structural)]
pub enum Phase {
    /// The copy is being sent; this is the attempt under way, from one.
    Sending { attempt: u32 },
    /// The copy went out as `relayed`; the original is being deleted.
    Deleting { relayed: u64, attempt: u32 },
    /// Relayed as `relayed`.
    Done { relayed: u64 },
    /// Left unproxied; the original was not touched.
    Failed(RelayFailure),
}

/// What the platform answered.
#[derive(Clone, Copy, Debug, PartialEq, Eq, Structural)]
pub enum Event {
    Send(SendOutcome),
    /// A delete of the original ended; true when it is gone.
    Delete(bool),
}

/// What the caller does next.
#[derive(Clone, Copy, Debug, PartialEq, Eq, Structural)]
pub enum Action {
    /// Send the copy again after this many milliseconds.
    SendAfter(u64),
    /// Delete the original.
    DeleteOriginal,
    /// Register the relayed message; the relay is over.
    Finish(u64),
    /// Leave the message unproxied.
    Abandon(RelayFailure),
    /// Nothing: the event did not belong to the phase.
    Ignore,
}

/// Attempts count from one and never pass their bounds.
pub open spec fn phase_ok(p: Phase) -> bool {
    match p {
        Phase::Sending { attempt } => 1 <= attempt <= crate::relay::MAX_SEND_ATTEMPTS,
        Phase::Deleting { relayed: _, attempt } => 1 <= attempt <= MAX_DELETE_ATTEMPTS,
        _ => true,
    }
}

/// One transition of a relay. `invalidated` tells that the platform has
/// reported the original gone, in which case it is not deleted.
pub open spec fn relay_step(p: Phase, e: Event, invalidated: bool) -> (Phase, Action) {
    match (p, e) {
        (Phase::Sending { attempt }, Event::Send(o)) => match send_step(attempt as nat, o) {
            SendStep::Done(id) => if invalidated {
                (Phase::Done { relayed: id }, Action::Finish(id))
            } else {
                (Phase::Deleting { relayed: id, attempt: 1 }, Action::DeleteOriginal)
            },
            SendStep::RetryAfter(ms) => (Phase::Sending { attempt: (attempt + 1) as u32 }, Action::SendAfter(ms)),
            SendStep::GiveUp(f) => (Phase::Failed(f), Action::Abandon(f)),
        },
        (Phase::Deleting { relayed, attempt }, Event::Delete(gone)) => {
            if gone || invalidated || attempt >= MAX_DELETE_ATTEMPTS {
                (Phase::Done { relayed }, Action::Finish(relayed))
            } else {
                (Phase::Deleting { relayed, attempt: (attempt + 1) as u32 }, Action::DeleteOriginal)
            }
        },
        _ => (p, Action::Ignore),
    }
}

/// A relay starts with the first send.
pub fn start_relay() -> (r: Phase)
    ensures
        r == (Phase::Sending { attempt: 1 }),
        phase_ok(r),
{
    Phase::Sending { attempt: 1 }
}

/// Moves a relay on by one platform answer.
pub fn advance(p: Phase, e: Event, invalidated: bool) -> (r: (Phase, Action))
    requires
        phase_ok(p),
    ensures
        r == relay_step(p, e, invalidated),
        phase_ok(r.0),
{
    match (p, e) {
        (Phase::Sending { attempt }, Event::Send(o)) => match next_send_step(attempt, o) {
            SendStep::Done(id) => if invalidated {
                (Phase::Done { relayed: id }, Action::Finish(id))
            } else {
                (Phase::Deleting { relayed: id, attempt: 1 }, Action::DeleteOriginal)
            },
            SendStep::RetryAfter(ms) => (Phase::Sending { attempt: attempt + 1 }, Action::SendAfter(ms)),
            SendStep::GiveUp(f) => (Phase::Failed(f), Action::Abandon(f)),
        },
        (Phase::Deleting { relayed, attempt }, Event::Delete(gone)) => {
            match next_delete_step(attempt, gone, invalidated) {
                DeleteStep::Retry => (Phase::Deleting { relayed, attempt: attempt + 1 }, Action::DeleteOriginal),
                _ => (Phase::Done { relayed }, Action::Finish(relayed)),
            }
        },
        _ => (p, Action::Ignore),
    }
}

/// Once the copy is out, the relay ends as done: no answer leads from
/// deleting the original to a failure, and done and failed relays stay so.
pub proof fn lemma_relay_never_undone(p: Phase, e: Event, invalidated: bool)
    ensures
        p is Deleting ==> relay_step(p, e, invalidated).0 is Deleting || relay_step(p, e, invalidated).0 is Done,
        (p is Done || p is Failed) ==> relay_step(p, e, invalidated) == (p, Action::Ignore),
        relay_step(p, e, invalidated).1 is Abandon ==> p is Sending,
{
}

/// Records a switch and, when it puts nobody in front as the latest switch,
/// clears the system's latches in every chat server.
pub fn switch_front(
    tracker: &mut SwitchTracker,
    resolver: &mut AutoproxyResolver,
    system: u64,
    members: Vec<u64>,
    at: i64,
) -> (r: Result<usize, SwitchError>)
    requires
        old(tracker).wf(),
        old(resolver).wf(),
    ensures
        final(tracker).wf(),
        final(resolver).wf(),
        r is Err <==> crate::switches::has_time(old(tracker).history_of(system), at),
        r is Err ==> final(tracker).history_of(system) == old(tracker).history_of(system),
        r matches Ok(p) ==> p <= old(tracker).history_of(system).len()
            && final(tracker).history_of(system) == old(tracker).history_of(system).insert(
            p as int,
            (crate::switches::Switch { at, members }),
        ),
        forall|s: u64| s != system ==> final(tracker).history_of(s) == old(tracker).history_of(s),
        ({
            let cleared = r is Ok && members@.len() == 0 && final(tracker).history_of(system).last().at == at;
            &&& cleared ==> forall|g: u64| final(resolver).state_of(system, g)
                == (GuildState { mode: old(resolver).state_of(system, g).mode, latch: None })
            &&& cleared ==> forall|s: u64, g: u64| s != system ==> final(resolver).state_of(s, g) == old(resolver).state_of(s, g)
            &&& !cleared ==> forall|s: u64, g: u64| final(resolver).state_of(s, g) == old(resolver).state_of(s, g)
        }),
{
    let out = members.len() == 0;
    let r = tracker.record_switch(system, members, at);
    match r {
        Ok(_) => {
            let latest = tracker.latest_at(system);
            if out && latest == Some(at) {
                resolver.clear_latches(system);
            }
        },
        Err(_) => {},
    }
    r
}

} // verus!
