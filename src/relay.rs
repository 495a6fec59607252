use vstd::prelude::*;

use std::collections::{HashMap, HashSet};

use crate::model::Webhook;

verus! {

broadcast use vstd::std_specs::hash::group_hash_axioms;

impl Webhook {
    /// An equal copy.
    pub fn copy(&self) -> (r: Webhook)
        ensures
            r == *self,
    {
        Webhook { channel: self.channel, webhook: self.webhook, token: self.token.clone() }
    }
}

/// What a caller that needs the webhook of a channel should do.
#[derive(Clone, Copy, Debug, PartialEq, Eq, Structural)]
pub enum Acquire {
    /// The channel has a webhook: use it.
    Ready,
    /// Nobody is creating one: create it, then hand it back.
    Create,
    /// Another caller is creating it: wait for that one.
    Wait,
}

/// One request for the webhook of `ch`: its answer, and the channels being
/// created afterwards.
pub open spec fn acquire_step(hooks: Map<u64, Webhook>, creating: Set<u64>, ch: u64) -> (Acquire, Set<u64>) {
    if hooks.contains_key(ch) {
        (Acquire::Ready, creating)
    } else if creating.contains(ch) {
        (Acquire::Wait, creating)
    } else {
        (Acquire::Create, creating.insert(ch))
    }
}

/// How many of `n` back-to-back requests for `ch` are told to create.
pub open spec fn creates_among(hooks: Map<u64, Webhook>, creating: Set<u64>, ch: u64, n: nat) -> nat
    decreases n,
{
    if n == 0 {
        0
    } else {
        let (a, next) = acquire_step(hooks, creating, ch);
        (if a == Acquire::Create {
            1nat
        } else {
            0nat
        }) + creates_among(hooks, next, ch, (n - 1) as nat)
    }
}

/// However many callers ask for the webhook of a channel before it exists,
/// at most one is told to create it, and exactly one when nobody was creating
/// it already.
pub proof fn lemma_single_creation(hooks: Map<u64, Webhook>, creating: Set<u64>, ch: u64, n: nat)
    ensures
        creates_among(hooks, creating, ch, n) <= 1,
        n > 0 && !hooks.contains_key(ch) && !creating.contains(ch) ==> creates_among(hooks, creating, ch, n) == 1,
    decreases n,
{
    if n > 0 {
        let (a, next) = acquire_step(hooks, creating, ch);
        lemma_single_creation(hooks, next, ch, (n - 1) as nat);
        if a == Acquire::Create {
            lemma_no_creation_while_pending(hooks, next, ch, (n - 1) as nat);
        }
    }
}

/// While a channel has a webhook or one is being created, nobody is told to create one.
pub proof fn lemma_no_creation_while_pending(hooks: Map<u64, Webhook>, creating: Set<u64>, ch: u64, n: nat)
    requires
        hooks.contains_key(ch) || creating.contains(ch),
    ensures
        creates_among(hooks, creating, ch, n) == 0,
    decreases n,
{
    if n > 0 {
        lemma_no_creation_while_pending(hooks, creating, ch, (n - 1) as nat);
    }
}

/// The webhook of each channel, created once and reused.
pub struct WebhookRelay {
    hooks: HashMap<u64, Webhook>,
    creating: HashSet<u64>,
}

impl WebhookRelay {
    /// The cached webhooks, by channel.
    pub closed spec fn hooks(&self) -> Map<u64, Webhook> {
        self.hooks@
    }

    /// The channels whose webhook is being created.
    pub closed spec fn creating(&self) -> Set<u64> {
        self.creating@
    }

    pub fn new() -> (r: WebhookRelay)
        ensures
            r.hooks() == Map::<u64, Webhook>::empty(),
            r.creating() == Set::<u64>::empty(),
    {
        WebhookRelay { hooks: HashMap::new(), creating: HashSet::new() }
    }

    /// Asks for the webhook of `ch`. At most one caller at a time is told to create it.
    pub fn get_or_create(&mut self, ch: u64) -> (r: Acquire)
        ensures
            (r, final(self).creating()) == acquire_step(old(self).hooks(), old(self).creating(), ch),
            final(self).hooks() == old(self).hooks(),
    {
        if self.hooks.contains_key(&ch) {
            Acquire::Ready
        } else if self.creating.contains(&ch) {
            Acquire::Wait
        } else {
            self.creating.insert(ch);
            Acquire::Create
        }
    }

    /// The webhook of `ch`, if there is one.
    pub fn webhook(&self, ch: u64) -> (r: Option<Webhook>)
        ensures
            r == (if self.hooks().contains_key(ch) {
                Some(self.hooks()[ch])
            } else {
                None
            }),
    {
        match self.hooks.get(&ch) {
            Some(w) => Some(w.copy()),
            None => None,
        }
    }

    /// Hands in the webhook that was created for `ch`. If the channel has
    /// one already, that one stays and is returned; else the new one is kept.
    pub fn finish_create(&mut self, ch: u64, hook: Webhook) -> (r: Webhook)
        ensures
            final(self).creating() == old(self).creating().remove(ch),
            old(self).hooks().contains_key(ch) ==> final(self).hooks() == old(self).hooks() && r == old(self).hooks()[ch],
            !old(self).hooks().contains_key(ch) ==> final(self).hooks() == old(self).hooks().insert(ch, hook) && r == hook,
    {
        self.creating.remove(&ch);
        match self.hooks.get(&ch) {
            Some(w) => w.copy(),
            None => {
                let r = hook.copy();
                self.hooks.insert(ch, hook);
                r
            },
        }
    }

    /// Creation failed: a later caller may try again.
    pub fn abandon_create(&mut self, ch: u64)
        ensures
            final(self).creating() == old(self).creating().remove(ch),
            final(self).hooks() == old(self).hooks(),
    {
        self.creating.remove(&ch);
    }

    /// The webhook of `ch` turned out to be unusable: forget it.
    pub fn invalidate(&mut self, ch: u64)
        ensures
            final(self).hooks() == old(self).hooks().remove(ch),
            final(self).creating() == old(self).creating(),
    {
        self.hooks.remove(&ch);
    }
}

/// Once a channel has a webhook, every request is answered with it and
/// changes nothing.
pub proof fn lemma_created_hook_is_shared(hooks: Map<u64, Webhook>, creating: Set<u64>, ch: u64, hook: Webhook)
    ensures
        acquire_step(hooks.insert(ch, hook), creating.remove(ch), ch) == (Acquire::Ready, creating.remove(ch)),
        hooks.insert(ch, hook)[ch] == hook,
{
}

/// What a send attempt came back with.
#[derive(Clone, Copy, Debug, PartialEq, Eq, Structural)]
pub enum SendOutcome {
    /// Delivered, as the message with this id.
    Sent(u64),
    /// The bot may not manage webhooks in the channel.
    PermissionDenied,
    /// The platform asks to wait this many milliseconds.
    RateLimited(u64),
    /// A network or server failure.
    Transient,
}

/// Why a message was left unproxied.
#[derive(Clone, Copy, Debug, PartialEq, Eq, Structural)]
pub enum RelayFailure {
    Permission,
    RetriesExhausted,
}

/// What to do after a send attempt.
#[derive(Clone, Copy, Debug, PartialEq, Eq, Structural)]
pub enum SendStep {
    Done(u64),
    GiveUp(RelayFailure),
    RetryAfter(u64),
}

/// Sends are tried at most this many times.
pub const MAX_SEND_ATTEMPTS: u32 = 4;

/// The wait before the second attempt, in milliseconds; it doubles after each failure.
pub const BACKOFF_BASE_MS: u64 = 250;

pub open spec fn pow2(n: nat) -> nat
    decreases n,
{
    if n == 0 {
        1
    } else {
        2 * pow2((n - 1) as nat)
    }
}

/// The wait after the `attempt`-th failed attempt.
pub open spec fn backoff_ms(attempt: nat) -> nat {
    (BACKOFF_BASE_MS * pow2((attempt - 1) as nat)) as nat
}

/// The retry policy: a delivered message is done, a permission denial is
/// final, and other failures are retried until the attempts run out, after the
/// platform's hint when it gave one, else after an exponential backoff.
pub open spec fn send_step(attempt: nat, outcome: SendOutcome) -> SendStep {
    match outcome {
        SendOutcome::Sent(id) => SendStep::Done(id),
        SendOutcome::PermissionDenied => SendStep::GiveUp(RelayFailure::Permission),
        SendOutcome::RateLimited(hint) => if attempt >= MAX_SEND_ATTEMPTS {
            SendStep::GiveUp(RelayFailure::RetriesExhausted)
        } else {
            SendStep::RetryAfter(hint)
        },
        SendOutcome::Transient => if attempt >= MAX_SEND_ATTEMPTS {
            SendStep::GiveUp(RelayFailure::RetriesExhausted)
        } else {
            SendStep::RetryAfter(backoff_ms(attempt) as u64)
        },
    }
}

/// Decides what follows the `attempt`-th send attempt (counting from one).
pub fn next_send_step(attempt: u32, outcome: SendOutcome) -> (r: SendStep)
    requires
        attempt >= 1,
    ensures
        r == send_step(attempt as nat, outcome),
{
    match outcome {
        SendOutcome::Sent(id) => SendStep::Done(id),
        SendOutcome::PermissionDenied => SendStep::GiveUp(RelayFailure::Permission),
        SendOutcome::RateLimited(hint) => {
            if attempt >= MAX_SEND_ATTEMPTS {
                SendStep::GiveUp(RelayFailure::RetriesExhausted)
            } else {
                SendStep::RetryAfter(hint)
            }
        },
        SendOutcome::Transient => {
            if attempt >= MAX_SEND_ATTEMPTS {
                SendStep::GiveUp(RelayFailure::RetriesExhausted)
            } else {
                let mut wait: u64 = BACKOFF_BASE_MS;
                let mut k: u32 = 1;
                while k < attempt
                    invariant
                        1 <= k <= attempt < MAX_SEND_ATTEMPTS,
                        wait as nat == BACKOFF_BASE_MS * pow2((k - 1) as nat),
                        wait <= BACKOFF_BASE_MS * 4,
                    decreases attempt - k,
                {
                    assert(pow2(k as nat) == 2 * pow2((k - 1) as nat));
                    assert(pow2(1) == 2 && pow2(2) == 4) by {
                        reveal_with_fuel(pow2, 3);
                    }
                    wait = wait * 2;
                    k = k + 1;
                }
                SendStep::RetryAfter(wait)
            }
        },
    }
}

} // verus!
