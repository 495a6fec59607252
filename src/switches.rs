use vstd::prelude::*;

use std::collections::HashMap;

verus! {

broadcast use vstd::std_specs::hash::group_hash_axioms;

/// A change of front: who fronts from the instant `at` on, primary first.
/// No members means the system switched out.
pub struct Switch {
    pub at: i64,
    pub members: Vec<u64>,
}

/// Each switch of a history is strictly later than those before it.
pub open spec fn sorted(s: Seq<Switch>) -> bool {
    forall|i: int, j: int| 0 <= i < j < s.len() ==> s[i].at < s[j].at
}

/// Who fronts after a history: the members of its latest switch.
pub open spec fn front(s: Seq<Switch>) -> Seq<u64> {
    if s.len() == 0 {
        Seq::empty()
    } else {
        s.last().members@
    }
}

pub open spec fn has_time(s: Seq<Switch>, at: i64) -> bool {
    exists|k: int| 0 <= k < s.len() && s[k].at == at
}

/// `new` is `old` with `sw` put in at some position.
pub open spec fn inserted(old: Seq<Switch>, new: Seq<Switch>, sw: Switch) -> bool {
    exists|p: int| 0 <= p <= old.len() && new == old.insert(p, sw)
}

/// The switches of `s` timed within `[from, to]`, latest first.
pub open spec fn recent_in(s: Seq<Switch>, from: i64, to: i64) -> Seq<Switch>
    decreases s.len(),
{
    if s.len() == 0 {
        Seq::empty()
    } else {
        recent_in(s.drop_first(), from, to) + if from <= s[0].at <= to {
            seq![s[0]]
        } else {
            Seq::empty()
        }
    }
}

/// Two lists of switches with the same times and members.
pub open spec fn same_switches(a: Seq<Switch>, b: Seq<Switch>) -> bool {
    &&& a.len() == b.len()
    &&& forall|i: int| 0 <= i < a.len() ==> (#[trigger] a[i]).at == b[i].at && a[i].members@ == b[i].members@
}

/// A switch to someone later than every switch before it puts exactly them in front.
pub proof fn lemma_latest_switch_sets_front(old: Seq<Switch>, new: Seq<Switch>, sw: Switch)
    requires
        inserted(old, new, sw),
        sorted(new),
        forall|k: int| 0 <= k < old.len() ==> old[k].at < sw.at,
    ensures
        front(new) == sw.members@,
{
    let p = choose|p: int| 0 <= p <= old.len() && new == old.insert(p, sw);
    if p < old.len() {
        assert(new[p] == sw);
        assert(new[new.len() - 1] == old[old.len() - 1]);
    }
}

/// A back-dated switch, earlier than the latest one, leaves the front as it was.
pub proof fn lemma_backdated_switch_keeps_front(old: Seq<Switch>, new: Seq<Switch>, sw: Switch)
    requires
        inserted(old, new, sw),
        sorted(new),
        old.len() > 0,
        sw.at < old.last().at,
    ensures
        front(new) == front(old),
{
    let p = choose|p: int| 0 <= p <= old.len() && new == old.insert(p, sw);
    if p == old.len() {
        assert(new[p - 1] == old[p - 1]);
        assert(new[p] == sw);
    }
    assert(new[new.len() - 1] == old[old.len() - 1]);
}

/// Why a switch was refused.
#[derive(Clone, Copy, Debug, PartialEq, Eq, Structural)]
pub enum SwitchError {
    /// The system already has a switch at that instant.
    DuplicateTime,
}

/// A copy of a list of member ids.
pub fn copy_ids(v: &Vec<u64>) -> (r: Vec<u64>)
    ensures
        r@ == v@,
{
    let mut r: Vec<u64> = Vec::new();
    let mut i: usize = 0;
    while i < v.len()
        invariant
            i <= v@.len(),
            r@ == v@.subrange(0, i as int),
        decreases v.len() - i,
    {
        r.push(v[i]);
        i = i + 1;
        assert(r@ =~= v@.subrange(0, i as int));
    }
    assert(r@ =~= v@);
    r
}

/// The front history of every system.
pub struct SwitchTracker {
    logs: HashMap<u64, Vec<Switch>>,
}

impl SwitchTracker {
    /// The switches of one system, earliest first.
    pub closed spec fn history_of(&self, system: u64) -> Seq<Switch> {
        if self.logs@.contains_key(system) {
            self.logs@[system]@
        } else {
            Seq::empty()
        }
    }

    pub closed spec fn wf(&self) -> bool {
        forall|s: u64| #[trigger] self.logs@.contains_key(s) ==> sorted(self.logs@[s]@)
    }

    pub fn new() -> (r: SwitchTracker)
        ensures
            r.wf(),
            forall|s: u64| r.history_of(s).len() == 0,
    {
        SwitchTracker { logs: HashMap::new() }
    }

    /// Records that `members` front from `at` on, and returns the position of
    /// the switch in the system's history. A switch may be back-dated; one at
    /// an instant the system already has is refused.
    pub fn record_switch(&mut self, system: u64, members: Vec<u64>, at: i64) -> (r: Result<usize, SwitchError>)
        requires
            old(self).wf(),
        ensures
            final(self).wf(),
            r is Err <==> has_time(old(self).history_of(system), at),
            r is Err ==> final(self).history_of(system) == old(self).history_of(system),
            r matches Ok(p) ==> p <= old(self).history_of(system).len()
                && final(self).history_of(system) == old(self).history_of(system).insert(p as int, (Switch { at, members })),
            sorted(final(self).history_of(system)),
            forall|s: u64| s != system ==> final(self).history_of(s) == old(self).history_of(s),
    {
        let ghost before = self.history_of(system);
        let mut log = match self.logs.remove(&system) {
            Some(l) => l,
            None => Vec::new(),
        };
        assert(log@ == before);
        assert(sorted(log@));
        let mut i: usize = 0;
        while i < log.len() && log[i].at < at
            invariant
                i <= log@.len(),
                forall|k: int| 0 <= k < i ==> log@[k].at < at,
            decreases log.len() - i,
        {
            i = i + 1;
        }
        if i < log.len() && log[i].at == at {
            self.logs.insert(system, log);
            assert(self.logs@ =~= old(self).logs@.insert(system, log));
            proof {
                if old(self).logs@.contains_key(system) {
                    assert(self.logs@ =~= old(self).logs@);
                }
            }
            return Err(SwitchError::DuplicateTime);
        }
        assert(forall|k: int| i <= k < log@.len() ==> log@[k].at > at) by {
            if i < log@.len() {
                assert(log@[i as int].at > at);
            }
        }
        let sw = Switch { at, members };
        log.insert(i, sw);
        assert(log@ == before.insert(i as int, sw));
        assert(sorted(log@)) by {
            assert forall|a: int, b: int| 0 <= a < b < log@.len() implies log@[a].at < log@[b].at by {
                if b < i {
                } else if a > i {
                    assert(log@[a] == before[a - 1]);
                    assert(log@[b] == before[b - 1]);
                } else if a == i {
                    assert(log@[b] == before[b - 1]);
                } else if b == i {
                } else {
                    assert(log@[b] == before[b - 1]);
                }
            }
        }
        self.logs.insert(system, log);
        Ok(i)
    }

    /// Who fronts now: the members of the latest switch, primary first; none
    /// when the system never switched or switched out.
    pub fn current_front(&self, system: u64) -> (r: Vec<u64>)
        ensures
            r@ == front(self.history_of(system)),
    {
        match self.logs.get(&system) {
            Some(log) => {
                if log.len() == 0 {
                    Vec::new()
                } else {
                    copy_ids(&log[log.len() - 1].members)
                }
            },
            None => Vec::new(),
        }
    }

    /// The instant of the latest switch of a system, if it has any.
    pub fn latest_at(&self, system: u64) -> (r: Option<i64>)
        ensures
            r == (if self.history_of(system).len() > 0 {
                Some(self.history_of(system).last().at)
            } else {
                None
            }),
    {
        match self.logs.get(&system) {
            Some(log) => {
                if log.len() == 0 {
                    None
                } else {
                    Some(log[log.len() - 1].at)
                }
            },
            None => None,
        }
    }

    /// The switches of a system timed within `[from, to]`, latest first.
    pub fn history(&self, system: u64, from: i64, to: i64) -> (r: Vec<Switch>)
        ensures
            same_switches(r@, recent_in(self.history_of(system), from, to)),
    {
        let mut r: Vec<Switch> = Vec::new();
        match self.logs.get(&system) {
            Some(log) => {
                let n = log.len();
                let mut i: usize = n;
                assert(log@.subrange(n as int, n as int) =~= Seq::<Switch>::empty());
                while i > 0
                    invariant
                        n == log@.len(),
                        i <= n,
                        same_switches(r@, recent_in(log@.subrange(i as int, n as int), from, to)),
                    decreases i,
                {
                    i = i - 1;
                    let ghost sub = log@.subrange(i as int, n as int);
                    assert(sub.drop_first() =~= log@.subrange(i + 1, n as int));
                    assert(sub[0] == log@[i as int]);
                    let at = log[i].at;
                    if from <= at && at <= to {
                        let members = copy_ids(&log[i].members);
                        r.push(Switch { at, members });
                    }
                }
                assert(log@.subrange(0, n as int) =~= log@);
            },
            None => {},
        }
        r
    }
}

} // verus!
