use vstd::prelude::*;

use crate::model::AutoproxyMode;

verus! {

/// What the resolver keeps for one system in one chat server.
#[derive(Clone, Copy, Debug, PartialEq, Eq, Structural)]
pub struct GuildState {
    pub mode: AutoproxyMode,
    /// The member that spoke last here, if any.
    pub latch: Option<u64>,
}

/// The state of a pair the resolver has never seen.
pub open spec fn fresh_state() -> GuildState {
    GuildState { mode: AutoproxyMode::Off, latch: None }
}

/// The member an untagged message speaks as, given who fronts.
pub open spec fn resolved(st: GuildState, front: Seq<u64>) -> Option<u64> {
    match st.mode {
        AutoproxyMode::Off => None,
        AutoproxyMode::Front => if front.len() > 0 {
            Some(front[0])
        } else {
            None
        },
        AutoproxyMode::Latch => st.latch,
        AutoproxyMode::Member(m) => Some(m),
    }
}

/// One message: the speaker (the tag's member, else the autoproxy choice) and
/// the state after it, whose latch remembers the speaker.
pub open spec fn step(st: GuildState, front: Seq<u64>, tagged: Option<u64>) -> (Option<u64>, GuildState) {
    let speaker = match tagged {
        Some(m) => Some(m),
        None => resolved(st, front),
    };
    let latch = match speaker {
        Some(m) => Some(m),
        None => st.latch,
    };
    (speaker, GuildState { mode: st.mode, latch })
}

/// Under latch mode, a message tagged as `a`, then an untagged one, then one
/// tagged as `b`: the second speaks as `a`, the third as `b`, and the latch
/// then holds `b`.
pub proof fn lemma_latch_follows_last_speaker(st: GuildState, front: Seq<u64>, a: u64, b: u64)
    requires
        st.mode == AutoproxyMode::Latch,
    ensures
        ({
            let (s1, st1) = step(st, front, Some(a));
            let (s2, st2) = step(st1, front, None);
            let (s3, st3) = step(st2, front, Some(b));
            &&& s1 == Some(a)
            &&& s2 == Some(a)
            &&& s3 == Some(b)
            &&& st3.latch == Some(b)
        }),
{
}

/// A tag match updates the latch whatever the mode, so that latch mode picks
/// up the last speaker once it is switched on.
pub proof fn lemma_tag_sets_latch_in_any_mode(st: GuildState, front: Seq<u64>, a: u64)
    ensures
        step(st, front, Some(a)).1.latch == Some(a),
        resolved(GuildState { mode: AutoproxyMode::Latch, ..step(st, front, Some(a)).1 }, front) == Some(a),
{
}

/// Decides one message for one guild state.
pub fn decide(st: GuildState, front: &Vec<u64>, tagged: Option<u64>) -> (r: (Option<u64>, GuildState))
    ensures
        r == step(st, front@, tagged),
{
    let speaker = match tagged {
        Some(m) => Some(m),
        None => match st.mode {
            AutoproxyMode::Off => None,
            AutoproxyMode::Front => if front.len() > 0 {
                Some(front[0])
            } else {
                None
            },
            AutoproxyMode::Latch => st.latch,
            AutoproxyMode::Member(m) => Some(m),
        },
    };
    let latch = match speaker {
        Some(m) => Some(m),
        None => st.latch,
    };
    (speaker, GuildState { mode: st.mode, latch })
}

#[derive(Clone, Copy, Debug)]
struct GuildEntry {
    system: u64,
    guild: u64,
    state: GuildState,
}

/// Autoproxy state of every (system, chat server) pair.
pub struct AutoproxyResolver {
    entries: Vec<GuildEntry>,
}

impl AutoproxyResolver {
    closed spec fn at_key(&self, i: int, system: u64, guild: u64) -> bool {
        0 <= i < self.entries@.len() && self.entries@[i].system == system && self.entries@[i].guild == guild
    }

    pub closed spec fn wf(&self) -> bool {
        forall|i: int, j: int|
            0 <= i < j < self.entries@.len() ==> !(#[trigger] self.entries@[i].system == #[trigger] self.entries@[j].system
                && self.entries@[i].guild == self.entries@[j].guild)
    }

    /// The state of one pair; a pair never set is off with no latch.
    pub closed spec fn state_of(&self, system: u64, guild: u64) -> GuildState {
        if exists|i: int| self.at_key(i, system, guild) {
            self.entries@[choose|i: int| self.at_key(i, system, guild)].state
        } else {
            fresh_state()
        }
    }

    proof fn lemma_state_at(&self, i: int, system: u64, guild: u64)
        requires
            self.wf(),
            self.at_key(i, system, guild),
        ensures
            self.state_of(system, guild) == self.entries@[i].state,
    {
        let j = choose|j: int| self.at_key(j, system, guild);
        if j < i {
            assert(self.entries@[j].system == self.entries@[i].system);
        } else if i < j {
            assert(self.entries@[i].system == self.entries@[j].system);
        }
    }

    pub fn new() -> (r: AutoproxyResolver)
        ensures
            r.wf(),
            forall|s: u64, g: u64| r.state_of(s, g) == fresh_state(),
    {
        AutoproxyResolver { entries: Vec::new() }
    }

    fn position(&self, system: u64, guild: u64) -> (r: Option<usize>)
        ensures
            r matches Some(i) ==> self.at_key(i as int, system, guild),
            r is None ==> forall|i: int| !self.at_key(i, system, guild),
    {
        let mut i: usize = 0;
        while i < self.entries.len()
            invariant
                i <= self.entries@.len(),
                forall|k: int| 0 <= k < i ==> !self.at_key(k, system, guild),
            decreases self.entries.len() - i,
        {
            if self.entries[i].system == system && self.entries[i].guild == guild {
                return Some(i);
            }
            i = i + 1;
        }
        None
    }

    /// The state of one pair.
    pub fn state(&self, system: u64, guild: u64) -> (r: GuildState)
        requires
            self.wf(),
        ensures
            r == self.state_of(system, guild),
    {
        match self.position(system, guild) {
            Some(i) => {
                proof {
                    self.lemma_state_at(i as int, system, guild);
                }
                self.entries[i].state
            },
            None => GuildState { mode: AutoproxyMode::Off, latch: None },
        }
    }

    /// Replaces the state of one pair, leaving every other pair as it was.
    pub fn put(&mut self, system: u64, guild: u64, st: GuildState)
        requires
            old(self).wf(),
        ensures
            final(self).wf(),
            final(self).state_of(system, guild) == st,
            forall|s: u64, g: u64| !(s == system && g == guild) ==> final(self).state_of(s, g) == old(self).state_of(s, g),
    {
        let e = GuildEntry { system, guild, state: st };
        match self.position(system, guild) {
            Some(i) => {
                self.entries.set(i, e);
                proof {
                    assert(self.entries@ == old(self).entries@.update(i as int, e));
                    assert(self.wf()) by {
                        assert forall|a: int, b: int| 0 <= a < b < self.entries@.len() implies !(self.entries@[a].system == self.entries@[b].system
                            && self.entries@[a].guild == self.entries@[b].guild) by {
                            assert(!(old(self).entries@[a].system == old(self).entries@[b].system
                                && old(self).entries@[a].guild == old(self).entries@[b].guild));
                        }
                    }
                    self.lemma_state_at(i as int, system, guild);
                    assert forall|s: u64, g: u64| !(s == system && g == guild) implies self.state_of(s, g) == old(self).state_of(s, g) by {
                        if exists|k: int| old(self).at_key(k, s, g) {
                            let k = choose|k: int| old(self).at_key(k, s, g);
                            old(self).lemma_state_at(k, s, g);
                            assert(self.at_key(k, s, g));
                            self.lemma_state_at(k, s, g);
                        } else {
                            assert forall|k: int| !self.at_key(k, s, g) by {
                                if self.at_key(k, s, g) {
                                    assert(old(self).at_key(k, s, g));
                                }
                            }
                        }
                    }
                }
            },
            None => {
                self.entries.push(e);
                proof {
                    let n = old(self).entries@.len() as int;
                    assert(self.entries@ == old(self).entries@.push(e));
                    assert(self.wf()) by {
                        assert forall|a: int, b: int| 0 <= a < b < self.entries@.len() implies !(self.entries@[a].system == self.entries@[b].system
                            && self.entries@[a].guild == self.entries@[b].guild) by {
                            if b == n {
                                assert(!old(self).at_key(a, system, guild));
                            } else {
                                assert(!(old(self).entries@[a].system == old(self).entries@[b].system
                                    && old(self).entries@[a].guild == old(self).entries@[b].guild));
                            }
                        }
                    }
                    self.lemma_state_at(n, system, guild);
                    assert forall|s: u64, g: u64| !(s == system && g == guild) implies self.state_of(s, g) == old(self).state_of(s, g) by {
                        if exists|k: int| old(self).at_key(k, s, g) {
                            let k = choose|k: int| old(self).at_key(k, s, g);
                            old(self).lemma_state_at(k, s, g);
                            assert(self.at_key(k, s, g));
                            self.lemma_state_at(k, s, g);
                        } else {
                            assert forall|k: int| !self.at_key(k, s, g) by {
                                if self.at_key(k, s, g) && k < n {
                                    assert(old(self).at_key(k, s, g));
                                }
                            }
                        }
                    }
                }
            },
        }
    }

    /// Sets the autoproxy mode of one pair; its latch is kept.
    pub fn set_mode(&mut self, system: u64, guild: u64, mode: AutoproxyMode)
        requires
            old(self).wf(),
        ensures
            final(self).wf(),
            final(self).state_of(system, guild) == (GuildState { mode, latch: old(self).state_of(system, guild).latch }),
            forall|s: u64, g: u64| !(s == system && g == guild) ==> final(self).state_of(s, g) == old(self).state_of(s, g),
    {
        let st = self.state(system, guild);
        self.put(system, guild, GuildState { mode, latch: st.latch });
    }

    /// Handles one message of `system` in `guild`: returns who speaks (the
    /// tag's member, else the autoproxy choice given who fronts) and latches
    /// the speaker.
    pub fn speak(&mut self, system: u64, guild: u64, front: &Vec<u64>, tagged: Option<u64>) -> (r: Option<u64>)
        requires
            old(self).wf(),
        ensures
            final(self).wf(),
            r == step(old(self).state_of(system, guild), front@, tagged).0,
            final(self).state_of(system, guild) == step(old(self).state_of(system, guild), front@, tagged).1,
            forall|s: u64, g: u64| !(s == system && g == guild) ==> final(self).state_of(s, g) == old(self).state_of(s, g),
    {
        let st = self.state(system, guild);
        let (speaker, next) = decide(st, front, tagged);
        self.put(system, guild, next);
        speaker
    }

    /// Forgets the latched member of `system` in every chat server, as when the
    /// system switches out.
    pub fn clear_latches(&mut self, system: u64)
        requires
            old(self).wf(),
        ensures
            final(self).wf(),
            forall|g: u64| final(self).state_of(system, g) == (GuildState { mode: old(self).state_of(system, g).mode, latch: None }),
            forall|s: u64, g: u64| s != system ==> final(self).state_of(s, g) == old(self).state_of(s, g),
    {
        let ghost before = self.entries@;
        let mut i: usize = 0;
        while i < self.entries.len()
            invariant
                self.entries@.len() == before.len(),
                i <= before.len(),
                forall|k: int| 0 <= k < before.len() ==> (#[trigger] self.entries@[k]).system == before[k].system
                    && self.entries@[k].guild == before[k].guild && self.entries@[k].state.mode == before[k].state.mode,
                forall|k: int| 0 <= k < i ==> (#[trigger] self.entries@[k]).state.latch == if before[k].system == system {
                    None
                } else {
                    before[k].state.latch
                },
                forall|k: int| i <= k < before.len() ==> #[trigger] self.entries@[k] == before[k],
            decreases before.len() - i,
        {
            if self.entries[i].system == system {
                let mut e = self.entries[i];
                e.state.latch = None;
                self.entries.set(i, e);
            }
            i = i + 1;
        }
        proof {
            assert(self.wf()) by {
                assert forall|a: int, b: int| 0 <= a < b < self.entries@.len() implies !(self.entries@[a].system == self.entries@[b].system
                    && self.entries@[a].guild == self.entries@[b].guild) by {
                    assert(!(old(self).entries@[a].system == old(self).entries@[b].system
                        && old(self).entries@[a].guild == old(self).entries@[b].guild));
                }
            }
            assert forall|s: u64, g: u64| #![auto] true implies self.state_of(s, g) == (if s == system {
                GuildState { mode: old(self).state_of(s, g).mode, latch: None }
            } else {
                old(self).state_of(s, g)
            }) by {
                if exists|k: int| old(self).at_key(k, s, g) {
                    let k = choose|k: int| old(self).at_key(k, s, g);
                    old(self).lemma_state_at(k, s, g);
                    assert(self.at_key(k, s, g));
                    self.lemma_state_at(k, s, g);
                } else {
                    assert forall|k: int| !self.at_key(k, s, g) by {
                        if self.at_key(k, s, g) {
                            assert(old(self).at_key(k, s, g));
                        }
                    }
                }
            }
        }
    }
}

} // verus!
