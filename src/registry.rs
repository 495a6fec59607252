use vstd::prelude::*;

use crate::model::Message;

verus! {

/// The records of `s` sent by `sender` in `channel`, newest (last) first.
pub open spec fn recent_by(s: Seq<Message>, sender: u64, channel: u64) -> Seq<Message>
    decreases s.len(),
{
    if s.len() == 0 {
        Seq::empty()
    } else {
        recent_by(s.drop_first(), sender, channel) + if s[0].sender == sender && s[0].channel == channel {
            seq![s[0]]
        } else {
            Seq::empty()
        }
    }
}

pub open spec fn min_len(a: nat, b: nat) -> nat {
    if a < b {
        a
    } else {
        b
    }
}

proof fn lemma_recent_prefix(s: Seq<Message>, i: int, sender: u64, channel: u64)
    requires
        0 <= i <= s.len(),
    ensures
        recent_by(s.subrange(i, s.len() as int), sender, channel).len() <= recent_by(s, sender, channel).len(),
        recent_by(s, sender, channel).subrange(0, recent_by(s.subrange(i, s.len() as int), sender, channel).len() as int)
            == recent_by(s.subrange(i, s.len() as int), sender, channel),
    decreases i,
{
    let n = s.len() as int;
    if i == 0 {
        assert(s.subrange(0, n) =~= s);
        let r = recent_by(s, sender, channel);
        assert(r.subrange(0, r.len() as int) =~= r);
    } else {
        lemma_recent_prefix(s, i - 1, sender, channel);
        let sub = s.subrange(i - 1, n);
        assert(sub.drop_first() =~= s.subrange(i, n));
        let a = recent_by(s.subrange(i, n), sender, channel);
        let b = recent_by(sub, sender, channel);
        let c = recent_by(s, sender, channel);
        assert(b.subrange(0, a.len() as int) =~= a);
        assert(c.subrange(0, a.len() as int) =~= b.subrange(0, a.len() as int));
    }
}

/// Which relayed message came from which original, for later edits and deletes.
pub struct MessageRegistry {
    entries: Vec<Message>,
}

impl MessageRegistry {
    closed spec fn at_mid(&self, i: int, mid: u64) -> bool {
        0 <= i < self.entries@.len() && self.entries@[i].mid == mid
    }

    /// Each relayed message id has at most one record.
    pub closed spec fn wf(&self) -> bool {
        forall|i: int, j: int| 0 <= i < j < self.entries@.len() ==> #[trigger] self.entries@[i].mid != #[trigger] self.entries@[j].mid
    }

    /// The records, oldest first.
    pub closed spec fn records(&self) -> Seq<Message> {
        self.entries@
    }

    /// The record of one relayed message.
    pub closed spec fn record_of(&self, mid: u64) -> Option<Message> {
        if exists|i: int| self.at_mid(i, mid) {
            Some(self.entries@[choose|i: int| self.at_mid(i, mid)])
        } else {
            None
        }
    }

    proof fn lemma_record_at(&self, i: int, mid: u64)
        requires
            self.wf(),
            self.at_mid(i, mid),
        ensures
            self.record_of(mid) == Some(self.entries@[i]),
    {
        let j = choose|j: int| self.at_mid(j, mid);
        if j < i {
            assert(self.entries@[j].mid != self.entries@[i].mid);
        } else if i < j {
            assert(self.entries@[i].mid != self.entries@[j].mid);
        }
    }

    proof fn lemma_record_absent(&self, mid: u64)
        requires
            forall|i: int| 0 <= i < self.entries@.len() ==> self.entries@[i].mid != mid,
        ensures
            self.record_of(mid) is None,
    {
    }

    pub fn new() -> (r: MessageRegistry)
        ensures
            r.wf(),
            r.records().len() == 0,
            forall|m: u64| r.record_of(m) is None,
    {
        MessageRegistry { entries: Vec::new() }
    }

    fn position(&self, mid: u64) -> (r: Option<usize>)
        ensures
            r matches Some(i) ==> self.at_mid(i as int, mid),
            r is None ==> forall|i: int| 0 <= i < self.entries@.len() ==> self.entries@[i].mid != mid,
    {
        let mut i: usize = 0;
        while i < self.entries.len()
            invariant
                i <= self.entries@.len(),
                forall|k: int| 0 <= k < i ==> self.entries@[k].mid != mid,
            decreases self.entries.len() - i,
        {
            if self.entries[i].mid == mid {
                return Some(i);
            }
            i = i + 1;
        }
        None
    }

    /// Records a relayed message; a record with the same relayed id is replaced.
    pub fn register(&mut self, msg: Message)
        requires
            old(self).wf(),
        ensures
            final(self).wf(),
            final(self).record_of(msg.mid) == Some(msg),
            forall|m: u64| m != msg.mid ==> final(self).record_of(m) == old(self).record_of(m),
    {
        match self.position(msg.mid) {
            Some(i) => {
                self.entries.set(i, msg);
                proof {
                    assert(self.entries@ == old(self).entries@.update(i as int, msg));
                    assert(self.wf()) by {
                        assert forall|a: int, b: int| 0 <= a < b < self.entries@.len() implies self.entries@[a].mid != self.entries@[b].mid by {
                            assert(old(self).entries@[a].mid != old(self).entries@[b].mid);
                        }
                    }
                    self.lemma_record_at(i as int, msg.mid);
                    assert forall|m: u64| m != msg.mid implies self.record_of(m) == old(self).record_of(m) by {
                        if exists|k: int| old(self).at_mid(k, m) {
                            let k = choose|k: int| old(self).at_mid(k, m);
                            old(self).lemma_record_at(k, m);
                            assert(self.at_mid(k, m));
                            self.lemma_record_at(k, m);
                        } else {
                            assert forall|k: int| 0 <= k < self.entries@.len() implies self.entries@[k].mid != m by {
                                assert(!old(self).at_mid(k, m));
                            }
                            self.lemma_record_absent(m);
                        }
                    }
                }
            },
            None => {
                self.entries.push(msg);
                proof {
                    let n = old(self).entries@.len() as int;
                    assert(self.entries@ == old(self).entries@.push(msg));
                    assert(self.wf()) by {
                        assert forall|a: int, b: int| 0 <= a < b < self.entries@.len() implies self.entries@[a].mid != self.entries@[b].mid by {
                            if b < n {
                                assert(old(self).entries@[a].mid != old(self).entries@[b].mid);
                            }
                        }
                    }
                    self.lemma_record_at(n, msg.mid);
                    assert forall|m: u64| m != msg.mid implies self.record_of(m) == old(self).record_of(m) by {
                        if exists|k: int| old(self).at_mid(k, m) {
                            let k = choose|k: int| old(self).at_mid(k, m);
                            old(self).lemma_record_at(k, m);
                            assert(self.at_mid(k, m));
                            self.lemma_record_at(k, m);
                        } else {
                            assert forall|k: int| 0 <= k < self.entries@.len() implies self.entries@[k].mid != m by {
                                if k < n {
                                    assert(!old(self).at_mid(k, m));
                                }
                            }
                            self.lemma_record_absent(m);
                        }
                    }
                }
            },
        }
    }

    /// The record of a relayed message, if it is known.
    pub fn lookup_by_relayed(&self, mid: u64) -> (r: Option<Message>)
        requires
            self.wf(),
        ensures
            r == self.record_of(mid),
    {
        match self.position(mid) {
            Some(i) => {
                proof {
                    self.lemma_record_at(i as int, mid);
                }
                Some(self.entries[i])
            },
            None => None,
        }
    }

    /// Drops the record of a relayed message; tells whether there was one.
    pub fn forget(&mut self, mid: u64) -> (r: bool)
        requires
            old(self).wf(),
        ensures
            final(self).wf(),
            r == old(self).record_of(mid) is Some,
            final(self).record_of(mid) is None,
            forall|m: u64| m != mid ==> final(self).record_of(m) == old(self).record_of(m),
    {
        match self.position(mid) {
            Some(i) => {
                self.entries.remove(i);
                proof {
                    let o = old(self).entries@;
                    assert(self.entries@ == o.remove(i as int));
                    assert forall|k: int| 0 <= k < self.entries@.len() implies self.entries@[k] == if k < i {
                        o[k]
                    } else {
                        o[k + 1]
                    } by {}
                    assert(self.wf()) by {
                        assert forall|a: int, b: int| 0 <= a < b < self.entries@.len() implies self.entries@[a].mid != self.entries@[b].mid by {
                            let a2 = if a < i { a } else { a + 1 };
                            let b2 = if b < i { b } else { b + 1 };
                            assert(o[a2].mid != o[b2].mid);
                        }
                    }
                    old(self).lemma_record_at(i as int, mid);
                    assert forall|k: int| 0 <= k < self.entries@.len() implies self.entries@[k].mid != mid by {
                        let k2 = if k < i { k } else { k + 1 };
                        if k2 < i {
                            assert(o[k2].mid != o[i as int].mid);
                        } else {
                            assert(o[i as int].mid != o[k2].mid);
                        }
                    }
                    self.lemma_record_absent(mid);
                    assert forall|m: u64| m != mid implies self.record_of(m) == old(self).record_of(m) by {
                        if exists|k: int| old(self).at_mid(k, m) {
                            let k = choose|k: int| old(self).at_mid(k, m);
                            old(self).lemma_record_at(k, m);
                            let k2 = if k < i { k } else { k - 1 };
                            assert(k != i);
                            assert(self.at_mid(k2, m));
                            self.lemma_record_at(k2, m);
                        } else {
                            assert forall|k: int| 0 <= k < self.entries@.len() implies self.entries@[k].mid != m by {
                                let k2 = if k < i { k } else { k + 1 };
                                assert(!old(self).at_mid(k2, m));
                            }
                            self.lemma_record_absent(m);
                        }
                    }
                }
                true
            },
            None => {
                proof {
                    old(self).lemma_record_absent(mid);
                }
                false
            },
        }
    }

    /// The newest records sent by `sender` in `channel`, newest first, at most `limit` of them.
    pub fn lookup_originals_by_sender_in_channel(&self, sender: u64, channel: u64, limit: usize) -> (r: Vec<Message>)
        ensures
            r@ == recent_by(self.records(), sender, channel).subrange(
                0,
                min_len(limit as nat, recent_by(self.records(), sender, channel).len()) as int,
            ),
    {
        let ghost s = self.entries@;
        let n = self.entries.len();
        let mut r: Vec<Message> = Vec::new();
        let mut i: usize = n;
        assert(s.subrange(n as int, n as int) =~= Seq::<Message>::empty());
        while i > 0 && r.len() < limit
            invariant
                s == self.entries@,
                n == s.len(),
                i <= n,
                r@ == recent_by(s.subrange(i as int, n as int), sender, channel),
                r@.len() <= limit,
            decreases i,
        {
            i = i - 1;
            let ghost sub = s.subrange(i as int, n as int);
            assert(sub.drop_first() =~= s.subrange(i + 1, n as int));
            assert(sub[0] == s[i as int]);
            let m = self.entries[i];
            if m.sender == sender && m.channel == channel {
                r.push(m);
            }
        }
        proof {
            lemma_recent_prefix(s, i as int, sender, channel);
            let full = recent_by(s, sender, channel);
            if i == 0 {
                assert(s.subrange(0, n as int) =~= s);
                assert(full.subrange(0, full.len() as int) =~= full);
            }
        }
        r
    }
}

} // verus!
