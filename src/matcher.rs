use vstd::prelude::*;

use crate::model::{marker, Member, ProxyTag};

verus! {

/// Characters that surround a message without belonging to it.
pub open spec fn is_space(c: char) -> bool {
    c == ' ' || c == '\t' || c == '\n' || c == '\r'
}

pub open spec fn strip_front(s: Seq<char>) -> Seq<char>
    decreases s.len(),
{
    if s.len() > 0 && is_space(s[0]) {
        strip_front(s.drop_first())
    } else {
        s
    }
}

pub open spec fn strip_back(s: Seq<char>) -> Seq<char>
    decreases s.len(),
{
    if s.len() > 0 && is_space(s[s.len() - 1]) {
        strip_back(s.drop_last())
    } else {
        s
    }
}

/// The message text without surrounding whitespace.
pub open spec fn trim(s: Seq<char>) -> Seq<char> {
    strip_back(strip_front(s))
}

/// The text starts with the tag's prefix and ends with its suffix, and the two
/// do not overlap.
pub open spec fn tag_fits(t: Seq<char>, tag: ProxyTag) -> bool {
    let p = marker(tag.prefix);
    let q = marker(tag.suffix);
    &&& p.len() + q.len() <= t.len()
    &&& t.subrange(0, p.len() as int) == p
    &&& t.subrange(t.len() - q.len(), t.len() as int) == q
}

/// The text between the tag's prefix and suffix.
pub open spec fn stripped(t: Seq<char>, tag: ProxyTag) -> Seq<char> {
    t.subrange(marker(tag.prefix).len() as int, t.len() - marker(tag.suffix).len())
}

/// The text to relay: with its markers when they are kept, else without.
pub open spec fn relayed_text(t: Seq<char>, tag: ProxyTag, keep: bool) -> Seq<char> {
    if keep {
        t
    } else {
        stripped(t, tag)
    }
}

/// A tag applies to trimmed text `t` when it is usable, fits, and leaves
/// something to relay: text, kept markers, or attachments.
pub open spec fn tag_applies(t: Seq<char>, tag: ProxyTag, keep: bool, att: bool) -> bool {
    &&& tag.wf()
    &&& tag_fits(t, tag)
    &&& (stripped(t, tag).len() > 0 || keep || att)
}

pub open spec fn member_applies(t: Seq<char>, m: Member, att: bool) -> bool {
    exists|j: int| 0 <= j < m.proxy_tags@.len() && tag_applies(t, m.proxy_tags@[j], m.keep_proxy, att)
}

/// The outcome of matching one message against the members of a system.
pub struct TagMatch {
    /// Position of the speaking member in the system's member list.
    pub member: usize,
    /// Position of the tag within that member's tags.
    pub tag: usize,
    /// The text to relay.
    pub content: String,
    /// Some later member's tags matched as well.
    pub collision: bool,
}

/// `r` is what matching the trimmed text `t` against `members` gives: the first
/// member with an applying tag, its first applying tag, the text to relay, and
/// whether a later member would have matched too; `None` when no member matches.
pub open spec fn match_outcome(t: Seq<char>, members: Seq<Member>, att: bool, r: Option<TagMatch>) -> bool {
    match r {
        None => forall|i: int| 0 <= i < members.len() ==> !member_applies(t, #[trigger] members[i], att),
        Some(m) => {
            let mem = members[m.member as int];
            let tag = mem.proxy_tags@[m.tag as int];
            &&& m.member < members.len()
            &&& m.tag < mem.proxy_tags@.len()
            &&& tag_applies(t, tag, mem.keep_proxy, att)
            &&& forall|i: int| 0 <= i < m.member ==> !member_applies(t, #[trigger] members[i], att)
            &&& forall|j: int| 0 <= j < m.tag ==> !tag_applies(t, #[trigger] mem.proxy_tags@[j], mem.keep_proxy, att)
            &&& m.content@ == relayed_text(t, tag, mem.keep_proxy)
            &&& m.collision == exists|i: int| m.member < i < members.len() && member_applies(t, #[trigger] members[i], att)
        },
    }
}

/// Matching is a function of its inputs: two outcomes of one message against
/// one member list agree in every part.
pub proof fn lemma_match_deterministic(
    t: Seq<char>,
    members: Seq<Member>,
    att: bool,
    r1: Option<TagMatch>,
    r2: Option<TagMatch>,
)
    requires
        match_outcome(t, members, att, r1),
        match_outcome(t, members, att, r2),
    ensures
        r1 is Some <==> r2 is Some,
        r1 matches Some(a) ==> r2 matches Some(b) && a.member == b.member && a.tag == b.tag
            && a.content@ == b.content@ && a.collision == b.collision,
{
    if r1 is Some && r2 is None {
        let a = r1->0;
        assert(member_applies(t, members[a.member as int], att));
    }
    if r2 is Some && r1 is None {
        let b = r2->0;
        assert(member_applies(t, members[b.member as int], att));
    }
    if r1 is Some && r2 is Some {
        let a = r1->0;
        let b = r2->0;
        assert(member_applies(t, members[a.member as int], att));
        assert(member_applies(t, members[b.member as int], att));
        assert(a.member == b.member);
        let mem = members[a.member as int];
        if a.tag < b.tag {
            assert(!tag_applies(t, mem.proxy_tags@[a.tag as int], mem.keep_proxy, att));
        }
        if b.tag < a.tag {
            assert(!tag_applies(t, mem.proxy_tags@[b.tag as int], mem.keep_proxy, att));
        }
    }
}

/// A member with a lone prefix `p` owns every message `p + body` with a
/// non-empty body: the relayed text is the body, and putting the prefix back in
/// front of it gives the message again.
pub proof fn lemma_prefix_round_trip(tag: ProxyTag, body: Seq<char>)
    requires
        tag.prefix is Some,
        tag.suffix is None,
        marker(tag.prefix).len() > 0,
        body.len() > 0,
    ensures
        tag_applies(marker(tag.prefix) + body, tag, false, false),
        relayed_text(marker(tag.prefix) + body, tag, false) == body,
        marker(tag.prefix) + relayed_text(marker(tag.prefix) + body, tag, false)
            == marker(tag.prefix) + body,
{
    let p = marker(tag.prefix);
    let t = p + body;
    assert(t.subrange(0, p.len() as int) =~= p);
    assert(t.subrange(t.len() - 0, t.len() as int) =~= Seq::<char>::empty());
    assert(stripped(t, tag) =~= body);
}

/// The characters of a string, one by one.
pub fn chars_of(s: &str) -> (r: Vec<char>)
    ensures
        r@ == s@,
{
    let n = s.unicode_len();
    let mut r: Vec<char> = Vec::new();
    let mut i: usize = 0;
    while i < n
        invariant
            n == s@.len(),
            i <= n,
            r@ == s@.subrange(0, i as int),
        decreases n - i,
    {
        r.push(s.get_char(i));
        i = i + 1;
        assert(r@ =~= s@.subrange(0, i as int));
    }
    assert(r@ =~= s@);
    r
}

/// The characters of an optional marker.
fn marker_chars(m: &Option<String>) -> (r: Vec<char>)
    ensures
        r@ == marker(*m),
{
    match m {
        Some(s) => chars_of(s.as_str()),
        None => Vec::new(),
    }
}

/// The bounds of the text without surrounding whitespace.
pub fn trim_bounds(t: &Vec<char>) -> (r: (usize, usize))
    ensures
        r.0 <= r.1 <= t@.len(),
        t@.subrange(r.0 as int, r.1 as int) == trim(t@),
{
    let n = t.len();
    let mut lo: usize = 0;
    assert(t@.subrange(0, n as int) =~= t@);
    while lo < n && (t[lo] == ' ' || t[lo] == '\t' || t[lo] == '\n' || t[lo] == '\r')
        invariant
            n == t@.len(),
            lo <= n,
            strip_front(t@.subrange(lo as int, n as int)) == strip_front(t@),
        decreases n - lo,
    {
        assert(t@.subrange(lo as int, n as int).drop_first() =~= t@.subrange(lo + 1, n as int));
        lo = lo + 1;
    }
    let mut hi: usize = n;
    while hi > lo && (t[hi - 1] == ' ' || t[hi - 1] == '\t' || t[hi - 1] == '\n' || t[hi - 1] == '\r')
        invariant
            n == t@.len(),
            lo <= hi <= n,
            strip_front(t@) == t@.subrange(lo as int, n as int),
            strip_back(t@.subrange(lo as int, hi as int)) == trim(t@),
        decreases hi - lo,
    {
        assert(t@.subrange(lo as int, hi as int).drop_last() =~= t@.subrange(lo as int, hi - 1));
        hi = hi - 1;
    }
    (lo, hi)
}

/// Whether `t[lo..hi]` starts with `p` and ends with `q`, without overlap.
fn fits_between(t: &Vec<char>, lo: usize, hi: usize, p: &Vec<char>, q: &Vec<char>) -> (r: bool)
    requires
        lo <= hi <= t@.len(),
    ensures
        r == {
            let s = t@.subrange(lo as int, hi as int);
            &&& p@.len() + q@.len() <= s.len()
            &&& s.subrange(0, p@.len() as int) == p@
            &&& s.subrange(s.len() - q@.len(), s.len() as int) == q@
        },
{
    let ghost s = t@.subrange(lo as int, hi as int);
    if p.len() > hi - lo || q.len() > hi - lo - p.len() {
        return false;
    }
    let mut i: usize = 0;
    while i < p.len()
        invariant
            lo <= hi <= t@.len(),
            s == t@.subrange(lo as int, hi as int),
            p@.len() + q@.len() <= s.len(),
            i <= p@.len(),
            forall|k: int| 0 <= k < i ==> s[k] == p@[k],
        decreases p.len() - i,
    {
        if t[lo + i] != p[i] {
            assert(s.subrange(0, p@.len() as int)[i as int] != p@[i as int]);
            return false;
        }
        i = i + 1;
    }
    assert(s.subrange(0, p@.len() as int) =~= p@);
    let base: usize = hi - q.len();
    let mut j: usize = 0;
    while j < q.len()
        invariant
            lo <= hi <= t@.len(),
            s == t@.subrange(lo as int, hi as int),
            p@.len() + q@.len() <= s.len(),
            s.subrange(0, p@.len() as int) == p@,
            base == hi - q@.len(),
            j <= q@.len(),
            forall|k: int| 0 <= k < j ==> s[s.len() - q@.len() + k] == q@[k],
        decreases q.len() - j,
    {
        if t[base + j] != q[j] {
            assert(s.subrange(s.len() - q@.len(), s.len() as int)[j as int] != q@[j as int]);
            return false;
        }
        j = j + 1;
    }
    assert(s.subrange(s.len() - q@.len(), s.len() as int) =~= q@);
    true
}

/// Tries one tag on the trimmed text `t[lo..hi]`: the bounds of the text to
/// relay when the tag applies.
fn try_tag(t: &Vec<char>, lo: usize, hi: usize, tag: &ProxyTag, keep: bool, att: bool) -> (r: Option<(usize, usize)>)
    requires
        lo <= hi <= t@.len(),
    ensures
        r is Some <==> tag_applies(t@.subrange(lo as int, hi as int), *tag, keep, att),
        r matches Some(b) ==> b.0 <= b.1 <= t@.len()
            && t@.subrange(b.0 as int, b.1 as int) == relayed_text(t@.subrange(lo as int, hi as int), *tag, keep),
{
    let ghost s = t@.subrange(lo as int, hi as int);
    let p = marker_chars(&tag.prefix);
    let q = marker_chars(&tag.suffix);
    if p.len() == 0 && q.len() == 0 {
        return None;
    }
    if !fits_between(t, lo, hi, &p, &q) {
        return None;
    }
    let a = lo + p.len();
    let b = hi - q.len();
    assert(t@.subrange(a as int, b as int) =~= stripped(s, *tag));
    if a == b && !keep && !att {
        return None;
    }
    if keep {
        Some((lo, hi))
    } else {
        Some((a, b))
    }
}

/// The first of `tags` that applies to the trimmed text `t[lo..hi]`, with the
/// bounds of the text to relay.
fn first_tag(t: &Vec<char>, lo: usize, hi: usize, tags: &Vec<ProxyTag>, keep: bool, att: bool) -> (r: Option<(usize, usize, usize)>)
    requires
        lo <= hi <= t@.len(),
    ensures
        r is None ==> forall|j: int| 0 <= j < tags@.len()
            ==> !tag_applies(t@.subrange(lo as int, hi as int), #[trigger] tags@[j], keep, att),
        r matches Some(x) ==> {
            &&& x.0 < tags@.len()
            &&& tag_applies(t@.subrange(lo as int, hi as int), tags@[x.0 as int], keep, att)
            &&& forall|j: int| 0 <= j < x.0 ==> !tag_applies(t@.subrange(lo as int, hi as int), #[trigger] tags@[j], keep, att)
            &&& x.1 <= x.2 <= t@.len()
            &&& t@.subrange(x.1 as int, x.2 as int) == relayed_text(t@.subrange(lo as int, hi as int), tags@[x.0 as int], keep)
        },
{
    let mut j: usize = 0;
    while j < tags.len()
        invariant
            lo <= hi <= t@.len(),
            j <= tags@.len(),
            forall|k: int| 0 <= k < j ==> !tag_applies(t@.subrange(lo as int, hi as int), #[trigger] tags@[k], keep, att),
        decreases tags.len() - j,
    {
        match try_tag(t, lo, hi, &tags[j], keep, att) {
            Some(b) => {
                return Some((j, b.0, b.1));
            },
            None => {},
        }
        j = j + 1;
    }
    None
}

/// Matches a message against the tags of every member of a system, in the
/// order the members were registered. The first member with an applying tag
/// speaks; a later member that would match as well is reported as a collision.
pub fn match_members(text: &str, members: &Vec<Member>, has_attachments: bool) -> (r: Option<TagMatch>)
    ensures
        match_outcome(trim(text@), members@, has_attachments, r),
{
    let t = chars_of(text);
    let (lo, hi) = trim_bounds(&t);
    let ghost s = trim(text@);
    let mut i: usize = 0;
    while i < members.len()
        invariant
            t@ == text@,
            lo <= hi <= t@.len(),
            s == trim(text@),
            s == t@.subrange(lo as int, hi as int),
            i <= members@.len(),
            forall|k: int| 0 <= k < i ==> !member_applies(s, #[trigger] members@[k], has_attachments),
        decreases members.len() - i,
    {
        let m = &members[i];
        match first_tag(&t, lo, hi, &m.proxy_tags, m.keep_proxy, has_attachments) {
            Some(x) => {
                let content = text.substring_char(x.1, x.2).to_owned();
                let collision = any_member_applies(&t, lo, hi, members, i + 1, has_attachments);
                let r = TagMatch { member: i, tag: x.0, content, collision };
                return Some(r);
            },
            None => {
                assert(!member_applies(s, members@[i as int], has_attachments));
            },
        }
        i = i + 1;
    }
    None
}

/// Whether some member from position `from` on has a tag that applies.
fn any_member_applies(t: &Vec<char>, lo: usize, hi: usize, members: &Vec<Member>, from: usize, att: bool) -> (r: bool)
    requires
        lo <= hi <= t@.len(),
    ensures
        r == exists|i: int| from <= i < members@.len()
            && member_applies(t@.subrange(lo as int, hi as int), #[trigger] members@[i], att),
{
    let ghost s = t@.subrange(lo as int, hi as int);
    let mut i: usize = from;
    while i < members.len()
        invariant
            lo <= hi <= t@.len(),
            s == t@.subrange(lo as int, hi as int),
            from <= i || i >= members@.len(),
            forall|k: int| from <= k < i ==> !member_applies(s, #[trigger] members@[k], att),
        decreases members.len() - i,
    {
        let m = &members[i];
        match first_tag(t, lo, hi, &m.proxy_tags, m.keep_proxy, att) {
            Some(x) => {
                assert(member_applies(s, members@[i as int], att));
                return true;
            },
            None => {
                assert(!member_applies(s, members@[i as int], att));
            },
        }
        i = i + 1;
    }
    false
}

} // verus!
