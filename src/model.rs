use vstd::prelude::*;

verus! {

/// A prefix and/or a suffix that marks a message as written by one member.
pub struct ProxyTag {
    pub prefix: Option<String>,
    pub suffix: Option<String>,
}

/// The characters of an optional marker; an absent marker is empty.
pub open spec fn marker(m: Option<String>) -> Seq<char> {
    match m {
        Some(s) => s@,
        None => Seq::empty(),
    }
}

impl ProxyTag {
    /// A tag is usable when it carries at least one non-empty marker.
    pub open spec fn wf(&self) -> bool {
        marker(self.prefix).len() > 0 || marker(self.suffix).len() > 0
    }

    /// Builds a tag, refusing one with no non-empty marker.
    pub fn new(prefix: Option<String>, suffix: Option<String>) -> (r: Option<ProxyTag>)
        ensures
            r is Some <==> (marker(prefix).len() > 0 || marker(suffix).len() > 0),
            r matches Some(t) ==> t.prefix == prefix && t.suffix == suffix,
    {
        let p = match &prefix {
            Some(s) => s.as_str().unicode_len() > 0,
            None => false,
        };
        let q = match &suffix {
            Some(s) => s.as_str().unicode_len() > 0,
            None => false,
        };
        if p || q {
            Some(ProxyTag { prefix, suffix })
        } else {
            None
        }
    }
}

/// A calendar date.
#[derive(Clone, Copy, Debug, PartialEq, Eq, Structural)]
pub struct Date {
    pub year: i32,
    pub month: u8,
    pub day: u8,
}

pub open spec fn is_leap(y: int) -> bool {
    (y % 4 == 0 && y % 100 != 0) || y % 400 == 0
}

pub open spec fn days_in_month(y: int, m: int) -> int {
    if m == 2 {
        if is_leap(y) {
            29
        } else {
            28
        }
    } else if m == 4 || m == 6 || m == 9 || m == 11 {
        30
    } else {
        31
    }
}

impl Date {
    pub open spec fn wf(&self) -> bool {
        1 <= self.month <= 12 && 1 <= self.day <= days_in_month(self.year as int, self.month as int)
    }

    /// Builds a date of the proleptic Gregorian calendar, refusing one that does not exist.
    pub fn new(year: i32, month: u8, day: u8) -> (r: Option<Date>)
        ensures
            r is Some <==> (Date { year, month, day }).wf(),
            r matches Some(d) ==> d == (Date { year, month, day }),
    {
        if month < 1 || month > 12 || day < 1 {
            return None;
        }
        let leap = (year % 4 == 0 && year % 100 != 0) || year % 400 == 0;
        let last: u8 = if month == 2 {
            if leap {
                29
            } else {
                28
            }
        } else if month == 4 || month == 6 || month == 9 || month == 11 {
            30
        } else {
            31
        };
        if day > last {
            None
        } else {
            Some(Date { year, month, day })
        }
    }
}

/// One persona of a system. Instants are seconds since the Unix epoch, UTC.
pub struct Member {
    pub id: u64,
    pub hid: String,
    pub system: u64,
    pub color: Option<String>,
    pub avatar_url: Option<String>,
    pub name: String,
    pub display_name: Option<String>,
    pub birthday: Option<Date>,
    pub pronouns: Option<String>,
    pub description: Option<String>,
    pub proxy_tags: Vec<ProxyTag>,
    pub keep_proxy: bool,
    pub created: i64,
    pub message_count: u64,
    pub description_privacy: PrivacyLevel,
    pub name_privacy: PrivacyLevel,
    pub avatar_privacy: PrivacyLevel,
    pub birthday_privacy: PrivacyLevel,
    pub pronoun_privacy: PrivacyLevel,
    pub metadata_privacy: PrivacyLevel,
}

/// A group of identities behind one account. Instants are seconds since the
/// Unix epoch, UTC.
pub struct System {
    pub id: u64,
    pub hid: String,
    pub name: Option<String>,
    pub description: Option<String>,
    pub tag: Option<String>,
    pub avatar_url: Option<String>,
    pub token: Option<String>,
    pub created: i64,
    pub ui_tz: String,
    pub description_privacy: PrivacyLevel,
    pub member_list_privacy: PrivacyLevel,
    pub front_privacy: PrivacyLevel,
    pub front_history_privacy: PrivacyLevel,
    pub group_list_privacy: PrivacyLevel,
    pub pings_enabled: bool,
}

/// A named set of members of one system, used for display only.
pub struct Group {
    pub id: u64,
    pub hid: String,
    pub system: u64,
    pub name: String,
    pub display_name: Option<String>,
    pub description: Option<String>,
    pub icon: Option<String>,
    pub description_privacy: PrivacyLevel,
    pub icon_privacy: PrivacyLevel,
    pub list_privacy: PrivacyLevel,
    pub visibility: PrivacyLevel,
    pub created: i64,
}

/// Settings of one chat server.
pub struct Server {
    pub id: u64,
    pub log_channel: Option<u64>,
    pub log_blacklist: Vec<u64>,
    pub blacklist: Vec<u64>,
    pub log_cleanup_enabled: bool,
}

impl Server {
    /// Whether messages in `channel` may be proxied.
    pub fn proxy_allowed_in(&self, channel: u64) -> (r: bool)
        ensures
            r == !self.blacklist@.contains(channel),
    {
        !list_holds(&self.blacklist, channel)
    }

    /// Whether proxied messages in `channel` are logged.
    pub fn logs_channel(&self, channel: u64) -> (r: bool)
        ensures
            r == (self.log_channel is Some && !self.log_blacklist@.contains(channel)),
    {
        self.log_channel.is_some() && !list_holds(&self.log_blacklist, channel)
    }
}

fn list_holds(v: &Vec<u64>, x: u64) -> (r: bool)
    ensures
        r == v@.contains(x),
{
    let mut i: usize = 0;
    while i < v.len()
        invariant
            i <= v@.len(),
            forall|k: int| 0 <= k < i ==> v@[k] != x,
        decreases v.len() - i,
    {
        if v[i] == x {
            assert(v@[i as int] == x);
            return true;
        }
        i = i + 1;
    }
    false
}

/// A display override of one member within one chat server.
pub struct MemberGuild {
    pub member: u64,
    pub guild: u64,
    pub display_name: Option<String>,
    pub avatar_url: Option<String>,
}

/// The name under which a relayed message appears.
pub open spec fn shown_name(m: Member, o: Option<MemberGuild>) -> Seq<char> {
    match o {
        Some(g) if g.display_name is Some => g.display_name->0@,
        _ => match m.display_name {
            Some(d) => d@,
            None => m.name@,
        },
    }
}

impl Member {
    /// The display name to relay with: the server override first, then the
    /// member's display name, then its name.
    pub fn display_name_in(&self, over: &Option<MemberGuild>) -> (r: String)
        ensures
            r@ == shown_name(*self, *over),
    {
        match over {
            Some(g) if g.display_name.is_some() => {
                let d = g.display_name.as_ref().unwrap();
                d.clone()
            },
            _ => match &self.display_name {
                Some(d) => d.clone(),
                None => self.name.clone(),
            },
        }
    }
}

/// The avatar with which a relayed message appears, if any.
pub open spec fn shown_avatar(m: Member, o: Option<MemberGuild>) -> Option<String> {
    match o {
        Some(g) if g.avatar_url is Some => g.avatar_url,
        _ => m.avatar_url,
    }
}

impl Member {
    /// The avatar to relay with: the server override first, then the member's own.
    pub fn avatar_in(&self, over: &Option<MemberGuild>) -> (r: Option<String>)
        ensures
            r == shown_avatar(*self, *over),
    {
        match over {
            Some(g) if g.avatar_url.is_some() => g.avatar_url.clone(),
            _ => self.avatar_url.clone(),
        }
    }
}

/// Who may see a field.
#[derive(Clone, Copy, Debug, PartialEq, Eq, Structural)]
pub enum PrivacyLevel {
    Public,
    Private,
}

/// The stored integer of a privacy level.
pub open spec fn privacy_code(p: PrivacyLevel) -> i32 {
    match p {
        PrivacyLevel::Public => 1,
        PrivacyLevel::Private => 2,
    }
}

impl PrivacyLevel {
    /// Reads a stored privacy level; unknown codes are refused.
    pub fn from_code(c: i32) -> (r: Option<PrivacyLevel>)
        ensures
            r is Some <==> (c == 1 || c == 2),
            r matches Some(p) ==> privacy_code(p) == c,
    {
        if c == 1 {
            Some(PrivacyLevel::Public)
        } else if c == 2 {
            Some(PrivacyLevel::Private)
        } else {
            None
        }
    }

    /// The integer under which the level is stored.
    pub fn code(&self) -> (r: i32)
        ensures
            r == privacy_code(*self),
    {
        match self {
            PrivacyLevel::Public => 1,
            PrivacyLevel::Private => 2,
        }
    }
}

/// How a system picks a member for a message that carries no tag.
#[derive(Clone, Copy, Debug, PartialEq, Eq, Structural)]
pub enum AutoproxyMode {
    Off,
    Front,
    Latch,
    Member(u64),
}

impl AutoproxyMode {
    /// Reads the stored mode code and pinned member.
    /// Codes: 1 off, 2 front, 3 latch, 4 member (which needs a pinned member).
    pub fn from_code(c: i32, pinned: Option<u64>) -> (r: Option<AutoproxyMode>)
        ensures
            c == 1 ==> r == Some(AutoproxyMode::Off),
            c == 2 ==> r == Some(AutoproxyMode::Front),
            c == 3 ==> r == Some(AutoproxyMode::Latch),
            c == 4 ==> r == match pinned {
                Some(m) => Some(AutoproxyMode::Member(m)),
                None => None::<AutoproxyMode>,
            },
            !(1 <= c <= 4) ==> r is None,
    {
        if c == 1 {
            Some(AutoproxyMode::Off)
        } else if c == 2 {
            Some(AutoproxyMode::Front)
        } else if c == 3 {
            Some(AutoproxyMode::Latch)
        } else if c == 4 {
            match pinned {
                Some(m) => Some(AutoproxyMode::Member(m)),
                None => None,
            }
        } else {
            None
        }
    }
}

/// Settings of one system within one chat server.
#[derive(Clone, Copy, Debug, PartialEq, Eq, Structural)]
pub struct SystemGuild {
    pub system: u64,
    pub guild: u64,
    pub proxy_enabled: bool,
    pub autoproxy_mode: AutoproxyMode,
}

impl SystemGuild {
    /// Reads a stored settings row; a row with an unknown mode is refused.
    pub fn from_row(system: u64, guild: u64, proxy_enabled: bool, mode: i32, member: Option<u64>) -> (r: Option<SystemGuild>)
        ensures
            r is Some <==> ((1 <= mode <= 3) || (mode == 4 && member is Some)),
            r matches Some(sg) ==> sg.system == system && sg.guild == guild && sg.proxy_enabled == proxy_enabled
                && Some(sg.autoproxy_mode) == (if mode == 1 {
                    Some(AutoproxyMode::Off)
                } else if mode == 2 {
                    Some(AutoproxyMode::Front)
                } else if mode == 3 {
                    Some(AutoproxyMode::Latch)
                } else {
                    Some(AutoproxyMode::Member(member->0))
                }),
    {
        match AutoproxyMode::from_code(mode, member) {
            Some(m) => Some(SystemGuild { system, guild, proxy_enabled, autoproxy_mode: m }),
            None => None,
        }
    }
}

/// A relayed message and where it came from.
#[derive(Clone, Copy, Debug, PartialEq, Eq, Structural)]
pub struct Message {
    pub mid: u64,
    pub channel: u64,
    pub member: u64,
    pub sender: u64,
    pub original_mid: Option<u64>,
    pub guild: Option<u64>,
}

/// The impersonation channel of one chat channel.
#[derive(Debug)]
pub struct Webhook {
    pub channel: u64,
    pub webhook: u64,
    pub token: String,
}

} // verus!
