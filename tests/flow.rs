use proxy_relay::autoproxy::{decide, AutoproxyResolver, GuildState};
use proxy_relay::model::{AutoproxyMode, Date, Member, MemberGuild, Message, PrivacyLevel, ProxyTag, Server, SystemGuild};
use proxy_relay::orchestrator::{
    advance, find_member, next_delete_step, on_message_deleted, plan_message, record_relay, start_relay, switch_front,
    Action, DeleteStep, Event, Phase, Plan,
};
use proxy_relay::registry::MessageRegistry;
use proxy_relay::relay::{next_send_step, Acquire, RelayFailure, SendOutcome, SendStep, WebhookRelay};
use proxy_relay::switches::{SwitchError, SwitchTracker};
use proxy_relay::model::Webhook;

fn member(id: u64, prefix: &str) -> Member {
    Member {
        id,
        hid: format!("m{}", id),
        system: 1,
        name: format!("member {}", id),
        color: None,
        avatar_url: None,
        display_name: None,
        birthday: None,
        pronouns: None,
        description: None,
        proxy_tags: vec![ProxyTag::new(Some(prefix.to_string()), None).unwrap()],
        keep_proxy: false,
        created: 0,
        message_count: 0,
        description_privacy: PrivacyLevel::Public,
        name_privacy: PrivacyLevel::Public,
        avatar_privacy: PrivacyLevel::Public,
        birthday_privacy: PrivacyLevel::Public,
        pronoun_privacy: PrivacyLevel::Public,
        metadata_privacy: PrivacyLevel::Public,
    }
}

fn settings(mode: AutoproxyMode) -> SystemGuild {
    SystemGuild { system: 1, guild: 10, proxy_enabled: true, autoproxy_mode: mode }
}

#[test]
fn latch_follows_last_speaker() {
    let members = vec![member(100, "[A] "), member(200, "[B] ")];
    let sg = settings(AutoproxyMode::Latch);
    let mut res = AutoproxyResolver::new();
    let front: Vec<u64> = Vec::new();
    match plan_message("[A] first", false, &members, &sg, &mut res, &front) {
        Plan::Tagged(tm) => assert_eq!(tm.member, 0),
        _ => panic!("expected a tag match"),
    }
    match plan_message("second", false, &members, &sg, &mut res, &front) {
        Plan::Auto { member } => assert_eq!(member, 0),
        _ => panic!("expected autoproxy"),
    }
    match plan_message("[B] third", false, &members, &sg, &mut res, &front) {
        Plan::Tagged(tm) => assert_eq!(tm.member, 1),
        _ => panic!("expected a tag match"),
    }
    assert_eq!(res.state(1, 10).latch, Some(200));
    // the latch is per guild
    assert_eq!(res.state(1, 11).latch, None);
}

#[test]
fn tag_match_latches_outside_latch_mode() {
    let members = vec![member(100, "[A] ")];
    let mut res = AutoproxyResolver::new();
    let front: Vec<u64> = Vec::new();
    let _ = plan_message("[A] hi", false, &members, &settings(AutoproxyMode::Off), &mut res, &front);
    match plan_message("later", false, &members, &settings(AutoproxyMode::Latch), &mut res, &front) {
        Plan::Auto { member } => assert_eq!(member, 0),
        _ => panic!("expected autoproxy"),
    }
}

#[test]
fn decide_modes() {
    let front = vec![5u64, 6];
    let st = |mode| GuildState { mode, latch: Some(9) };
    assert_eq!(decide(st(AutoproxyMode::Off), &front, None).0, None);
    assert_eq!(decide(st(AutoproxyMode::Front), &front, None).0, Some(5));
    assert_eq!(decide(st(AutoproxyMode::Front), &Vec::new(), None).0, None);
    assert_eq!(decide(st(AutoproxyMode::Latch), &front, None).0, Some(9));
    assert_eq!(decide(st(AutoproxyMode::Member(3)), &front, None).0, Some(3));
    let (who, next) = decide(st(AutoproxyMode::Member(3)), &front, Some(4));
    assert_eq!(who, Some(4));
    assert_eq!(next.latch, Some(4));
}

#[test]
fn front_follows_latest_switch() {
    let mut t = SwitchTracker::new();
    assert_eq!(t.record_switch(1, vec![100, 200], 10), Ok(0));
    assert_eq!(t.current_front(1), vec![100, 200]);
    assert_eq!(t.record_switch(1, vec![], 20), Ok(1));
    assert_eq!(t.current_front(1), Vec::<u64>::new());
    assert_eq!(t.record_switch(1, vec![100], 5), Ok(0));
    assert_eq!(t.current_front(1), Vec::<u64>::new());
    assert_eq!(t.current_front(2), Vec::<u64>::new());
}

#[test]
fn switch_at_same_instant_is_refused() {
    let mut t = SwitchTracker::new();
    assert_eq!(t.record_switch(1, vec![100], 10), Ok(0));
    assert_eq!(t.record_switch(1, vec![200], 10), Err(SwitchError::DuplicateTime));
    assert_eq!(t.current_front(1), vec![100]);
    assert_eq!(t.record_switch(2, vec![200], 10), Ok(0));
}

#[test]
fn history_is_latest_first_within_range() {
    let mut t = SwitchTracker::new();
    for (at, m) in [(30i64, 3u64), (10, 1), (20, 2), (40, 4)] {
        assert!(t.record_switch(1, vec![m], at).is_ok());
    }
    let h = t.history(1, 15, 35);
    let got: Vec<(i64, Vec<u64>)> = h.iter().map(|s| (s.at, s.members.clone())).collect();
    assert_eq!(got, vec![(30, vec![3]), (20, vec![2])]);
    assert_eq!(t.history(1, i64::MIN, i64::MAX).len(), 4);
    assert_eq!(t.latest_at(1), Some(40));
    assert_eq!(t.record_switch(1, vec![9], 25), Ok(2));
    assert_eq!(t.latest_at(7), None);
}

#[test]
fn switch_out_clears_latches() {
    let members = vec![member(100, "[A] ")];
    let mut t = SwitchTracker::new();
    let mut res = AutoproxyResolver::new();
    let front: Vec<u64> = Vec::new();
    let _ = plan_message("[A] hi", false, &members, &settings(AutoproxyMode::Latch), &mut res, &front);
    assert_eq!(res.state(1, 10).latch, Some(100));
    // a back-dated switch-out changes nothing
    assert_eq!(switch_front(&mut t, &mut res, 1, vec![100], 50), Ok(0));
    assert_eq!(switch_front(&mut t, &mut res, 1, vec![], 40), Ok(0));
    assert_eq!(res.state(1, 10).latch, Some(100));
    assert_eq!(switch_front(&mut t, &mut res, 1, vec![], 60), Ok(2));
    assert_eq!(res.state(1, 10).latch, None);
    assert_eq!(res.state(1, 10).mode, AutoproxyMode::Latch);
    match plan_message("untagged", false, &members, &settings(AutoproxyMode::Latch), &mut res, &front) {
        Plan::PassThrough => {}
        _ => panic!("expected nothing"),
    }
}

#[test]
fn concurrent_acquisition_creates_once() {
    let mut relay = WebhookRelay::new();
    let mut creates = 0;
    let mut waits = 0;
    for _ in 0..5 {
        match relay.get_or_create(77) {
            Acquire::Create => creates += 1,
            Acquire::Wait => waits += 1,
            Acquire::Ready => panic!("nothing is cached yet"),
        }
    }
    assert_eq!((creates, waits), (1, 4));
    let hook = Webhook { channel: 77, webhook: 9001, token: "tok".to_string() };
    let kept = relay.finish_create(77, hook);
    assert_eq!(kept.webhook, 9001);
    for _ in 0..5 {
        assert_eq!(relay.get_or_create(77), Acquire::Ready);
        let w = relay.webhook(77).unwrap();
        assert_eq!((w.webhook, w.token.as_str()), (9001, "tok"));
    }
    let late = Webhook { channel: 77, webhook: 9002, token: "other".to_string() };
    assert_eq!(relay.finish_create(77, late).webhook, 9001);
}

#[test]
fn failed_creation_can_be_retried() {
    let mut relay = WebhookRelay::new();
    assert_eq!(relay.get_or_create(5), Acquire::Create);
    relay.abandon_create(5);
    assert_eq!(relay.get_or_create(5), Acquire::Create);
    relay.finish_create(5, Webhook { channel: 5, webhook: 1, token: "t".to_string() });
    relay.invalidate(5);
    assert!(relay.webhook(5).is_none());
    assert_eq!(relay.get_or_create(5), Acquire::Create);
}

#[test]
fn tag_beats_autoproxy_and_relay_is_registered() {
    let members = vec![member(100, "[A] ")];
    let mut res = AutoproxyResolver::new();
    let mut reg = MessageRegistry::new();
    let front: Vec<u64> = Vec::new();
    match plan_message("[A] hi", false, &members, &settings(AutoproxyMode::Front), &mut res, &front) {
        Plan::Tagged(tm) => {
            assert_eq!(tm.content, "hi");
            let who = members[tm.member].id;
            assert_eq!(who, 100);
            record_relay(&mut reg, Some(555), 777, 42, Some(10), who, 9);
        }
        _ => panic!("expected a tag match"),
    }
    let m = reg.lookup_by_relayed(777).unwrap();
    assert_eq!(
        m,
        Message { mid: 777, channel: 42, member: 100, sender: 9, original_mid: Some(555), guild: Some(10) }
    );
}

#[test]
fn untagged_with_autoproxy_off_passes_through() {
    let members = vec![member(100, "[A] ")];
    let mut res = AutoproxyResolver::new();
    let reg = MessageRegistry::new();
    let front = vec![100u64];
    match plan_message("just chatting", false, &members, &settings(AutoproxyMode::Off), &mut res, &front) {
        Plan::PassThrough => {}
        _ => panic!("expected nothing"),
    }
    assert_eq!(res.state(1, 10), GuildState { mode: AutoproxyMode::Off, latch: None });
    assert!(reg.lookup_by_relayed(0).is_none());
    assert!(reg.lookup_originals_by_sender_in_channel(9, 42, 10).is_empty());
}

#[test]
fn proxy_disabled_passes_through() {
    let members = vec![member(100, "[A] ")];
    let mut res = AutoproxyResolver::new();
    let sg = SystemGuild { system: 1, guild: 10, proxy_enabled: false, autoproxy_mode: AutoproxyMode::Front };
    match plan_message("[A] hi", false, &members, &sg, &mut res, &vec![100]) {
        Plan::PassThrough => {}
        _ => panic!("expected nothing"),
    }
}

#[test]
fn front_and_pinned_member_modes() {
    let members = vec![member(100, "[A] "), member(200, "[B] ")];
    let mut res = AutoproxyResolver::new();
    match plan_message("hi", false, &members, &settings(AutoproxyMode::Front), &mut res, &vec![200, 100]) {
        Plan::Auto { member } => assert_eq!(member, 1),
        _ => panic!("expected autoproxy"),
    }
    match plan_message("hi", false, &members, &settings(AutoproxyMode::Member(100)), &mut res, &vec![200]) {
        Plan::Auto { member } => assert_eq!(member, 0),
        _ => panic!("expected autoproxy"),
    }
    // a pinned member that no longer exists resolves to nobody
    match plan_message("hi", false, &members, &settings(AutoproxyMode::Member(999)), &mut res, &vec![]) {
        Plan::PassThrough => {}
        _ => panic!("expected nothing"),
    }
    assert_eq!(find_member(&members, 200), Some(1));
    assert_eq!(find_member(&members, 300), None);
}

#[test]
fn deleted_relay_is_forgotten() {
    let mut reg = MessageRegistry::new();
    record_relay(&mut reg, Some(1), 2, 3, None, 4, 5);
    record_relay(&mut reg, None, 6, 3, None, 4, 5);
    assert!(on_message_deleted(&mut reg, 2));
    assert!(reg.lookup_by_relayed(2).is_none());
    assert!(reg.lookup_by_relayed(6).is_some());
    assert!(!on_message_deleted(&mut reg, 2));
}

#[test]
fn register_replaces_same_relayed_id() {
    let mut reg = MessageRegistry::new();
    record_relay(&mut reg, Some(1), 2, 3, None, 4, 5);
    record_relay(&mut reg, Some(8), 2, 3, None, 4, 5);
    assert_eq!(reg.lookup_by_relayed(2).unwrap().original_mid, Some(8));
    assert_eq!(reg.lookup_originals_by_sender_in_channel(5, 3, 10).len(), 1);
}

#[test]
fn recent_messages_newest_first_with_limit() {
    let mut reg = MessageRegistry::new();
    record_relay(&mut reg, Some(1), 11, 3, None, 4, 5);
    record_relay(&mut reg, Some(2), 12, 3, None, 4, 6);
    record_relay(&mut reg, Some(3), 13, 3, None, 4, 5);
    record_relay(&mut reg, Some(4), 14, 8, None, 4, 5);
    record_relay(&mut reg, Some(5), 15, 3, None, 4, 5);
    let ids: Vec<u64> = reg.lookup_originals_by_sender_in_channel(5, 3, 2).iter().map(|m| m.mid).collect();
    assert_eq!(ids, vec![15, 13]);
    let ids: Vec<u64> = reg.lookup_originals_by_sender_in_channel(5, 3, 10).iter().map(|m| m.mid).collect();
    assert_eq!(ids, vec![15, 13, 11]);
    assert!(reg.lookup_originals_by_sender_in_channel(5, 3, 0).is_empty());
}

#[test]
fn send_retry_policy() {
    assert_eq!(next_send_step(1, SendOutcome::Sent(5)), SendStep::Done(5));
    assert_eq!(next_send_step(1, SendOutcome::PermissionDenied), SendStep::GiveUp(RelayFailure::Permission));
    assert_eq!(next_send_step(1, SendOutcome::Transient), SendStep::RetryAfter(250));
    assert_eq!(next_send_step(2, SendOutcome::Transient), SendStep::RetryAfter(500));
    assert_eq!(next_send_step(3, SendOutcome::Transient), SendStep::RetryAfter(1000));
    assert_eq!(next_send_step(4, SendOutcome::Transient), SendStep::GiveUp(RelayFailure::RetriesExhausted));
    assert_eq!(next_send_step(2, SendOutcome::RateLimited(1234)), SendStep::RetryAfter(1234));
    assert_eq!(next_send_step(4, SendOutcome::RateLimited(1)), SendStep::GiveUp(RelayFailure::RetriesExhausted));
    assert_eq!(next_send_step(9, SendOutcome::Sent(1)), SendStep::Done(1));
}

#[test]
fn delete_policy() {
    assert_eq!(next_delete_step(0, false, false), DeleteStep::Retry);
    assert_eq!(next_delete_step(1, true, false), DeleteStep::Done);
    assert_eq!(next_delete_step(0, false, true), DeleteStep::Skip);
    assert_eq!(next_delete_step(3, false, false), DeleteStep::GiveUp);
}

#[test]
fn stored_codes() {
    assert_eq!(AutoproxyMode::from_code(1, None), Some(AutoproxyMode::Off));
    assert_eq!(AutoproxyMode::from_code(2, Some(5)), Some(AutoproxyMode::Front));
    assert_eq!(AutoproxyMode::from_code(3, None), Some(AutoproxyMode::Latch));
    assert_eq!(AutoproxyMode::from_code(4, Some(5)), Some(AutoproxyMode::Member(5)));
    assert_eq!(AutoproxyMode::from_code(4, None), None);
    assert_eq!(AutoproxyMode::from_code(0, None), None);
    assert_eq!(PrivacyLevel::from_code(2), Some(PrivacyLevel::Private));
    assert_eq!(PrivacyLevel::from_code(3), None);
    assert_eq!(PrivacyLevel::Public.code(), 1);
}

#[test]
fn display_name_precedence() {
    let mut m = member(1, "a:");
    assert_eq!(m.display_name_in(&None), "member 1");
    m.display_name = Some("Shown".to_string());
    assert_eq!(m.display_name_in(&None), "Shown");
    let o = MemberGuild { member: 1, guild: 10, display_name: Some("Here".to_string()), avatar_url: None };
    assert_eq!(m.display_name_in(&Some(o)), "Here");
    let o = MemberGuild { member: 1, guild: 10, display_name: None, avatar_url: None };
    assert_eq!(m.display_name_in(&Some(o)), "Shown");
}

#[test]
fn dates_are_checked() {
    assert!(Date::new(2024, 2, 29).is_some());
    assert!(Date::new(2023, 2, 29).is_none());
    assert!(Date::new(1900, 2, 29).is_none());
    assert!(Date::new(2000, 2, 29).is_some());
    assert!(Date::new(2023, 4, 31).is_none());
    assert!(Date::new(2023, 13, 1).is_none());
    assert!(Date::new(2023, 1, 0).is_none());
    assert_eq!(Date::new(-4, 2, 29), Some(Date { year: -4, month: 2, day: 29 }));
}

#[test]
fn server_blacklists() {
    let s = Server { id: 1, log_channel: Some(9), log_blacklist: vec![3], blacklist: vec![4, 5], log_cleanup_enabled: false };
    assert!(s.proxy_allowed_in(3));
    assert!(!s.proxy_allowed_in(5));
    assert!(s.logs_channel(4));
    assert!(!s.logs_channel(3));
    let quiet = Server { id: 1, log_channel: None, log_blacklist: vec![], blacklist: vec![], log_cleanup_enabled: true };
    assert!(!quiet.logs_channel(4));
}

#[test]
fn relay_runs_send_retry_delete_finish() {
    let p = start_relay();
    assert_eq!(p, Phase::Sending { attempt: 1 });
    let (p, a) = advance(p, Event::Send(SendOutcome::Transient), false);
    assert_eq!((p, a), (Phase::Sending { attempt: 2 }, Action::SendAfter(250)));
    let (p, a) = advance(p, Event::Send(SendOutcome::RateLimited(70)), false);
    assert_eq!((p, a), (Phase::Sending { attempt: 3 }, Action::SendAfter(70)));
    let (p, a) = advance(p, Event::Send(SendOutcome::Sent(99)), false);
    assert_eq!((p, a), (Phase::Deleting { relayed: 99, attempt: 1 }, Action::DeleteOriginal));
    let (p, a) = advance(p, Event::Delete(false), false);
    assert_eq!((p, a), (Phase::Deleting { relayed: 99, attempt: 2 }, Action::DeleteOriginal));
    let (p, a) = advance(p, Event::Delete(true), false);
    assert_eq!((p, a), (Phase::Done { relayed: 99 }, Action::Finish(99)));
    let (q, a) = advance(p, Event::Delete(true), false);
    assert_eq!((q, a), (p, Action::Ignore));
}

#[test]
fn relay_failures() {
    let (p, a) = advance(start_relay(), Event::Send(SendOutcome::PermissionDenied), false);
    assert_eq!((p, a), (Phase::Failed(RelayFailure::Permission), Action::Abandon(RelayFailure::Permission)));
    let mut p = start_relay();
    for _ in 0..3 {
        p = advance(p, Event::Send(SendOutcome::Transient), false).0;
    }
    let (p, a) = advance(p, Event::Send(SendOutcome::Transient), false);
    assert_eq!(a, Action::Abandon(RelayFailure::RetriesExhausted));
    assert_eq!(p, Phase::Failed(RelayFailure::RetriesExhausted));
    // the original is already gone: no delete
    let (p, a) = advance(start_relay(), Event::Send(SendOutcome::Sent(5)), true);
    assert_eq!((p, a), (Phase::Done { relayed: 5 }, Action::Finish(5)));
    // a delete that keeps failing leaves the relay standing
    let mut p = Phase::Deleting { relayed: 8, attempt: 1 };
    for _ in 0..2 {
        p = advance(p, Event::Delete(false), false).0;
    }
    assert_eq!(advance(p, Event::Delete(false), false), (Phase::Done { relayed: 8 }, Action::Finish(8)));
}

#[test]
fn settings_rows() {
    let sg = SystemGuild::from_row(1, 2, true, 4, Some(77)).unwrap();
    assert_eq!(sg.autoproxy_mode, AutoproxyMode::Member(77));
    assert!(sg.proxy_enabled);
    assert!(SystemGuild::from_row(1, 2, true, 4, None).is_none());
    assert!(SystemGuild::from_row(1, 2, true, 9, None).is_none());
    assert_eq!(SystemGuild::from_row(1, 2, false, 2, None).unwrap().autoproxy_mode, AutoproxyMode::Front);
}

#[test]
fn avatar_precedence() {
    let mut m = member(1, "a:");
    assert_eq!(m.avatar_in(&None), None);
    m.avatar_url = Some("own.png".to_string());
    let o = MemberGuild { member: 1, guild: 10, display_name: None, avatar_url: Some("here.png".to_string()) };
    assert_eq!(m.avatar_in(&Some(o)), Some("here.png".to_string()));
    assert_eq!(m.avatar_in(&None), Some("own.png".to_string()));
}
