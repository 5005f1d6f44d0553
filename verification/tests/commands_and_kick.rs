use language_bot::access::{check_access, has_admin_role};
use language_bot::commands::{argument_delimiters, dispatch_error, welcome_message, DispatchFailure};
use language_bot::kick::{
    find_member, members_listed, kick_finished, parse_kick_arguments, remove_member, start_kick,
    KickAction, KickEvent, KickRequest, KickState,
};

fn roles(names: &[&str]) -> Option<Vec<String>> {
    Some(names.iter().map(|n| n.to_string()).collect())
}

#[test]
fn admin_role_is_matched_exactly() {
    assert!(has_admin_role(&vec!["member".to_string(), "admin".to_string()]));
    assert!(!has_admin_role(&vec!["Admin".to_string(), "admins".to_string()]));
    assert!(!has_admin_role(&Vec::new()));
}

#[test]
fn access_gate_cases() {
    assert_eq!(check_access(false, &roles(&["admin"]), "no"), Some("Command only available in server channels.".to_string()));
    assert_eq!(check_access(true, &roles(&["mod"]), "no"), Some("no".to_string()));
    assert_eq!(check_access(true, &None, "no"), Some("no".to_string()));
    assert_eq!(check_access(true, &roles(&["admin"]), "no"), None);
}

#[test]
fn delimiters_are_comma_space_comma_space() {
    assert_eq!(argument_delimiters(), vec![", ".to_string(), ",".to_string(), " ".to_string()]);
}

#[test]
fn kick_arguments_space_separated() {
    let r = parse_kick_arguments("alice spamming").unwrap();
    assert_eq!(r.username, "alice");
    assert_eq!(r.reason, "spamming");
    let r = parse_kick_arguments("alice spamming a lot").unwrap();
    assert_eq!(r.username, "alice");
    assert_eq!(r.reason, "spamming a lot");
}

#[test]
fn documented_kick_call() {
    let (s, a) = remove_member(
        KickState::Start,
        KickEvent::Invoked {
            in_guild: true,
            caller_roles: roles(&["admin"]),
            arguments: "alice spamming".to_string(),
            author_name: "boss".to_string(),
        },
    );
    assert!(matches!(a, KickAction::FetchMembers));
    let (s, a) = remove_member(s, KickEvent::MembersListed { names: Some(vec!["bob".into(), "alice".into()]) });
    assert!(matches!(a, KickAction::Kick { member_index: 1, .. }));
    let (_, a) = remove_member(s, KickEvent::KickFinished { succeeded: true });
    assert_eq!(reply_of(&a), Some("User alice has been kicked for reason: spamming"));
}

#[test]
fn welcome_text() {
    assert_eq!(
        welcome_message(6),
        "welcome <@6>!I'm the welcome bot. If you have any questions about the server or the channel or want to learn more about the commands, use ~help."
    );
}

#[test]
fn rate_limit_notice_only_first_time() {
    let first = DispatchFailure::RateLimited { is_first_try: true, seconds: 5 };
    let again = DispatchFailure::RateLimited { is_first_try: false, seconds: 5 };
    assert_eq!(dispatch_error(&first), Some("Try this again in 5 seconds.".to_string()));
    assert_eq!(dispatch_error(&again), None);
    assert_eq!(dispatch_error(&DispatchFailure::Other), None);
}

#[test]
fn kick_arguments_name_only() {
    let r = parse_kick_arguments("jake").unwrap();
    assert_eq!(r.username, "jake");
    assert_eq!(r.reason, "");
}

#[test]
fn kick_arguments_name_and_reason() {
    let r = parse_kick_arguments("jake, spamming links").unwrap();
    assert_eq!(r.username, "jake");
    assert_eq!(r.reason, "spamming links");
}

#[test]
fn kick_arguments_quoted_name() {
    let r = parse_kick_arguments("\"Princess Zelda\", rude").unwrap();
    assert_eq!(r.username, "Princess Zelda");
    assert_eq!(r.reason, "rude");
}

#[test]
fn kick_arguments_missing() {
    assert!(parse_kick_arguments("").is_none());
    assert!(parse_kick_arguments("   ").is_none());
}

#[test]
fn find_member_takes_first_exact_match() {
    let names = vec!["Jake".to_string(), "jake".to_string(), "jake".to_string()];
    assert_eq!(find_member(&names, &"jake".to_string()), Some(1));
    assert_eq!(find_member(&names, &"ja".to_string()), None);
    assert_eq!(find_member(&Vec::new(), &"jake".to_string()), None);
}

fn reply_of(a: &KickAction) -> Option<&str> {
    match a {
        KickAction::Reply(m) => Some(m.as_str()),
        _ => None,
    }
}

#[test]
fn start_kick_outside_server() {
    let (s, a) = start_kick(false, None, None, "mod");
    assert!(matches!(s, KickState::Finished));
    assert_eq!(reply_of(&a), Some("Command only available in server channels."));
}

#[test]
fn start_kick_without_admin_role() {
    let req = KickRequest { username: "jake".to_string(), reason: String::new() };
    let (s, a) = start_kick(true, roles(&["moderator"]), Some(req), "mod");
    assert!(matches!(s, KickState::Finished));
    assert_eq!(reply_of(&a), Some("You don't have permission to kick members."));
}

#[test]
fn start_kick_without_username_stops_silently() {
    let (s, a) = start_kick(true, roles(&["admin"]), None, "mod");
    assert!(matches!(s, KickState::Finished));
    assert!(matches!(a, KickAction::Stop));
}

#[test]
fn members_fetch_failure_and_not_found() {
    let (s, a) = members_listed("jake".into(), "r".into(), "Kicked by mod".into(), None);
    assert!(matches!(s, KickState::Finished));
    assert_eq!(reply_of(&a), Some("An error occurred while fetching the user."));
    let (s, a) = members_listed("jake".into(), "r".into(), "Kicked by mod".into(), Some(vec!["amy".into()]));
    assert!(matches!(s, KickState::Finished));
    assert_eq!(reply_of(&a), Some("User not found."));
}

#[test]
fn kick_outcomes() {
    let (_, a) = kick_finished("jake".into(), "spam".into(), true);
    assert_eq!(reply_of(&a), Some("User jake has been kicked for reason: spam"));
    let (_, a) = kick_finished("jake".into(), "spam".into(), false);
    assert_eq!(reply_of(&a), Some("Failed to kick the user."));
}

#[test]
fn full_kick_run() {
    let (s, a) = remove_member(
        KickState::Start,
        KickEvent::Invoked {
            in_guild: true,
            caller_roles: roles(&["admin", "member"]),
            arguments: "jake, spamming".to_string(),
            author_name: "moderator".to_string(),
        },
    );
    assert!(matches!(a, KickAction::FetchMembers));
    let (s, a) = remove_member(s, KickEvent::MembersListed { names: Some(vec!["amy".into(), "jake".into()]) });
    match &a {
        KickAction::Kick { member_index, audit_reason } => {
            assert_eq!(*member_index, 1);
            assert_eq!(audit_reason, "Kicked by moderator");
        },
        _ => panic!("expected a kick"),
    }
    let (s, a) = remove_member(s, KickEvent::KickFinished { succeeded: true });
    assert!(matches!(s, KickState::Finished));
    assert_eq!(reply_of(&a), Some("User jake has been kicked for reason: spamming"));
    let (s, a) = remove_member(s, KickEvent::KickFinished { succeeded: true });
    assert!(matches!(s, KickState::Finished));
    assert!(matches!(a, KickAction::Stop));
}

#[test]
fn mismatched_event_changes_nothing() {
    let (s, a) = remove_member(KickState::Start, KickEvent::KickFinished { succeeded: true });
    assert!(matches!(s, KickState::Start));
    assert!(matches!(a, KickAction::Stop));
}

#[test]
fn unknown_roles_refuse_kick() {
    let (s, a) = remove_member(
        KickState::Start,
        KickEvent::Invoked { in_guild: true, caller_roles: None, arguments: "jake".into(), author_name: "m".into() },
    );
    assert!(matches!(s, KickState::Finished));
    assert_eq!(reply_of(&a), Some("You don't have permission to kick members."));
}

#[test]
fn admin_kick_without_reason() {
    let (s, a) = remove_member(
        KickState::Start,
        KickEvent::Invoked { in_guild: true, caller_roles: roles(&["admin"]), arguments: "jake".into(), author_name: "m".into() },
    );
    assert!(matches!(a, KickAction::FetchMembers));
    match s {
        KickState::AwaitingMembers { username, reason, audit_reason } => {
            assert_eq!(username, "jake");
            assert_eq!(reason, "");
            assert_eq!(audit_reason, "Kicked by m");
        },
        _ => panic!("expected to wait for members"),
    }
}
