//! The `remove_member` command as a step function: the application reports what
//! happened (the command was invoked, the member list arrived, the kick finished), and
//! the step says what to do next.

use vstd::prelude::*;
use crate::discord::{first_quoted_argument, rest_after_first_argument, single_quoted_argument, rest_after_quoted_argument};
use crate::access::{gate, check_access, roles_view, holds_admin_role};
use crate::commands::{argument_delimiters, delimiters_spec};

verus! {

/// The refusal to a caller without the "admin" role.
pub open spec fn kick_denied_text() -> Seq<char> {
    "You don't have permission to kick members."@
}

/// The reply when the member list could not be fetched.
pub open spec fn fetch_failed_text() -> Seq<char> {
    "An error occurred while fetching the user."@
}

/// The reply when no member has the requested name.
pub open spec fn not_found_text() -> Seq<char> {
    "User not found."@
}

/// The reply when Discord refused the kick.
pub open spec fn kick_failed_text() -> Seq<char> {
    "Failed to kick the user."@
}

/// The reply after a successful kick.
pub open spec fn kicked_text(username: Seq<char>, reason: Seq<char>) -> Seq<char> {
    "User "@ + username + " has been kicked for reason: "@ + reason
}

/// The reason recorded in the server's audit log.
pub open spec fn audit_reason_text(author_name: Seq<char>) -> Seq<char> {
    "Kicked by "@ + author_name
}

/// `i` is the first position of `name` in `names`.
pub open spec fn first_position(names: Seq<Seq<char>>, name: Seq<char>, i: int) -> bool {
    &&& 0 <= i < names.len()
    &&& names[i] == name
    &&& forall|k: int| 0 <= k < i ==> #[trigger] names[k] != name
}

/// The parsed arguments of `remove_member`: whom to kick and why.
pub struct KickRequest {
    pub username: String,
    pub reason: String,
}

/// Where a `remove_member` run stands.
pub enum KickState {
    /// Nothing has happened yet.
    Start,
    /// The member list has been asked for.
    AwaitingMembers { username: String, reason: String, audit_reason: String },
    /// The kick has been asked for.
    AwaitingKick { username: String, reason: String },
    /// The run is over.
    Finished,
}

/// What the application observed.
pub enum KickEvent {
    /// The command was invoked: whether in a server, the names of the caller's roles
    /// (when they could be looked up), the text after the command name, and the caller's
    /// name.
    Invoked { in_guild: bool, caller_roles: Option<Vec<String>>, arguments: String, author_name: String },
    /// The server's member list: their user names in order, or `None` if fetching failed.
    MembersListed { names: Option<Vec<String>> },
    /// Whether the kick succeeded.
    KickFinished { succeeded: bool },
}

/// What the application should do next.
pub enum KickAction {
    /// Reply with this text; the run is over.
    Reply(String),
    /// End the run without saying anything.
    Stop,
    /// Fetch the server's member list.
    FetchMembers,
    /// Kick the member at this position of the list, with this audit-log reason.
    Kick { member_index: usize, audit_reason: String },
}

/// `action` is a reply with exactly `text`.
pub open spec fn replies(action: KickAction, text: Seq<char>) -> bool {
    action matches KickAction::Reply(m) && m@ == text
}

/// The effect of the command's invocation, once its arguments are parsed.
pub open spec fn start_spec(
    in_guild: bool,
    roles: Option<Seq<Seq<char>>>,
    request: Option<(Seq<char>, Seq<char>)>,
    author_name: Seq<char>,
    next: KickState,
    action: KickAction,
) -> bool {
    match gate(in_guild, roles, kick_denied_text()) {
        Some(refusal) => next is Finished && replies(action, refusal),
        None => match request {
            None => next is Finished && action is Stop,
            Some((u, why)) => {
                &&& next matches KickState::AwaitingMembers { username, reason, audit_reason }
                    && username@ == u && reason@ == why && audit_reason@ == audit_reason_text(author_name)
                &&& action is FetchMembers
            },
        },
    }
}

/// The effect of the member list arriving while waiting for it.
pub open spec fn members_spec(
    username: Seq<char>,
    reason: Seq<char>,
    audit_reason: Seq<char>,
    names: Option<Seq<Seq<char>>>,
    next: KickState,
    action: KickAction,
) -> bool {
    match names {
        None => next is Finished && replies(action, fetch_failed_text()),
        Some(ns) => if exists|i: int| 0 <= i < ns.len() && #[trigger] ns[i] == username {
            &&& next matches KickState::AwaitingKick { username: u, reason: r } && u@ == username && r@ == reason
            &&& action matches KickAction::Kick { member_index, audit_reason: a }
                && first_position(ns, username, member_index as int) && a@ == audit_reason
        } else {
            next is Finished && replies(action, not_found_text())
        },
    }
}

/// The effect of the kick's outcome.
pub open spec fn finish_spec(username: Seq<char>, reason: Seq<char>, succeeded: bool, next: KickState, action: KickAction) -> bool {
    &&& next is Finished
    &&& replies(action, if succeeded { kicked_text(username, reason) } else { kick_failed_text() })
}

/// Splits the arguments of `remove_member` as serenity does: the first (possibly quoted)
/// argument is the user name, the text after it is the reason. `None` when there is no
/// argument at all.
pub fn parse_kick_arguments(arguments: &str) -> (r: Option<KickRequest>)
    ensures
        match r {
            Some(req) => first_quoted_argument(arguments@, delimiters_spec()) == Some(req.username@)
                && req.reason@ == rest_after_first_argument(arguments@, delimiters_spec()),
            None => first_quoted_argument(arguments@, delimiters_spec()) == None::<Seq<char>>,
        },
        arguments@.len() == 0 ==> r is None,
{
    let delimiters = argument_delimiters();
    match single_quoted_argument(arguments, &delimiters) {
        Some(username) => {
            let reason = rest_after_quoted_argument(arguments, &delimiters);
            Some(KickRequest { username, reason })
        },
        None => None,
    }
}

/// The step taken when the command is invoked, given its parsed arguments: refuse
/// outside a server or to a caller without the "admin" role, stop silently without a
/// user name, else ask for the member list.
pub fn start_kick(in_guild: bool, caller_roles: Option<Vec<String>>, request: Option<KickRequest>, author_name: &str) -> (r: (KickState, KickAction))
    ensures
        start_spec(in_guild, roles_view(caller_roles),
            match request { Some(q) => Some((q.username@, q.reason@)), None => None },
            author_name@, r.0, r.1),
{
    match check_access(in_guild, &caller_roles, "You don't have permission to kick members.") {
        Some(refusal) => (KickState::Finished, KickAction::Reply(refusal)),
        None => match request {
            None => (KickState::Finished, KickAction::Stop),
            Some(q) => {
                let mut audit_reason = String::from_str("Kicked by ");
                audit_reason.append(author_name);
                (KickState::AwaitingMembers { username: q.username, reason: q.reason, audit_reason }, KickAction::FetchMembers)
            },
        },
    }
}

/// The position of the first member named `name`, if any.
pub fn find_member(names: &Vec<String>, name: &String) -> (r: Option<usize>)
    ensures
        match r {
            Some(i) => first_position(names.deep_view(), name@, i as int),
            None => forall|k: int| 0 <= k < names.len() ==> #[trigger] names.deep_view()[k] != name@,
        },
{
    let mut i: usize = 0;
    while i < names.len()
        invariant
            i <= names.len(),
            forall|k: int| 0 <= k < i ==> #[trigger] names.deep_view()[k] != name@,
        decreases names.len() - i,
    {
        assert(names.deep_view()[i as int] == names@[i as int]@);
        if names[i] == *name {
            return Some(i);
        }
        i = i + 1;
    }
    None
}

/// The step taken when the member list arrives.
pub fn members_listed(username: String, reason: String, audit_reason: String, names: Option<Vec<String>>) -> (r: (KickState, KickAction))
    ensures
        members_spec(username@, reason@, audit_reason@,
            match names { Some(ns) => Some(ns.deep_view()), None => None::<Seq<Seq<char>>> }, r.0, r.1),
{
    match names {
        None => {
            let m = String::from_str("An error occurred while fetching the user.");
            assert(m@ == fetch_failed_text());
            let a = KickAction::Reply(m);
            assert(replies(a, fetch_failed_text()));
            assert(members_spec(username@, reason@, audit_reason@, None::<Seq<Seq<char>>>, KickState::Finished, a));
            (KickState::Finished, a)
        },
        Some(ns) => match find_member(&ns, &username) {
            Some(i) => {
                proof { assert(ns.deep_view()[i as int] == username@); }
                (KickState::AwaitingKick { username, reason }, KickAction::Kick { member_index: i, audit_reason })
            },
            None => (KickState::Finished, KickAction::Reply(String::from_str("User not found."))),
        },
    }
}

/// The step taken when the kick has finished.
pub fn kick_finished(username: String, reason: String, succeeded: bool) -> (r: (KickState, KickAction))
    ensures
        finish_spec(username@, reason@, succeeded, r.0, r.1),
{
    if succeeded {
        let mut m = String::from_str("User ");
        m.append(username.as_str());
        m.append(" has been kicked for reason: ");
        m.append(reason.as_str());
        (KickState::Finished, KickAction::Reply(m))
    } else {
        (KickState::Finished, KickAction::Reply(String::from_str("Failed to kick the user.")))
    }
}

/// What one step of `remove_member` does, for every state and event.
pub open spec fn step_spec(state: KickState, event: KickEvent, next: KickState, action: KickAction) -> bool {
    match (state, event) {
        (KickState::Start, KickEvent::Invoked { in_guild, caller_roles, arguments, author_name }) =>
            start_spec(in_guild, roles_view(caller_roles),
                match first_quoted_argument(arguments@, delimiters_spec()) {
                    Some(u) => Some((u, rest_after_first_argument(arguments@, delimiters_spec()))),
                    None => None,
                },
                author_name@, next, action),
        (KickState::AwaitingMembers { username, reason, audit_reason }, KickEvent::MembersListed { names }) =>
            members_spec(username@, reason@, audit_reason@,
                match names { Some(ns) => Some(ns.deep_view()), None => None::<Seq<Seq<char>>> }, next, action),
        (KickState::AwaitingKick { username, reason }, KickEvent::KickFinished { succeeded }) =>
            finish_spec(username@, reason@, succeeded, next, action),
        (s, _) => next == s && action is Stop,
    }
}

/// One step of `remove_member`. An event that does not fit the current state changes
/// nothing and asks for nothing.
pub fn remove_member(state: KickState, event: KickEvent) -> (r: (KickState, KickAction))
    ensures
        step_spec(state, event, r.0, r.1),
{
    match state {
        KickState::Start => match event {
            KickEvent::Invoked { in_guild, caller_roles, arguments, author_name } => {
                let request = parse_kick_arguments(arguments.as_str());
                start_kick(in_guild, caller_roles, request, author_name.as_str())
            },
            _ => (KickState::Start, KickAction::Stop),
        },
        KickState::AwaitingMembers { username, reason, audit_reason } => match event {
            KickEvent::MembersListed { names } => members_listed(username, reason, audit_reason, names),
            _ => (KickState::AwaitingMembers { username, reason, audit_reason }, KickAction::Stop),
        },
        KickState::AwaitingKick { username, reason } => match event {
            KickEvent::KickFinished { succeeded } => kick_finished(username, reason, succeeded),
            _ => (KickState::AwaitingKick { username, reason }, KickAction::Stop),
        },
        KickState::Finished => (KickState::Finished, KickAction::Stop),
    }
}

/// A run refused at its start (outside a server, or a caller without the "admin" role)
/// ends at once: it never asks for the member list, so nobody is kicked.
pub proof fn law_refused_run_kicks_nobody(
    in_guild: bool,
    roles: Option<Seq<Seq<char>>>,
    request: Option<(Seq<char>, Seq<char>)>,
    author_name: Seq<char>,
    next: KickState,
    action: KickAction,
)
    requires
        start_spec(in_guild, roles, request, author_name, next, action),
        !in_guild || !(roles matches Some(rs) && holds_admin_role(rs)),
    ensures
        next is Finished,
        !(action is FetchMembers),
        !(action is Kick),
{
}

/// The member that gets kicked is the first one whose user name is exactly the name
/// given to the command.
pub proof fn law_kick_targets_first_named_member(
    username: Seq<char>,
    reason: Seq<char>,
    audit_reason: Seq<char>,
    names: Seq<Seq<char>>,
    next: KickState,
    action: KickAction,
)
    requires
        members_spec(username, reason, audit_reason, Some(names), next, action),
        action is Kick,
    ensures
        names[action->member_index as int] == username,
        forall|k: int| 0 <= k < action->member_index ==> #[trigger] names[k] != username,
{
}

/// How many state-changing steps a run can still take from `s`: invocation, member list,
/// kick outcome.
pub open spec fn progress(s: KickState) -> nat {
    match s {
        KickState::Start => 3,
        KickState::AwaitingMembers { .. } => 2,
        KickState::AwaitingKick { .. } => 1,
        KickState::Finished => 0,
    }
}

/// Every step that fits its state moves the run strictly forward, so a run ends after
/// at most three such steps.
pub proof fn law_steps_move_forward(
    in_guild: bool,
    roles: Option<Seq<Seq<char>>>,
    request: Option<(Seq<char>, Seq<char>)>,
    author_name: Seq<char>,
    username: Seq<char>,
    reason: Seq<char>,
    audit_reason: Seq<char>,
    names: Option<Seq<Seq<char>>>,
    succeeded: bool,
    next: KickState,
    action: KickAction,
)
    ensures
        start_spec(in_guild, roles, request, author_name, next, action) ==> progress(next) < 3,
        members_spec(username, reason, audit_reason, names, next, action) ==> progress(next) < 2,
        finish_spec(username, reason, succeeded, next, action) ==> progress(next) == 0,
{
}

/// A step never moves a run backwards, and a step that kicks goes from waiting for the
/// member list to waiting for the kick.
pub proof fn lemma_step_progress(state: KickState, event: KickEvent, next: KickState, action: KickAction)
    requires
        step_spec(state, event, next, action),
    ensures
        progress(next) <= progress(state),
        action is Kick ==> progress(state) == 2 && progress(next) == 1,
        action is Reply ==> progress(state) > 0 && progress(next) == 0,
        progress(next) < progress(state) || (next == state && action is Stop),
{
}

/// Along a run, the state at a later point is never further back than at an earlier one.
pub proof fn lemma_run_progress(states: Seq<KickState>, events: Seq<KickEvent>, actions: Seq<KickAction>, i: int, j: int)
    requires
        states.len() == events.len() + 1,
        actions.len() == events.len(),
        forall|k: int| 0 <= k < events.len() ==> #[trigger] step_spec(states[k], events[k], states[k + 1], actions[k]),
        0 <= i <= j < states.len(),
    ensures
        progress(states[j]) <= progress(states[i]),
    decreases j - i,
{
    if i < j {
        let k = j - 1;
        lemma_run_progress(states, events, actions, i, k);
        lemma_step_progress(states[k], events[k], states[k + 1], actions[k]);
    }
}

/// A run of `remove_member` kicks at most one member: whatever events the application
/// reports, at most one step asks for a kick.
pub proof fn law_at_most_one_kick(states: Seq<KickState>, events: Seq<KickEvent>, actions: Seq<KickAction>)
    requires
        states.len() == events.len() + 1,
        actions.len() == events.len(),
        states[0] is Start,
        forall|k: int| 0 <= k < events.len() ==> #[trigger] step_spec(states[k], events[k], states[k + 1], actions[k]),
    ensures
        forall|a: int, b: int| 0 <= a < actions.len() && 0 <= b < actions.len()
            && #[trigger] actions[a] is Kick && #[trigger] actions[b] is Kick ==> a == b,
{
    assert forall|a: int, b: int| 0 <= a < actions.len() && 0 <= b < actions.len()
        && #[trigger] actions[a] is Kick && #[trigger] actions[b] is Kick implies a == b by {
        lemma_step_progress(states[a], events[a], states[a + 1], actions[a]);
        lemma_step_progress(states[b], events[b], states[b + 1], actions[b]);
        if a < b {
            lemma_run_progress(states, events, actions, a + 1, b);
        } else if b < a {
            lemma_run_progress(states, events, actions, b + 1, a);
        }
    }
}

/// A run replies at most once: a reply ends the run, and a finished run only stops.
pub proof fn law_at_most_one_reply(states: Seq<KickState>, events: Seq<KickEvent>, actions: Seq<KickAction>)
    requires
        states.len() == events.len() + 1,
        actions.len() == events.len(),
        forall|k: int| 0 <= k < events.len() ==> #[trigger] step_spec(states[k], events[k], states[k + 1], actions[k]),
    ensures
        forall|a: int, b: int| 0 <= a < actions.len() && 0 <= b < actions.len()
            && #[trigger] actions[a] is Reply && #[trigger] actions[b] is Reply ==> a == b,
{
    assert forall|a: int, b: int| 0 <= a < actions.len() && 0 <= b < actions.len()
        && #[trigger] actions[a] is Reply && #[trigger] actions[b] is Reply implies a == b by {
        lemma_step_progress(states[a], events[a], states[a + 1], actions[a]);
        lemma_step_progress(states[b], events[b], states[b + 1], actions[b]);
        if a < b {
            lemma_run_progress(states, events, actions, a + 1, b);
        } else if b < a {
            lemma_run_progress(states, events, actions, b + 1, a);
        }
    }
}

/// `event` is an invocation, in a server, by a caller holding the "admin" role, whose
/// first argument is `name`.
pub open spec fn invoked_by_admin_for(event: KickEvent, name: Seq<char>) -> bool {
    match event {
        KickEvent::Invoked { in_guild, caller_roles, arguments, author_name } => {
            &&& in_guild
            &&& match roles_view(caller_roles) {
                Some(rs) => holds_admin_role(rs),
                None => false,
            }
            &&& first_quoted_argument(arguments@, delimiters_spec()) == Some(name)
        },
        _ => false,
    }
}

/// The user name of the member that a kick step targets, read from the member list the
/// step received.
pub open spec fn kicked_name(event: KickEvent, action: KickAction) -> Option<Seq<char>> {
    match (event, action) {
        (KickEvent::MembersListed { names: Some(ns) }, KickAction::Kick { member_index, audit_reason }) =>
            if member_index < ns.len() { Some(ns.deep_view()[member_index as int]) } else { None },
        _ => None,
    }
}

/// The kick asked for at step `b` targets a member named by an earlier admin invocation.
pub open spec fn kick_was_requested(events: Seq<KickEvent>, actions: Seq<KickAction>, b: int) -> bool {
    match kicked_name(events[b], actions[b]) {
        Some(name) => exists|a: int| 0 <= a < b && #[trigger] invoked_by_admin_for(events[a], name),
        None => false,
    }
}

/// A run waiting for the member list got there from an admin's invocation naming that
/// user.
pub proof fn lemma_waiting_came_from_invocation(states: Seq<KickState>, events: Seq<KickEvent>, actions: Seq<KickAction>, j: int)
    requires
        states.len() == events.len() + 1,
        actions.len() == events.len(),
        states[0] is Start,
        forall|k: int| 0 <= k < events.len() ==> #[trigger] step_spec(states[k], events[k], states[k + 1], actions[k]),
        0 <= j < states.len(),
    ensures
        states[j] matches KickState::AwaitingMembers { username, reason, audit_reason }
            ==> exists|a: int| 0 <= a < j && #[trigger] invoked_by_admin_for(events[a], username@),
    decreases j,
{
    if j > 0 {
        let k = j - 1;
        assert(step_spec(states[k], events[k], states[k + 1], actions[k]));
        lemma_waiting_came_from_invocation(states, events, actions, k);
        if let KickState::AwaitingMembers { username, reason, audit_reason } = states[j] {
            match (states[k], events[k]) {
                (KickState::Start, KickEvent::Invoked { in_guild, caller_roles, arguments, author_name }) => {
                    assert(invoked_by_admin_for(events[k], username@));
                },
                (KickState::AwaitingMembers { .. }, KickEvent::MembersListed { .. }) => {},
                (KickState::AwaitingKick { .. }, KickEvent::KickFinished { .. }) => {},
                _ => {
                    let a = choose|a: int| 0 <= a < k && #[trigger] invoked_by_admin_for(events[a], username@);
                    assert(0 <= a < j);
                },
            }
        }
    }
}

/// Whoever a run kicks is a member whose user name is exactly the first argument of an
/// earlier invocation, made in a server by a caller holding the "admin" role.
pub proof fn law_kick_targets_requested_name(states: Seq<KickState>, events: Seq<KickEvent>, actions: Seq<KickAction>)
    requires
        states.len() == events.len() + 1,
        actions.len() == events.len(),
        states[0] is Start,
        forall|k: int| 0 <= k < events.len() ==> #[trigger] step_spec(states[k], events[k], states[k + 1], actions[k]),
    ensures
        forall|b: int| 0 <= b < actions.len() && #[trigger] actions[b] is Kick ==> kick_was_requested(events, actions, b),
{
    assert forall|b: int| 0 <= b < actions.len() && #[trigger] actions[b] is Kick implies kick_was_requested(events, actions, b) by {
        assert(step_spec(states[b], events[b], states[b + 1], actions[b]));
        lemma_step_progress(states[b], events[b], states[b + 1], actions[b]);
        lemma_waiting_came_from_invocation(states, events, actions, b);
        assert(states[b] is AwaitingMembers);
        let username = states[b]->AwaitingMembers_username;
        assert(events[b] is MembersListed);
        let names = events[b]->names;
        assert(names is Some);
        let ns = names->0;
        let member_index = actions[b]->member_index;
        assert(first_position(ns.deep_view(), username@, member_index as int));
        assert(kicked_name(events[b], actions[b]) == Some(username@));
        let a = choose|a: int| 0 <= a < b && #[trigger] invoked_by_admin_for(events[a], username@);
        assert(invoked_by_admin_for(events[a], username@));
        assert(0 <= a < b);
        let name = kicked_name(events[b], actions[b])->0;
        assert(name == username@);
        assert(invoked_by_admin_for(events[a], name));
        assert(kick_was_requested(events, actions, b));
    }
}

/// When the member list arrives and some member has exactly the requested user name,
/// the step kicks: it targets the first member with that name, carries the audit reason
/// on, and waits for the outcome with the same name and reason.
pub proof fn law_listed_member_is_kicked(
    username: String,
    reason: String,
    audit_reason: String,
    ns: Vec<String>,
    i: int,
    next: KickState,
    action: KickAction,
)
    requires
        step_spec(
            KickState::AwaitingMembers { username, reason, audit_reason },
            KickEvent::MembersListed { names: Some(ns) },
            next,
            action,
        ),
        0 <= i < ns.len(),
        ns@[i]@ == username@,
    ensures
        action is Kick,
        action->member_index <= i,
        ns@[action->member_index as int]@ == username@,
        forall|k: int| 0 <= k < action->member_index ==> #[trigger] ns@[k]@ != username@,
        action->audit_reason@ == audit_reason@,
        next matches KickState::AwaitingKick { username: u, reason: r } && u@ == username@ && r@ == reason@,
{
    assert(ns.deep_view()[i] == ns@[i]@);
    let m = action->member_index as int;
    assert(ns.deep_view()[m] == ns@[m]@);
    assert forall|k: int| 0 <= k < action->member_index implies #[trigger] ns@[k]@ != username@ by {
        assert(ns.deep_view()[k] == ns@[k]@);
    }
    if m > i {
        assert(ns.deep_view()[i] != username@);
    }
}

/// When no member has exactly the requested user name, nobody is kicked: the run ends
/// with "User not found."; when the list could not be fetched it ends with "An error
/// occurred while fetching the user.".
pub proof fn law_unlisted_member_is_not_kicked(
    username: String,
    reason: String,
    audit_reason: String,
    names: Option<Vec<String>>,
    next: KickState,
    action: KickAction,
)
    requires
        step_spec(
            KickState::AwaitingMembers { username, reason, audit_reason },
            KickEvent::MembersListed { names },
            next,
            action,
        ),
        names matches Some(ns) ==> forall|k: int| 0 <= k < ns.len() ==> #[trigger] ns@[k]@ != username@,
    ensures
        next is Finished,
        action matches KickAction::Reply(m) && m@ == (if names is Some {
            "User not found."@
        } else {
            "An error occurred while fetching the user."@
        }),
{
    if let Some(ns) = names {
        assert forall|k: int| 0 <= k < ns.len() implies #[trigger] ns.deep_view()[k] != username@ by {
            assert(ns.deep_view()[k] == ns@[k]@);
        }
    }
}

} // verus!
