//! What the bot's commands and hooks decide and say, apart from their I/O.

use vstd::prelude::*;
use crate::text::decimal;
use crate::text::decimal_string;
use crate::discord::{mention_text, mention_user, all_arguments, rest_of_arguments};
use crate::access::{gate, check_access, roles_view};
use crate::about::{AboutText, updated_about};
use crate::counter::{CommandCounter, count_of, recorded, tally, well_formed_tally};

verus! {

/// The delimiters that split a command's arguments, tried in this order: a comma with a
/// space, a comma, a space (so `~remove_member alice spamming` names "alice").
pub open spec fn delimiters_spec() -> Seq<Seq<char>> {
    seq![", "@, ","@, " "@]
}

/// The argument delimiters the bot is configured with: ", ", "," and " ".
pub fn argument_delimiters() -> (r: Vec<String>)
    ensures
        r.deep_view() == delimiters_spec(),
        forall|i: int| 0 <= i < r.len() ==> #[trigger] r@[i]@.len() > 0,
{
    let mut r: Vec<String> = Vec::new();
    r.push(String::from_str(", "));
    r.push(String::from_str(","));
    r.push(String::from_str(" "));
    proof {
        reveal_strlit(", ");
        reveal_strlit(",");
        reveal_strlit(" ");
    }
    assert(r.deep_view() =~= delimiters_spec());
    r
}

/// The greeting for a member who joined.
pub open spec fn welcome_text(user_id: u64) -> Seq<char> {
    "welcome "@ + mention_text(user_id) + "!"@
        + "I'm the welcome bot. If you have any questions about the server or the channel or want to learn more about the commands, use ~help."@
}

/// The greeting sent when a member joins: "welcome ", a mention of the member, "!",
/// and a line that points to `~help`.
pub fn welcome_message(user_id: u64) -> (r: String)
    requires
        user_id != 0,
    ensures
        r@ == welcome_text(user_id),
{
    let mut r = String::from_str("welcome ");
    let m = mention_user(user_id);
    r.append(m.as_str());
    r.append("!");
    r.append("I'm the welcome bot. If you have any questions about the server or the channel or want to learn more about the commands, use ~help.");
    r
}

/// The greeting always mentions the member who joined, right after "welcome ": `<@`,
/// the member's id in decimal, `>`.
pub proof fn law_welcome_mentions_member(user_id: u64)
    ensures
        welcome_text(user_id) == "welcome <@"@ + decimal(user_id as nat) + ">!"@
            + "I'm the welcome bot. If you have any questions about the server or the channel or want to learn more about the commands, use ~help."@,
        welcome_text(user_id).subrange(8, (decimal(user_id as nat).len() + 11) as int)
            == "<@"@ + decimal(user_id as nat) + ">"@,
{
    reveal_strlit("welcome <@");
    reveal_strlit("welcome ");
    reveal_strlit(">!");
    reveal_strlit("!");
    reveal_strlit("<@");
    reveal_strlit(">");
    let d = decimal(user_id as nat);
    let help = "I'm the welcome bot. If you have any questions about the server or the channel or want to learn more about the commands, use ~help."@;
    assert(welcome_text(user_id) =~= "welcome <@"@ + d + ">!"@ + help);
    assert(welcome_text(user_id).subrange(8, (d.len() + 11) as int) =~= "<@"@ + d + ">"@);
}

/// Runs before every command: counts one more use of `command_name` (in place, or as a
/// new entry `(command_name, 1)` at the end; no other entry changes) and lets the command
/// proceed (always `true`).
pub fn before(counter: &mut CommandCounter, command_name: &str) -> (r: bool)
    requires
        count_of(old(counter)@, command_name@) < u64::MAX,
    ensures
        r,
        final(counter)@ == recorded(old(counter)@, command_name@),
        well_formed_tally(final(counter)@),
        tally(final(counter)@) == tally(old(counter)@).insert(command_name@, count_of(old(counter)@, command_name@) + 1),
        count_of(final(counter)@, command_name@) == count_of(old(counter)@, command_name@) + 1,
        forall|other: Seq<char>| other != command_name@
            ==> #[trigger] count_of(final(counter)@, other) == count_of(old(counter)@, other),
{
    counter.record(command_name);
    true
}

/// Why the framework refused to dispatch a command, as far as the bot cares.
pub enum DispatchFailure {
    /// The command's rate limit was hit; `seconds` remain until it may run again.
    RateLimited { is_first_try: bool, seconds: u64 },
    /// Any other reason.
    Other,
}

/// The notice for a rate-limited command.
pub open spec fn retry_text(seconds: u64) -> Seq<char> {
    "Try this again in "@ + decimal(seconds as nat) + " seconds."@
}

/// What the bot says when a command could not be dispatched: for a rate limit, on the
/// first try only, "Try this again in {seconds} seconds."; otherwise nothing.
pub fn dispatch_error(failure: &DispatchFailure) -> (r: Option<String>)
    ensures
        match *failure {
            DispatchFailure::RateLimited { is_first_try, seconds } => if is_first_try {
                r matches Some(m) && m@ == retry_text(seconds)
            } else {
                r is None
            },
            DispatchFailure::Other => r is None,
        },
{
    match failure {
        DispatchFailure::RateLimited { is_first_try, seconds } => {
            if *is_first_try {
                let mut m = String::from_str("Try this again in ");
                let d = decimal_string(*seconds);
                m.append(d.as_str());
                m.append(" seconds.");
                Some(m)
            } else {
                None
            }
        },
        DispatchFailure::Other => None,
    }
}

/// The refusal of `update_about` to a caller without the "admin" role.
pub open spec fn edit_denied_text() -> Seq<char> {
    "You don't have permission to edit bot features"@
}

/// The confirmation of a successful `update_about`.
pub open spec fn about_updated_text() -> Seq<char> {
    "successfully updated about"@
}

/// `update_about` once its argument text `rest` is known: refused outside a server, or
/// for a caller whose roles are unknown or do not include "admin"; otherwise the about
/// text becomes the heading line followed by `rest`. Returns the reply.
pub fn apply_about_update(about: &mut AboutText, in_guild: bool, caller_roles: &Option<Vec<String>>, rest: &str) -> (r: String)
    ensures
        match gate(in_guild, roles_view(*caller_roles), edit_denied_text()) {
            Some(refusal) => r@ == refusal && final(about)@ == old(about)@,
            None => r@ == about_updated_text() && final(about)@ == updated_about(rest@),
        },
{
    match check_access(in_guild, caller_roles, "You don't have permission to edit bot features") {
        Some(refusal) => refusal,
        None => {
            about.replace_with(rest);
            String::from_str("successfully updated about")
        },
    }
}

/// The `update_about` command: `arguments` is the text after the command name. The new
/// about text takes all of the arguments (serenity's `Args::rest` over the configured
/// delimiters).
pub fn update_about(about: &mut AboutText, in_guild: bool, caller_roles: &Option<Vec<String>>, arguments: &str) -> (r: String)
    ensures
        match gate(in_guild, roles_view(*caller_roles), edit_denied_text()) {
            Some(refusal) => r@ == refusal && final(about)@ == old(about)@,
            None => r@ == about_updated_text()
                && final(about)@ == updated_about(all_arguments(arguments@, delimiters_spec())),
        },
{
    let delimiters = argument_delimiters();
    let rest = rest_of_arguments(arguments, &delimiters);
    apply_about_update(about, in_guild, caller_roles, rest.as_str())
}

} // verus!
