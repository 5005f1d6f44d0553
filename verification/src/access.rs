//! Who may run the administrative commands: members, inside a server, who hold a role
//! named "admin".

use vstd::prelude::*;

verus! {

/// The name of the role that the administrative commands ask for.
pub open spec fn admin_role() -> Seq<char> {
    "admin"@
}

/// One of the role names is exactly "admin".
pub open spec fn holds_admin_role(roles: Seq<Seq<char>>) -> bool {
    exists|i: int| 0 <= i < roles.len() && #[trigger] roles[i] == admin_role()
}

/// The role names of a caller, when they could be looked up.
pub open spec fn roles_view(roles: Option<Vec<String>>) -> Option<Seq<Seq<char>>> {
    match roles {
        Some(rs) => Some(rs.deep_view()),
        None => None,
    }
}

/// The reply that refuses a command used outside a server.
pub open spec fn outside_server_text() -> Seq<char> {
    "Command only available in server channels."@
}

/// Whether an administrative command may go on: `None` lets it proceed, `Some(reply)`
/// stops it with that reply. Outside a server the command is refused. Inside one it
/// proceeds only for a caller whose role names are known and include "admin"; otherwise
/// it is refused with `denial`.
pub open spec fn gate(in_guild: bool, roles: Option<Seq<Seq<char>>>, denial: Seq<char>) -> Option<Seq<char>> {
    if !in_guild {
        Some(outside_server_text())
    } else {
        match roles {
            Some(rs) => if holds_admin_role(rs) { None } else { Some(denial) },
            None => Some(denial),
        }
    }
}

/// Whether one of `roles` is named exactly "admin".
pub fn has_admin_role(roles: &Vec<String>) -> (r: bool)
    ensures
        r == holds_admin_role(roles.deep_view()),
{
    let admin = String::from_str("admin");
    let mut i: usize = 0;
    while i < roles.len()
        invariant
            i <= roles.len(),
            admin@ == admin_role(),
            forall|k: int| 0 <= k < i ==> #[trigger] roles.deep_view()[k] != admin_role(),
        decreases roles.len() - i,
    {
        assert(roles.deep_view()[i as int] == roles@[i as int]@);
        if roles[i] == admin {
            return true;
        }
        i = i + 1;
    }
    false
}

/// Decides whether an administrative command may proceed; see [`gate`].
pub fn check_access(in_guild: bool, roles: &Option<Vec<String>>, denial: &str) -> (r: Option<String>)
    ensures
        match r {
            Some(m) => gate(in_guild, roles_view(*roles), denial@) == Some(m@),
            None => gate(in_guild, roles_view(*roles), denial@) == None::<Seq<char>>,
        },
{
    if !in_guild {
        return Some(String::from_str("Command only available in server channels."));
    }
    match roles {
        Some(rs) => {
            if has_admin_role(rs) {
                None
            } else {
                Some(String::from_str(denial))
            }
        },
        None => Some(String::from_str(denial)),
    }
}

/// An administrative command goes on exactly when it is used in a server by a member
/// whose known roles include "admin".
pub proof fn law_only_admins_pass(in_guild: bool, roles: Option<Seq<Seq<char>>>, denial: Seq<char>)
    ensures
        gate(in_guild, roles, denial) is None
            <==> (in_guild && (roles matches Some(rs) && holds_admin_role(rs))),
{
}

/// Other roles do not matter: a caller who holds "admin" among any other roles is let
/// through in a server, and adding roles never takes that away.
pub proof fn law_more_roles_keep_admin(roles: Seq<Seq<char>>, extra: Seq<Seq<char>>, denial: Seq<char>)
    requires
        holds_admin_role(roles),
    ensures
        gate(true, Some(roles + extra), denial) is None,
{
    let i = choose|i: int| 0 <= i < roles.len() && #[trigger] roles[i] == admin_role();
    assert((roles + extra)[i] == admin_role());
}

/// A role named exactly "admin" counts wherever it stands among the caller's roles, and
/// in a server it lets the command through.
pub proof fn law_admin_anywhere_counts(roles: Seq<Seq<char>>, i: int, denial: Seq<char>)
    requires
        0 <= i < roles.len(),
        roles[i] == "admin"@,
    ensures
        holds_admin_role(roles),
        gate(true, Some(roles), denial) is None,
{
}

/// Roles listed before or after the "admin" role never take it away.
pub proof fn law_surrounding_roles_keep_admin(before: Seq<Seq<char>>, roles: Seq<Seq<char>>, after: Seq<Seq<char>>)
    requires
        holds_admin_role(roles),
    ensures
        holds_admin_role(before + roles + after),
{
    let i = choose|i: int| 0 <= i < roles.len() && #[trigger] roles[i] == admin_role();
    assert((before + roles + after)[before.len() + i] == roles[i]);
}

/// Holding the admin role means holding a role named exactly "admin".
pub proof fn law_admin_role_is_named_admin(roles: Seq<Seq<char>>)
    ensures
        holds_admin_role(roles) <==> exists|i: int| 0 <= i < roles.len() && #[trigger] roles[i] == "admin"@,
{
}

} // verus!
