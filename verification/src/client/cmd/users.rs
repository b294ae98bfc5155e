//! `funnel users`: manage users (admin only).
use vstd::prelude::*;
use crate::api::types::{Role, role_from_name};
use crate::text::{push_str, str_eq};

verus! {

/// Subcommands of `funnel users`.
#[derive(Debug)]
pub enum Command {
    /// List users, at most `limit` of them.
    List { limit: u32 },
    /// Set a user's role.
    SetRole { id: String, role: String },
    /// Deactivate a user.
    Deactivate { id: String },
    /// Reactivate a user.
    Reactivate { id: String },
}

/// The message for an unknown role name.
pub open spec fn invalid_role_message(input: Seq<char>) -> Seq<char> {
    "invalid role '"@ + input + "', must be 'admin' or 'member'"@
}

/// Reads a role name given on the command line; names are lowercase.
pub fn parse_role(input: &str) -> (r: Result<Role, String>)
    ensures
        match role_from_name(input@) {
            Some(role) => r == Ok::<Role, String>(role),
            None => r is Err && r->Err_0@ == invalid_role_message(input@),
        },
{
    if str_eq(input, "admin") {
        Ok(Role::Admin)
    } else if str_eq(input, "member") {
        Ok(Role::Member)
    } else {
        let mut msg = String::new();
        push_str(&mut msg, "invalid role '");
        push_str(&mut msg, input);
        push_str(&mut msg, "', must be 'admin' or 'member'");
        proof {
            assert(msg@ =~= invalid_role_message(input@));
        }
        Err(msg)
    }
}

} // verus!
