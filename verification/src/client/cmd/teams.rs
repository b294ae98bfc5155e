//! `funnel teams`: manage teams and their members.
use vstd::prelude::*;
use crate::api::types::{TeamRole, team_role_from_name};
use crate::text::{push_str, str_eq};

verus! {

/// Subcommands of `funnel teams`.
#[derive(Debug)]
pub enum Command {
    List,
    Create { name: String },
    Delete { id: String },
    Members { id: String },
    AddMember { team_id: String, user_id: String },
    RemoveMember { team_id: String, user_id: String },
    SetRole { team_id: String, user_id: String, role: String },
}

/// The message for an unknown team role name.
pub open spec fn invalid_team_role_message(input: Seq<char>) -> Seq<char> {
    "invalid role '"@ + input + "', must be 'owner' or 'member'"@
}

/// Reads a team role name given on the command line; names are lowercase.
pub fn parse_team_role(input: &str) -> (r: Result<TeamRole, String>)
    ensures
        match team_role_from_name(input@) {
            Some(role) => r == Ok::<TeamRole, String>(role),
            None => r is Err && r->Err_0@ == invalid_team_role_message(input@),
        },
{
    if str_eq(input, "owner") {
        Ok(TeamRole::Owner)
    } else if str_eq(input, "member") {
        Ok(TeamRole::Member)
    } else {
        let mut msg = String::new();
        push_str(&mut msg, "invalid role '");
        push_str(&mut msg, input);
        push_str(&mut msg, "', must be 'owner' or 'member'");
        proof {
            assert(msg@ =~= invalid_team_role_message(input@));
        }
        Err(msg)
    }
}

} // verus!
