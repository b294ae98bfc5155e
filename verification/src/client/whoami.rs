//! `funnel whoami`: who the configured token belongs to.
use vstd::prelude::*;
use crate::text::{push_str, string_of};

verus! {

/// The address of the current user's profile on a server.
pub fn me_url(server: &str) -> (r: String)
    ensures
        r@ == server@ + "/api/me"@,
{
    let mut s = string_of(server);
    push_str(&mut s, "/api/me");
    s
}

/// The context line shown under a profile: `  context: <name> (<server>)`.
pub open spec fn context_line(context_name: Seq<char>, server: Seq<char>) -> Seq<char> {
    "  context: "@ + context_name + " ("@ + server + ")"@
}

fn push_context_line(s: &mut String, context_name: &str, server: &str)
    ensures
        final(s)@ == old(s)@ + context_line(context_name@, server@),
{
    push_str(s, "  context: ");
    push_str(s, context_name);
    push_str(s, " (");
    push_str(s, server);
    push_str(s, ")");
    proof {
        assert(final(s)@ =~= old(s)@ + context_line(context_name@, server@));
    }
}

/// What is shown when the token has no user behind it (an API key without
/// a linked user).
pub fn no_profile_message(context_name: &str, server: &str) -> (r: String)
    ensures
        r@ == "no user profile found (api key without linked user)\n"@ + context_line(
            context_name@,
            server@,
        ),
{
    let mut s = string_of("no user profile found (api key without linked user)\n");
    push_context_line(&mut s, context_name, server);
    s
}

/// What is shown of a user: `name <email>` (or the email alone), the role,
/// and the context.
pub fn user_summary(email: &str, name: Option<&str>, role: &str, context_name: &str, server: &str) -> (r: String)
    ensures
        r@ == (match name {
            Some(n) => n@ + " <"@ + email@ + ">"@,
            None => email@,
        }) + "\n  role:    "@ + role@ + "\n"@ + context_line(context_name@, server@),
{
    let mut s = String::new();
    match name {
        Some(n) => {
            push_str(&mut s, n);
            push_str(&mut s, " <");
            push_str(&mut s, email);
            push_str(&mut s, ">");
        },
        None => push_str(&mut s, email),
    }
    push_str(&mut s, "\n  role:    ");
    push_str(&mut s, role);
    push_str(&mut s, "\n");
    push_context_line(&mut s, context_name, server);
    proof {
        assert(s@ =~= (match name {
            Some(n) => n@ + " <"@ + email@ + ">"@,
            None => email@,
        }) + "\n  role:    "@ + role@ + "\n"@ + context_line(context_name@, server@));
    }
    s
}

} // verus!
