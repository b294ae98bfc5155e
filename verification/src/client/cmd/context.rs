//! `funnel context`: manage named server contexts.
use vstd::prelude::*;
use crate::client::config::Context;
use crate::text::{push_str, str_eq, string_of};

verus! {

/// Subcommands of `funnel context`.
#[derive(Debug)]
pub enum Command {
    /// List all contexts.
    List,
    /// Switch to another context.
    Use { name: String },
    /// Create a context for a server.
    Create { name: String, server: String },
    /// Delete a context.
    Delete { name: String },
}

/// How one context is listed: its name (starred when current), its server
/// and whether it holds a token, followed by a blank line.
pub open spec fn context_listing_spec(name: Seq<char>, ctx: Context, current: Seq<char>) -> Seq<char> {
    let marker = if name == current {
        " *"@
    } else {
        Seq::empty()
    };
    let status = if ctx.token is Some {
        "authenticated"@
    } else {
        "no token"@
    };
    name + marker + "\n  server: "@ + ctx.server@ + "\n  status: "@ + status + "\n\n"@
}

/// Lists one context.
pub fn context_listing(name: &str, ctx: &Context, current: &str) -> (r: String)
    ensures
        r@ == context_listing_spec(name@, *ctx, current@),
{
    let mut s = string_of(name);
    if str_eq(name, current) {
        push_str(&mut s, " *");
    }
    push_str(&mut s, "\n  server: ");
    push_str(&mut s, ctx.server.as_str());
    push_str(&mut s, "\n  status: ");
    if ctx.token.is_some() {
        push_str(&mut s, "authenticated");
    } else {
        push_str(&mut s, "no token");
    }
    push_str(&mut s, "\n\n");
    proof {
        assert(s@ =~= context_listing_spec(name@, *ctx, current@));
    }
    s
}

} // verus!
