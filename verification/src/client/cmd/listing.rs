//! How the management commands print lists of records.
use vstd::prelude::*;
use crate::api::types::{ApiScope, Role, TeamRole, role_name, team_role_name};
use crate::client::cmd::keys::{format_scopes, join, scope_names};
use crate::client::cmd::sessions;
use crate::client::cmd::sessions::format_signed_bytes_spec;
use crate::client::cmd::status;
use crate::client::cmd::status::format_duration_spec;
use crate::client::humanize::format_bytes_spec;
use crate::text::{decimal, push_decimal, push_signed_decimal, push_str, signed_decimal, string_of};

verus! {

/// A list as printed: `empty` alone when there is nothing; otherwise the
/// records one after the other (a blank line between them when
/// `separated`), then, for more than one record, a line with their count.
pub open spec fn listing_spec(blocks: Seq<Seq<char>>, separated: bool, empty: Seq<char>, noun: Seq<char>) -> Seq<char> {
    if blocks.len() == 0 {
        empty + "\n"@
    } else {
        join(blocks, if separated { "\n"@ } else { Seq::empty() }) + if blocks.len() > 1 {
            "\n"@ + decimal(blocks.len()) + " "@ + noun + "\n"@
        } else {
            Seq::empty()
        }
    }
}

/// The texts of some strings.
pub open spec fn string_texts(v: Seq<String>) -> Seq<Seq<char>> {
    v.map_values(|s: String| s@)
}

/// Prints a list of records, each already formatted.
pub fn listing(blocks: &Vec<String>, separated: bool, empty: &str, noun: &str) -> (r: String)
    ensures
        r@ == listing_spec(string_texts(blocks@), separated, empty@, noun@),
{
    let n = blocks.len();
    if n == 0 {
        let mut s = string_of(empty);
        push_str(&mut s, "\n");
        return s;
    }
    let mut out = String::new();
    let mut i: usize = 0;
    while i < n
        invariant
            n == blocks@.len(),
            0 <= i <= n,
            out@ == join(string_texts(blocks@.take(i as int)), if separated { "\n"@ } else { Seq::empty() }),
        decreases n - i,
    {
        if i > 0 && separated {
            push_str(&mut out, "\n");
        }
        push_str(&mut out, blocks[i].as_str());
        proof {
            let sep: Seq<char> = if separated { "\n"@ } else { Seq::empty() };
            let prev = string_texts(blocks@.take(i as int));
            let cur = string_texts(blocks@.take(i + 1));
            assert(cur.drop_last() =~= prev);
            assert(cur.last() == blocks@[i as int]@);
            if i == 0 {
                assert(cur =~= seq![blocks@[0]@]);
            }
        }
        i = i + 1;
    }
    proof {
        assert(blocks@.take(n as int) =~= blocks@);
    }
    if n > 1 {
        push_str(&mut out, "\n");
        push_decimal(&mut out, n as u64);
        push_str(&mut out, " ");
        push_str(&mut out, noun);
        push_str(&mut out, "\n");
    }
    out
}

/// An API key as listed.
pub fn key_block(name: &str, id: &str, prefix: &str, scopes: &[ApiScope], created: &str) -> (r: String)
    ensures
        r@ == name@ + "\n  id:      "@ + id@ + "\n  prefix:  "@ + prefix@ + "...\n  scopes:  "@ + join(
            scope_names(scopes@),
            ", "@,
        ) + "\n  created: "@ + created@ + "\n"@,
{
    let mut s = string_of(name);
    push_str(&mut s, "\n  id:      ");
    push_str(&mut s, id);
    push_str(&mut s, "\n  prefix:  ");
    push_str(&mut s, prefix);
    push_str(&mut s, "...\n  scopes:  ");
    let listed = format_scopes(scopes);
    push_str(&mut s, listed.as_str());
    push_str(&mut s, "\n  created: ");
    push_str(&mut s, created);
    push_str(&mut s, "\n");
    s
}

/// What is shown of a newly created key, whose token appears only once.
pub fn created_key_message(name: &str, token: &str, scopes: &[ApiScope]) -> (r: String)
    ensures
        r@ == "created key '"@ + name@ + "'\n  token:  "@ + token@ + "\n  scopes: "@ + join(
            scope_names(scopes@),
            ", "@,
        ) + "\n\nsave this token, it will not be shown again.\n"@,
{
    let mut s = string_of("created key '");
    push_str(&mut s, name);
    push_str(&mut s, "'\n  token:  ");
    push_str(&mut s, token);
    push_str(&mut s, "\n  scopes: ");
    let listed = format_scopes(scopes);
    push_str(&mut s, listed.as_str());
    push_str(&mut s, "\n\nsave this token, it will not be shown again.\n");
    s
}

/// A user as listed: email, role and whether deactivated, then id and name.
pub fn user_block(email: &str, role: Role, deactivated: bool, id: &str, name: Option<&str>) -> (r: String)
    ensures
        r@ == email@ + " ("@ + role_name(role) + ")"@ + (if deactivated {
            " [deactivated]"@
        } else {
            Seq::empty()
        }) + "\n  id:   "@ + id@ + "\n  name: "@ + (match name {
            Some(n) => n@,
            None => "(no name)"@,
        }) + "\n"@,
{
    let mut s = string_of(email);
    push_str(&mut s, " (");
    push_str(&mut s, role.as_str());
    push_str(&mut s, ")");
    if deactivated {
        push_str(&mut s, " [deactivated]");
    }
    push_str(&mut s, "\n  id:   ");
    push_str(&mut s, id);
    push_str(&mut s, "\n  name: ");
    match name {
        Some(n) => push_str(&mut s, n),
        None => push_str(&mut s, "(no name)"),
    }
    push_str(&mut s, "\n");
    proof {
        assert(s@ =~= email@ + " ("@ + role_name(role) + ")"@ + (if deactivated {
            " [deactivated]"@
        } else {
            Seq::empty()
        }) + "\n  id:   "@ + id@ + "\n  name: "@ + (match name {
            Some(n) => n@,
            None => "(no name)"@,
        }) + "\n"@);
    }
    s
}

/// A team as listed.
pub fn team_block(name: &str, id: &str) -> (r: String)
    ensures
        r@ == name@ + "\n  id: "@ + id@ + "\n"@,
{
    let mut s = string_of(name);
    push_str(&mut s, "\n  id: ");
    push_str(&mut s, id);
    push_str(&mut s, "\n");
    s
}

/// A team member as listed.
pub fn member_block(user_id: &str, role: TeamRole, joined: &str) -> (r: String)
    ensures
        r@ == user_id@ + " ("@ + team_role_name(role) + ")\n  joined: "@ + joined@ + "\n"@,
{
    let mut s = string_of(user_id);
    push_str(&mut s, " (");
    push_str(&mut s, role.as_str());
    push_str(&mut s, ")\n  joined: ");
    push_str(&mut s, joined);
    push_str(&mut s, "\n");
    s
}

/// A tunnel session as listed: closed once it has an end time.
pub fn session_block(
    tunnel_id: &str,
    id: &str,
    started: &str,
    ended: Option<&str>,
    requests: i64,
    bytes_in: i64,
    bytes_out: i64,
) -> (r: String)
    ensures
        r@ == tunnel_id@ + (if ended is Some {
            " (closed)"@
        } else {
            " (active)"@
        }) + "\n  id:       "@ + id@ + "\n  started:  "@ + started@ + "\n"@ + (match ended {
            Some(e) => "  ended:    "@ + e@ + "\n"@,
            None => Seq::empty(),
        }) + "  requests: "@ + signed_decimal(requests as int) + "\n  traffic:  "@
            + format_signed_bytes_spec(bytes_in as int) + " in / "@ + format_signed_bytes_spec(
            bytes_out as int,
        ) + " out\n"@,
{
    let mut s = string_of(tunnel_id);
    if ended.is_some() {
        push_str(&mut s, " (closed)");
    } else {
        push_str(&mut s, " (active)");
    }
    push_str(&mut s, "\n  id:       ");
    push_str(&mut s, id);
    push_str(&mut s, "\n  started:  ");
    push_str(&mut s, started);
    push_str(&mut s, "\n");
    let ghost head = s@;
    match ended {
        Some(e) => {
            push_str(&mut s, "  ended:    ");
            push_str(&mut s, e);
            push_str(&mut s, "\n");
        },
        None => {},
    }
    push_str(&mut s, "  requests: ");
    push_signed_decimal(&mut s, requests);
    push_str(&mut s, "\n  traffic:  ");
    let i = sessions::format_bytes(bytes_in);
    push_str(&mut s, i.as_str());
    push_str(&mut s, " in / ");
    let o = sessions::format_bytes(bytes_out);
    push_str(&mut s, o.as_str());
    push_str(&mut s, " out\n");
    proof {
        assert(s@ =~= tunnel_id@ + (if ended is Some {
            " (closed)"@
        } else {
            " (active)"@
        }) + "\n  id:       "@ + id@ + "\n  started:  "@ + started@ + "\n"@ + (match ended {
            Some(e) => "  ended:    "@ + e@ + "\n"@,
            None => Seq::empty(),
        }) + "  requests: "@ + signed_decimal(requests as int) + "\n  traffic:  "@
            + format_signed_bytes_spec(bytes_in as int) + " in / "@ + format_signed_bytes_spec(
            bytes_out as int,
        ) + " out\n"@);
    }
    s
}

/// An active tunnel as listed by `funnel status`, its uptime in whole seconds.
pub fn tunnel_block(
    id: &str,
    uptime_secs: u64,
    requests: u64,
    bytes_in: u64,
    bytes_out: u64,
    owner: &str,
    team: Option<&str>,
) -> (r: String)
    ensures
        r@ == id@ + "\n  uptime:   "@ + format_duration_spec(uptime_secs as nat) + "\n  requests: "@
            + decimal(requests as nat) + "\n  traffic:  "@ + format_bytes_spec(bytes_in as nat)
            + " in / "@ + format_bytes_spec(bytes_out as nat) + " out\n  owner:    "@ + owner@
            + "\n"@ + (match team {
            Some(t) => "  team:     "@ + t@ + "\n"@,
            None => Seq::empty(),
        }),
{
    let mut s = string_of(id);
    push_str(&mut s, "\n  uptime:   ");
    let up = status::format_duration(uptime_secs);
    push_str(&mut s, up.as_str());
    push_str(&mut s, "\n  requests: ");
    push_decimal(&mut s, requests);
    push_str(&mut s, "\n  traffic:  ");
    let i = status::format_bytes(bytes_in);
    push_str(&mut s, i.as_str());
    push_str(&mut s, " in / ");
    let o = status::format_bytes(bytes_out);
    push_str(&mut s, o.as_str());
    push_str(&mut s, " out\n  owner:    ");
    push_str(&mut s, owner);
    push_str(&mut s, "\n");
    match team {
        Some(t) => {
            push_str(&mut s, "  team:     ");
            push_str(&mut s, t);
            push_str(&mut s, "\n");
        },
        None => {},
    }
    proof {
        assert(s@ =~= id@ + "\n  uptime:   "@ + format_duration_spec(uptime_secs as nat) + "\n  requests: "@
            + decimal(requests as nat) + "\n  traffic:  "@ + format_bytes_spec(bytes_in as nat)
            + " in / "@ + format_bytes_spec(bytes_out as nat) + " out\n  owner:    "@ + owner@
            + "\n"@ + (match team {
            Some(t) => "  team:     "@ + t@ + "\n"@,
            None => Seq::empty(),
        }));
    }
    s
}

} // verus!
