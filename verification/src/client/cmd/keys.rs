//! `funnel keys`: manage API keys.
use vstd::prelude::*;
use crate::api::types::{ApiScope, api_scope_name, api_scope_from_name};
use crate::text::{
    push_str, str_eq, chars_of, trim, trim_chars, split_fields, string_from_chars,
};

verus! {

/// Subcommands of `funnel keys`.
#[derive(Debug)]
pub enum Command {
    /// List API keys.
    List,
    /// Create a key; `scopes` is a comma separated list (all scopes when absent).
    Create { name: String, scopes: Option<String> },
    /// Revoke a key.
    Revoke { id: String },
}

/// The parts joined with `sep` between consecutive parts.
pub open spec fn join(parts: Seq<Seq<char>>, sep: Seq<char>) -> Seq<char>
    decreases parts.len(),
{
    if parts.len() == 0 {
        Seq::empty()
    } else if parts.len() == 1 {
        parts[0]
    } else {
        join(parts.drop_last(), sep) + sep + parts.last()
    }
}

/// The names of the scopes, in order.
pub open spec fn scope_names(scopes: Seq<ApiScope>) -> Seq<Seq<char>> {
    scopes.map_values(|s: ApiScope| api_scope_name(s))
}

/// Lists scopes as their names separated by `, `.
pub fn format_scopes(scopes: &[ApiScope]) -> (r: String)
    ensures
        r@ == join(scope_names(scopes@), ", "@),
{
    let mut out = String::new();
    let mut i: usize = 0;
    while i < scopes.len()
        invariant
            0 <= i <= scopes@.len(),
            out@ == join(scope_names(scopes@.subrange(0, i as int)), ", "@),
        decreases scopes@.len() - i,
    {
        if i > 0 {
            push_str(&mut out, ", ");
        }
        let name = scopes[i].to_string();
        push_str(&mut out, name.as_str());
        i = i + 1;
        proof {
            let prev = scope_names(scopes@.subrange(0, i - 1));
            let cur = scope_names(scopes@.subrange(0, i as int));
            assert(cur.drop_last() =~= prev);
            assert(cur.last() == api_scope_name(scopes@[i - 1]));
            if i == 1 {
                assert(out@ =~= join(cur, ", "@));
            }
        }
    }
    proof {
        assert(scopes@.subrange(0, scopes@.len() as int) =~= scopes@);
    }
    out
}

/// Adds one comma separated field to the scopes read so far: blank fields
/// are skipped, and the first field that names no scope is the error.
pub open spec fn scope_step(acc: Result<Seq<ApiScope>, Seq<char>>, field: Seq<char>) -> Result<
    Seq<ApiScope>,
    Seq<char>,
> {
    match acc {
        Err(e) => Err(e),
        Ok(v) => {
            let t = trim(field);
            if t.len() == 0 {
                Ok(v)
            } else {
                match api_scope_from_name(t) {
                    Some(s) => Ok(v.push(s)),
                    None => Err(t),
                }
            }
        },
    }
}

/// Reads a list of fields into scopes, stopping at the first bad one.
pub open spec fn scopes_of_fields(fields: Seq<Seq<char>>) -> Result<Seq<ApiScope>, Seq<char>>
    decreases fields.len(),
{
    if fields.len() == 0 {
        Ok(Seq::empty())
    } else {
        scope_step(scopes_of_fields(fields.drop_last()), fields.last())
    }
}

/// The scopes named in a comma separated list, or the first (trimmed) entry
/// that names none.
pub open spec fn parse_scopes_spec(input: Seq<char>) -> Result<Seq<ApiScope>, Seq<char>> {
    scopes_of_fields(split_fields(input, ','))
}

/// The message for an entry that names no scope.
pub open spec fn invalid_scope_message(entry: Seq<char>) -> Seq<char> {
    "invalid scope '"@ + entry + "', must be 'management' or 'tunnels'"@
}

fn scope_of(t: &Vec<char>) -> (r: Option<ApiScope>)
    ensures
        r == api_scope_from_name(t@),
{
    let s = string_from_chars(t.as_slice());
    if str_eq(s.as_str(), "management") {
        Some(ApiScope::Management)
    } else if str_eq(s.as_str(), "tunnels") {
        Some(ApiScope::Tunnels)
    } else {
        None
    }
}

fn step(result: &mut Vec<ApiScope>, error: &mut Option<Vec<char>>, field: &Vec<char>)
    ensures
        scope_step(
            match *old(error) {
                Some(e) => Err(e@),
                None => Ok(old(result)@),
            },
            field@,
        ) == match *final(error) {
            Some(e) => Err(e@),
            None => Ok(final(result)@),
        },
{
    if error.is_some() {
        return;
    }
    let t = trim_chars(field.as_slice());
    if t.len() == 0 {
        return;
    }
    match scope_of(&t) {
        Some(s) => result.push(s),
        None => {
            *error = Some(t);
        },
    }
}

/// Reads a comma separated list of scope names. Entries are trimmed, blank
/// entries are skipped, and repeated scopes are kept.
pub fn parse_scopes(input: &str) -> (r: Result<Vec<ApiScope>, String>)
    ensures
        match parse_scopes_spec(input@) {
            Ok(v) => r is Ok && r->Ok_0@ == v,
            Err(e) => r is Err && r->Err_0@ == invalid_scope_message(e),
        },
{
    let cs = chars_of(input);
    let n = cs.len();
    let mut result: Vec<ApiScope> = Vec::new();
    let mut error: Option<Vec<char>> = None;
    let mut field: Vec<char> = Vec::new();
    let mut i: usize = 0;
    proof {
        assert(cs@.subrange(0, 0) =~= Seq::<char>::empty());
        assert(split_fields(cs@.subrange(0, 0), ',').drop_last() =~= Seq::<Seq<char>>::empty());
    }
    while i < n
        invariant
            n == cs@.len(),
            0 <= i <= n,
            split_fields(cs@.subrange(0, i as int), ',').len() >= 1,
            field@ == split_fields(cs@.subrange(0, i as int), ',').last(),
            scopes_of_fields(split_fields(cs@.subrange(0, i as int), ',').drop_last()) == match error {
                Some(e) => Err(e@),
                None => Ok(result@),
            },
        decreases n - i,
    {
        let c = cs[i];
        let ghost fs = split_fields(cs@.subrange(0, i as int), ',');
        proof {
            assert(cs@.subrange(0, i + 1).drop_last() =~= cs@.subrange(0, i as int));
        }
        if c == ',' {
            step(&mut result, &mut error, &field);
            field = Vec::new();
            proof {
                let fs2 = split_fields(cs@.subrange(0, i + 1), ',');
                assert(fs2 == fs.push(Seq::<char>::empty()));
                assert(fs2.drop_last() =~= fs);
                assert(fs.drop_last().push(fs.last()) =~= fs);
            }
        } else {
            field.push(c);
            proof {
                let fs2 = split_fields(cs@.subrange(0, i + 1), ',');
                assert(fs2 == fs.update(fs.len() - 1, fs.last().push(c)));
                assert(fs2.drop_last() =~= fs.drop_last());
            }
        }
        i = i + 1;
    }
    step(&mut result, &mut error, &field);
    proof {
        let fs = split_fields(cs@.subrange(0, n as int), ',');
        assert(cs@.subrange(0, n as int) =~= input@);
        assert(fs.drop_last().push(fs.last()) =~= fs);
    }
    match error {
        Some(e) => {
            let mut msg = String::new();
            push_str(&mut msg, "invalid scope '");
            let es = string_from_chars(e.as_slice());
            push_str(&mut msg, es.as_str());
            push_str(&mut msg, "', must be 'management' or 'tunnels'");
            proof {
                assert(msg@ =~= invalid_scope_message(e@));
            }
            Err(msg)
        },
        None => Ok(result),
    }
}

} // verus!
