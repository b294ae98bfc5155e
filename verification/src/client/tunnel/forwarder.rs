//! Rules for forwarding tunnelled requests to the local service: which
//! headers cross, what a local failure is answered with, and the pool of idle
//! connections kept for reuse.
use vstd::prelude::*;
use vstd::slice::slice_to_vec;
use vstd::utf8::encode_utf8;
use crate::protocol::request::{
    Headers, ResponseMeta, append_header, header_entries, header_map_entries, header_texts, texts, with_value,
};
use crate::strmap::{StrMap, distinct_keys};
use crate::text::{eq_ignore_ascii_case, push_str, str_eq_ignore_ascii_case, string_of};

verus! {

/// How many idle connections to the local service are kept at most.
pub const MAX_IDLE_CONNECTIONS: usize = 8;

/// Whether `name` is a hop-by-hop header, which concerns one connection only
/// and is not forwarded: compared without regard to ASCII case.
pub open spec fn is_hop_by_hop_spec(name: Seq<char>) -> bool {
    ||| eq_ignore_ascii_case(name, "connection"@)
    ||| eq_ignore_ascii_case(name, "keep-alive"@)
    ||| eq_ignore_ascii_case(name, "proxy-authenticate"@)
    ||| eq_ignore_ascii_case(name, "proxy-authorization"@)
    ||| eq_ignore_ascii_case(name, "te"@)
    ||| eq_ignore_ascii_case(name, "trailer"@)
    ||| eq_ignore_ascii_case(name, "transfer-encoding"@)
    ||| eq_ignore_ascii_case(name, "upgrade"@)
    ||| eq_ignore_ascii_case(name, "proxy-connection"@)
}

/// Whether `name` is a hop-by-hop header.
pub fn is_hop_by_hop(name: &str) -> (r: bool)
    ensures
        r == is_hop_by_hop_spec(name@),
{
    str_eq_ignore_ascii_case(name, "connection") || str_eq_ignore_ascii_case(name, "keep-alive")
        || str_eq_ignore_ascii_case(name, "proxy-authenticate") || str_eq_ignore_ascii_case(
        name,
        "proxy-authorization",
    ) || str_eq_ignore_ascii_case(name, "te") || str_eq_ignore_ascii_case(name, "trailer")
        || str_eq_ignore_ascii_case(name, "transfer-encoding") || str_eq_ignore_ascii_case(
        name,
        "upgrade",
    ) || str_eq_ignore_ascii_case(name, "proxy-connection")
}

/// Whether a request header reaches the local service. `Host` is always
/// replaced; on an ordinary request hop-by-hop headers and
/// `Accept-Encoding` are dropped too, while an upgrade keeps them.
pub open spec fn forwards_request_header_spec(name: Seq<char>, is_upgrade: bool) -> bool {
    &&& !eq_ignore_ascii_case(name, "host"@)
    &&& (is_upgrade || (!is_hop_by_hop_spec(name) && !eq_ignore_ascii_case(name, "accept-encoding"@)))
}

/// Decides whether a request header is passed on to the local service.
pub fn forwards_request_header(name: &str, is_upgrade: bool) -> (r: bool)
    ensures
        r == forwards_request_header_spec(name@, is_upgrade),
{
    if !is_upgrade && is_hop_by_hop(name) {
        return false;
    }
    if !is_upgrade && str_eq_ignore_ascii_case(name, "accept-encoding") {
        return false;
    }
    !str_eq_ignore_ascii_case(name, "host")
}

/// The header texts passed on to the local service: those whose names
/// `forwards_request_header` keeps.
pub open spec fn forwarded_texts(h: Map<Seq<char>, Seq<Seq<char>>>, is_upgrade: bool) -> Map<
    Seq<char>,
    Seq<Seq<char>>,
> {
    h.restrict(h.dom().filter(|k: Seq<char>| forwards_request_header_spec(k, is_upgrade)))
}

fn copy_texts(v: &Vec<String>) -> (r: Vec<String>)
    ensures
        texts(r) == texts(*v),
{
    let mut out: Vec<String> = Vec::new();
    let mut i: usize = 0;
    while i < v.len()
        invariant
            0 <= i <= v@.len(),
            texts(out) == texts(*v).take(i as int),
        decreases v@.len() - i,
    {
        let ghost prev = out@;
        proof {
            assert(texts(out).len() == i);
            assert(prev.len() == texts(out).len());
        }
        let copy = string_of(v[i].as_str());
        out.push(copy);
        proof {
            assert(out@ == prev.push(copy));
            assert forall|j: int| 0 <= j < i + 1 implies #[trigger] texts(out)[j] == texts(*v).take(i + 1)[j] by {
                assert(texts(out)[j] == out@[j]@);
                if j < i {
                    assert(out@[j] == prev[j]);
                    assert(texts(*v).take(i as int)[j] == prev[j]@);
                } else {
                    assert(out@[j] == copy);
                }
            }
            assert(texts(out) =~= texts(*v).take(i + 1));
        }
        i = i + 1;
    }
    proof {
        assert(texts(*v).take(v@.len() as int) =~= texts(*v));
    }
    out
}

/// The request headers passed on to the local service, with their values;
/// the others (`host`, and unless upgrading the hop-by-hop ones and
/// `accept-encoding`) are left out.
pub fn forwarded_request_headers(headers: &Headers, is_upgrade: bool) -> (r: Headers)
    ensures
        header_texts(r) == forwarded_texts(header_texts(*headers), is_upgrade),
{
    headers.keys_are_distinct();
    let names = headers.keys();
    let mut out: Headers = StrMap::new();
    let ghost ks = headers.key_seq();
    let mut i: usize = 0;
    proof {
        assert(header_texts(out) =~= header_texts(*headers).restrict(
            Set::new(|k: Seq<char>| ks.take(0).contains(k) && forwards_request_header_spec(k, is_upgrade)),
        ));
    }
    while i < names.len()
        invariant
            names@.map_values(|k: String| k@) == ks,
            ks == headers.key_seq(),
            distinct_keys(ks),
            forall|k: Seq<char>| #[trigger] headers@.contains_key(k) <==> ks.contains(k),
            0 <= i <= names@.len(),
            forall|k: Seq<char>| #[trigger] out@.contains_key(k) ==> ks.take(i as int).contains(k),
            header_texts(out) == header_texts(*headers).restrict(
                Set::new(|k: Seq<char>| ks.take(i as int).contains(k) && forwards_request_header_spec(k, is_upgrade)),
            ),
        decreases names@.len() - i,
    {
        let name = &names[i];
        let ghost before = out;
        proof {
            assert(names@.map_values(|k: String| k@)[i as int] == name@);
            assert(ks[i as int] == name@);
            assert(ks.contains(name@));
            assert(ks.take(i + 1) =~= ks.take(i as int).push(name@));
            if ks.take(i as int).contains(name@) {
                let j = choose|j: int| 0 <= j < i && ks.take(i as int)[j] == name@;
                assert(ks[j] == ks[i as int]);
            }
        }
        let ghost kept_now = Set::new(
            |k: Seq<char>| ks.take(i as int).contains(k) && forwards_request_header_spec(k, is_upgrade),
        );
        let ghost kept_next = Set::new(
            |k: Seq<char>| ks.take(i + 1).contains(k) && forwards_request_header_spec(k, is_upgrade),
        );
        if forwards_request_header(name.as_str(), is_upgrade) {
            match headers.get(name.as_str()) {
                Some(values) => {
                    let copied = copy_texts(values);
                    let _ = out.insert(string_of(name.as_str()), copied);
                    proof {
                        assert forall|k: Seq<char>| #[trigger] out@.contains_key(k) implies ks.take(i + 1).contains(k) by {
                            if k != name@ {
                                assert(before@.contains_key(k));
                                assert(ks.take(i as int).contains(k));
                                let j = choose|j: int| 0 <= j < i && ks.take(i as int)[j] == k;
                                assert(ks.take(i + 1)[j] == k);
                            } else {
                                assert(ks.take(i + 1)[i as int] == k);
                            }
                        }
                        assert(texts(copied) == texts(headers@[name@]));
                        assert(forwards_request_header_spec(name@, is_upgrade));
                        assert(ks.take(i + 1)[i as int] == name@);
                        assert(kept_next.contains(name@));
                        assert forall|k: Seq<char>| kept_next.contains(k) <==> (kept_now.contains(k) || k == name@) by {
                            if k == name@ {
                                assert(ks.take(i + 1)[i as int] == k);
                            }
                            if k != name@ && ks.take(i + 1).contains(k) {
                                let j = choose|j: int| 0 <= j < i + 1 && #[trigger] ks.take(i + 1)[j] == k;
                                assert(j != i);
                                assert(ks.take(i as int)[j] == k);
                            }
                            if ks.take(i as int).contains(k) {
                                let j = choose|j: int| 0 <= j < i && ks.take(i as int)[j] == k;
                                assert(ks.take(i + 1)[j] == k);
                            }
                        }
                        let hh = header_texts(*headers);
                        let lhs = header_texts(out);
                        let rhs = hh.restrict(kept_next);
                        assert(out@ == before@.insert(name@, copied));
                        assert(header_texts(before) == hh.restrict(kept_now));
                        assert forall|k: Seq<char>| #[trigger] lhs.contains_key(k) == rhs.contains_key(k) by {
                            if k != name@ {
                                assert(out@.contains_key(k) == before@.contains_key(k));
                                assert(header_texts(before).contains_key(k) == before@.contains_key(k));
                            }
                        }
                        assert forall|k: Seq<char>| #[trigger] lhs.contains_key(k) implies lhs[k] == rhs[k] by {
                            if k == name@ {
                                assert(lhs[k] == texts(out@[k]));
                            } else {
                                assert(out@[k] == before@[k]);
                                assert(header_texts(before)[k] == texts(before@[k]));
                                assert(header_texts(before).contains_key(k));
                            }
                        }
                        assert(lhs =~= rhs);
                    }
                },
                None => {
                    proof {
                        assert(false);
                    }
                },
            }
        } else {
            proof {
                assert forall|k: Seq<char>| #[trigger] out@.contains_key(k) implies ks.take(i + 1).contains(k) by {
                    assert(ks.take(i as int).contains(k));
                    let j = choose|j: int| 0 <= j < i && ks.take(i as int)[j] == k;
                    assert(ks.take(i + 1)[j] == k);
                }
                assert(header_texts(*headers).restrict(kept_next) =~= header_texts(*headers).restrict(kept_now));
            }
        }
        i = i + 1;
    }
    proof {
        assert(ks.take(names@.len() as int) =~= ks);
        assert(header_texts(out) =~= forwarded_texts(header_texts(*headers), is_upgrade));
    }
    out
}

/// Whether a response header of the local service is passed back: all of
/// them on a protocol switch, otherwise all but the hop-by-hop ones.
pub open spec fn keeps_response_header_spec(name: Seq<char>, keep_hop_by_hop: bool) -> bool {
    keep_hop_by_hop || !is_hop_by_hop_spec(name)
}

/// Decides whether a response header is passed back through the tunnel.
pub fn keeps_response_header(name: &str, keep_hop_by_hop: bool) -> (r: bool)
    ensures
        r == keeps_response_header_spec(name@, keep_hop_by_hop),
{
    keep_hop_by_hop || !is_hop_by_hop(name)
}

/// The texts of a list of (name, value) pairs.
pub open spec fn entry_texts(entries: Seq<(String, String)>) -> Seq<(Seq<char>, Seq<char>)> {
    entries.map_values(|e: (String, String)| (e.0@, e.1@))
}

/// Response headers gathered by name: each kept value is added, in order, to
/// the list of its name.
pub open spec fn collected_headers(entries: Seq<(Seq<char>, Seq<char>)>, keep_hop_by_hop: bool) -> Map<
    Seq<char>,
    Seq<Seq<char>>,
>
    decreases entries.len(),
{
    if entries.len() == 0 {
        Map::empty()
    } else {
        let before = collected_headers(entries.drop_last(), keep_hop_by_hop);
        let name = entries.last().0;
        let value = entries.last().1;
        if keeps_response_header_spec(name, keep_hop_by_hop) {
            with_value(before, name, value)
        } else {
            before
        }
    }
}

/// Gathers (name, value) pairs into protocol headers, dropping hop-by-hop
/// headers unless `keep_hop_by_hop`.
pub fn collect_header_entries(entries: &Vec<(String, String)>, keep_hop_by_hop: bool) -> (r: Headers)
    ensures
        header_texts(r) == collected_headers(entry_texts(entries@), keep_hop_by_hop),
{
    let ghost es = entry_texts(entries@);
    let mut map: Headers = StrMap::new();
    let n = entries.len();
    let mut i: usize = 0;
    proof {
        assert(header_texts(map) =~= Map::empty());
        assert(es.take(0).len() == 0);
    }
    while i < n
        invariant
            n == entries@.len(),
            es == entry_texts(entries@),
            0 <= i <= n,
            header_texts(map) == collected_headers(es.take(i as int), keep_hop_by_hop),
        decreases n - i,
    {
        let name = &entries[i].0;
        let value = &entries[i].1;
        proof {
            assert(es.take(i + 1).drop_last() =~= es.take(i as int));
            assert(es.take(i + 1).last() == (name@, value@));
        }
        if keeps_response_header(name.as_str(), keep_hop_by_hop) {
            append_header(&mut map, name.clone(), value.clone());
        }
        i = i + 1;
    }
    proof {
        assert(es.take(n as int) =~= es);
    }
    map
}

/// Gathers the headers of a local service's response, dropping hop-by-hop
/// headers unless `keep_hop_by_hop` (kept when the protocol is switched).
pub fn collect_response_headers(headers: &http::HeaderMap, keep_hop_by_hop: bool) -> (r: Headers)
    ensures
        header_texts(r) == collected_headers(header_map_entries(*headers), keep_hop_by_hop),
{
    let entries = header_entries(headers);
    collect_header_entries(&entries, keep_hop_by_hop)
}

/// The headers of a plain-text answer: `content-type: text/plain`.
pub open spec fn plain_text_headers(h: Map<Seq<char>, Vec<String>>) -> bool {
    &&& h.dom() =~= set!["content-type"@]
    &&& h["content-type"@]@.len() == 1
    &&& h["content-type"@]@[0]@ == "text/plain"@
}

/// Builds the plain-text header map.
pub fn plain_text_header_map() -> (r: Headers)
    ensures
        plain_text_headers(r@),
{
    let mut headers: Headers = StrMap::new();
    let mut values: Vec<String> = Vec::new();
    values.push(string_of("text/plain"));
    headers.insert(string_of("content-type"), values);
    proof {
        assert(headers@.dom() =~= set!["content-type"@]);
    }
    headers
}

/// The answer sent back when the local service cannot be reached: the given
/// status, a plain-text content type, and `msg` as the body.
pub fn error_response(status: u16, msg: &str) -> (r: (ResponseMeta, Vec<u8>))
    ensures
        r.0.status == status,
        plain_text_headers(r.0.headers@),
        r.1@ == encode_utf8(msg@),
{
    let headers = plain_text_header_map();
    (ResponseMeta { status, headers }, slice_to_vec(msg.as_bytes()))
}

/// The answer sent back when forwarding to the local service failed: status
/// 502 (Bad Gateway) and `local service error: <detail>` as plain text.
pub fn local_error_response(detail: &str) -> (r: (ResponseMeta, Vec<u8>))
    ensures
        r.0.status == 502,
        plain_text_headers(r.0.headers@),
        r.1@ == encode_utf8("local service error: "@ + detail@),
{
    let mut msg = string_of("local service error: ");
    push_str(&mut msg, detail);
    error_response(502, msg.as_str())
}

/// Idle connections to the local service, most recently returned last; never
/// more than `MAX_IDLE_CONNECTIONS`.
pub struct IdlePool<C> {
    conns: Vec<C>,
}

impl<C> View for IdlePool<C> {
    type V = Seq<C>;

    closed spec fn view(&self) -> Seq<C> {
        self.conns@
    }
}

impl<C> IdlePool<C> {
    #[verifier::type_invariant]
    spec fn bounded(self) -> bool {
        self.conns@.len() <= MAX_IDLE_CONNECTIONS
    }

    /// An empty pool.
    pub fn new() -> (r: Self)
        ensures
            r@ == Seq::<C>::empty(),
    {
        IdlePool { conns: Vec::new() }
    }

    /// How many connections are idle; never more than the limit.
    pub fn len(&self) -> (r: usize)
        ensures
            r == self@.len(),
            r <= MAX_IDLE_CONNECTIONS,
    {
        proof {
            use_type_invariant(self);
        }
        self.conns.len()
    }

    /// Returns a connection after use. It is kept only when it can take
    /// another request and the pool is not full; otherwise it is dropped.
    pub fn release(&mut self, conn: C, ready: bool)
        ensures
            final(self)@ == (if ready && old(self)@.len() < MAX_IDLE_CONNECTIONS {
                old(self)@.push(conn)
            } else {
                old(self)@
            }),
    {
        proof {
            use_type_invariant(&*self);
        }
        if !ready || self.conns.len() >= MAX_IDLE_CONNECTIONS {
            return;
        }
        let mut taken = IdlePool::new();
        std::mem::swap(self, &mut taken);
        let IdlePool { mut conns } = taken;
        conns.push(conn);
        *self = IdlePool { conns };
    }

    /// Takes the most recently returned idle connection, if any.
    pub fn take(&mut self) -> (r: Option<C>)
        ensures
            old(self)@.len() == 0 ==> r is None && final(self)@ == old(self)@,
            old(self)@.len() > 0 ==> r == Some(old(self)@.last()) && final(self)@ == old(
                self,
            )@.drop_last(),
    {
        proof {
            use_type_invariant(&*self);
        }
        let mut taken = IdlePool::new();
        std::mem::swap(self, &mut taken);
        let IdlePool { mut conns } = taken;
        let r = conns.pop();
        *self = IdlePool { conns };
        r
    }
}

/// Whether `name` is, ignoring ASCII case, one of the hop-by-hop headers:
/// connection, keep-alive, proxy-authenticate, proxy-authorization, te,
/// trailer, transfer-encoding, upgrade, proxy-connection.
pub open spec fn one_of_hop_by_hop_names(name: Seq<char>) -> bool {
    ||| eq_ignore_ascii_case(name, "connection"@)
    ||| eq_ignore_ascii_case(name, "keep-alive"@)
    ||| eq_ignore_ascii_case(name, "proxy-authenticate"@)
    ||| eq_ignore_ascii_case(name, "proxy-authorization"@)
    ||| eq_ignore_ascii_case(name, "te"@)
    ||| eq_ignore_ascii_case(name, "trailer"@)
    ||| eq_ignore_ascii_case(name, "transfer-encoding"@)
    ||| eq_ignore_ascii_case(name, "upgrade"@)
    ||| eq_ignore_ascii_case(name, "proxy-connection"@)
}

/// An ordinary (non-upgrade) response passes back exactly the headers that
/// are not hop-by-hop; an upgrade response passes back every header.
pub proof fn lemma_response_headers_kept(name: Seq<char>)
    ensures
        keeps_response_header_spec(name, false) <==> !one_of_hop_by_hop_names(name),
        keeps_response_header_spec(name, true),
{
}

/// The headers gathered from an ordinary response hold no hop-by-hop name,
/// and every other name that the response has; from an upgrade response,
/// every name that it has.
pub proof fn lemma_collected_headers_names(entries: Seq<(Seq<char>, Seq<char>)>, keep_hop_by_hop: bool)
    ensures
        forall|k: Seq<char>| #[trigger] collected_headers(entries, false).contains_key(k)
            ==> !one_of_hop_by_hop_names(k),
        forall|i: int| 0 <= i < entries.len() && (keep_hop_by_hop || !one_of_hop_by_hop_names(entries[i].0))
            ==> #[trigger] collected_headers(entries, keep_hop_by_hop).contains_key(entries[i].0),
    decreases entries.len(),
{
    if entries.len() > 0 {
        let d = entries.drop_last();
        lemma_collected_headers_names(d, keep_hop_by_hop);
        lemma_collected_headers_names(d, false);
        let last = entries.last();
        assert forall|k: Seq<char>| #[trigger] collected_headers(entries, false).contains_key(k)
            implies !one_of_hop_by_hop_names(k) by {
            if k != last.0 || !keeps_response_header_spec(last.0, false) {
                assert(collected_headers(d, false).contains_key(k));
            }
        }
        assert forall|i: int| 0 <= i < entries.len() && (keep_hop_by_hop || !one_of_hop_by_hop_names(entries[i].0))
            implies #[trigger] collected_headers(entries, keep_hop_by_hop).contains_key(entries[i].0) by {
            if i < entries.len() - 1 {
                assert(d[i] == entries[i]);
                assert(collected_headers(d, keep_hop_by_hop).contains_key(d[i].0));
            }
        }
    }
}

} // verus!
