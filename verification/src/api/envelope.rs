//! The envelope every API response is wrapped in.
use vstd::prelude::*;
use crate::text::{push_str, string_of};

verus! {

/// A type that API responses carry, with the kind name its envelope reports.
pub trait Enveloped {
    /// The kind name, in snake_case.
    spec fn kind_name() -> Seq<char>;

    /// The kind name, as a string.
    fn kind() -> (r: String)
        ensures
            r@ == Self::kind_name(),
    ;
}

/// A response: what kind of data it holds, the data, and optional metadata.
#[derive(Debug)]
pub struct Envelope<T> {
    pub kind: String,
    pub data: T,
    pub meta: Option<EnvelopeMeta>,
}

/// Optional facts about a response.
#[derive(Debug)]
pub struct EnvelopeMeta {
    pub request_id: Option<String>,
    pub timestamp: Option<String>,
    pub total: Option<u64>,
    pub cursor: Option<String>,
}

impl Default for EnvelopeMeta {
    fn default() -> (r: Self)
        ensures
            r.request_id is None,
            r.timestamp is None,
            r.total is None,
            r.cursor is None,
    {
        EnvelopeMeta { request_id: None, timestamp: None, total: None, cursor: None }
    }
}

/// The data of an error response.
#[derive(Debug)]
pub struct ErrorData {
    /// The machine-readable error type, such as an application code's name.
    pub error_type: String,
    pub title: String,
    pub detail: Option<String>,
    pub status: u16,
}

impl<T: Enveloped> Envelope<T> {
    /// Wraps one item, with the item type's kind and no metadata.
    pub fn ok(data: T) -> (r: Self)
        ensures
            r.kind@ == T::kind_name(),
            r.data == data,
            r.meta is None,
    {
        Envelope { kind: T::kind(), data, meta: None }
    }
}

impl<T: Enveloped> Envelope<Vec<T>> {
    /// Wraps a list: the kind is the item kind followed by `_list`, and the
    /// metadata reports how many items there are.
    pub fn list(data: Vec<T>) -> (r: Self)
        ensures
            r.kind@ == T::kind_name() + "_list"@,
            r.data == data,
            r.meta is Some,
            r.meta->Some_0.total == Some(data@.len() as u64),
            r.meta->Some_0.request_id is None,
            r.meta->Some_0.timestamp is None,
            r.meta->Some_0.cursor is None,
    {
        let total = data.len() as u64;
        let mut kind = T::kind();
        push_str(&mut kind, "_list");
        let mut meta = EnvelopeMeta::default();
        meta.total = Some(total);
        Envelope { kind, data, meta: Some(meta) }
    }
}

impl Envelope<ErrorData> {
    /// An error response of kind `error`.
    pub fn error(error_type: &str, title: &str, detail: Option<String>, status: u16) -> (r: Self)
        ensures
            r.kind@ == "error"@,
            r.data.error_type@ == error_type@,
            r.data.title@ == title@,
            r.data.detail == detail,
            r.data.status == status,
            r.meta is None,
    {
        Envelope {
            kind: string_of("error"),
            data: ErrorData {
                error_type: string_of(error_type),
                title: string_of(title),
                detail,
                status,
            },
            meta: None,
        }
    }
}

impl<T> Envelope<T> {
    /// The same envelope with `meta` as its metadata.
    pub fn with_meta(self, meta: EnvelopeMeta) -> (r: Self)
        ensures
            r.kind == self.kind,
            r.data == self.data,
            r.meta == Some(meta),
    {
        let mut e = self;
        e.meta = Some(meta);
        e
    }
}

} // verus!
