//! What the inspector records of one exchange, and how bodies are previewed.
use vstd::prelude::*;
use vstd::utf8::{decode_utf8, encode_utf8, valid_utf8};
use crate::protocol::request::Headers;
use crate::text::{decimal, push_decimal, push_str, string_of};

verus! {

/// How much of a body the inspector keeps.
pub const BODY_PREVIEW_BYTES: usize = 65536;

/// Where an exchange came from.
#[derive(Debug, Clone, Copy, PartialEq, Eq, Structural)]
pub enum ExchangeSource {
    /// A request that arrived through the tunnel.
    Tunnel,
    /// A request replayed from the inspector.
    Replay,
}

impl ExchangeSource {
    /// The source's name: `tunnel` or `replay`.
    pub fn as_str(self) -> (r: &'static str)
        ensures
            r@ == (match self {
                ExchangeSource::Tunnel => "tunnel"@,
                ExchangeSource::Replay => "replay"@,
            }),
    {
        match self {
            ExchangeSource::Tunnel => "tunnel",
            ExchangeSource::Replay => "replay",
        }
    }
}

/// What is shown of a body: its text (or a label for binary content), its
/// full size, whether the preview was cut, whether it looks binary, and the
/// first bytes kept.
#[derive(Debug)]
pub struct BodyPreview {
    pub text: String,
    pub bytes: usize,
    pub truncated: bool,
    pub binary: bool,
    pub preview_bytes: Vec<u8>,
}

impl BodyPreview {
    /// The preview of an empty body.
    pub fn empty() -> (r: Self)
        ensures
            r.text@ == Seq::<char>::empty(),
            r.bytes == 0,
            !r.truncated,
            !r.binary,
            r.preview_bytes@ == Seq::<u8>::empty(),
    {
        BodyPreview { text: String::new(), bytes: 0, truncated: false, binary: false, preview_bytes: Vec::new() }
    }
}

/// One exchange as the inspector shows it.
#[derive(Debug)]
pub struct CapturedExchange {
    pub id: String,
    pub sequence: u64,
    pub source: ExchangeSource,
    pub timestamp_ms: u128,
    pub remote_addr: String,
    pub method: String,
    pub path: String,
    pub request_headers: Headers,
    pub request_body: BodyPreview,
    pub status: u16,
    pub response_headers: Headers,
    pub response_body: BodyPreview,
    pub duration_ms: u128,
}

/// The label shown in place of a binary body of `n` bytes.
pub open spec fn binary_label_spec(n: nat) -> Seq<char> {
    "(binary body, "@ + decimal(n) + " bytes)"@
}

/// Builds the label for a binary body.
pub fn binary_label(bytes: usize) -> (r: String)
    ensures
        r@ == binary_label_spec(bytes as nat),
{
    let mut s = string_of("(binary body, ");
    push_decimal(&mut s, bytes as u64);
    push_str(&mut s, " bytes)");
    s
}

/// A control character (Unicode general category Cc): U+0000 to U+001F and
/// U+007F to U+009F.
pub open spec fn is_control(c: char) -> bool {
    (c as u32) <= 0x1f || (0x7f <= (c as u32) && (c as u32) <= 0x9f)
}

/// A control character other than line feed, carriage return and tab.
pub open spec fn is_stray_control(c: char) -> bool {
    is_control(c) && c != '\n' && c != '\r' && c != '\t'
}

/// How many stray control characters `s` holds.
pub open spec fn stray_control_count(s: Seq<char>) -> nat
    decreases s.len(),
{
    if s.len() == 0 {
        0
    } else {
        stray_control_count(s.drop_last()) + if is_stray_control(s.last()) {
            1nat
        } else {
            0nat
        }
    }
}

proof fn lemma_stray_control_count_bound(s: Seq<char>)
    ensures
        stray_control_count(s) <= s.len(),
    decreases s.len(),
{
    if s.len() > 0 {
        lemma_stray_control_count_bound(s.drop_last());
    }
}

/// Whether bytes look like text: empty, or valid UTF-8 in which fewer than
/// five percent of the characters (rounding the share down) are stray
/// control characters.
pub open spec fn is_probably_text_spec(b: Seq<u8>) -> bool {
    b.len() == 0 || (valid_utf8(b) && {
        let t = decode_utf8(b);
        let n: nat = if t.len() == 0 {
            1
        } else {
            t.len()
        };
        stray_control_count(t) * 100 / n < 5
    })
}

/// `std::str::from_utf8`: the text, exactly when the bytes are valid UTF-8.
#[verifier::external_body]
fn str_from_utf8(b: &[u8]) -> (r: Option<&str>)
    ensures
        r is Some <==> valid_utf8(b@),
        r matches Some(s) ==> s@ == decode_utf8(b@),
{
    std::str::from_utf8(b).ok()
}

/// What `String::from_utf8_lossy` makes of bytes: their text, each invalid
/// sequence replaced by U+FFFD.
pub uninterp spec fn utf8_lossy(b: Seq<u8>) -> Seq<char>;

/// `String::from_utf8_lossy`, taken as an owned string. Valid UTF-8 comes
/// back unchanged.
#[verifier::external_body]
fn from_utf8_lossy(b: &[u8]) -> (r: String)
    ensures
        r@ == utf8_lossy(b@),
        valid_utf8(b@) ==> r@ == decode_utf8(b@),
{
    String::from_utf8_lossy(b).into_owned()
}

/// Decides whether bytes look like text.
pub fn is_probably_text(bytes: &[u8]) -> (r: bool)
    ensures
        r == is_probably_text_spec(bytes@),
{
    if bytes.len() == 0 {
        return true;
    }
    let text = match str_from_utf8(bytes) {
        Some(t) => t,
        None => {
            return false;
        },
    };
    let ghost t = text@;
    let nchars = text.unicode_len();
    let mut controls: usize = 0;
    for ch in it: text.chars()
        invariant
            t == text@,
            nchars == t.len(),
            it.seq() == t,
            controls == stray_control_count(t.take(it.index() as int)),
            controls <= it.index() <= nchars,
    {
        proof {
            assert(t.take(it.index() + 1).drop_last() =~= t.take(it.index() as int));
            assert(it.seq()[it.index() as int] == ch);
        }
        let code = ch as u32;
        let stray = (code <= 0x1f || (0x7f <= code && code <= 0x9f)) && ch != '\n' && ch != '\r'
            && ch != '\t';
        if stray {
            controls = controls + 1;
        }
    }
    proof {
        assert(t.take(t.len() as int) =~= t);
    }
    let n: u128 = if nchars == 0 {
        1
    } else {
        nchars as u128
    };
    (controls as u128) * 100 / n < 5
}

/// The preview of a whole body: its size, its first `BODY_PREVIEW_BYTES`
/// bytes, whether it was cut, whether those bytes look binary, and their
/// text, or a label when they look binary.
pub fn body_preview(bytes: &[u8]) -> (r: BodyPreview)
    ensures
        r.bytes == bytes@.len(),
        r.truncated == (bytes@.len() > BODY_PREVIEW_BYTES),
        r.preview_bytes@ == bytes@.take(
            if bytes@.len() < BODY_PREVIEW_BYTES { bytes@.len() as int } else { BODY_PREVIEW_BYTES as int },
        ),
        r.binary == !is_probably_text_spec(r.preview_bytes@),
        r.text@ == (if r.binary && bytes@.len() > 0 {
            binary_label_spec(bytes@.len())
        } else {
            utf8_lossy(r.preview_bytes@)
        }),
        !r.binary ==> r.text@ == decode_utf8(r.preview_bytes@),
{
    let len = bytes.len();
    let truncated = len > BODY_PREVIEW_BYTES;
    let slice_len = if len < BODY_PREVIEW_BYTES {
        len
    } else {
        BODY_PREVIEW_BYTES
    };
    let mut kept: Vec<u8> = Vec::new();
    let mut i: usize = 0;
    while i < slice_len
        invariant
            slice_len <= bytes@.len(),
            0 <= i <= slice_len,
            kept@ == bytes@.take(i as int),
        decreases slice_len - i,
    {
        kept.push(bytes[i]);
        i = i + 1;
        proof {
            assert(kept@ =~= bytes@.take(i as int));
        }
    }
    let binary = !is_probably_text(kept.as_slice());
    let text = if binary && len > 0 {
        binary_label(len)
    } else {
        from_utf8_lossy(kept.as_slice())
    };
    BodyPreview { text, bytes: len, truncated, binary, preview_bytes: kept }
}

/// The number of UTF-8 bytes of a string.
pub fn utf8_len(s: &String) -> (r: usize)
    ensures
        r == encode_utf8(s@).len(),
{
    s.as_str().as_bytes().len()
}

/// Feeds one more chunk of a streamed body into its preview. Bytes are kept
/// up to the limit; the size grows by the chunk. A body that is binary stays
/// so; a chunk that does not look like text makes it binary; otherwise text
/// is added until the text reaches the limit in UTF-8 bytes, and the preview
/// is marked cut when anything is left out.
pub fn append_preview(preview: &mut BodyPreview, chunk: &[u8])
    requires
        old(preview).bytes + chunk@.len() <= usize::MAX,
    ensures
        final(preview).bytes == old(preview).bytes + chunk@.len(),
        final(preview).preview_bytes@ == old(preview).preview_bytes@ + chunk@.take(
            if old(preview).preview_bytes@.len() >= BODY_PREVIEW_BYTES {
                0int
            } else if chunk@.len() < BODY_PREVIEW_BYTES - old(preview).preview_bytes@.len() {
                chunk@.len() as int
            } else {
                BODY_PREVIEW_BYTES - old(preview).preview_bytes@.len()
            },
        ),
        old(preview).preview_bytes@.len() <= BODY_PREVIEW_BYTES ==> final(preview).preview_bytes@.len()
            <= BODY_PREVIEW_BYTES,
        old(preview).binary ==> {
            &&& final(preview).binary
            &&& final(preview).text@ == binary_label_spec(final(preview).bytes as nat)
            &&& final(preview).truncated == old(preview).truncated
        },
        !old(preview).binary && !is_probably_text_spec(chunk@) ==> {
            &&& final(preview).binary
            &&& final(preview).text@ == binary_label_spec(final(preview).bytes as nat)
            &&& final(preview).truncated == (final(preview).preview_bytes@.len()
                < final(preview).bytes)
        },
        !old(preview).binary && is_probably_text_spec(chunk@) ==> {
            let used = encode_utf8(old(preview).text@).len();
            &&& !final(preview).binary
            &&& used >= BODY_PREVIEW_BYTES ==> final(preview).text@ == old(preview).text@
                && final(preview).truncated == (old(preview).truncated || chunk@.len() > 0)
            &&& used < BODY_PREVIEW_BYTES ==> {
                let take = if chunk@.len() < BODY_PREVIEW_BYTES - used {
                    chunk@.len() as int
                } else {
                    BODY_PREVIEW_BYTES - used
                };
                &&& final(preview).text@ == old(preview).text@ + utf8_lossy(chunk@.take(take))
                &&& valid_utf8(chunk@.take(take)) ==> final(preview).text@ == old(preview).text@
                    + decode_utf8(chunk@.take(take))
                &&& final(preview).truncated == (old(preview).truncated || take < chunk@.len())
            }
        },
{
    let kept = preview.preview_bytes.len();
    let remaining_bytes = if kept >= BODY_PREVIEW_BYTES {
        0
    } else {
        BODY_PREVIEW_BYTES - kept
    };
    if remaining_bytes > 0 {
        let n = if chunk.len() < remaining_bytes {
            chunk.len()
        } else {
            remaining_bytes
        };
        let ghost start = preview.preview_bytes@;
        let mut i: usize = 0;
        while i < n
            invariant
                n <= chunk@.len(),
                0 <= i <= n,
                preview.preview_bytes@ == start + chunk@.take(i as int),
                preview.bytes == old(preview).bytes,
                preview.binary == old(preview).binary,
                preview.truncated == old(preview).truncated,
                preview.text == old(preview).text,
                start == old(preview).preview_bytes@,
            decreases n - i,
        {
            preview.preview_bytes.push(chunk[i]);
            i = i + 1;
            proof {
                assert(preview.preview_bytes@ =~= start + chunk@.take(i as int));
            }
        }
    } else {
        proof {
            assert(chunk@.take(0) =~= Seq::<u8>::empty());
            assert(preview.preview_bytes@ =~= preview.preview_bytes@ + chunk@.take(0));
        }
    }
    preview.bytes = preview.bytes + chunk.len();
    if preview.binary {
        preview.text = binary_label(preview.bytes);
        return;
    }
    if !is_probably_text(chunk) {
        preview.binary = true;
        preview.text = binary_label(preview.bytes);
        preview.truncated = preview.preview_bytes.len() < preview.bytes;
        return;
    }
    let used = utf8_len(&preview.text);
    if used >= BODY_PREVIEW_BYTES {
        preview.truncated = preview.truncated || chunk.len() > 0;
        return;
    }
    let remaining = BODY_PREVIEW_BYTES - used;
    let take = if chunk.len() < remaining {
        chunk.len()
    } else {
        remaining
    };
    let mut head: Vec<u8> = Vec::new();
    let mut i: usize = 0;
    while i < take
        invariant
            take <= chunk@.len(),
            0 <= i <= take,
            head@ == chunk@.take(i as int),
        decreases take - i,
    {
        head.push(chunk[i]);
        i = i + 1;
        proof {
            assert(head@ =~= chunk@.take(i as int));
        }
    }
    let added = from_utf8_lossy(head.as_slice());
    push_str(&mut preview.text, added.as_str());
    preview.truncated = preview.truncated || take < chunk.len();
}

} // verus!
