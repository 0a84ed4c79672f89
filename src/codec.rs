//! The container: manifest text, source text, compiled payload and a
//! trailer, in one byte sequence.
//!
//! Layout: `/*` manifest `*/\n` source `\n/*` payload length-field marker
//! `:` fingerprint `*/`. The trailer is read back to front, since the two
//! text segments are free-form.
use vstd::prelude::*;
use vstd::slice::slice_to_vec;
use vstd::string::{StrSliceExecFns, StringSliceAdditionalSpecFns};
use crate::numbers::{
    decimal, decimal_bytes, digits_value, is_digit, is_u64_text, le_bytes, le_bytes_of, le_value,
    lemma_decimal, lemma_le_round_trip, parse_u64, read_le_u32,
};
use crate::text_encoding::{base64_bytes, base64_text, decode_base64, encode_base64};

verus! {

pub const SLASH: u8 = 47;

pub const STAR: u8 = 42;

pub const NEWLINE: u8 = 10;

/// Separates the fields of the trailer.
pub const FIELD: u8 = 58;

/// Marks a payload stored as base64 text.
pub const TEXT_MARKER: u8 = 98;

/// Marks a payload stored as raw bytes.
pub const RAW_MARKER: u8 = 114;

/// How the payload is stored in a container.
#[derive(Clone, Copy, Debug, PartialEq, Eq, Structural)]
pub enum Encoding {
    /// The bytes themselves, followed by a four-byte little-endian length.
    Raw,
    /// Base64 text, followed by `:` and the decimal length of that text.
    Text,
}

/// Why a container could not be decoded.
#[derive(Clone, Copy, Debug, PartialEq, Eq, Structural)]
pub enum CodecError {
    /// The bytes do not follow the container grammar.
    Format,
    /// The payload's base64 text does not decode.
    Encoding,
}

/// Where the segments of a well-formed container lie. The manifest starts
/// at index 2, after the open delimiter.
#[derive(Clone, Copy, Debug, PartialEq, Eq, Structural)]
pub struct Layout {
    pub manifest_end: usize,
    pub source_start: usize,
    pub source_end: usize,
    pub payload_start: usize,
    pub payload_end: usize,
    pub encoding: Encoding,
    pub fingerprint: u64,
}

/// A decoded container.
pub struct Container {
    pub manifest: Vec<u8>,
    pub source: Vec<u8>,
    pub payload: Vec<u8>,
    pub encoding: Encoding,
    pub fingerprint: u64,
}

impl View for Container {
    type V = (Seq<u8>, Seq<u8>, Seq<u8>, Encoding, u64);

    open spec fn view(&self) -> Self::V {
        (self.manifest@, self.source@, self.payload@, self.encoding, self.fingerprint)
    }
}

// ----- the grammar, read back to front -----

/// The length of `c[0..end]` once trailing newlines are dropped.
pub open spec fn trimmed_len(c: Seq<u8>, end: int) -> int
    decreases end,
{
    if end <= 0 {
        0
    } else if c[end - 1] == NEWLINE {
        trimmed_len(c, end - 1)
    } else {
        end
    }
}

/// Where the close delimiter that ends the container starts, or -1.
pub open spec fn body_end(c: Seq<u8>) -> int {
    let t = trimmed_len(c, c.len() as int);
    if t >= 2 && c[t - 2] == STAR && c[t - 1] == SLASH {
        t - 2
    } else {
        -1
    }
}

/// The last index below `end` that holds `b`, or -1.
pub open spec fn last_index_before(c: Seq<u8>, b: u8, end: int) -> int
    decreases end,
{
    if end <= 0 {
        -1
    } else if c[end - 1] == b {
        end - 1
    } else {
        last_index_before(c, b, end - 1)
    }
}

/// The first index `k >= from` with `c[k..k+2] == "*/"` and `k + 2 <= end`,
/// or -1.
pub open spec fn first_close_from(c: Seq<u8>, from: int, end: int) -> int
    decreases end - from,
{
    if from < 0 || from + 1 >= end {
        -1
    } else if c[from] == STAR && c[from + 1] == SLASH {
        from
    } else {
        first_close_from(c, from + 1, end)
    }
}

/// The payload encoding that a marker byte stands for: anything but the
/// text marker reads as raw.
pub open spec fn marker_encoding(m: u8) -> Encoding {
    if m == TEXT_MARKER {
        Encoding::Text
    } else {
        Encoding::Raw
    }
}

/// Where the separator before the fingerprint stands (or -1).
pub open spec fn fingerprint_sep(c: Seq<u8>) -> int {
    last_index_before(c, FIELD, body_end(c))
}

/// The close delimiter, a fingerprint and a marker byte before it are there.
pub open spec fn trailer_ok(c: Seq<u8>) -> bool {
    let b = body_end(c);
    let i = fingerprint_sep(c);
    b >= 0 && i >= 1 && is_u64_text(c.subrange(i + 1, b))
}

/// The fingerprint that the trailer holds.
pub open spec fn trailer_fingerprint(c: Seq<u8>) -> u64 {
    digits_value(c.subrange(fingerprint_sep(c) + 1, body_end(c))) as u64
}

/// The encoding that the trailer's marker byte gives.
pub open spec fn trailer_encoding(c: Seq<u8>) -> Encoding {
    marker_encoding(c[fingerprint_sep(c) - 1])
}

/// The length field before the marker at `i - 1`: the payload length it
/// states, and the index where the stored payload ends.
pub open spec fn length_field(c: Seq<u8>, i: int) -> Option<(int, int)> {
    if c[i - 1] == TEXT_MARKER {
        let j = last_index_before(c, FIELD, i - 1);
        if j >= 0 && is_u64_text(c.subrange(j + 1, i - 1)) {
            Some((digits_value(c.subrange(j + 1, i - 1)) as int, j))
        } else {
            None
        }
    } else if i - 1 >= 4 {
        Some((le_value(c.subrange(i - 5, i - 1)) as int, i - 5))
    } else {
        None
    }
}

/// The payload length that the trailer declares, with the number of bytes
/// that stand before the length field.
pub open spec fn declared_payload(c: Seq<u8>) -> Option<(int, int)> {
    if trailer_ok(c) {
        length_field(c, fingerprint_sep(c))
    } else {
        None
    }
}

/// The segments before a payload that starts at `ps` and ends at `end`.
pub open spec fn frame(c: Seq<u8>, ps: int, end: int, enc: Encoding, f: u64) -> Option<Layout> {
    let h = ps - 3;
    let k = first_close_from(c, 2, h);
    if ps < 3 || c[ps - 3] != NEWLINE || c[ps - 2] != SLASH || c[ps - 1] != STAR || k < 2
        || c[0] != SLASH || c[1] != STAR || k + 3 > h || c[k + 2] != NEWLINE {
        None
    } else {
        Some(
            Layout {
                manifest_end: k as usize,
                source_start: (k + 3) as usize,
                source_end: h as usize,
                payload_start: ps as usize,
                payload_end: end as usize,
                encoding: enc,
                fingerprint: f,
            },
        )
    }
}

/// Where the segments of `c` lie, or `None` where `c` is malformed.
pub open spec fn spec_locate(c: Seq<u8>) -> Option<Layout> {
    match declared_payload(c) {
        None => None,
        Some((len, end)) => if len > end {
            None
        } else {
            frame(c, end - len, end, trailer_encoding(c), trailer_fingerprint(c))
        },
    }
}

/// The segments lie in order inside a container of `n` bytes.
pub open spec fn layout_wf(l: Layout, n: nat) -> bool {
    2 <= l.manifest_end <= l.source_start <= l.source_end <= l.payload_start <= l.payload_end <= n
}

// ----- scanning -----

fn trimmed(c: &[u8]) -> (t: usize)
    ensures
        t as int == trimmed_len(c@, c@.len() as int),
        t <= c@.len(),
{
    let mut t = c.len();
    while t > 0 && c[t - 1] == NEWLINE
        invariant
            t <= c@.len(),
            trimmed_len(c@, c@.len() as int) == trimmed_len(c@, t as int),
        decreases t,
    {
        t = t - 1;
    }
    t
}

fn find_last(c: &[u8], b: u8, end: usize) -> (r: Option<usize>)
    requires
        end <= c@.len(),
    ensures
        match r {
            Some(i) => i as int == last_index_before(c@, b, end as int) && i < end && c@[i as int]
                == b,
            None => last_index_before(c@, b, end as int) == -1,
        },
{
    let mut k = end;
    while k > 0
        invariant
            k <= end <= c@.len(),
            last_index_before(c@, b, end as int) == last_index_before(c@, b, k as int),
        decreases k,
    {
        if c[k - 1] == b {
            return Some(k - 1);
        }
        k = k - 1;
    }
    None
}

/// Finds the first close delimiter at or after index 2, past the open
/// delimiter.
fn find_close(c: &[u8], end: usize) -> (r: Option<usize>)
    requires
        end <= c@.len(),
    ensures
        match r {
            Some(k) => k as int == first_close_from(c@, 2, end as int) && 2 <= k && k + 1 < end,
            None => first_close_from(c@, 2, end as int) == -1,
        },
{
    if end < 2 {
        return None;
    }
    let mut k: usize = 2;
    while k < end && end - k > 1
        invariant
            2 <= k <= end <= c@.len(),
            first_close_from(c@, 2, end as int) == first_close_from(c@, k as int, end as int),
        decreases end - k,
    {
        if c[k] == STAR && c[k + 1] == SLASH {
            return Some(k);
        }
        k = k + 1;
    }
    None
}

fn read_length(c: &[u8], i: usize) -> (r: Option<(u64, usize)>)
    requires
        1 <= i <= c@.len(),
    ensures
        match r {
            Some((len, end)) => length_field(c@, i as int) == Some((len as int, end as int)) && end
                < i,
            None => length_field(c@, i as int) is None,
        },
{
    if c[i - 1] == TEXT_MARKER {
        match find_last(c, FIELD, i - 1) {
            None => None,
            Some(j) => match parse_u64(&c[j + 1..i - 1]) {
                None => None,
                Some(len) => Some((len, j)),
            },
        }
    } else if i - 1 >= 4 {
        let len = read_le_u32(&c[i - 5..i - 1]);
        Some((len as u64, i - 5))
    } else {
        None
    }
}

/// Finds the segments of a container, scanning the trailer back to front.
pub fn locate(c: &[u8]) -> (r: Option<Layout>)
    ensures
        r == spec_locate(c@),
        r is Some ==> layout_wf(r->0, c@.len()),
{
    let t = trimmed(c);
    if t < 2 || c[t - 2] != STAR || c[t - 1] != SLASH {
        return None;
    }
    let b = t - 2;
    let i = match find_last(c, FIELD, b) {
        Some(i) => i,
        None => return None,
    };
    if i < 1 {
        return None;
    }
    let fingerprint = match parse_u64(&c[i + 1..b]) {
        Some(f) => f,
        None => return None,
    };
    let encoding = if c[i - 1] == TEXT_MARKER {
        Encoding::Text
    } else {
        Encoding::Raw
    };
    let (len, end) = match read_length(c, i) {
        Some(x) => x,
        None => return None,
    };
    if len > end as u64 {
        return None;
    }
    let ps = end - len as usize;
    if ps < 3 || c[ps - 3] != NEWLINE || c[ps - 2] != SLASH || c[ps - 1] != STAR {
        return None;
    }
    let h = ps - 3;
    let k = match find_close(c, h) {
        Some(k) => k,
        None => return None,
    };
    if k < 2 || c[0] != SLASH || c[1] != STAR || k + 3 > h || c[k + 2] != NEWLINE {
        return None;
    }
    Some(
        Layout {
            manifest_end: k,
            source_start: k + 3,
            source_end: h,
            payload_start: ps,
            payload_end: end,
            encoding,
            fingerprint,
        },
    )
}

// ----- decoding -----

/// What a container decodes to: manifest, source, payload, encoding and
/// fingerprint; a text payload goes through base64.
pub open spec fn spec_decode(c: Seq<u8>) -> Result<(Seq<u8>, Seq<u8>, Seq<u8>, Encoding, u64), CodecError> {
    match spec_locate(c) {
        None => Err(CodecError::Format),
        Some(l) => {
            let m = c.subrange(2, l.manifest_end as int);
            let s = c.subrange(l.source_start as int, l.source_end as int);
            let stored = c.subrange(l.payload_start as int, l.payload_end as int);
            match l.encoding {
                Encoding::Raw => Ok((m, s, stored, Encoding::Raw, l.fingerprint)),
                Encoding::Text => match base64_bytes(stored) {
                    Some(p) => Ok((m, s, p, Encoding::Text, l.fingerprint)),
                    None => Err(CodecError::Encoding),
                },
            }
        },
    }
}

/// The manifest and source of a container; the payload is not decoded.
pub open spec fn spec_sources(c: Seq<u8>) -> Result<(Seq<u8>, Seq<u8>), CodecError> {
    match spec_locate(c) {
        None => Err(CodecError::Format),
        Some(l) => Ok(
            (
                c.subrange(2, l.manifest_end as int),
                c.subrange(l.source_start as int, l.source_end as int),
            ),
        ),
    }
}

/// The payload and fingerprint of a container.
pub open spec fn spec_payload(c: Seq<u8>) -> Result<(Seq<u8>, u64), CodecError> {
    match spec_decode(c) {
        Ok((_m, _s, p, _e, f)) => Ok((p, f)),
        Err(e) => Err(e),
    }
}

/// Decodes a whole container.
pub fn decode(c: &[u8]) -> (r: Result<Container, CodecError>)
    ensures
        match r {
            Ok(x) => spec_decode(c@) == Ok::<_, CodecError>(x@),
            Err(e) => spec_decode(c@) == Err::<(Seq<u8>, Seq<u8>, Seq<u8>, Encoding, u64), _>(e),
        },
{
    let l = match locate(c) {
        Some(l) => l,
        None => return Err(CodecError::Format),
    };
    let manifest = slice_to_vec(&c[2..l.manifest_end]);
    let source = slice_to_vec(&c[l.source_start..l.source_end]);
    let stored = &c[l.payload_start..l.payload_end];
    let payload = match l.encoding {
        Encoding::Raw => slice_to_vec(stored),
        Encoding::Text => match decode_base64(stored) {
            Some(p) => p,
            None => return Err(CodecError::Encoding),
        },
    };
    Ok(Container { manifest, source, payload, encoding: l.encoding, fingerprint: l.fingerprint })
}

/// Decodes the manifest and source of a container, for editing.
pub fn decode_sources(c: &[u8]) -> (r: Result<(Vec<u8>, Vec<u8>), CodecError>)
    ensures
        match r {
            Ok((m, s)) => spec_sources(c@) == Ok::<_, CodecError>((m@, s@)),
            Err(e) => spec_sources(c@) == Err::<(Seq<u8>, Seq<u8>), _>(e),
        },
{
    match locate(c) {
        None => Err(CodecError::Format),
        Some(l) => Ok(
            (slice_to_vec(&c[2..l.manifest_end]), slice_to_vec(&c[l.source_start..l.source_end])),
        ),
    }
}

/// Decodes the payload and fingerprint of a container, for running.
pub fn decode_payload(c: &[u8]) -> (r: Result<(Vec<u8>, u64), CodecError>)
    ensures
        match r {
            Ok((p, f)) => spec_payload(c@) == Ok::<_, CodecError>((p@, f)),
            Err(e) => spec_payload(c@) == Err::<(Seq<u8>, u64), _>(e),
        },
{
    match decode(c) {
        Ok(x) => Ok((x.payload, x.fingerprint)),
        Err(e) => Err(e),
    }
}

// ----- encoding -----

/// The marker byte of an encoding.
pub open spec fn marker_of(e: Encoding) -> u8 {
    match e {
        Encoding::Raw => RAW_MARKER,
        Encoding::Text => TEXT_MARKER,
    }
}

/// The stored payload with its length field.
pub open spec fn payload_field(p: Seq<u8>, e: Encoding) -> Seq<u8> {
    match e {
        Encoding::Raw => p + le_bytes(p.len() as u32),
        Encoding::Text => base64_text(p) + seq![FIELD] + decimal(base64_text(p).len()),
    }
}

/// The bytes of a container.
pub open spec fn spec_encode(m: Seq<u8>, s: Seq<u8>, p: Seq<u8>, e: Encoding, f: u64) -> Seq<u8> {
    seq![SLASH, STAR] + m + seq![STAR, SLASH, NEWLINE] + s + seq![NEWLINE, SLASH, STAR]
        + payload_field(p, e) + seq![marker_of(e), FIELD] + decimal(f as nat) + seq![STAR, SLASH]
}

/// `x` holds the close delimiter `*/` somewhere.
pub open spec fn has_close(x: Seq<u8>) -> bool {
    exists|k: int| 0 <= k && k + 1 < x.len() && #[trigger] x[k] == STAR && x[k + 1] == SLASH
}

/// A manifest that the decoder reads back: one that holds no close
/// delimiter, since the first `*/` after the open delimiter ends it.
pub open spec fn manifest_ok(m: Seq<u8>) -> bool {
    !has_close(m)
}

fn push_all(out: &mut Vec<u8>, s: &[u8])
    ensures
        final(out)@ == old(out)@ + s@,
{
    let ghost start = out@;
    let mut i: usize = 0;
    while i < s.len()
        invariant
            i <= s@.len(),
            out@ == start + s@.subrange(0, i as int),
        decreases s@.len() - i,
    {
        out.push(s[i]);
        i = i + 1;
        assert(out@ =~= start + s@.subrange(0, i as int));
    }
    assert(s@.subrange(0, i as int) =~= s@);
}

/// Encodes a container. Decoding the result gives back the inputs whenever
/// the manifest holds no close delimiter `*/`.
pub fn encode(manifest: &[u8], source: &[u8], payload: &[u8], encoding: Encoding, fingerprint: u64) -> (r: Vec<u8>)
    requires
        encoding == Encoding::Raw ==> payload@.len() <= u32::MAX,
    ensures
        r@ == spec_encode(manifest@, source@, payload@, encoding, fingerprint),
        manifest_ok(manifest@) ==> spec_decode(r@) == Ok::<_, CodecError>(
            (manifest@, source@, payload@, encoding, fingerprint),
        ),
{
    let mut out: Vec<u8> = Vec::new();
    out.push(SLASH);
    out.push(STAR);
    push_all(&mut out, manifest);
    out.push(STAR);
    out.push(SLASH);
    out.push(NEWLINE);
    push_all(&mut out, source);
    out.push(NEWLINE);
    out.push(SLASH);
    out.push(STAR);
    let ghost head = out@;
    match encoding {
        Encoding::Raw => {
            push_all(&mut out, payload);
            let lb = le_bytes_of(payload.len() as u32);
            push_all(&mut out, lb.as_slice());
            assert(out@ =~= head + payload_field(payload@, encoding));
            out.push(RAW_MARKER);
        },
        Encoding::Text => {
            let t = encode_base64(payload);
            push_all(&mut out, t.as_slice());
            out.push(FIELD);
            let dl = decimal_bytes(t.len() as u64);
            push_all(&mut out, dl.as_slice());
            assert(out@ =~= head + payload_field(payload@, encoding));
            out.push(TEXT_MARKER);
        },
    }
    out.push(FIELD);
    let d = decimal_bytes(fingerprint);
    push_all(&mut out, d.as_slice());
    out.push(STAR);
    out.push(SLASH);
    assert(out@ =~= spec_encode(manifest@, source@, payload@, encoding, fingerprint));
    // the container is in memory, so its length fits in a usize
    let total: usize = out.len();
    assert(total == out@.len());
    proof {
        if manifest_ok(manifest@) {
            lemma_round_trip(manifest@, source@, payload@, encoding, fingerprint);
        }
    }
    out
}

// ----- lemmas -----

proof fn lemma_last_index_skip(c: Seq<u8>, b: u8, lo: int, end: int)
    requires
        0 <= lo <= end <= c.len(),
        forall|k: int| lo <= k < end ==> c[k] != b,
    ensures
        last_index_before(c, b, end) == last_index_before(c, b, lo),
    decreases end - lo,
{
    if end > lo {
        lemma_last_index_skip(c, b, lo, end - 1);
    }
}

proof fn lemma_first_close_skip(c: Seq<u8>, from: int, to: int, end: int)
    requires
        0 <= from <= to,
        to + 1 < end,
        forall|k: int| from <= k < to ==> !(#[trigger] c[k] == STAR && c[k + 1] == SLASH),
    ensures
        first_close_from(c, from, end) == first_close_from(c, to, end),
    decreases to - from,
{
    if from < to {
        lemma_first_close_skip(c, from + 1, to, end);
    }
}

proof fn lemma_trailer(c: Seq<u8>, q: int, f: u64)
    requires
        0 <= q,
        q + 1 <= c.len(),
        c.subrange(q + 1, c.len() as int) == seq![FIELD] + decimal(f as nat) + seq![STAR, SLASH],
    ensures
        body_end(c) == c.len() - 2,
        fingerprint_sep(c) == q + 1,
        trailer_ok(c),
        trailer_fingerprint(c) == f,
        trailer_encoding(c) == marker_encoding(c[q]),
{
    let t = c.subrange(q + 1, c.len() as int);
    let d = decimal(f as nat);
    lemma_decimal(f as nat);
    let n = c.len() as int;
    assert(t.len() == n - q - 1);
    assert((seq![FIELD] + d + seq![STAR, SLASH]).len() == d.len() + 3);
    assert(n == q + 1 + 1 + d.len() + 2);
    assert(c[n - 1] == t[t.len() - 1]);
    assert(c[n - 2] == t[t.len() - 2]);
    assert(trimmed_len(c, n) == n);
    assert forall|k: int| q + 2 <= k < n - 2 implies c[k] != FIELD by {
        assert(c[k] == t[k - q - 1]);
        assert(t[k - q - 1] == d[k - q - 2]);
        assert(is_digit(d[k - q - 2]));
    }
    lemma_last_index_skip(c, FIELD, q + 2, n - 2);
    assert(c[q + 1] == t[0]);
    assert forall|j: int| 0 <= j < d.len() implies c.subrange(q + 2, n - 2)[j] == d[j] by {
        assert(c[q + 2 + j] == t[j + 1]);
    }
    assert(c.subrange(q + 2, n - 2) =~= d);
}

proof fn lemma_length_raw(c: Seq<u8>, ps: int, p: Seq<u8>)
    requires
        0 <= ps,
        p.len() <= u32::MAX,
        ps + p.len() + 4 < c.len(),
        c.subrange(ps, ps + p.len() + 4) == p + le_bytes(p.len() as u32),
        c[ps + p.len() + 4] != TEXT_MARKER,
    ensures
        length_field(c, ps + p.len() + 5) == Some((p.len() as int, ps + p.len())),
        c.subrange(ps, ps + p.len()) == p,
{
    let x = c.subrange(ps, ps + p.len() + 4);
    let q = ps + p.len() + 4;
    assert(c.subrange(q - 4, q) =~= x.subrange(p.len() as int, p.len() + 4int));
    assert(x.subrange(p.len() as int, p.len() + 4int) =~= le_bytes(p.len() as u32));
    lemma_le_round_trip(p.len() as u32);
    assert(c.subrange(ps, ps + p.len()) =~= x.subrange(0, p.len() as int));
    assert(x.subrange(0, p.len() as int) =~= p);
}

proof fn lemma_length_text(c: Seq<u8>, ps: int, t: Seq<u8>)
    requires
        0 <= ps,
        ps + t.len() + 1 + decimal(t.len()).len() < c.len(),
        c.subrange(ps, ps + t.len() + 1 + decimal(t.len()).len()) == t + seq![FIELD] + decimal(t.len()),
        c[ps + t.len() + 1 + decimal(t.len()).len()] == TEXT_MARKER,
        t.len() <= u64::MAX,
    ensures
        length_field(c, ps + t.len() + 2 + decimal(t.len()).len()) == Some(
            (t.len() as int, ps + t.len()),
        ),
        c.subrange(ps, ps + t.len()) == t,
{
    let dl = decimal(t.len());
    lemma_decimal(t.len());
    let tl = t.len() as int;
    let q = ps + tl + 1 + dl.len();
    let x = c.subrange(ps, q);
    assert forall|k: int| ps + tl + 1 <= k < q implies c[k] != FIELD by {
        assert(c[k] == x[k - ps]);
        assert(x[k - ps] == dl[k - ps - tl - 1]);
        assert(is_digit(dl[k - ps - tl - 1]));
    }
    lemma_last_index_skip(c, FIELD, ps + tl + 1, q);
    assert(c[ps + tl] == x[tl]);
    assert(c.subrange(ps + tl + 1, q) =~= x.subrange(tl + 1, q - ps));
    assert(x.subrange(tl + 1, q - ps) =~= dl);
    assert(c.subrange(ps, ps + tl) =~= x.subrange(0, tl));
    assert(x.subrange(0, tl) =~= t);
}

/// The text segments and the separators that precede the payload.
pub open spec fn head_of(m: Seq<u8>, s: Seq<u8>) -> Seq<u8> {
    seq![SLASH, STAR] + m + seq![STAR, SLASH, NEWLINE] + s + seq![NEWLINE, SLASH, STAR]
}

proof fn lemma_frame(c: Seq<u8>, m: Seq<u8>, s: Seq<u8>)
    requires
        manifest_ok(m),
        head_of(m, s).len() <= c.len(),
        c.subrange(0, head_of(m, s).len() as int) == head_of(m, s),
    ensures
        ({
            let ps = head_of(m, s).len() as int;
            let k: int = m.len() + 2int;
            &&& c[ps - 3] == NEWLINE && c[ps - 2] == SLASH && c[ps - 1] == STAR
            &&& first_close_from(c, 2, ps - 3) == k
            &&& c[0] == SLASH && c[1] == STAR && c[k + 2] == NEWLINE
            &&& c.subrange(2, k) == m
            &&& c.subrange(k + 3, ps - 3) == s
        }),
{
    let hd = head_of(m, s);
    let ps = hd.len() as int;
    let h = ps - 3;
    let k: int = m.len() + 2int;
    assert forall|j: int| 0 <= j < ps implies c[j] == hd[j] by {
        assert(c[j] == c.subrange(0, ps)[j]);
    }
    assert forall|j: int| 2 <= j < k implies !(#[trigger] c[j] == STAR && c[j + 1] == SLASH) by {
        if j < k - 1 {
            assert(c[j] == m[j - 2]);
            assert(c[j + 1] == m[j - 1]);
        }
    }
    lemma_first_close_skip(c, 2, k, h);
    assert(c.subrange(2, k) =~= m);
    assert(c.subrange(k + 3, h) =~= s);
}

/// Decoding an encoded container gives back what was encoded, for every
/// manifest that holds no close delimiter `*/`.
pub proof fn lemma_round_trip(m: Seq<u8>, s: Seq<u8>, p: Seq<u8>, e: Encoding, f: u64)
    requires
        manifest_ok(m),
        e == Encoding::Raw ==> p.len() <= u32::MAX,
        e == Encoding::Text ==> base64_bytes(base64_text(p)) == Some(p),
        spec_encode(m, s, p, e, f).len() <= usize::MAX,
    ensures
        spec_decode(spec_encode(m, s, p, e, f)) == Ok::<_, CodecError>((m, s, p, e, f)),
{
    let c = spec_encode(m, s, p, e, f);
    let hd = head_of(m, s);
    let pf = payload_field(p, e);
    let ps = hd.len() as int;
    let q = ps + pf.len();
    assert(c =~= hd + pf + (seq![marker_of(e), FIELD] + decimal(f as nat) + seq![STAR, SLASH]));
    assert(c.subrange(q + 1, c.len() as int) =~= seq![FIELD] + decimal(f as nat) + seq![STAR, SLASH]);
    assert(c[q] == marker_of(e));
    lemma_trailer(c, q, f);
    assert(c.subrange(0, ps) =~= hd);
    assert(c.subrange(ps, q) =~= pf);
    lemma_frame(c, m, s);
    match e {
        Encoding::Raw => {
            lemma_length_raw(c, ps, p);
        },
        Encoding::Text => {
            lemma_length_text(c, ps, base64_text(p));
        },
    }
}

/// A container whose trailer declares a payload longer than the bytes that
/// stand before its length field is rejected as malformed, by every decoder.
pub proof fn lemma_length_integrity(c: Seq<u8>, len: int, avail: int)
    requires
        declared_payload(c) == Some((len, avail)),
        len > avail,
    ensures
        spec_decode(c) == Err::<(Seq<u8>, Seq<u8>, Seq<u8>, Encoding, u64), _>(CodecError::Format),
        spec_sources(c) == Err::<(Seq<u8>, Seq<u8>), _>(CodecError::Format),
        spec_payload(c) == Err::<(Seq<u8>, u64), _>(CodecError::Format),
{
}

/// Bytes that, once trailing newlines are dropped, do not end with the
/// close delimiter are rejected as malformed, by every decoder.
pub proof fn lemma_unclosed_rejected(c: Seq<u8>)
    requires
        body_end(c) < 0,
    ensures
        spec_decode(c) == Err::<(Seq<u8>, Seq<u8>, Seq<u8>, Encoding, u64), _>(CodecError::Format),
        spec_sources(c) == Err::<(Seq<u8>, Seq<u8>), _>(CodecError::Format),
        spec_payload(c) == Err::<(Seq<u8>, u64), _>(CodecError::Format),
{
}

proof fn lemma_last_index_below(c: Seq<u8>, b: u8, end: int)
    requires
        0 <= end,
    ensures
        last_index_before(c, b, end) < end,
    decreases end,
{
    if end > 0 {
        lemma_last_index_below(c, b, end - 1);
    }
}

/// The bytes of the trailer after the length field.
pub open spec fn tail_of(e: Encoding, f: u64) -> Seq<u8> {
    seq![marker_of(e), FIELD] + decimal(f as nat) + seq![STAR, SLASH]
}

/// Truncating an encoded container anywhere from its marker byte on (inside
/// the marker, the fingerprint field or the close delimiter) leaves bytes
/// that decode as malformed.
pub proof fn lemma_truncated_trailer(m: Seq<u8>, s: Seq<u8>, p: Seq<u8>, e: Encoding, f: u64, k: int)
    requires
        spec_encode(m, s, p, e, f).len() - tail_of(e, f).len() < k < spec_encode(m, s, p, e, f).len(),
    ensures
        spec_decode(spec_encode(m, s, p, e, f).subrange(0, k)) == Err::<
            (Seq<u8>, Seq<u8>, Seq<u8>, Encoding, u64),
            _,
        >(CodecError::Format),
{
    let c = spec_encode(m, s, p, e, f);
    let x = head_of(m, s) + payload_field(p, e);
    let tl = tail_of(e, f);
    assert(c =~= x + tl);
    let d = decimal(f as nat);
    lemma_decimal(f as nat);
    let t = c.subrange(0, k);
    let j = k - 1 - x.len();
    assert(t[k - 1] == tl[j]);
    assert(tl[j] != NEWLINE && tl[j] != SLASH) by {
        if 2 <= j < 2 + d.len() {
            assert(tl[j] == d[j - 2]);
            assert(is_digit(d[j - 2]));
        }
    }
    assert(trimmed_len(t, k) == k);
    assert(body_end(t) == -1);
}

/// Replacing the separator before the fingerprint with any other byte leaves
/// a container that decodes as malformed.
pub proof fn lemma_corrupt_separator(m: Seq<u8>, s: Seq<u8>, p: Seq<u8>, e: Encoding, f: u64, b: u8)
    requires
        b != FIELD,
    ensures
        ({
            let c = spec_encode(m, s, p, e, f);
            let sep = c.len() - tail_of(e, f).len() + 1;
            spec_decode(c.update(sep, b)) == Err::<
                (Seq<u8>, Seq<u8>, Seq<u8>, Encoding, u64),
                _,
            >(CodecError::Format)
        }),
{
    let c = spec_encode(m, s, p, e, f);
    let x = head_of(m, s) + payload_field(p, e);
    let tl = tail_of(e, f);
    assert(c =~= x + tl);
    let q = x.len() as int;
    let d = decimal(f as nat);
    lemma_decimal(f as nat);
    let c2 = c.update(q + 1, b);
    let n = c.len() as int;
    assert(n == q + 4 + d.len());
    assert(c2[n - 1] == SLASH);
    assert(c2[n - 2] == STAR);
    assert(trimmed_len(c2, n) == n);
    assert(body_end(c2) == n - 2);
    assert forall|k: int| q <= k < n - 2 implies c2[k] != FIELD by {
        if k >= q + 2 {
            assert(c2[k] == tl[k - q]);
            assert(tl[k - q] == d[k - q - 2]);
            assert(is_digit(d[k - q - 2]));
        } else if k == q {
            assert(c2[k] == tl[0]);
        }
    }
    lemma_last_index_skip(c2, FIELD, q, n - 2);
    lemma_last_index_below(c2, FIELD, q);
    let i = fingerprint_sep(c2);
    assert(i < q);
    if i >= 1 {
        let digits = c2.subrange(i + 1, n - 2);
        assert(digits[q - i - 1] == c2[q]);
        assert(c2[q] == tl[0]);
        assert(!is_digit(digits[q - i - 1]));
        assert(!trailer_ok(c2));
    }
}

// ----- an empty container -----

/// The manifest that a new, empty container starts with: a package named
/// after the container.
pub open spec fn default_manifest(base_name: Seq<u8>) -> Seq<u8> {
    "[package]\nname = \"".spec_bytes() + base_name + "\"\nedition = \"2021\"\n\n[dependencies]\n".spec_bytes()
}

/// The source that a new, empty container starts with.
pub open spec fn default_source() -> Seq<u8> {
    "fn main() {\n    println!(\"Hello, world!\");\n}\n".spec_bytes()
}

/// The manifest and source for editing: the defaults for an empty
/// container, else those that it holds.
pub open spec fn spec_edit_sources(c: Seq<u8>, base_name: Seq<u8>) -> Result<(Seq<u8>, Seq<u8>), CodecError> {
    if c.len() == 0 {
        Ok((default_manifest(base_name), default_source()))
    } else {
        spec_sources(c)
    }
}

/// The manifest and source to edit, from a container's bytes; an empty
/// container gives the defaults, named after `base_name`, and never fails.
pub fn edit_sources(c: &[u8], base_name: &[u8]) -> (r: Result<(Vec<u8>, Vec<u8>), CodecError>)
    ensures
        match r {
            Ok((m, s)) => spec_edit_sources(c@, base_name@) == Ok::<_, CodecError>((m@, s@)),
            Err(e) => spec_edit_sources(c@, base_name@) == Err::<(Seq<u8>, Seq<u8>), _>(e),
        },
        c@.len() == 0 ==> r is Ok,
{
    if c.len() == 0 {
        let mut m = "[package]\nname = \"".as_bytes_vec();
        push_all(&mut m, base_name);
        let mut tail = "\"\nedition = \"2021\"\n\n[dependencies]\n".as_bytes_vec();
        m.append(&mut tail);
        let s = "fn main() {\n    println!(\"Hello, world!\");\n}\n".as_bytes_vec();
        Ok((m, s))
    } else {
        decode_sources(c)
    }
}

} // verus!
