//! Little-endian integers and fixed-width text fields of the wire format.
use vstd::prelude::*;
use vstd::string::StringSliceAdditionalSpecFns;
use vstd::utf8::*;

verus! {

pub open spec fn le16(v: u16) -> Seq<u8> {
    seq![(v % 256) as u8, (v / 256) as u8]
}

pub open spec fn le32(v: u32) -> Seq<u8> {
    seq![
        (v % 256) as u8,
        ((v / 256) % 256) as u8,
        ((v / 65536) % 256) as u8,
        (v / 16777216) as u8,
    ]
}

/// The little-endian `u16` that starts at `off`.
pub open spec fn u16_at(b: Seq<u8>, off: int) -> u16 {
    (b[off] + 256 * b[off + 1]) as u16
}

/// The little-endian `u32` that starts at `off`.
pub open spec fn u32_at(b: Seq<u8>, off: int) -> u32 {
    (b[off] + 256 * b[off + 1] + 65536 * b[off + 2] + 16777216 * b[off + 3]) as u32
}

pub open spec fn bool_byte(v: bool) -> u8 {
    if v {
        1
    } else {
        0
    }
}

/// A text written into `n` bytes: its UTF-8 bytes, cut at `n` and padded with zeros.
pub open spec fn fixed_field(s: Seq<char>, n: nat) -> Seq<u8> {
    Seq::new(n, |i: int| if i < encode_utf8(s).len() { encode_utf8(s)[i] } else { 0u8 })
}

/// A text with its trailing NUL characters removed.
pub open spec fn trim_trailing_nul(s: Seq<char>) -> Seq<char>
    decreases s.len(),
{
    if s.len() > 0 && s.last() == '\0' {
        trim_trailing_nul(s.drop_last())
    } else {
        s
    }
}

/// A text with its leading NUL characters removed.
pub open spec fn trim_leading_nul(s: Seq<char>) -> Seq<char>
    decreases s.len(),
{
    if s.len() > 0 && s[0] == '\0' {
        trim_leading_nul(s.drop_first())
    } else {
        s
    }
}

/// A text with the NUL characters at both of its ends removed.
pub open spec fn trim_nul(s: Seq<char>) -> Seq<char> {
    trim_leading_nul(trim_trailing_nul(s))
}

/// The text of a fixed-width field: its bytes read as UTF-8 and NUL-trimmed.
pub open spec fn field_text(field: Seq<u8>) -> Seq<char> {
    trim_nul(decode_utf8(field))
}

/// A text that a field of `n` bytes carries unchanged: no NUL and at most `n` bytes.
pub open spec fn fits_field(s: Seq<char>, n: nat) -> bool {
    &&& encode_utf8(s).len() <= n
    &&& forall|i: int| 0 <= i < s.len() ==> s[i] != '\0'
}

pub fn put_u8(buf: &mut Vec<u8>, v: u8)
    ensures
        final(buf)@ == old(buf)@.push(v),
{
    buf.push(v);
}

pub fn put_u16(buf: &mut Vec<u8>, v: u16)
    ensures
        final(buf)@ == old(buf)@ + le16(v),
{
    buf.push((v % 256) as u8);
    buf.push((v / 256) as u8);
    assert(buf@ =~= old(buf)@ + le16(v));
}

pub fn put_u32(buf: &mut Vec<u8>, v: u32)
    ensures
        final(buf)@ == old(buf)@ + le32(v),
{
    buf.push((v % 256) as u8);
    buf.push(((v / 256) % 256) as u8);
    buf.push(((v / 65536) % 256) as u8);
    buf.push((v / 16777216) as u8);
    assert(buf@ =~= old(buf)@ + le32(v));
}

pub fn put_bytes(buf: &mut Vec<u8>, data: &[u8])
    ensures
        final(buf)@ == old(buf)@ + data@,
{
    let mut i: usize = 0;
    while i < data.len()
        invariant
            0 <= i <= data@.len(),
            buf@ == old(buf)@ + data@.subrange(0, i as int),
        decreases data@.len() - i,
    {
        buf.push(data[i]);
        i = i + 1;
        assert(buf@ =~= old(buf)@ + data@.subrange(0, i as int));
    }
    assert(data@.subrange(0, data@.len() as int) =~= data@);
}

/// Writes a text into exactly `n` bytes, cut or padded with zeros.
pub fn put_fixed(buf: &mut Vec<u8>, s: &str, n: usize)
    ensures
        final(buf)@ == old(buf)@ + fixed_field(s@, n as nat),
{
    let b = s.as_bytes();
    let mut i: usize = 0;
    while i < n
        invariant
            0 <= i <= n,
            b@ == encode_utf8(s@),
            buf@ == old(buf)@ + fixed_field(s@, n as nat).subrange(0, i as int),
        decreases n - i,
    {
        if i < b.len() {
            buf.push(b[i]);
        } else {
            buf.push(0u8);
        }
        i = i + 1;
        assert(buf@ =~= old(buf)@ + fixed_field(s@, n as nat).subrange(0, i as int));
    }
    assert(fixed_field(s@, n as nat).subrange(0, n as int) =~= fixed_field(s@, n as nat));
}

pub fn get_u16(b: &[u8], off: usize) -> (r: u16)
    requires
        off + 2 <= b@.len(),
    ensures
        r == u16_at(b@, off as int),
{
    (b[off] as u16) + 256 * (b[off + 1] as u16)
}

pub fn get_u32(b: &[u8], off: usize) -> (r: u32)
    requires
        off + 4 <= b@.len(),
    ensures
        r == u32_at(b@, off as int),
{
    (b[off] as u32) + 256 * (b[off + 1] as u32) + 65536 * (b[off + 2] as u32) + 16777216 * (
    b[off + 3] as u32)
}

/// Relies on std's `str::from_utf8`: it accepts exactly the valid UTF-8
/// sequences and reads their characters.
#[verifier::external_body]
fn utf8_text(b: &[u8]) -> (r: Option<&str>)
    ensures
        r is Some <==> valid_utf8(b@),
        r matches Some(t) ==> t@ == decode_utf8(b@),
{
    std::str::from_utf8(b).ok()
}

/// Removes the NUL characters at both ends of a text.
pub fn trim_nul_str(s: &str) -> (r: String)
    ensures
        r@ == trim_nul(s@),
{
    let len = s.unicode_len();
    let mut end: usize = len;
    assert(s@.subrange(0, len as int) =~= s@);
    while end > 0 && s.get_char(end - 1) == '\0'
        invariant
            0 <= end <= len,
            len == s@.len(),
            trim_trailing_nul(s@) == trim_trailing_nul(s@.subrange(0, end as int)),
        decreases end,
    {
        assert(s@.subrange(0, end as int).drop_last() =~= s@.subrange(0, end - 1));
        end = end - 1;
    }
    assert(trim_trailing_nul(s@.subrange(0, end as int)) == s@.subrange(0, end as int));
    let t = s.substring_char(0, end);
    let mut start: usize = 0;
    assert(t@.subrange(0, end as int) =~= t@);
    while start < end && t.get_char(start) == '\0'
        invariant
            0 <= start <= end,
            t@.len() == end,
            trim_leading_nul(t@) == trim_leading_nul(t@.subrange(start as int, end as int)),
        decreases end - start,
    {
        assert(t@.subrange(start as int, end as int).drop_first() =~= t@.subrange(
            start + 1,
            end as int,
        ));
        start = start + 1;
    }
    let u = t.substring_char(start, end);
    u.to_owned()
}

/// Reads the fixed-width text field of `n` bytes at `off`; `None` when it is
/// not valid UTF-8.
pub fn get_fixed(b: &[u8], off: usize, n: usize) -> (r: Option<String>)
    requires
        off + n <= b@.len(),
    ensures
        r is Some <==> valid_utf8(b@.subrange(off as int, off + n)),
        r matches Some(s) ==> s@ == field_text(b@.subrange(off as int, off + n)),
{
    let mut field: Vec<u8> = Vec::new();
    let blen = b.len();
    let mut i: usize = 0;
    while i < n
        invariant
            0 <= i <= n,
            off + n <= b@.len(),
            blen == b@.len(),
            field@ == b@.subrange(off as int, off + i),
        decreases n - i,
    {
        field.push(b[off + i]);
        i = i + 1;
        assert(field@ =~= b@.subrange(off as int, off + i));
    }
    match utf8_text(field.as_slice()) {
        Some(t) => Some(trim_nul_str(t)),
        None => None,
    }
}

pub proof fn lemma_encode_utf8_concat(a: Seq<char>, b: Seq<char>)
    ensures
        encode_utf8(a + b) == encode_utf8(a) + encode_utf8(b),
    decreases a.len(),
{
    if a.len() == 0 {
        assert(a + b =~= b);
    } else {
        assert((a + b).drop_first() =~= a.drop_first() + b);
        lemma_encode_utf8_concat(a.drop_first(), b);
        assert((a + b)[0] == a[0]);
    }
}

/// `m` NUL characters.
pub open spec fn nuls(m: nat) -> Seq<char> {
    Seq::new(m, |i: int| '\0')
}

pub proof fn lemma_encode_nuls(m: nat)
    ensures
        encode_utf8(nuls(m)) == Seq::new(m, |i: int| 0u8),
    decreases m,
{
    if m == 0 {
        assert(encode_utf8(nuls(m)) =~= Seq::new(m, |i: int| 0u8));
    } else {
        assert(nuls(m).drop_first() =~= nuls((m - 1) as nat));
        lemma_encode_nuls((m - 1) as nat);
        assert(0u32 & 0x7Fu32 == 0u32) by (bit_vector);
        assert(encode_scalar('\0' as u32) =~= seq![0u8]);
        assert(encode_utf8(nuls(m)) =~= Seq::new(m, |i: int| 0u8));
    }
}

pub proof fn lemma_trim_nuls(s: Seq<char>, m: nat)
    requires
        forall|i: int| 0 <= i < s.len() ==> s[i] != '\0',
    ensures
        trim_nul(s + nuls(m)) == s,
    decreases m,
{
    if m == 0 {
        assert(s + nuls(m) =~= s);
        if s.len() > 0 {
            assert(s.last() == s[s.len() - 1]);
        }
    } else {
        assert((s + nuls(m)).drop_last() =~= s + nuls((m - 1) as nat));
        assert((s + nuls(m)).last() == '\0');
        lemma_trim_nuls(s, (m - 1) as nat);
    }
}

/// A text that fits its field is read back unchanged.
pub proof fn lemma_field_round_trip(s: Seq<char>, n: nat)
    requires
        fits_field(s, n),
    ensures
        valid_utf8(fixed_field(s, n)),
        field_text(fixed_field(s, n)) == s,
{
    let k = encode_utf8(s).len();
    let m = (n - k) as nat;
    lemma_encode_utf8_concat(s, nuls(m));
    lemma_encode_nuls(m);
    assert(fixed_field(s, n) =~= encode_utf8(s + nuls(m)));
    encode_utf8_valid_utf8(s + nuls(m));
    encode_utf8_decode_utf8(s + nuls(m));
    lemma_trim_nuls(s, m);
}

} // verus!
