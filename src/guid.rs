use crate::errors::EncodingError;
use vstd::prelude::*;
use vstd::string::StringSliceAdditionalSpecFns;

verus! {

/// A player's 128-bit identifier. The all-zero value stands for the server.
#[derive(Debug, Clone, Copy, Eq, Hash, Default)]
pub struct Guid {
    pub id: [u8; 16],
}

/// hex's decoding error, carried only as far as the library's own error.
#[verifier::external_type_specification]
#[verifier::external_body]
pub struct ExFromHexError(hex::FromHexError);

/// The byte code of the separator that text forms put between digit groups.
pub const DASH: u8 = 0x2d;

/// The value of one hexadecimal digit of either case, or -1.
pub open spec fn hex_value(b: u8) -> int {
    if 0x30 <= b <= 0x39 {
        b - 0x30
    } else if 0x61 <= b <= 0x66 {
        b - 0x61 + 10
    } else if 0x41 <= b <= 0x46 {
        b - 0x41 + 10
    } else {
        -1
    }
}

/// Thirty-two hexadecimal digits, nothing else.
pub open spec fn is_hex16(t: Seq<u8>) -> bool {
    &&& t.len() == 32
    &&& forall|i: int| 0 <= i < 32 ==> hex_value(#[trigger] t[i]) >= 0
}

/// Byte `i` of the value that thirty-two digits spell, high nibble first.
pub open spec fn hex_pair(t: Seq<u8>, i: int) -> u8 {
    (hex_value(t[2 * i]) * 16 + hex_value(t[2 * i + 1])) as u8
}

/// The bytes of a text with every separator left out.
pub open spec fn strip_dashes(b: Seq<u8>) -> Seq<u8>
    decreases b.len(),
{
    if b.len() == 0 {
        seq![]
    } else if b.last() == DASH {
        strip_dashes(b.drop_last())
    } else {
        strip_dashes(b.drop_last()).push(b.last())
    }
}

/// The lowercase digit for a value below sixteen.
pub open spec fn hex_char(n: u8) -> char {
    if n < 10 {
        (0x30 + n) as char
    } else {
        (0x61 + n - 10) as char
    }
}

/// Two lowercase digits for one byte.
pub open spec fn byte_text(b: u8) -> Seq<char> {
    seq![hex_char(b / 16), hex_char(b % 16)]
}

/// Whether a separator follows the byte at index `i` (groups of 4, 2, 2, 2 and 6 bytes).
pub open spec fn dash_after(i: int) -> bool {
    i == 3 || i == 5 || i == 7 || i == 9
}

/// The text of the first `n` bytes of an identifier.
pub open spec fn text_prefix(id: Seq<u8>, n: int) -> Seq<char>
    decreases n,
{
    if n <= 0 {
        seq![]
    } else {
        text_prefix(id, n - 1) + byte_text(id[n - 1]) + if dash_after(n - 1) {
            seq!['-']
        } else {
            seq![]
        }
    }
}

/// The grouped lowercase text of an identifier: `xxxxxxxx-xxxx-xxxx-xxxx-xxxxxxxxxxxx`.
pub open spec fn guid_text(id: Seq<u8>) -> Seq<char> {
    text_prefix(id, 16)
}

/// Relies on hex's `FromHex` for `[u8; 16]`: it accepts exactly thirty-two
/// digits of either case and reads them two per byte, high nibble first.
#[verifier::external_body]
fn decode_hex16(digits: &[u8]) -> (r: Result<[u8; 16], hex::FromHexError>)
    ensures
        r is Ok <==> is_hex16(digits@),
        r matches Ok(a) ==> forall|i: int| 0 <= i < 16 ==> a@[i] == hex_pair(digits@, i),
{
    <[u8; 16] as hex::FromHex>::from_hex(digits)
}

/// The lowercase digit for a value below sixteen.
fn hex_digit(n: u8) -> (r: &'static str)
    requires
        n < 16,
    ensures
        r@ == seq![hex_char(n)],
{
    proof {
        reveal_strlit("0");
        reveal_strlit("1");
        reveal_strlit("2");
        reveal_strlit("3");
        reveal_strlit("4");
        reveal_strlit("5");
        reveal_strlit("6");
        reveal_strlit("7");
        reveal_strlit("8");
        reveal_strlit("9");
        reveal_strlit("a");
        reveal_strlit("b");
        reveal_strlit("c");
        reveal_strlit("d");
        reveal_strlit("e");
        reveal_strlit("f");
    }
    match n {
        0 => "0",
        1 => "1",
        2 => "2",
        3 => "3",
        4 => "4",
        5 => "5",
        6 => "6",
        7 => "7",
        8 => "8",
        9 => "9",
        10 => "a",
        11 => "b",
        12 => "c",
        13 => "d",
        14 => "e",
        15 => "f",
        _ => "f",
    }
}

/// Two lowercase digits for one byte.
fn two_digits(b: u8) -> (r: String)
    ensures
        r@ == byte_text(b),
{
    let mut out = String::from_str(hex_digit(b / 16));
    out.append(hex_digit(b % 16));
    assert(out@ =~= byte_text(b));
    out
}

impl Guid {
    /// The identifier that marks packets of the server itself.
    pub fn server() -> (r: Guid)
        ensures
            r.id@ == seq![0u8; 16],
    {
        let r = Guid { id: [0u8; 16] };
        assert(r.id@ =~= seq![0u8; 16]);
        r
    }

    pub fn from_bytes(id: [u8; 16]) -> (r: Guid)
        ensures
            r.id == id,
    {
        Guid { id }
    }

    /// Whether this is the reserved all-zero identifier.
    pub fn is_server(&self) -> (r: bool)
        ensures
            r <==> self.id@ == seq![0u8; 16],
    {
        let mut i: usize = 0;
        while i < 16
            invariant
                0 <= i <= 16,
                forall|j: int| 0 <= j < i ==> self.id@[j] == 0,
            decreases 16 - i,
        {
            if self.id[i] != 0 {
                assert(self.id@[i as int] != seq![0u8; 16][i as int]);
                return false;
            }
            i = i + 1;
        }
        assert(self.id@ =~= seq![0u8; 16]);
        true
    }

    /// Reads an identifier from its text: separators are dropped anywhere, and
    /// what remains must be thirty-two hexadecimal digits.
    pub fn parse(s: &str) -> (r: Result<Guid, EncodingError>)
        ensures
            r is Ok <==> is_hex16(strip_dashes(s.spec_bytes())),
            r matches Ok(g) ==> forall|i: int|
                0 <= i < 16 ==> g.id@[i] == hex_pair(strip_dashes(s.spec_bytes()), i),
            r matches Err(e) ==> e == EncodingError::HexConversion,
    {
        let bytes = s.as_bytes();
        let mut digits: Vec<u8> = Vec::new();
        let mut i: usize = 0;
        while i < bytes.len()
            invariant
                0 <= i <= bytes@.len(),
                bytes@ == s.spec_bytes(),
                digits@ == strip_dashes(bytes@.subrange(0, i as int)),
            decreases bytes@.len() - i,
        {
            assert(bytes@.subrange(0, i + 1).drop_last() =~= bytes@.subrange(0, i as int));
            if bytes[i] != DASH {
                digits.push(bytes[i]);
            }
            i = i + 1;
        }
        assert(bytes@.subrange(0, bytes@.len() as int) =~= bytes@);
        match decode_hex16(digits.as_slice()) {
            Ok(id) => Ok(Guid { id }),
            Err(_) => Err(EncodingError::HexConversion),
        }
    }

    /// The grouped lowercase text of this identifier.
    pub fn to_text(&self) -> (r: String)
        ensures
            r@ == guid_text(self.id@),
    {
        let mut out = String::new();
        let mut i: usize = 0;
        while i < 16
            invariant
                0 <= i <= 16,
                out@ == text_prefix(self.id@, i as int),
            decreases 16 - i,
        {
            let d = two_digits(self.id[i]);
            out.append(d.as_str());
            if i == 3 || i == 5 || i == 7 || i == 9 {
                proof {
                    reveal_strlit("-");
                }
                out.append("-");
            }
            i = i + 1;
            assert(out@ =~= text_prefix(self.id@, i as int));
        }
        out
    }
}

impl PartialEq for Guid {
    fn eq(&self, other: &Guid) -> (r: bool) {
        let mut i: usize = 0;
        while i < 16
            invariant
                0 <= i <= 16,
                forall|j: int| 0 <= j < i ==> self.id@[j] == other.id@[j],
            decreases 16 - i,
        {
            if self.id[i] != other.id[i] {
                return false;
            }
            i = i + 1;
        }
        assert(self.id@ =~= other.id@);
        true
    }
}

impl vstd::std_specs::cmp::PartialEqSpecImpl for Guid {
    open spec fn obeys_eq_spec() -> bool {
        true
    }

    open spec fn eq_spec(&self, other: &Guid) -> bool {
        self.id@ == other.id@
    }
}

impl From<[u8; 16]> for Guid {
    fn from(id: [u8; 16]) -> (r: Guid) {
        Guid { id }
    }
}

impl vstd::std_specs::convert::FromSpecImpl<[u8; 16]> for Guid {
    open spec fn obeys_from_spec() -> bool {
        true
    }

    open spec fn from_spec(id: [u8; 16]) -> Guid {
        Guid { id }
    }
}

} // verus!
