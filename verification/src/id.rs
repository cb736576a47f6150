//! Node identifiers.
//!
//! A node id is an opaque byte string, normally the 16 bytes read from
//! `/etc/machine-id`. Well-formed ids are stored inline, any other length is
//! kept on the heap.

use vstd::prelude::*;
use vstd::string::StringSliceAdditionalSpecFns;
use vstd::utf8::{encode_utf8, is_ascii_chars, is_ascii_chars_encode_utf8};

verus! {

/// Storage of an id: sixteen bytes inline, or any other length on the heap.
#[derive(Clone, PartialEq, Eq, Hash)]
pub enum InternalId {
    Good([u8; 16]),
    Bad(Vec<u8>),
}

/// Identifier of a node in the cluster.
#[derive(Clone, PartialEq, Eq, Hash)]
pub struct Id(InternalId);

/// Lowercase hexadecimal digit for a value below sixteen.
pub open spec fn hex_digit(v: int) -> char {
    if v < 10 { (('0' as int) + v) as char } else { (('a' as int) + v - 10) as char }
}

/// Lowercase hexadecimal rendering of a byte string: two digits per byte,
/// high nibble first.
pub open spec fn hex_lower(bytes: Seq<u8>) -> Seq<char>
    decreases bytes.len(),
{
    if bytes.len() == 0 {
        Seq::empty()
    } else {
        seq![hex_digit(bytes[0] as int / 16), hex_digit(bytes[0] as int % 16)] + hex_lower(bytes.drop_first())
    }
}

/// Why a string is not a hexadecimal byte string.
#[derive(Clone, Copy, Debug, PartialEq, Eq)]
pub enum HexError {
    /// A character other than `0-9`, `a-f`, `A-F` at the given byte index.
    InvalidHexCharacter { c: char, index: usize },
    /// The string has an odd number of bytes.
    OddLength,
    /// The decoded length does not fit a fixed-size container.
    InvalidStringLength,
}

pub open spec fn is_hex_byte(b: u8) -> bool {
    (48 <= b <= 57) || (65 <= b <= 70) || (97 <= b <= 102)
}

/// Value of a hexadecimal digit, either case.
pub open spec fn hex_byte_value(b: u8) -> int {
    if 48 <= b <= 57 {
        b - 48
    } else if 65 <= b <= 70 {
        b - 65 + 10
    } else {
        b - 97 + 10
    }
}

/// Bytes denoted by consecutive pairs of hexadecimal digits.
pub open spec fn hex_pairs(digits: Seq<u8>) -> Seq<u8>
    decreases digits.len(),
{
    if digits.len() < 2 {
        Seq::empty()
    } else {
        seq![(hex_byte_value(digits[0]) * 16 + hex_byte_value(digits[1])) as u8]
            + hex_pairs(digits.subrange(2, digits.len() as int))
    }
}

/// Index of the first byte that is not a hexadecimal digit.
pub open spec fn first_non_hex(digits: Seq<u8>) -> int {
    choose|i: int|
        0 <= i < digits.len() && !is_hex_byte(digits[i]) && forall|j: int|
            0 <= j < i ==> is_hex_byte(#[trigger] digits[j])
}

/// Decoding of a hexadecimal string given by its bytes: odd lengths are
/// refused first, then the first byte that is not a digit.
pub open spec fn hex_decode_spec(digits: Seq<u8>) -> Result<Seq<u8>, HexError> {
    if digits.len() % 2 != 0 {
        Err(HexError::OddLength)
    } else if exists|i: int| 0 <= i < digits.len() && !is_hex_byte(#[trigger] digits[i]) {
        let i = first_non_hex(digits);
        Err(HexError::InvalidHexCharacter { c: digits[i] as char, index: i as usize })
    } else {
        Ok(hex_pairs(digits))
    }
}

impl InternalId {
    pub open spec fn bytes(self) -> Seq<u8> {
        match self {
            InternalId::Good(ar) => ar@,
            InternalId::Bad(v) => v@,
        }
    }

    /// Sixteen-byte ids are always stored inline.
    pub open spec fn well_formed(self) -> bool {
        match self {
            InternalId::Good(_) => true,
            InternalId::Bad(v) => v@.len() != 16,
        }
    }
}

impl View for Id {
    type V = Seq<u8>;

    closed spec fn view(&self) -> Seq<u8> {
        self.0.bytes()
    }
}

impl Id {
    /// The id is stored inline (exactly when it has sixteen bytes).
    pub closed spec fn is_inline(&self) -> bool {
        self.0 is Good
    }

    /// Sixteen-byte ids are always stored inline.
    pub closed spec fn well_formed(&self) -> bool {
        self.0.well_formed()
    }
}

/// Writes `data` as lowercase hexadecimal digits.
///
/// Calls `hex::encode`, which writes each byte as two digits from
/// `0123456789abcdef`, high nibble first; the contract states exactly that.
#[verifier::external_body]
fn hex_encode(data: &[u8]) -> (s: String)
    ensures
        s@ == hex_lower(data@),
{
    hex::encode(data)
}

/// Decodes a hexadecimal string into bytes.
///
/// Calls `<Vec<u8> as hex::FromHex>::from_hex` on the string's bytes, which
/// refuses an odd length before looking at any digit, then decodes pairs in
/// order and stops at the first byte that is not a digit of either case,
/// reporting it and its index. The outside error is handed back as the
/// library's own `HexError`, variant for variant.
#[verifier::external_body]
fn hex_decode(s: &str) -> (r: Result<Vec<u8>, HexError>)
    ensures
        match r {
            Ok(v) => hex_decode_spec(s.spec_bytes()) == Ok::<Seq<u8>, HexError>(v@),
            Err(e) => hex_decode_spec(s.spec_bytes()) == Err::<Seq<u8>, HexError>(e),
        },
{
    match <Vec<u8> as hex::FromHex>::from_hex(s.as_bytes()) {
        Ok(v) => Ok(v),
        Err(hex::FromHexError::InvalidHexCharacter { c, index }) => {
            Err(HexError::InvalidHexCharacter { c, index })
        },
        Err(hex::FromHexError::OddLength) => Err(HexError::OddLength),
        Err(hex::FromHexError::InvalidStringLength) => Err(HexError::InvalidStringLength),
    }
}

impl Id {
    /// Parses the hexadecimal form of an id (either case).
    pub fn from_str(s: &str) -> (r: Result<Id, HexError>)
        ensures
            hex_decode_spec(s.spec_bytes()) is Ok <==> r is Ok,
            r matches Ok(id) ==> hex_decode_spec(s.spec_bytes()) == Ok::<Seq<u8>, HexError>(id@)
                && id.well_formed(),
            r matches Err(e) ==> hex_decode_spec(s.spec_bytes()) == Err::<Seq<u8>, HexError>(e),
    {
        match hex_decode(s) {
            Ok(v) => Ok(Id::new(v.as_slice())),
            Err(e) => Err(e),
        }
    }

    /// Builds an id from its bytes; sixteen bytes are stored inline.
    pub fn new(id: &[u8]) -> (res: Id)
        ensures
            res@ == id@,
            res.well_formed(),
            res.is_inline() <==> id@.len() == 16,
    {
        if id.len() == 16 {
            let mut x = [0u8; 16];
            let mut i: usize = 0;
            while i < 16
                invariant
                    0 <= i <= 16,
                    id@.len() == 16,
                    forall|j: int| 0 <= j < i ==> x@[j] == id@[j],
                decreases 16 - i,
            {
                x[i] = id[i];
                i = i + 1;
            }
            assert(x@ =~= id@);
            Id(InternalId::Good(x))
        } else {
            let mut v: Vec<u8> = Vec::new();
            let mut i: usize = 0;
            while i < id.len()
                invariant
                    0 <= i <= id@.len(),
                    v@ =~= id@.subrange(0, i as int),
                decreases id@.len() - i,
            {
                v.push(id[i]);
                i = i + 1;
            }
            assert(v@ =~= id@);
            Id(InternalId::Bad(v))
        }
    }

    /// The raw bytes of the id.
    pub fn as_bytes(&self) -> (res: &[u8])
        ensures
            res@ == self@,
    {
        match &self.0 {
            InternalId::Good(ar) => ar.as_slice(),
            InternalId::Bad(v) => v.as_slice(),
        }
    }

    /// A copy of the id with the same bytes.
    pub fn duplicate(&self) -> (res: Id)
        ensures
            res@ == self@,
    {
        Id::new(self.as_bytes())
    }

    /// Two ids are the same node exactly when their bytes are equal.
    pub fn same_as(&self, other: &Id) -> (res: bool)
        ensures
            res == (self@ == other@),
    {
        let a = self.as_bytes();
        let b = other.as_bytes();
        if a.len() != b.len() {
            return false;
        }
        let mut i: usize = 0;
        while i < a.len()
            invariant
                a@ == self@,
                b@ == other@,
                a@.len() == b@.len(),
                0 <= i <= a@.len(),
                forall|j: int| 0 <= j < i ==> a@[j] == b@[j],
            decreases a@.len() - i,
        {
            if a[i] != b[i] {
                assert(a@[i as int] != b@[i as int]);
                return false;
            }
            i = i + 1;
        }
        assert(a@ =~= b@);
        true
    }

    /// Lowercase hexadecimal form of the id.
    pub fn to_hex(&self) -> (res: String)
        ensures
            res@ == hex_lower(self@),
    {
        hex_encode(self.as_bytes())
    }

    /// The displayed form of an id is its lowercase hexadecimal form.
    pub fn to_string(&self) -> (res: String)
        ensures
            res@ == hex_lower(self@),
    {
        self.to_hex()
    }
}

/// The byte of the hexadecimal digit for a value below sixteen.
pub open spec fn hex_digit_byte(v: int) -> u8 {
    if v < 10 { (48 + v) as u8 } else { (97 + v - 10) as u8 }
}

pub proof fn lemma_hex_lower(bytes: Seq<u8>)
    ensures
        hex_lower(bytes).len() == 2 * bytes.len(),
        forall|i: int| 0 <= i < bytes.len() ==> #[trigger] hex_lower(bytes)[2 * i] == hex_digit(bytes[i] as int / 16)
            && hex_lower(bytes)[2 * i + 1] == hex_digit(bytes[i] as int % 16),
    decreases bytes.len(),
{
    if bytes.len() > 0 {
        let rest = bytes.drop_first();
        lemma_hex_lower(rest);
        let h = hex_lower(bytes);
        assert forall|i: int| 0 <= i < bytes.len() implies #[trigger] h[2 * i] == hex_digit(bytes[i] as int / 16)
            && h[2 * i + 1] == hex_digit(bytes[i] as int % 16) by {
            if i > 0 {
                assert(bytes[i] == rest[i - 1]);
                assert(h[2 * i] == hex_lower(rest)[2 * (i - 1)]);
                assert(h[2 * i + 1] == hex_lower(rest)[2 * (i - 1) + 1]);
            }
        }
    }
}

pub proof fn lemma_hex_digit_byte(v: int)
    requires
        0 <= v < 16,
    ensures
        '\0' <= hex_digit(v) <= '\u{7f}',
        hex_digit(v) as u8 == hex_digit_byte(v),
        is_hex_byte(hex_digit_byte(v)),
        hex_byte_value(hex_digit_byte(v)) == v,
{
}

pub proof fn lemma_hex_pairs(d: Seq<u8>, bytes: Seq<u8>)
    requires
        d.len() == 2 * bytes.len(),
        forall|i: int| 0 <= i < bytes.len() ==> d[2 * i] == #[trigger] hex_digit_byte(bytes[i] as int / 16)
            && d[2 * i + 1] == hex_digit_byte(bytes[i] as int % 16),
    ensures
        hex_pairs(d) == bytes,
    decreases bytes.len(),
{
    if bytes.len() > 0 {
        let rest = bytes.drop_first();
        let dr = d.subrange(2, d.len() as int);
        assert forall|i: int| 0 <= i < rest.len() implies dr[2 * i] == #[trigger] hex_digit_byte(rest[i] as int / 16)
            && dr[2 * i + 1] == hex_digit_byte(rest[i] as int % 16) by {
            assert(rest[i] == bytes[i + 1]);
            assert(dr[2 * i] == d[2 * (i + 1)]);
            assert(dr[2 * i + 1] == d[2 * (i + 1) + 1]);
            assert(hex_digit_byte(bytes[i + 1] as int / 16) == d[2 * (i + 1)]);
        }
        lemma_hex_pairs(dr, rest);
        assert(d[0] == hex_digit_byte(bytes[0] as int / 16));
        lemma_hex_digit_byte(bytes[0] as int / 16);
        lemma_hex_digit_byte(bytes[0] as int % 16);
        assert(hex_byte_value(d[0]) * 16 + hex_byte_value(d[1]) == bytes[0]);
        assert(hex_pairs(d) =~= bytes);
    }
}

pub proof fn lemma_hex_lower_ascii(bytes: Seq<u8>)
    ensures
        is_ascii_chars(hex_lower(bytes)),
{
    let h = hex_lower(bytes);
    lemma_hex_lower(bytes);
    assert forall|i: int| 0 <= i < h.len() implies '\0' <= #[trigger] h[i] <= '\u{7f}' by {
        let k = i / 2;
        if i % 2 == 0 {
            assert(i == 2 * k);
            assert(h[2 * k] == hex_digit(bytes[k] as int / 16));
            lemma_hex_digit_byte(bytes[k] as int / 16);
        } else {
            assert(i == 2 * k + 1);
            assert(h[2 * k] == hex_digit(bytes[k] as int / 16));
            lemma_hex_digit_byte(bytes[k] as int % 16);
        }
    }
}

pub proof fn lemma_hex_encoded(bytes: Seq<u8>)
    ensures
        encode_utf8(hex_lower(bytes)).len() == 2 * bytes.len(),
        forall|i: int| 0 <= i < bytes.len() ==> encode_utf8(hex_lower(bytes))[2 * i] == #[trigger] hex_digit_byte(bytes[i] as int / 16)
            && encode_utf8(hex_lower(bytes))[2 * i + 1] == hex_digit_byte(bytes[i] as int % 16),
{
    let h = hex_lower(bytes);
    lemma_hex_lower(bytes);
    lemma_hex_lower_ascii(bytes);
    is_ascii_chars_encode_utf8(h);
    let d = encode_utf8(h);
    assert forall|i: int| 0 <= i < bytes.len() implies d[2 * i] == #[trigger] hex_digit_byte(bytes[i] as int / 16)
        && d[2 * i + 1] == hex_digit_byte(bytes[i] as int % 16) by {
        lemma_hex_digit_byte(bytes[i] as int / 16);
        lemma_hex_digit_byte(bytes[i] as int % 16);
        assert(h[2 * i] == hex_digit(bytes[i] as int / 16));
        assert(d[2 * i] == h[2 * i] as u8);
        assert(d[2 * i + 1] == h[2 * i + 1] as u8);
    }
}

/// Law: the hexadecimal form of an id reads back as the same id. Decoding
/// the text `to_hex` gives (taken as its UTF-8 bytes, as `from_str` does)
/// yields the bytes it was made from.
pub proof fn hex_round_trip(bytes: Seq<u8>)
    ensures
        hex_decode_spec(encode_utf8(hex_lower(bytes))) == Ok::<Seq<u8>, HexError>(bytes),
{
    lemma_hex_encoded(bytes);
    let d = encode_utf8(hex_lower(bytes));
    assert forall|i: int| 0 <= i < d.len() implies is_hex_byte(#[trigger] d[i]) by {
        let k = i / 2;
        assert(d[2 * k] == hex_digit_byte(bytes[k] as int / 16));
        lemma_hex_digit_byte(bytes[k] as int / 16);
        lemma_hex_digit_byte(bytes[k] as int % 16);
        if i % 2 == 0 {
            assert(i == 2 * k);
        } else {
            assert(i == 2 * k + 1);
        }
    }
    assert(d.len() % 2 == 0);
    lemma_hex_pairs(d, bytes);
}

} // verus!
