//! Info hashes and their hexadecimal text form.

use vstd::prelude::*;

verus! {

/// The 20-byte SHA-1 digest that names a torrent, also used for access keys.
#[derive(Clone, Copy, Debug, PartialEq, Eq, Hash)]
pub struct InfoHash(pub [u8; 20]);

impl View for InfoHash {
    type V = Seq<u8>;

    open spec fn view(&self) -> Seq<u8> {
        self.0@
    }
}

/// The lower-case hexadecimal digit for a value below 16.
pub open spec fn lower_hex_char(v: int) -> char {
    if v == 0 { '0' } else if v == 1 { '1' } else if v == 2 { '2' } else if v == 3 { '3' }
    else if v == 4 { '4' } else if v == 5 { '5' } else if v == 6 { '6' } else if v == 7 { '7' }
    else if v == 8 { '8' } else if v == 9 { '9' } else if v == 10 { 'a' } else if v == 11 { 'b' }
    else if v == 12 { 'c' } else if v == 13 { 'd' } else if v == 14 { 'e' } else { 'f' }
}

/// Lower-case hexadecimal text of a byte string: two digits per byte, high nibble first.
pub open spec fn hex_text(bytes: Seq<u8>) -> Seq<char> {
    Seq::new(
        2 * bytes.len(),
        |i: int|
            if i % 2 == 0 {
                lower_hex_char(bytes[i / 2] as int / 16)
            } else {
                lower_hex_char(bytes[i / 2] as int % 16)
            },
    )
}

/// The value of a hexadecimal digit of either case, or `None` for any other character.
pub open spec fn hex_digit_value(c: char) -> Option<int> {
    let n = c as int;
    if 48 <= n <= 57 {
        Some(n - 48)
    } else if 97 <= n <= 102 {
        Some(n - 97 + 10)
    } else if 65 <= n <= 70 {
        Some(n - 65 + 10)
    } else {
        None
    }
}

/// Whether a text is hexadecimal: an even number of characters, each a hex digit.
pub open spec fn is_hex(text: Seq<char>) -> bool {
    &&& text.len() % 2 == 0
    &&& forall|i: int| 0 <= i < text.len() ==> (#[trigger] hex_digit_value(text[i])) is Some
}

/// The bytes that a hexadecimal text stands for, two digits per byte, high nibble first.
pub open spec fn hex_bytes(text: Seq<char>) -> Seq<u8> {
    Seq::new(
        text.len() / 2,
        |i: int|
            (hex_digit_value(text[2 * i]).unwrap() * 16 + hex_digit_value(text[2 * i + 1]).unwrap()) as u8,
    )
}

/// The error of `hex::decode`.
#[verifier::external_type_specification]
#[verifier::external_body]
pub struct ExFromHexError(hex::FromHexError);

/// Calls `hex::decode` on the bytes of `text`. That function fails on an odd
/// length or on a byte that is no hexadecimal digit of either case, and
/// otherwise returns one byte per pair of digits, high nibble first. A text
/// with a character outside ASCII has such a byte, and none of its characters
/// is a digit by `hex_digit_value`, so the statement over characters holds.
#[verifier::external_body]
fn hex_decode(text: &str) -> (r: Result<Vec<u8>, hex::FromHexError>)
    ensures
        r is Ok <==> is_hex(text@),
        r matches Ok(bytes) ==> bytes@ == hex_bytes(text@),
{
    hex::decode(text)
}


/// The one-character text of the lower-case hexadecimal digit for `v`.
pub(crate) fn hex_digit_str(v: u8) -> (s: &'static str)
    requires
        v < 16,
    ensures
        s@ =~= seq![lower_hex_char(v as int)],
{
    if v == 0 {
        proof { reveal_strlit("0"); }
        "0"
    } else if v == 1 {
        proof { reveal_strlit("1"); }
        "1"
    } else if v == 2 {
        proof { reveal_strlit("2"); }
        "2"
    } else if v == 3 {
        proof { reveal_strlit("3"); }
        "3"
    } else if v == 4 {
        proof { reveal_strlit("4"); }
        "4"
    } else if v == 5 {
        proof { reveal_strlit("5"); }
        "5"
    } else if v == 6 {
        proof { reveal_strlit("6"); }
        "6"
    } else if v == 7 {
        proof { reveal_strlit("7"); }
        "7"
    } else if v == 8 {
        proof { reveal_strlit("8"); }
        "8"
    } else if v == 9 {
        proof { reveal_strlit("9"); }
        "9"
    } else if v == 10 {
        proof { reveal_strlit("a"); }
        "a"
    } else if v == 11 {
        proof { reveal_strlit("b"); }
        "b"
    } else if v == 12 {
        proof { reveal_strlit("c"); }
        "c"
    } else if v == 13 {
        proof { reveal_strlit("d"); }
        "d"
    } else if v == 14 {
        proof { reveal_strlit("e"); }
        "e"
    } else {
        proof { reveal_strlit("f"); }
        "f"
    }
}

impl InfoHash {
    /// The lower-case hexadecimal text of the hash: 40 digits, two per byte,
    /// high nibble first. This is the text that goes into SQL statements.
    pub fn to_string(&self) -> (s: String)
        ensures
            s@ == hex_text(self@),
    {
        let mut s = String::new();
        let mut i: usize = 0;
        while i < 20
            invariant
                i <= 20,
                self@.len() == 20,
                s@ =~= hex_text(self@.take(i as int)),
            decreases 20 - i,
        {
            let b: u8 = self.0[i];
            s.append(hex_digit_str(b / 16));
            s.append(hex_digit_str(b % 16));
            assert(hex_text(self@.take(i + 1)) =~= hex_text(self@.take(i as int)) + seq![
                lower_hex_char(b as int / 16),
                lower_hex_char(b as int % 16),
            ]);
            i = i + 1;
        }
        assert(self@.take(20) =~= self@);
        s
    }
}


/// The 20-byte hash that a column value holds as the loading code reads it:
/// the value must have at least 20 bytes, and the first 20 are kept.
pub open spec fn hash_from_bytes(bytes: Seq<u8>) -> Option<Seq<u8>> {
    if bytes.len() >= 20 {
        Some(bytes.take(20))
    } else {
        None
    }
}

/// The 20-byte hash that a hexadecimal column text holds as the loading code
/// reads it: the text must be hexadecimal and stand for at least 20 bytes.
pub open spec fn hash_from_text(text: Seq<char>) -> Option<Seq<u8>> {
    if is_hex(text) {
        hash_from_bytes(hex_bytes(text))
    } else {
        None
    }
}

impl InfoHash {
    /// The hash held by the first 20 bytes of `bytes`, or `None` when it has fewer.
    pub fn from_bytes(bytes: &[u8]) -> (r: Option<InfoHash>)
        ensures
            r is Some <==> hash_from_bytes(bytes@) is Some,
            r matches Some(h) ==> hash_from_bytes(bytes@) == Some(h@),
    {
        if bytes.len() < 20 {
            return None;
        }
        let mut a = [0u8; 20];
        let mut i: usize = 0;
        while i < 20
            invariant
                i <= 20,
                bytes@.len() >= 20,
                a@.len() == 20,
                forall|j: int| 0 <= j < i ==> a@[j] == bytes@[j],
            decreases 20 - i,
        {
            a[i] = bytes[i];
            i = i + 1;
        }
        let h = InfoHash(a);
        assert(h@ =~= bytes@.take(20));
        Some(h)
    }

    /// The hash held by a hexadecimal text, decoded with `hex::decode`, or
    /// `None` when the text is not hexadecimal or stands for fewer than 20 bytes.
    pub fn from_hex(text: &str) -> (r: Option<InfoHash>)
        ensures
            r is Some <==> hash_from_text(text@) is Some,
            r matches Some(h) ==> hash_from_text(text@) == Some(h@),
    {
        match hex_decode(text) {
            Ok(bytes) => InfoHash::from_bytes(bytes.as_slice()),
            Err(_) => None,
        }
    }
}

/// A digit written by `lower_hex_char` reads back as the value it was written for.
pub(crate) proof fn lemma_hex_digit_round_trip(v: int)
    requires
        0 <= v < 16,
    ensures
        hex_digit_value(lower_hex_char(v)) == Some(v),
{
}

/// Hexadecimal text of any byte string is hexadecimal, and decoding it gives
/// back the same bytes.
pub proof fn lemma_hex_round_trip(bytes: Seq<u8>)
    ensures
        is_hex(hex_text(bytes)),
        hex_bytes(hex_text(bytes)) == bytes,
{
    let t = hex_text(bytes);
    assert forall|i: int| 0 <= i < t.len() implies (#[trigger] hex_digit_value(t[i])) is Some by {
        lemma_hex_digit_round_trip(bytes[i / 2] as int / 16);
        lemma_hex_digit_round_trip(bytes[i / 2] as int % 16);
    }
    assert forall|i: int| 0 <= i < bytes.len() implies #[trigger] hex_bytes(t)[i] == bytes[i] by {
        lemma_hex_digit_round_trip(bytes[i] as int / 16);
        lemma_hex_digit_round_trip(bytes[i] as int % 16);
        assert((2 * i) / 2 == i);
        assert((2 * i + 1) / 2 == i);
    }
    assert(hex_bytes(t) =~= bytes);
}

/// What is written for a hash in a text column reads back as the same hash:
/// the hexadecimal text of `h` decodes to `h`.
pub proof fn lemma_info_hash_text_round_trip(h: InfoHash)
    ensures
        hash_from_text(hex_text(h@)) == Some(h@),
{
    lemma_hex_round_trip(h@);
    assert(h@.take(20) =~= h@);
}

/// The 20 bytes of a hash, stored as they are, read back as the same hash.
pub proof fn lemma_info_hash_bytes_round_trip(h: InfoHash)
    ensures
        hash_from_bytes(h@) == Some(h@),
{
    assert(h@.take(20) =~= h@);
}


/// Different hashes are written as different texts.
pub proof fn lemma_hex_text_injective(a: InfoHash, b: InfoHash)
    requires
        hex_text(a@) == hex_text(b@),
    ensures
        a@ == b@,
{
    lemma_hex_round_trip(a@);
    lemma_hex_round_trip(b@);
}


/// The text of a hash is two lower-case digits per byte: only `0`-`9` and
/// `a`-`f`, so it sits safely between quotes in a statement.
pub proof fn lemma_hex_text_lower_case(bytes: Seq<u8>)
    ensures
        hex_text(bytes).len() == 2 * bytes.len(),
        forall|i: int|
            0 <= i < hex_text(bytes).len() ==> {
                let c = #[trigger] hex_text(bytes)[i] as int;
                (48 <= c <= 57) || (97 <= c <= 102)
            },
{
}

/// The hash held by a byte string is its first 20 bytes, and there is one
/// exactly when it has at least 20.
pub proof fn lemma_hash_from_bytes_is_prefix(bytes: Seq<u8>)
    ensures
        hash_from_bytes(bytes) is Some <==> bytes.len() >= 20,
        hash_from_bytes(bytes) matches Some(h) ==> h.len() == 20 && forall|i: int|
            0 <= i < 20 ==> #[trigger] h[i] == bytes[i],
{
}

} // verus!
