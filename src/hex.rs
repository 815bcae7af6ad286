//! Hexadecimal text for the byte strings that a terminal user types and
//! reads.
use vstd::prelude::*;

verus! {

/// Hexadecimal digits, either case.
pub open spec fn is_hex(ch: char) -> bool {
    ('0' <= ch && ch <= '9') || ('A' <= ch && ch <= 'F') || ('a' <= ch && ch <= 'f')
}

/// The value of a hexadecimal digit.
pub open spec fn hex_val(ch: char) -> u8 {
    if '0' <= ch && ch <= '9' {
        (ch as u32 - '0' as u32) as u8
    } else if 'A' <= ch && ch <= 'F' {
        (ch as u32 - 'A' as u32 + 10) as u8
    } else {
        (ch as u32 - 'a' as u32 + 10) as u8
    }
}

/// The ASCII code of the lower-case digit of a value below 16.
pub open spec fn hex_digit(nibble: u8) -> u8 {
    if nibble < 10 {
        (0x30 + nibble) as u8
    } else {
        (0x61 + nibble - 10) as u8
    }
}

/// The two digits of a byte, high nibble first.
pub open spec fn hex_pair(byte: u8) -> Seq<u8> {
    seq![hex_digit(byte / 16), hex_digit(byte % 16)]
}

/// The lower-case text of a byte string, two digits per byte.
pub open spec fn hex_text(data: Seq<u8>) -> Seq<char>
    decreases data.len(),
{
    if data.len() == 0 {
        Seq::empty()
    } else {
        seq![hex_digit(data[0] / 16) as char, hex_digit(data[0] % 16) as char] + hex_text(data.drop_first())
    }
}

/// Relies on `String::from_utf8`: ASCII bytes are valid UTF-8, and each
/// becomes the character of that code.
#[verifier::external_body]
fn ascii_string(bytes: Vec<u8>) -> (r: String)
    requires
        forall|i: int| 0 <= i < bytes@.len() ==> bytes@[i] < 128,
    ensures
        r@ == Seq::new(bytes@.len(), |i: int| bytes@[i] as char),
{
    match String::from_utf8(bytes) {
        Ok(s) => s,
        Err(_) => String::new(),
    }
}

/// True for a hexadecimal digit of either case.
pub fn is_hex_char(ch: char) -> (r: bool)
    ensures
        r == is_hex(ch),
{
    ('0' <= ch && ch <= '9') || ('A' <= ch && ch <= 'F') || ('a' <= ch && ch <= 'f')
}

/// The value of a hexadecimal digit.
pub fn hex_char_to_val(ch: char) -> (r: u8)
    requires
        is_hex(ch),
    ensures
        r == hex_val(ch),
        r < 16,
{
    if '0' <= ch && ch <= '9' {
        (ch as u32 - '0' as u32) as u8
    } else if 'A' <= ch && ch <= 'F' {
        (ch as u32 - 'A' as u32 + 10) as u8
    } else {
        (ch as u32 - 'a' as u32 + 10) as u8
    }
}

/// The bytes that a string of hexadecimal digits spells, two digits per
/// byte, high nibble first; `None` when the number of digits is odd.
pub fn hex_str_to_bytes(hex_str: &[char]) -> (r: Option<Vec<u8>>)
    requires
        forall|i: int| 0 <= i < hex_str@.len() ==> is_hex(#[trigger] hex_str@[i]),
    ensures
        hex_str@.len() % 2 == 1 ==> r is None,
        hex_str@.len() % 2 == 0 ==> r is Some && r->Some_0@.len() == hex_str@.len() / 2 && forall|
            i: int,
        |
            0 <= i < hex_str@.len() / 2 ==> #[trigger] r->Some_0@[i] == hex_val(hex_str@[2 * i]) * 16
                + hex_val(hex_str@[2 * i + 1]),
{
    if hex_str.len() % 2 != 0 {
        return None;
    }
    let mut out: Vec<u8> = Vec::new();
    let mut i: usize = 0;
    while i < hex_str.len() / 2
        invariant
            hex_str@.len() % 2 == 0,
            forall|k: int| 0 <= k < hex_str@.len() ==> is_hex(#[trigger] hex_str@[k]),
            i <= hex_str@.len() / 2,
            out@.len() == i,
            forall|k: int|
                0 <= k < i ==> #[trigger] out@[k] == hex_val(hex_str@[2 * k]) * 16 + hex_val(
                    hex_str@[2 * k + 1],
                ),
        decreases hex_str@.len() / 2 - i,
    {
        let hi = hex_char_to_val(hex_str[2 * i]);
        let lo = hex_char_to_val(hex_str[2 * i + 1]);
        out.push(hi * 16 + lo);
        i = i + 1;
    }
    Some(out)
}

/// The ASCII code of the lower-case hexadecimal digit of a value below 16.
pub fn nibble_to_hex_char(nibble: u8) -> (r: u8)
    requires
        nibble < 16,
    ensures
        r == hex_digit(nibble),
{
    if nibble < 10 {
        0x30 + nibble
    } else {
        0x61 + (nibble - 10)
    }
}

/// The two lower-case digits of a byte, as ASCII codes.
pub fn byte_to_hex_str(byte: u8) -> (r: [u8; 2])
    ensures
        r@ == hex_pair(byte),
{
    let r = [nibble_to_hex_char(byte / 16), nibble_to_hex_char(byte % 16)];
    assert(r@ =~= hex_pair(byte));
    r
}

/// The lower-case hexadecimal text of a byte string.
pub fn bytes_to_hex_str(data: &[u8]) -> (r: String)
    ensures
        r@ == hex_text(data@),
{
    let mut codes: Vec<u8> = Vec::new();
    let mut i: usize = 0;
    while i < data.len()
        invariant
            i <= data@.len(),
            codes@.len() == 2 * i,
            forall|k: int| 0 <= k < codes@.len() ==> #[trigger] codes@[k] < 128,
            Seq::new(codes@.len(), |k: int| codes@[k] as char) == hex_text(data@.subrange(0, i as int)),
        decreases data@.len() - i,
    {
        let pair = byte_to_hex_str(data[i]);
        let ghost before = codes@;
        codes.push(pair[0]);
        codes.push(pair[1]);
        i = i + 1;
        proof {
            lemma_hex_text_push(data@.subrange(0, i - 1), data@[i - 1]);
            assert(data@.subrange(0, i as int) =~= data@.subrange(0, i - 1).push(data@[i - 1]));
            assert(Seq::new(codes@.len(), |k: int| codes@[k] as char) =~= Seq::new(
                before.len(),
                |k: int| before[k] as char,
            ) + seq![hex_digit(data@[i - 1] / 16) as char, hex_digit(data@[i - 1] % 16) as char]);
        }
    }
    assert(data@.subrange(0, i as int) =~= data@);
    ascii_string(codes)
}

proof fn lemma_hex_text_push(data: Seq<u8>, b: u8)
    ensures
        hex_text(data.push(b)) == hex_text(data) + seq![hex_digit(b / 16) as char, hex_digit(b % 16) as char],
    decreases data.len(),
{
    if data.len() == 0 {
        assert(data.push(b).drop_first() =~= Seq::<u8>::empty());
        assert(hex_text(Seq::<u8>::empty()) == Seq::<char>::empty());
        assert(hex_text(data) == Seq::<char>::empty());
        assert(hex_text(data.push(b)) =~= hex_text(data) + seq![hex_digit(b / 16) as char, hex_digit(b % 16) as char]);
    } else {
        lemma_hex_text_push(data.drop_first(), b);
        assert(data.push(b).drop_first() =~= data.drop_first().push(b));
        assert(hex_text(data.push(b)) =~= hex_text(data) + seq![hex_digit(b / 16) as char, hex_digit(b % 16) as char]);
    }
}

} // verus!
