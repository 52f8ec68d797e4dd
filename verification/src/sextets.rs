//! Base64: bytes as text, six bits to a character.

use vstd::prelude::*;
use vstd::utf8::encode_utf8;
use crate::error::Base64Error;

verus! {

/// The characters of the standard alphabet, each of which stands for six bits.
pub open spec fn is_symbol(c: char) -> bool {
    ||| 'A' <= c <= 'Z'
    ||| 'a' <= c <= 'z'
    ||| '0' <= c <= '9'
    ||| c == '+'
    ||| c == '/'
}

/// The six bits that a character of the alphabet stands for.
pub open spec fn sextet(c: char) -> int {
    if 'A' <= c <= 'Z' {
        c as int - 'A' as int
    } else if 'a' <= c <= 'z' {
        c as int - 'a' as int + 26
    } else if '0' <= c <= '9' {
        c as int - '0' as int + 52
    } else if c == '+' {
        62
    } else {
        63
    }
}

/// The character of the alphabet that stands for six bits.
pub open spec fn symbol(bits: int) -> char {
    if bits < 26 {
        (bits + 'A' as int) as u8 as char
    } else if bits < 52 {
        (bits - 26 + 'a' as int) as u8 as char
    } else if bits < 62 {
        (bits - 52 + '0' as int) as u8 as char
    } else if bits == 62 {
        '+'
    } else {
        '/'
    }
}

/// The text has only characters of the alphabet.
pub open spec fn is_symbols(text: Seq<char>) -> bool {
    forall|i: int| 0 <= i < text.len() ==> is_symbol(#[trigger] text[i])
}

/// The byte at `i`, or zero behind the last one.
pub open spec fn byte_or_zero(data: Seq<u8>, i: int) -> int {
    if i < data.len() {
        data[i] as int
    } else {
        0
    }
}

/// Six bits of the bytes, from the bit `6 * i` on; bits behind the last byte are zero.
pub open spec fn data_sextet(data: Seq<u8>, i: int) -> int {
    let first = i / 4 * 3;
    if i % 4 == 0 {
        byte_or_zero(data, first) / 4
    } else if i % 4 == 1 {
        byte_or_zero(data, first) % 4 * 16 + byte_or_zero(data, first + 1) / 16
    } else if i % 4 == 2 {
        byte_or_zero(data, first + 1) % 16 * 4 + byte_or_zero(data, first + 2) / 64
    } else {
        byte_or_zero(data, first + 2) % 64
    }
}

/// The base64 form of bytes: a character for every six bits that hold any of them, and `=` up to
/// a multiple of four characters.
pub open spec fn base64_encoded(data: Seq<u8>) -> Seq<char> {
    Seq::new(
        (data.len() + 2) / 3 * 4,
        |i: int|
            if 6 * i < 8 * data.len() {
                symbol(data_sextet(data, i))
            } else {
                '='
            },
    )
}

/// The text without the `=` at its end.
pub open spec fn without_padding(text: Seq<char>) -> Seq<char>
    decreases text.len(),
{
    if text.len() > 0 && text.last() == '=' {
        without_padding(text.drop_last())
    } else {
        text
    }
}

/// The characters stand for whole bytes: none of them is superfluous, and the bits that no byte
/// takes up are zero.
pub open spec fn is_whole(symbols: Seq<char>) -> bool {
    &&& symbols.len() % 4 != 1
    &&& symbols.len() % 4 == 2 ==> sextet(symbols.last()) % 16 == 0
    &&& symbols.len() % 4 == 3 ==> sextet(symbols.last()) % 4 == 0
}

/// The text is a base64 form: characters of the alphabet that stand for whole bytes. A last group
/// of two or three characters may be filled up with `=`, to four characters at most.
pub open spec fn is_base64_form(text: Seq<char>) -> bool {
    let symbols = without_padding(text);
    &&& is_symbols(symbols)
    &&& is_whole(symbols)
    &&& symbols.len() < text.len() ==> 2 <= symbols.len() % 4 && symbols.len() / 4 == (text.len()
        - 1) / 4
}

/// The byte at `k` of those that the characters stand for.
pub open spec fn symbols_byte(symbols: Seq<char>, k: int) -> u8 {
    let first = k / 3 * 4;
    (if k % 3 == 0 {
        sextet(symbols[first]) * 4 + sextet(symbols[first + 1]) / 16
    } else if k % 3 == 1 {
        sextet(symbols[first + 1]) % 16 * 16 + sextet(symbols[first + 2]) / 4
    } else {
        sextet(symbols[first + 2]) % 4 * 64 + sextet(symbols[first + 3])
    }) as u8
}

/// The bytes that the characters stand for, six bits each.
pub open spec fn symbols_bytes(symbols: Seq<char>) -> Seq<u8> {
    Seq::new(symbols.len() * 3 / 4, |k: int| symbols_byte(symbols, k))
}

/// The first byte of the text that is no character of the alphabet stands at `i`.
pub open spec fn is_first_non_symbol(text: Seq<u8>, i: int) -> bool {
    &&& 0 <= i < text.len()
    &&& !is_symbol(text[i] as char)
    &&& forall|j: int| 0 <= j < i ==> is_symbol(#[trigger] text[j] as char)
}

/// From `i` on the text is padding of a last group of two or three characters, to four characters
/// at most.
pub open spec fn is_padding(text: Seq<u8>, i: int) -> bool {
    &&& 2 <= i % 4
    &&& i / 4 == (text.len() - 1) / 4
    &&& forall|j: int| i <= j < text.len() ==> #[trigger] text[j] == 0x3d
}

/// What is wrong with text that is no base64 form: that one character is left over, else the first
/// byte that does not belong where it stands, and else the last character of the alphabet, which
/// has bits that no byte takes up.
pub open spec fn base64_fault(text: Seq<u8>) -> Base64Error {
    if text.len() % 4 == 1 {
        Base64Error::InvalidLength
    } else if exists|i: int| is_first_non_symbol(text, i) {
        let i = choose|i: int| is_first_non_symbol(text, i);
        if is_padding(text, i) {
            Base64Error::InvalidLastSymbol((i - 1) as usize, text[i - 1])
        } else {
            Base64Error::InvalidByte(i as usize, text[i])
        }
    } else {
        Base64Error::InvalidLastSymbol((text.len() - 1) as usize, text.last())
    }
}

/// The bytes that base64 text stands for, or what is wrong with it.
pub open spec fn base64_decoded(text: Seq<char>) -> Result<Seq<u8>, Base64Error> {
    if is_base64_form(text) {
        Ok(symbols_bytes(without_padding(text)))
    } else {
        Err(base64_fault(encode_utf8(text)))
    }
}

/// Calls `base64::encode`. Trusted: the result is the base64 form of the bytes in the standard
/// alphabet, with padding. The bound keeps the length of the text within `usize`, where the call
/// would panic.
#[verifier::external_body]
pub(crate) fn base64_encode(data: &[u8]) -> (text: String)
    requires
        data@.len() <= usize::MAX / 4,
    ensures
        text@ == base64_encoded(data@),
{
    base64::encode(data)
}

/// Calls `base64::decode`. Trusted: a base64 form in the standard alphabet, with its padding, with
/// a part of it or without, gives the bytes that it stands for. Other text is refused: for its
/// length where one character is left over; else for the first byte that is no character of the
/// alphabet, unless it begins the padding; and else for the last character of the alphabet, which
/// has superfluous bits. The bound keeps the size of the buffer within `usize`, where the call
/// would panic.
#[verifier::external_body]
pub(crate) fn base64_decode(text: &str) -> (data: Result<Vec<u8>, Base64Error>)
    requires
        encode_utf8(text@).len() <= usize::MAX / 4,
    ensures
        match data {
            Ok(bytes) => base64_decoded(text@) == Ok::<Seq<u8>, Base64Error>(bytes@),
            Err(error) => base64_decoded(text@) == Err::<Seq<u8>, Base64Error>(error),
        },
{
    base64::decode(text).map_err(
        |error| match error {
            base64::DecodeError::InvalidByte(offset, byte) => {
                Base64Error::InvalidByte(offset, byte)
            },
            base64::DecodeError::InvalidLength => Base64Error::InvalidLength,
            base64::DecodeError::InvalidLastSymbol(offset, byte) => {
                Base64Error::InvalidLastSymbol(offset, byte)
            },
        },
    )
}

/// Character and bits stand for each other.
pub proof fn lemma_symbol(bits: int)
    requires
        0 <= bits < 64,
    ensures
        is_symbol(symbol(bits)),
        sextet(symbol(bits)) == bits,
{
}

/// Text of characters of the alphabet has no padding.
pub proof fn lemma_no_padding(text: Seq<char>)
    requires
        is_symbols(text),
    ensures
        without_padding(text) == text,
{
    if text.len() > 0 {
        assert(is_symbol(text[text.len() - 1]));
    }
}

/// Three bytes in four groups of six bits, and back.
proof fn lemma_group(b0: int, b1: int, b2: int)
    requires
        0 <= b0 < 256,
        0 <= b1 < 256,
        0 <= b2 < 256,
    ensures
        0 <= b0 / 4 < 64,
        0 <= b0 % 4 * 16 + b1 / 16 < 64,
        0 <= b1 % 16 * 4 + b2 / 64 < 64,
        0 <= b2 % 64 < 64,
        b0 / 4 * 4 + (b0 % 4 * 16 + b1 / 16) / 16 == b0,
        (b0 % 4 * 16 + b1 / 16) % 16 * 16 + (b1 % 16 * 4 + b2 / 64) / 4 == b1,
        (b1 % 16 * 4 + b2 / 64) % 4 * 64 + b2 % 64 == b2,
{
}

/// Each character of the base64 form of whole groups stands for its six bits.
proof fn lemma_encoded_char(data: Seq<u8>, i: int)
    requires
        data.len() % 3 == 0,
        0 <= i < base64_encoded(data).len(),
    ensures
        is_symbol(base64_encoded(data)[i]),
        sextet(base64_encoded(data)[i]) == data_sextet(data, i),
{
    let first = i / 4 * 3;
    lemma_group(data[first] as int, data[first + 1] as int, data[first + 2] as int);
    lemma_symbol(data_sextet(data, i));
}

/// The characters of one group stand for its three bytes.
proof fn lemma_encoded_group(data: Seq<u8>, g: int)
    requires
        data.len() % 3 == 0,
        0 <= g < data.len() / 3,
    ensures
        symbols_byte(base64_encoded(data), 3 * g) == data[3 * g],
        symbols_byte(base64_encoded(data), 3 * g + 1) == data[3 * g + 1],
        symbols_byte(base64_encoded(data), 3 * g + 2) == data[3 * g + 2],
{
    let text = base64_encoded(data);
    let b0 = data[3 * g] as int;
    let b1 = data[3 * g + 1] as int;
    let b2 = data[3 * g + 2] as int;
    lemma_encoded_char(data, 4 * g);
    lemma_encoded_char(data, 4 * g + 1);
    lemma_encoded_char(data, 4 * g + 2);
    lemma_encoded_char(data, 4 * g + 3);
    let s0 = sextet(text[4 * g]);
    let s1 = sextet(text[4 * g + 1]);
    let s2 = sextet(text[4 * g + 2]);
    let s3 = sextet(text[4 * g + 3]);
    assert(s0 == b0 / 4);
    assert(s1 == b0 % 4 * 16 + b1 / 16);
    assert(s2 == b1 % 16 * 4 + b2 / 64);
    assert(s3 == b2 % 64);
    lemma_group(b0, b1, b2);
    assert(symbols_byte(text, 3 * g) == (s0 * 4 + s1 / 16) as u8);
    assert(symbols_byte(text, 3 * g + 1) == (s1 % 16 * 16 + s2 / 4) as u8);
    assert(symbols_byte(text, 3 * g + 2) == (s2 % 4 * 64 + s3) as u8);
}

proof fn lemma_encoded_bytes(data: Seq<u8>)
    requires
        data.len() % 3 == 0,
    ensures
        symbols_bytes(base64_encoded(data)) == data,
{
    let back = symbols_bytes(base64_encoded(data));
    assert(back.len() == data.len());
    assert forall|k: int| 0 <= k < data.len() implies #[trigger] back[k] == data[k] by {
        let g = k / 3;
        lemma_encoded_group(data, g);
        if k % 3 == 0 {
            assert(k == 3 * g);
        } else if k % 3 == 1 {
            assert(k == 3 * g + 1);
        } else {
            assert(k == 3 * g + 2);
        }
    }
    assert(back =~= data);
}

proof fn lemma_encoded_symbols(data: Seq<u8>)
    requires
        data.len() % 3 == 0,
    ensures
        is_symbols(base64_encoded(data)),
        base64_encoded(data).len() == data.len() / 3 * 4,
        base64_encoded(data).len() % 4 == 0,
{
    assert((data.len() + 2) / 3 == data.len() / 3);
    assert forall|i: int| 0 <= i < base64_encoded(data).len() implies is_symbol(
        #[trigger] base64_encoded(data)[i],
    ) by {
        lemma_encoded_char(data, i);
    }
}

/// Characters of the alphabet in whole groups of four are the base64 form of the bytes that they
/// stand for.
pub proof fn lemma_decode_symbols(text: Seq<char>)
    requires
        is_symbols(text),
        text.len() % 4 == 0,
    ensures
        base64_decoded(text) == Ok::<Seq<u8>, Base64Error>(symbols_bytes(text)),
{
    lemma_no_padding(text);
}

/// The base64 form of whole groups of three bytes has no padding and gives the bytes back.
#[verifier::rlimit(40)]
pub proof fn lemma_decode_encoded(data: Seq<u8>)
    requires
        data.len() % 3 == 0,
    ensures
        is_symbols(base64_encoded(data)),
        base64_encoded(data).len() == data.len() / 3 * 4,
        base64_decoded(base64_encoded(data)) == Ok::<Seq<u8>, Base64Error>(data),
{
    lemma_encoded_symbols(data);
    lemma_encoded_bytes(data);
    lemma_decode_symbols(base64_encoded(data));
}

/// Four groups of six bits in three bytes, and back.
proof fn lemma_sextets(s0: int, s1: int, s2: int, s3: int)
    requires
        0 <= s0 < 64 && 0 <= s1 < 64 && 0 <= s2 < 64 && 0 <= s3 < 64,
    ensures
        ({
            let b0 = s0 * 4 + s1 / 16;
            let b1 = s1 % 16 * 16 + s2 / 4;
            let b2 = s2 % 4 * 64 + s3;
            &&& 0 <= b0 < 256 && 0 <= b1 < 256 && 0 <= b2 < 256
            &&& b0 / 4 == s0
            &&& b0 % 4 * 16 + b1 / 16 == s1
            &&& b1 % 16 * 4 + b2 / 64 == s2
            &&& b2 % 64 == s3
        }),
{
}

/// The characters of one group are those of the bytes that they stand for.
proof fn lemma_group_chars(symbols: Seq<char>, g: int)
    requires
        is_symbols(symbols),
        symbols.len() % 4 == 0,
        0 <= g < symbols.len() / 4,
    ensures
        data_sextet(symbols_bytes(symbols), 4 * g) == sextet(symbols[4 * g]),
        data_sextet(symbols_bytes(symbols), 4 * g + 1) == sextet(symbols[4 * g + 1]),
        data_sextet(symbols_bytes(symbols), 4 * g + 2) == sextet(symbols[4 * g + 2]),
        data_sextet(symbols_bytes(symbols), 4 * g + 3) == sextet(symbols[4 * g + 3]),
{
    let data = symbols_bytes(symbols);
    assert(is_symbol(symbols[4 * g]) && is_symbol(symbols[4 * g + 1]) && is_symbol(
        symbols[4 * g + 2],
    ) && is_symbol(symbols[4 * g + 3]));
    let s0 = sextet(symbols[4 * g]);
    let s1 = sextet(symbols[4 * g + 1]);
    let s2 = sextet(symbols[4 * g + 2]);
    let s3 = sextet(symbols[4 * g + 3]);
    lemma_sextets(s0, s1, s2, s3);
    lemma_group_bytes(symbols, g);
    assert(data[3 * g] == s0 * 4 + s1 / 16);
    assert(data[3 * g + 1] == s1 % 16 * 16 + s2 / 4);
    assert(data[3 * g + 2] == s2 % 4 * 64 + s3);
}

/// Each character is the one for its six bits.
proof fn lemma_char_again(symbols: Seq<char>, i: int)
    requires
        is_symbols(symbols),
        symbols.len() % 4 == 0,
        0 <= i < symbols.len(),
    ensures
        symbol(data_sextet(symbols_bytes(symbols), i)) == symbols[i],
{
    let g = i / 4;
    lemma_group_chars(symbols, g);
    if i % 4 == 0 {
        assert(i == 4 * g);
    } else if i % 4 == 1 {
        assert(i == 4 * g + 1);
    } else if i % 4 == 2 {
        assert(i == 4 * g + 2);
    } else {
        assert(i == 4 * g + 3);
    }
    assert(is_symbol(symbols[i]));
    assert(symbol(sextet(symbols[i])) == symbols[i]);
}

/// Characters of the alphabet in whole groups of four come of the bytes that they stand for.
pub proof fn lemma_encode_decoded(symbols: Seq<char>)
    requires
        is_symbols(symbols),
        symbols.len() % 4 == 0,
    ensures
        base64_encoded(symbols_bytes(symbols)) == symbols,
{
    let text = base64_encoded(symbols_bytes(symbols));
    let n = symbols.len() / 4;
    assert(symbols.len() == 4 * n);
    assert(symbols_bytes(symbols).len() == 3 * n);
    assert(text.len() == symbols.len());
    assert forall|i: int| 0 <= i < symbols.len() implies #[trigger] text[i] == symbols[i] by {
        lemma_char_again(symbols, i);
    }
    assert(text =~= symbols);
}

/// The first of the two bytes that the character at `i` can have a part in.
pub open spec fn first_byte_of(i: int) -> int {
    i / 4 * 3 + if i % 4 <= 1 {
        0int
    } else {
        1
    }
}

/// Text that differs from other text in the bits of one character stands for bytes that differ
/// from the other ones in the place of that character only.
pub proof fn lemma_changed_symbol(a: Seq<char>, b: Seq<char>, i: int)
    requires
        is_symbols(a),
        is_symbols(b),
        a.len() == b.len(),
        a.len() % 4 == 0,
        0 <= i < a.len(),
        forall|j: int| 0 <= j < a.len() && j != i ==> #[trigger] a[j] == b[j],
        sextet(a[i]) != sextet(b[i]),
    ensures
        0 <= first_byte_of(i) < symbols_bytes(a).len() - 1,
        forall|k: int|
            0 <= k < symbols_bytes(a).len() && k != first_byte_of(i) && k != first_byte_of(i) + 1
                ==> #[trigger] symbols_bytes(a)[k] == symbols_bytes(b)[k],
        symbols_bytes(a)[first_byte_of(i)] != symbols_bytes(b)[first_byte_of(i)]
            || symbols_bytes(a)[first_byte_of(i) + 1] != symbols_bytes(b)[first_byte_of(i) + 1],
{
    let at = first_byte_of(i);
    let g = i / 4;
    assert forall|k: int|
        0 <= k < symbols_bytes(a).len() && k != at && k != at
            + 1 implies #[trigger] symbols_bytes(a)[k] == symbols_bytes(b)[k] by {
        let first = k / 3 * 4 + k % 3;
        assert(first != i && first + 1 != i);
        assert(a[first] == b[first] && a[first + 1] == b[first + 1]);
    }
    assert(is_symbol(a[4 * g]) && is_symbol(a[4 * g + 1]) && is_symbol(a[4 * g + 2]) && is_symbol(
        a[4 * g + 3],
    ));
    assert(is_symbol(b[4 * g]) && is_symbol(b[4 * g + 1]) && is_symbol(b[4 * g + 2]) && is_symbol(
        b[4 * g + 3],
    ));
    lemma_changed_group(
        sextet(a[4 * g]),
        sextet(a[4 * g + 1]),
        sextet(a[4 * g + 2]),
        sextet(a[4 * g + 3]),
        sextet(b[4 * g]),
        sextet(b[4 * g + 1]),
        sextet(b[4 * g + 2]),
        sextet(b[4 * g + 3]),
    );
    lemma_group_bytes(a, g);
    lemma_group_bytes(b, g);
}

proof fn lemma_group_bytes(symbols: Seq<char>, g: int)
    requires
        symbols.len() % 4 == 0,
        0 <= g < symbols.len() / 4,
    ensures
        ({
            let s0 = sextet(symbols[4 * g]);
            let s1 = sextet(symbols[4 * g + 1]);
            let s2 = sextet(symbols[4 * g + 2]);
            let s3 = sextet(symbols[4 * g + 3]);
            &&& symbols_bytes(symbols)[3 * g] == (s0 * 4 + s1 / 16) as u8
            &&& symbols_bytes(symbols)[3 * g + 1] == (s1 % 16 * 16 + s2 / 4) as u8
            &&& symbols_bytes(symbols)[3 * g + 2] == (s2 % 4 * 64 + s3) as u8
        }),
{
}

proof fn lemma_changed_group(
    a0: int,
    a1: int,
    a2: int,
    a3: int,
    b0: int,
    b1: int,
    b2: int,
    b3: int,
)
    requires
        0 <= a0 < 64 && 0 <= a1 < 64 && 0 <= a2 < 64 && 0 <= a3 < 64,
        0 <= b0 < 64 && 0 <= b1 < 64 && 0 <= b2 < 64 && 0 <= b3 < 64,
    ensures
        a0 != b0 ==> (a0 * 4 + a1 / 16) as u8 != (b0 * 4 + b1 / 16) as u8,
        a1 != b1 ==> (a0 * 4 + a1 / 16) as u8 != (b0 * 4 + b1 / 16) as u8 || (a1 % 16 * 16 + a2
            / 4) as u8 != (b1 % 16 * 16 + b2 / 4) as u8,
        a2 != b2 ==> (a1 % 16 * 16 + a2 / 4) as u8 != (b1 % 16 * 16 + b2 / 4) as u8 || (a2 % 4 * 64
            + a3) as u8 != (b2 % 4 * 64 + b3) as u8,
        a3 != b3 ==> (a2 % 4 * 64 + a3) as u8 != (b2 % 4 * 64 + b3) as u8,
{
}

} // verus!
