//! Laws of addresses.

use vstd::prelude::*;
use vstd::utf8::{encode_utf8, is_ascii_chars, is_ascii_chars_encode_utf8};
use crate::address::{
    address_tag, byte_of, complete, from_url_alphabet, lemma_replaced_byte_len, low_byte, parsed,
    std_address, std_payload, to_url_alphabet, with_checksum, AddressView,
};
use crate::bits::{whole_bytes, BitsView};
use crate::checksum::{crc16_xmodem, lemma_checksum_at_end, lemma_pair_changes_checksum};
use crate::codec::replaced;
use crate::error::SdkErrorView;
use crate::sextets::{
    base64_decoded, base64_encoded, first_byte_of, is_symbol, is_symbols, lemma_changed_symbol,
    lemma_decode_symbols, lemma_encode_decoded, sextet, symbols_bytes, without_padding,
};

verus! {

/// Base64 text stands for the same address in both alphabets, whichever of them it mixes.
pub proof fn law_alphabets_agree(text: Seq<char>)
    requires
        encode_utf8(text).len() == 48,
    ensures
        parsed(to_url_alphabet(text)) == parsed(text),
        parsed(from_url_alphabet(text)) == parsed(text),
{
    lemma_replaced_byte_len(text, '/', '_');
    lemma_replaced_byte_len(replaced(text, '/', '_'), '+', '-');
    lemma_replaced_byte_len(text, '_', '/');
    lemma_replaced_byte_len(replaced(text, '_', '/'), '-', '+');
    assert(from_url_alphabet(to_url_alphabet(text)) =~= from_url_alphabet(text));
    assert(from_url_alphabet(from_url_alphabet(text)) =~= from_url_alphabet(text));
}

/// A text has no more characters than bytes.
proof fn lemma_chars_and_bytes(text: Seq<char>)
    ensures
        text.len() <= encode_utf8(text).len(),
    decreases text.len(),
{
    if text.len() > 0 {
        lemma_chars_and_bytes(text.drop_first());
    }
}

/// Padding is at the end.
proof fn lemma_without_padding(text: Seq<char>)
    ensures
        without_padding(text).len() <= text.len(),
        without_padding(text).len() == text.len() ==> without_padding(text) == text,
    decreases text.len(),
{
    if text.len() > 0 && text.last() == '=' {
        lemma_without_padding(text.drop_last());
    }
}

/// A base64 text that an address was read from has 48 characters of the alphabet.
proof fn lemma_base64_address(text: Seq<char>)
    requires
        encode_utf8(text).len() == 48,
        complete(text),
        base64_decoded(from_url_alphabet(text)) is Ok,
    ensures
        text.len() == 48,
        is_symbols(from_url_alphabet(text)),
{
    let plain = from_url_alphabet(text);
    lemma_chars_and_bytes(text);
    lemma_without_padding(plain);
}

/// Text in either alphabet has as many bytes as characters.
proof fn lemma_symbols_and_bytes(text: Seq<char>)
    requires
        is_symbols(from_url_alphabet(text)),
    ensures
        encode_utf8(text).len() == text.len(),
{
    let plain = from_url_alphabet(text);
    assert forall|i: int| 0 <= i < text.len() implies '\0' <= #[trigger] text[i] <= '\u{7f}' by {
        assert(is_symbol(plain[i]));
    }
    assert(is_ascii_chars(text));
    is_ascii_chars_encode_utf8(text);
}

/// The checksum catches every mistake in one character: where a base64 text is read as an
/// address, a text with another character of the alphabet in one place is refused.
#[verifier::rlimit(40)]
pub proof fn law_changed_character_is_refused(text: Seq<char>, changed: Seq<char>, i: int)
    requires
        encode_utf8(text).len() == 48,
        complete(text),
        parsed(text) is Ok,
        changed.len() == text.len(),
        0 <= i < text.len(),
        forall|j: int| 0 <= j < text.len() && j != i ==> #[trigger] changed[j] == text[j],
        is_symbol(from_url_alphabet(changed)[i]),
        sextet(from_url_alphabet(changed)[i]) != sextet(from_url_alphabet(text)[i]),
    ensures
        complete(changed),
        parsed(changed) == Err::<AddressView, SdkErrorView>(
            SdkErrorView::InvalidArg(from_url_alphabet(changed)),
        ),
{
    let a = from_url_alphabet(text);
    let b = from_url_alphabet(changed);
    lemma_base64_address(text);
    assert forall|j: int| 0 <= j < b.len() implies is_symbol(#[trigger] b[j]) by {
        if j != i {
            assert(changed[j] == text[j]);
            assert(is_symbol(a[j]));
        }
    }
    assert forall|j: int| 0 <= j < a.len() && j != i implies #[trigger] a[j] == b[j] by {
        assert(changed[j] == text[j]);
    }
    lemma_symbols_and_bytes(changed);
    lemma_decode_symbols(a);
    lemma_decode_symbols(b);
    lemma_changed_symbol(a, b, i);
    let p = symbols_bytes(a);
    let q = symbols_bytes(b);
    lemma_pair_changes_checksum(p, q, first_byte_of(i));
    assert(p =~= p.take(34) + seq![p[34], p[35]]);
    assert(q =~= q.take(34) + seq![q[34], q[35]]);
    lemma_checksum_at_end(p.take(34), p[34], p[35]);
    lemma_checksum_at_end(q.take(34), q[34], q[35]);
}

/// A base64 text that is read as an address is one of the base64 forms of the address.
#[verifier::rlimit(40)]
pub proof fn law_read_text_is_a_form(text: Seq<char>)
    requires
        encode_utf8(text).len() == 48,
        complete(text),
        parsed(text) is Ok,
    ensures
        exists|bounceable: bool, test: bool| #[trigger]
            parsed(text)->Ok_0.base64_form(bounceable, test, false) == Ok::<
                Seq<char>,
                SdkErrorView,
            >(from_url_alphabet(text)),
{
    let plain = from_url_alphabet(text);
    lemma_base64_address(text);
    lemma_decode_symbols(plain);
    lemma_encode_decoded(plain);
    let bytes = symbols_bytes(plain);
    let (bounceable, test) = lemma_payload_again(bytes);
    lemma_form_again(
        parsed(text)->Ok_0,
        low_byte(bytes[1] as int),
        bytes.subrange(2, 34),
        bounceable,
        test,
    );
}

proof fn lemma_form_again(
    address: AddressView,
    workchain: int,
    account: Seq<u8>,
    bounceable: bool,
    test: bool,
)
    requires
        address == AddressView::Full(std_address(workchain, whole_bytes(account))),
        account.len() == 32,
    ensures
        ({
            let payload = std_payload(workchain, account, bounceable, test);
            address.base64_form(bounceable, test, false) == Ok::<Seq<char>, SdkErrorView>(
                base64_encoded(with_checksum(payload, crc16_xmodem(payload))),
            )
        }),
{
}

/// The bytes of a base64 text that is read as an address come of its parts.
proof fn lemma_payload_again(bytes: Seq<u8>) -> (flags: (bool, bool))
    requires
        bytes.len() == 36,
        crc16_xmodem(bytes.take(34)) == bytes[34] * 256 + bytes[35],
        bytes[0] % 64 == 0x11,
    ensures
        ({
            let payload = std_payload(
                low_byte(bytes[1] as int),
                bytes.subrange(2, 34),
                flags.0,
                flags.1,
            );
            with_checksum(payload, crc16_xmodem(payload)) == bytes
        }),
{
    let tag = bytes[0];
    let bounceable = tag == 0x11 || tag == 0x91;
    let test = tag == 0x91 || tag == 0xd1;
    let workchain = low_byte(bytes[1] as int);
    let payload = std_payload(workchain, bytes.subrange(2, 34), bounceable, test);
    assert(byte_of(workchain) == bytes[1]);
    assert(address_tag(bounceable, test) == tag);
    assert(payload =~= bytes.take(34));
    assert(with_checksum(payload, crc16_xmodem(payload)) =~= bytes);
    (bounceable, test)
}

/// The full address of an account of 256 bits gives the account's identifier back.
pub proof fn law_full_address_keeps_account_id(workchain: i8, id: BitsView)
    requires
        id.bit_len() == 256,
    ensures
        AddressView::Full(std_address(workchain as int, id)).account_id() == AddressView::Short(
            id,
        ).account_id(),
{
}

/// A short address stands for the account in the default workchain, which has to be one of the
/// numbers that an address has room for.
pub proof fn law_short_address_is_in_default_workchain(
    workchain: i32,
    id: BitsView,
    other: Option<i32>,
)
    requires
        i8::MIN <= workchain <= i8::MAX,
    ensures
        AddressView::Short(id).msg_address(Some(workchain)) == AddressView::Full(
            std_address(workchain as int, id),
        ).msg_address(other),
{
}

} // verus!
