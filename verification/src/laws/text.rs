//! Laws of addresses: what they say of the account, what their text holds byte by byte, and which
//! errors come of it.

use vstd::prelude::*;
use vstd::utf8::encode_utf8;
use crate::address::{
    append_checksum, from_url_alphabet, is_only_colon, standard_alphabet, std_payload,
    to_url_alphabet, url_alphabet, with_checksum, AccountAddress, AnycastInfo, MsgAddressInt,
};
use crate::bits::{AccountId, BitsView};
use crate::checksum::crc16_xmodem;
use crate::codec::{hex_decoded, i8_parsed};
use crate::error::{alike, Base64Error, SdkError, SdkResult};
use crate::laws::outgoing::{is_destination, same_anycast};
use crate::settings::Settings;
use crate::sextets::{base64_decoded, base64_encoded, is_symbol, is_symbols, lemma_decode_encoded};

verus! {

/// The error is the complaint about data with this text.
pub open spec fn is_bad_data<T>(result: SdkResult<T>, complaint: Seq<char>) -> bool {
    result matches Err(SdkError::InvalidData(text)) && text@ == complaint
}

/// The account's identifier is the one in the address, bit for bit; that of a full address has 256
/// bits or is refused.
pub proof fn law_account_id(address: &AccountAddress, result: SdkResult<AccountId>)
    requires
        call_ensures(AccountAddress::get_account_id, (address,), result),
    ensures
        match address {
            AccountAddress::Short(known) => result matches Ok(id) && id@ == known@,
            AccountAddress::Full(MsgAddressInt::AddrStd(std)) => if 8 * std.address@.bytes.len()
                - std.address@.unused == 256 {
                result matches Ok(id) && id@ == std.address@
            } else {
                is_bad_data(result, "Address must be 32 bytes long"@)
            },
            AccountAddress::Full(MsgAddressInt::AddrVar(var)) => if 8 * var.address@.bytes.len()
                - var.address@.unused == 256 {
                result matches Ok(id) && id@ == var.address@
            } else {
                is_bad_data(result, "Address must be 32 bytes long"@)
            },
        },
{
}

/// A full address stays as it is. A short one is that of the account in the default workchain, of
/// whose number the low byte counts, and is refused where there is none.
pub proof fn law_msg_address(
    address: &AccountAddress,
    settings: &Settings,
    result: SdkResult<MsgAddressInt>,
)
    requires
        call_ensures(AccountAddress::get_msg_address, (address, settings), result),
    ensures
        match result {
            Ok(full) => is_destination(full, *address, settings.default_workchain),
            Err(error) => {
                &&& error is DefaultWorkchainNotSet
                &&& address is Short
                &&& settings.default_workchain is None
            },
        },
{
}

/// The full address of an account in a workchain names both, and nothing else.
pub proof fn law_address_of_account(
    workchain: i8,
    account: AccountId,
    result: SdkResult<AccountAddress>,
)
    requires
        call_ensures(
            AccountAddress::with_account_id_and_workchain,
            (workchain, account),
            result,
        ),
    ensures
        result matches Ok(AccountAddress::Full(MsgAddressInt::AddrStd(std))) && std.workchain_id
            == workchain && std.address@ == account@ && std.anycast is None,
{
}

/// A standard address has the parts that it is made of.
pub proof fn law_standard_address(
    anycast: Option<AnycastInfo>,
    workchain: i8,
    account: AccountId,
    result: MsgAddressInt,
)
    requires
        call_ensures(MsgAddressInt::with_standart, (anycast, workchain, account), result),
    ensures
        result matches MsgAddressInt::AddrStd(std) && std.workchain_id == workchain && std.address@
            == account@ && same_anycast(std.anycast, anycast),
{
}

/// An address names its account, whichever form it has.
pub proof fn law_address_in_message(address: &MsgAddressInt, result: AccountId)
    requires
        call_ensures(MsgAddressInt::get_address, (address,), result),
    ensures
        match address {
            MsgAddressInt::AddrStd(std) => result@ == std.address@,
            MsgAddressInt::AddrVar(var) => result@ == var.address@,
        },
{
}

/// The text with `-` and `_` replaced by `+` and `/`.
pub open spec fn in_standard(text: Seq<char>) -> Seq<char> {
    Seq::new(
        text.len(),
        |i: int|
            if text[i] == '-' {
                '+'
            } else if text[i] == '_' {
                '/'
            } else {
                text[i]
            },
    )
}

proof fn lemma_in_standard(text: Seq<char>)
    ensures
        in_standard(text) == from_url_alphabet(text),
{
    assert(in_standard(text) =~= from_url_alphabet(text));
}

/// In the standard alphabet a text has `+` for `-` and `/` for `_`, and is else the same.
pub proof fn law_standard_alphabet(text: &str, result: String)
    requires
        call_ensures(standard_alphabet, (text,), result),
    ensures
        result@.len() == text@.len(),
        forall|i: int|
            0 <= i < text@.len() ==> #[trigger] result@[i] == if text@[i] == '-' {
                '+'
            } else if text@[i] == '_' {
                '/'
            } else {
                text@[i]
            },
{
    lemma_in_standard(text@);
    assert(result@ == in_standard(text@));
}

/// In the alphabet for URLs a text has `-` for `+` and `_` for `/`, and is else the same.
pub proof fn law_url_alphabet(text: &str, result: String)
    requires
        call_ensures(url_alphabet, (text,), result),
    ensures
        result@.len() == text@.len(),
        forall|i: int|
            0 <= i < text@.len() ==> #[trigger] result@[i] == if text@[i] == '+' {
                '-'
            } else if text@[i] == '/' {
                '_'
            } else {
                text@[i]
            },
{
}

/// A checksum follows the bytes, high byte first.
pub proof fn law_appended_checksum(payload: Vec<u8>, checksum: u16, result: Vec<u8>)
    requires
        call_ensures(append_checksum, (payload, checksum), result),
    ensures
        result@.len() == payload@.len() + 2,
        forall|i: int| 0 <= i < payload@.len() ==> #[trigger] result@[i] == payload@[i],
        checksum == result@[result@.len() - 2] * 256 + result@[result@.len() - 1],
{
}

/// The first byte of the base64 form: `0x11` if bounceable and `0x51` if not, and `0x80` more in a
/// test network. The second byte is the workchain, and then comes the account.
pub open spec fn starts_with(
    bytes: Seq<u8>,
    bounceable: bool,
    test: bool,
    workchain: i8,
    account: BitsView,
) -> bool {
    &&& bounceable && !test ==> bytes[0] == 0x11
    &&& !bounceable && !test ==> bytes[0] == 0x51
    &&& bounceable && test ==> bytes[0] == 0x91
    &&& !bounceable && test ==> bytes[0] == 0xd1
    &&& workchain >= 0 ==> bytes[1] == workchain
    &&& workchain < 0 ==> bytes[1] == workchain + 256
    &&& account.bytes.len() == 32
    &&& forall|i: int| 0 <= i < 32 ==> #[trigger] account.bytes[i] == bytes[i + 2]
}

/// What the checksum is taken of is tag, workchain and account, and depends on nothing else. Only a
/// standard address of 256 bits has it.
pub proof fn law_std_payload(
    address: &AccountAddress,
    bounceable: bool,
    test: bool,
    result: SdkResult<Vec<u8>>,
)
    requires
        call_ensures(AccountAddress::std_payload, (address, bounceable, test), result),
    ensures
        match address {
            AccountAddress::Full(MsgAddressInt::AddrStd(std)) => if 8 * std.address@.bytes.len()
                - std.address@.unused == 256 {
                result matches Ok(payload) && payload@.len() == 34 && starts_with(
                    payload@,
                    bounceable,
                    test,
                    std.workchain_id,
                    std.address@,
                )
            } else {
                is_bad_data(result, "Address must be 32 bytes long"@)
            },
            _ => is_bad_data(result, "Non-std address"@),
        },
{
    if let AccountAddress::Full(MsgAddressInt::AddrStd(std)) = address {
        if result is Ok {
            let payload = result->Ok_0@;
            let account = std.address@.bytes;
            assert forall|i: int| 0 <= i < account.len() implies #[trigger] account[i] == payload[i
                + 2] by {}
        }
    }
}

/// The base64 form of a standard address of 256 bits has 48 characters. The bytes that they decode
/// to are the tag, which depends on the two flags only, the workchain, the account, and the
/// checksum of these. No other address has the form.
#[verifier::rlimit(60)]
pub proof fn law_base64_form(
    address: &AccountAddress,
    bounceable: bool,
    test: bool,
    as_url: bool,
    result: SdkResult<String>,
)
    requires
        call_ensures(AccountAddress::as_base64, (address, bounceable, test, as_url), result),
    ensures
        match address {
            AccountAddress::Full(MsgAddressInt::AddrStd(std)) => if 8 * std.address@.bytes.len()
                - std.address@.unused == 256 {
                &&& result matches Ok(text)
                &&& text@.len() == 48
                &&& as_url ==> forall|i: int|
                    0 <= i < 48 ==> #[trigger] text@[i] != '+' && text@[i] != '/'
                &&& !as_url ==> in_standard(text@) == text@
                &&& base64_decoded(in_standard(text@)) matches Ok(bytes)
                &&& bytes.len() == 36
                &&& starts_with(bytes, bounceable, test, std.workchain_id, std.address@)
                &&& bytes[34] * 256 + bytes[35] == crc16_xmodem(bytes.subrange(0, 34))
            } else {
                is_bad_data(result, "Address must be 32 bytes long"@)
            },
            _ => is_bad_data(result, "Non-std address"@),
        },
{
    if let AccountAddress::Full(MsgAddressInt::AddrStd(std)) = address {
        if result is Ok {
            let text = result->Ok_0@;
            let payload = std_payload(
                std.workchain_id as int,
                std.address@.bytes,
                bounceable,
                test,
            );
            lemma_form_bytes(std.workchain_id, std.address@, bounceable, test);
            lemma_form_text(payload, as_url, text);
        }
    }
}

proof fn lemma_form_bytes(workchain: i8, account: BitsView, bounceable: bool, test: bool)
    requires
        account.bytes.len() == 32,
    ensures
        ({
            let payload = std_payload(workchain as int, account.bytes, bounceable, test);
            let bytes = with_checksum(payload, crc16_xmodem(payload));
            &&& payload.len() == 34
            &&& starts_with(bytes, bounceable, test, workchain, account)
        }),
{
    let payload = std_payload(workchain as int, account.bytes, bounceable, test);
    let bytes = with_checksum(payload, crc16_xmodem(payload));
    assert forall|i: int| 0 <= i < 32 implies #[trigger] account.bytes[i] == bytes[i + 2] by {}
}

proof fn lemma_form_text(payload: Seq<u8>, as_url: bool, text: Seq<char>)
    requires
        payload.len() == 34,
        text == if as_url {
            to_url_alphabet(base64_encoded(with_checksum(payload, crc16_xmodem(payload))))
        } else {
            base64_encoded(with_checksum(payload, crc16_xmodem(payload)))
        },
    ensures
        text.len() == 48,
        as_url ==> forall|i: int| 0 <= i < 48 ==> #[trigger] text[i] != '+' && text[i] != '/',
        !as_url ==> in_standard(text) == text,
        ({
            let bytes = with_checksum(payload, crc16_xmodem(payload));
            &&& base64_decoded(in_standard(text)) == Ok::<Seq<u8>, Base64Error>(bytes)
            &&& bytes.len() == 36
            &&& bytes[34] * 256 + bytes[35] == crc16_xmodem(bytes.subrange(0, 34))
        }),
{
    let bytes = with_checksum(payload, crc16_xmodem(payload));
    let plain = base64_encoded(bytes);
    lemma_decode_encoded(bytes);
    lemma_symbols_text(plain, as_url, text);
    assert(bytes.subrange(0, 34) =~= payload);
}

proof fn lemma_symbols_text(plain: Seq<char>, as_url: bool, text: Seq<char>)
    requires
        is_symbols(plain),
        text == if as_url {
            to_url_alphabet(plain)
        } else {
            plain
        },
    ensures
        in_standard(text) == plain,
        text.len() == plain.len(),
        as_url ==> forall|i: int|
            0 <= i < text.len() ==> #[trigger] text[i] != '+' && text[i] != '/',
{
    assert forall|i: int| 0 <= i < plain.len() implies #[trigger] in_standard(text)[i]
        == plain[i] by {
        assert(is_symbol(plain[i]));
    }
    assert(in_standard(text) =~= plain);
}

/// `result` is the standard address that the bytes of a base64 form hold, or a complaint about
/// `text` where checksum or tag are wrong.
pub open spec fn is_read_of(
    bytes: Seq<u8>,
    checksum: u16,
    text: Seq<char>,
    result: SdkResult<AccountAddress>,
) -> bool {
    if checksum == bytes[34] * 256 + bytes[35] && (bytes[0] == 0x11 || bytes[0] == 0x51 || bytes[0]
        == 0x91 || bytes[0] == 0xd1) {
        &&& result matches Ok(AccountAddress::Full(MsgAddressInt::AddrStd(std)))
        &&& std.anycast is None
        &&& bytes[1] < 128 ==> std.workchain_id == bytes[1]
        &&& bytes[1] >= 128 ==> std.workchain_id == bytes[1] - 256
        &&& std.address@.unused == 0
        &&& std.address@.bytes.len() == 32
        &&& forall|i: int| 0 <= i < 32 ==> #[trigger] std.address@.bytes[i] == bytes[i + 2]
    } else {
        result matches Err(SdkError::InvalidArg(told)) && told@ == text
    }
}

/// The bytes of a base64 form are read as the standard address that they hold, without anycast
/// information; a wrong checksum or tag is refused.
pub proof fn law_read_payload(
    payload: &[u8],
    checksum: u16,
    text: &str,
    result: SdkResult<AccountAddress>,
)
    requires
        payload@.len() >= 36,
        call_ensures(AccountAddress::from_std_payload, (payload, checksum, text), result),
    ensures
        is_read_of(payload@, checksum, text@, result),
{
}

/// Text of 64 bytes is hexadecimal and stands for a short address with the bytes of the digits.
/// Text of 48 bytes is base64 in either alphabet and stands for the standard address in the bytes
/// that it decodes to.
pub proof fn law_read_text(text: &str, result: SdkResult<AccountAddress>)
    requires
        call_ensures(AccountAddress::from_str, (text,), result),
    ensures
        encode_utf8(text@).len() == 64 ==> match hex_decoded(encode_utf8(text@)) {
            Ok(bytes) => result matches Ok(AccountAddress::Short(id)) && id@.bytes == bytes
                && id@.unused == 0,
            Err(e) => result matches Err(SdkError::Hex(error)) && error == e,
        },
        encode_utf8(text@).len() == 48 ==> match base64_decoded(in_standard(text@)) {
            Ok(bytes) => bytes.len() >= 36 ==> is_read_of(
                bytes,
                crc16_xmodem(bytes.subrange(0, 34)),
                in_standard(text@),
                result,
            ),
            Err(e) => result matches Err(SdkError::Base64(error)) && error == e,
        },
{
    lemma_in_standard(text@);
    let plain = in_standard(text@);
    if encode_utf8(text@).len() == 48 {
        if base64_decoded(plain) is Ok && base64_decoded(plain)->Ok_0.len() >= 36 {
            let bytes = base64_decoded(plain)->Ok_0;
            assert(bytes.subrange(0, 34) =~= bytes.take(34));
        }
    }
}

/// Text of another length is split at its only colon: before it stands the number of the workchain,
/// behind it the account in hexadecimal.
pub proof fn law_read_split_text(text: &str, colon: int, result: SdkResult<AccountAddress>)
    requires
        call_ensures(AccountAddress::from_str, (text,), result),
        encode_utf8(text@).len() != 64,
        encode_utf8(text@).len() != 48,
        0 <= colon < text@.len(),
        text@[colon] == ':',
        forall|i: int| 0 <= i < text@.len() && i != colon ==> #[trigger] text@[i] != ':',
    ensures
        match i8_parsed(text@.subrange(0, colon)) {
            Err(e) => result matches Err(SdkError::ParseInt(error)) && error == e,
            Ok(workchain) => match hex_decoded(
                encode_utf8(text@.subrange(colon + 1, text@.len() as int)),
            ) {
                Err(e) => result matches Err(SdkError::Hex(error)) && error == e,
                Ok(bytes) => {
                    &&& result matches Ok(AccountAddress::Full(MsgAddressInt::AddrStd(std)))
                    &&& std.anycast is None
                    &&& std.workchain_id == workchain
                    &&& std.address@.bytes == bytes
                    &&& std.address@.unused == 0
                },
            },
        },
{
    assert(is_only_colon(text@, colon));
    let i = choose|i: int| is_only_colon(text@, i);
    assert(i == colon);
    assert(text@.take(colon) =~= text@.subrange(0, colon));
    assert(text@.skip(colon + 1) =~= text@.subrange(colon + 1, text@.len() as int));
}

/// Text of another length without a colon, or with several, is refused as it is.
pub proof fn law_unsplit_text_is_refused(text: &str, result: SdkResult<AccountAddress>)
    requires
        call_ensures(AccountAddress::from_str, (text,), result),
        encode_utf8(text@).len() != 64,
        encode_utf8(text@).len() != 48,
        (forall|i: int| 0 <= i < text@.len() ==> #[trigger] text@[i] != ':') || (exists|
            i: int,
            j: int,
        |
            0 <= i < j < text@.len() && #[trigger] text@[i] == ':' && #[trigger] text@[j] == ':'),
    ensures
        result matches Err(SdkError::InvalidArg(told)) && told@ == text@,
{
    assert forall|k: int| !is_only_colon(text@, k) by {
        if is_only_colon(text@, k) {
            assert(text@[k] == ':');
        }
    }
}

/// Only base64 text that decodes to fewer than 36 bytes is not read at all.
pub proof fn law_unreadable_text(text: &str, result: Option<SdkResult<AccountAddress>>)
    requires
        call_ensures(AccountAddress::from_str_checked, (text,), result),
    ensures
        result is None <==> encode_utf8(text@).len() == 48 && (base64_decoded(
            in_standard(text@),
        ) matches Ok(bytes) && bytes.len() < 36),
{
    lemma_in_standard(text@);
}

/// Text that is read by both functions is read alike.
pub proof fn law_checked_text(
    text: &str,
    checked: SdkResult<AccountAddress>,
    unchecked: SdkResult<AccountAddress>,
)
    requires
        call_ensures(AccountAddress::from_str_checked, (text,), Some(checked)),
        call_ensures(AccountAddress::from_str, (text,), unchecked),
    ensures
        alike(checked, unchecked),
{
}

} // verus!
