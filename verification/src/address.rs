//! Addresses of accounts and their text forms.

use vstd::prelude::*;
use vstd::utf8::{encode_utf8, is_ascii_chars};
use vstd::string::StrSliceExecFns;
use vstd::slice::{slice_subrange, slice_to_vec};
use crate::bits::{whole_bytes, AccountId, BitString, BitsView};
use crate::checksum::{crc16, crc16_xmodem};
use crate::codec::{hex_decode, hex_decoded, i8_parsed, parse_i8, replace, replaced};
use crate::error::{
    agrees, invalid_arg, invalid_data, optional_view, Base64Error, SdkError, SdkErrorView,
    SdkResult,
};
use crate::settings::Settings;
use crate::sextets::{
    base64_decode, base64_decoded, base64_encode, base64_encoded, is_symbols, lemma_decode_encoded,
};

verus! {

/// How the first bits of an address are rewritten on the way to it.
#[derive(Debug)]
pub struct AnycastInfo {
    pub depth: u8,
    pub rewrite_pfx: BitString,
}

/// A standard address inside the blockchain.
#[derive(Debug)]
pub struct MsgAddrStd {
    pub anycast: Option<AnycastInfo>,
    pub workchain_id: i8,
    pub address: AccountId,
}

/// An address of any length inside the blockchain.
#[derive(Debug)]
pub struct MsgAddrVar {
    pub anycast: Option<AnycastInfo>,
    pub workchain_id: i32,
    pub address: AccountId,
}

/// An address inside the blockchain.
#[derive(Debug)]
pub enum MsgAddressInt {
    AddrStd(MsgAddrStd),
    AddrVar(MsgAddrVar),
}

/// An account's address. `Short` is only the account's identifier and stands for the account in
/// the default workchain; `Full` names the account in any workchain.
#[derive(Debug)]
pub enum AccountAddress {
    Short(AccountId),
    Full(MsgAddressInt),
}

/// Anycast information as contracts speak of it.
pub struct AnycastView {
    pub depth: u8,
    pub rewrite_pfx: BitsView,
}

/// An address inside the blockchain as contracts speak of it.
pub enum MsgAddressView {
    Std { anycast: Option<AnycastView>, workchain_id: int, address: BitsView },
    Var { anycast: Option<AnycastView>, workchain_id: int, address: BitsView },
}

/// An account's address as contracts speak of it.
pub enum AddressView {
    Short(BitsView),
    Full(MsgAddressView),
}

impl View for AnycastInfo {
    type V = AnycastView;

    open spec fn view(&self) -> AnycastView {
        AnycastView { depth: self.depth, rewrite_pfx: self.rewrite_pfx@ }
    }
}

impl View for MsgAddressInt {
    type V = MsgAddressView;

    open spec fn view(&self) -> MsgAddressView {
        match self {
            MsgAddressInt::AddrStd(std) => MsgAddressView::Std {
                anycast: optional_view(std.anycast),
                workchain_id: std.workchain_id as int,
                address: std.address@,
            },
            MsgAddressInt::AddrVar(var) => MsgAddressView::Var {
                anycast: optional_view(var.anycast),
                workchain_id: var.workchain_id as int,
                address: var.address@,
            },
        }
    }
}

impl View for AccountAddress {
    type V = AddressView;

    open spec fn view(&self) -> AddressView {
        match self {
            AccountAddress::Short(id) => AddressView::Short(id@),
            AccountAddress::Full(address) => AddressView::Full(address@),
        }
    }
}

impl MsgAddressView {
    /// The account's identifier in its workchain.
    pub open spec fn address(self) -> BitsView {
        match self {
            MsgAddressView::Std { address, .. } => address,
            MsgAddressView::Var { address, .. } => address,
        }
    }
}

/// The standard address of an account, not to be rewritten.
pub open spec fn std_address(workchain_id: int, address: BitsView) -> MsgAddressView {
    MsgAddressView::Std { anycast: None, workchain_id, address }
}

/// The number in the range of `i8` that agrees with `n` in the low eight bits.
pub open spec fn low_byte(n: int) -> int {
    (n + 128) % 256 - 128
}

/// The byte that stands for a number of one byte, in two's complement.
pub open spec fn byte_of(n: int) -> u8 {
    (n % 256) as u8
}

/// The text of the complaint about an address of the wrong length.
pub open spec fn bad_length() -> SdkErrorView {
    SdkErrorView::InvalidData("Address must be 32 bytes long"@)
}

impl AddressView {
    /// The account's identifier: 256 bits wherever the address is a full one.
    pub open spec fn account_id(self) -> Result<BitsView, SdkErrorView> {
        match self {
            AddressView::Short(id) => Ok(id),
            AddressView::Full(address) => if address.address().bit_len() == 256 {
                Ok(address.address())
            } else {
                Err(bad_length())
            },
        }
    }

    /// The full address: a short one is completed by the low byte of the default workchain.
    pub open spec fn msg_address(self, default_workchain: Option<i32>) -> Result<
        MsgAddressView,
        SdkErrorView,
    > {
        match (self, default_workchain) {
            (AddressView::Full(address), _) => Ok(address),
            (AddressView::Short(id), Some(workchain)) => Ok(
                std_address(low_byte(workchain as int), id),
            ),
            (AddressView::Short(_), None) => Err(SdkErrorView::DefaultWorkchainNotSet),
        }
    }

    /// The workchain and the 32 bytes of a standard address.
    pub open spec fn std_parts(self) -> Result<(int, Seq<u8>), SdkErrorView> {
        match self {
            AddressView::Full(MsgAddressView::Std { workchain_id, address, .. }) => {
                if address.bit_len() == 256 {
                    Ok((workchain_id, address.bytes))
                } else {
                    Err(bad_length())
                }
            },
            _ => Err(SdkErrorView::InvalidData("Non-std address"@)),
        }
    }

    /// The base64 form of a standard address.
    pub open spec fn base64_form(self, bounceable: bool, test: bool, as_url: bool) -> Result<
        Seq<char>,
        SdkErrorView,
    > {
        match self.std_parts() {
            Ok((workchain, address)) => {
                let payload = std_payload(workchain, address, bounceable, test);
                let text = base64_encoded(with_checksum(payload, crc16_xmodem(payload)));
                Ok(
                    if as_url {
                        to_url_alphabet(text)
                    } else {
                        text
                    },
                )
            },
            Err(error) => Err(error),
        }
    }
}

/// The first byte of the base64 form: whether a message to the address may come back, and
/// whether the address belongs to a test network.
pub open spec fn address_tag(bounceable: bool, test: bool) -> int {
    (if bounceable {
        0x11int
    } else {
        0x51
    }) + (if test {
        0x80int
    } else {
        0
    })
}

/// What the checksum of the base64 form is taken of: tag, workchain and account.
pub open spec fn std_payload(
    workchain: int,
    address: Seq<u8>,
    bounceable: bool,
    test: bool,
) -> Seq<u8> {
    seq![address_tag(bounceable, test) as u8, byte_of(workchain)] + address
}

/// The bytes followed by a checksum, high byte first.
pub open spec fn with_checksum(payload: Seq<u8>, checksum: u16) -> Seq<u8> {
    payload + seq![(checksum / 256) as u8, (checksum % 256) as u8]
}

/// Base64 text in the alphabet that is safe in URLs.
pub open spec fn to_url_alphabet(text: Seq<char>) -> Seq<char> {
    replaced(replaced(text, '/', '_'), '+', '-')
}

/// Base64 text in the standard alphabet.
pub open spec fn from_url_alphabet(text: Seq<char>) -> Seq<char> {
    replaced(replaced(text, '_', '/'), '-', '+')
}

/// The text has one colon, and it stands at `i`.
pub open spec fn is_only_colon(text: Seq<char>, i: int) -> bool {
    &&& 0 <= i < text.len()
    &&& text[i] == ':'
    &&& forall|j: int| 0 <= j < text.len() && j != i ==> #[trigger] text[j] != ':'
}

/// The address in the bytes of a base64 form. `checksum` is that of the first 34 bytes, and
/// `text` is what is complained about.
pub open spec fn payload_parsed(payload: Seq<u8>, checksum: u16, text: Seq<char>) -> Result<
    AddressView,
    SdkErrorView,
> {
    if checksum != payload[34] * 256 + payload[35] || payload[0] % 64 != 0x11 {
        Err(SdkErrorView::InvalidArg(text))
    } else {
        Ok(
            AddressView::Full(
                std_address(
                    low_byte(payload[1] as int),
                    whole_bytes(payload.subrange(2, 34)),
                ),
            ),
        )
    }
}

/// The address that a base64 text in either alphabet stands for.
pub open spec fn base64_parsed(text: Seq<char>) -> Result<AddressView, SdkErrorView> {
    let plain = from_url_alphabet(text);
    match base64_decoded(plain) {
        Ok(payload) => payload_parsed(payload, crc16_xmodem(payload.take(34)), plain),
        Err(error) => Err(SdkErrorView::Base64(error)),
    }
}

/// The address that a text of workchain number, colon and hexadecimal digits stands for.
pub open spec fn hex_parsed(text: Seq<char>) -> Result<AddressView, SdkErrorView> {
    if !exists|i: int| is_only_colon(text, i) {
        Err(SdkErrorView::InvalidArg(text))
    } else {
        let i = choose|i: int| is_only_colon(text, i);
        match i8_parsed(text.take(i)) {
            Ok(workchain) => {
                match hex_decoded(encode_utf8(text.skip(i + 1))) {
                    Ok(bytes) => Ok(
                        AddressView::Full(std_address(workchain, whole_bytes(bytes))),
                    ),
                    Err(error) => Err(SdkErrorView::Hex(error)),
                }
            },
            Err(error) => Err(SdkErrorView::ParseInt(error)),
        }
    }
}

/// The address that a text stands for. The length of the text in bytes tells its form.
pub open spec fn parsed(text: Seq<char>) -> Result<AddressView, SdkErrorView> {
    if encode_utf8(text).len() == 64 {
        match hex_decoded(encode_utf8(text)) {
            Ok(bytes) => Ok(AddressView::Short(whole_bytes(bytes))),
            Err(error) => Err(SdkErrorView::Hex(error)),
        }
    } else if encode_utf8(text).len() == 48 {
        base64_parsed(text)
    } else {
        hex_parsed(text)
    }
}

/// Text in base64 form does not break off before the checksum.
pub open spec fn base64_complete(text: Seq<char>) -> bool {
    base64_decoded(from_url_alphabet(text)) matches Ok(payload) ==> payload.len() >= 36
}

/// Text of the length of the base64 form does not break off before the checksum.
pub open spec fn complete(text: Seq<char>) -> bool {
    encode_utf8(text).len() == 48 ==> base64_complete(text)
}

/// Replacing one ASCII character by another keeps the length in bytes.
pub proof fn lemma_replaced_byte_len(text: Seq<char>, from: char, to: char)
    requires
        from as u32 <= 0x7f,
        to as u32 <= 0x7f,
    ensures
        encode_utf8(replaced(text, from, to)).len() == encode_utf8(text).len(),
    decreases text.len(),
{
    let after = replaced(text, from, to);
    if text.len() > 0 {
        assert(after.drop_first() =~= replaced(text.drop_first(), from, to));
        lemma_replaced_byte_len(text.drop_first(), from, to);
    } else {
        assert(after =~= text);
    }
}

/// Decoding undoes the change of alphabet, and changes nothing in the standard one.
proof fn lemma_url_alphabet(text: Seq<char>)
    requires
        is_symbols(text),
    ensures
        from_url_alphabet(to_url_alphabet(text)) == text,
        from_url_alphabet(text) == text,
        encode_utf8(text).len() == text.len(),
        encode_utf8(to_url_alphabet(text)).len() == text.len(),
{
    assert(from_url_alphabet(to_url_alphabet(text)) =~= text);
    assert(from_url_alphabet(text) =~= text);
    assert(is_ascii_chars(text));
    vstd::utf8::is_ascii_chars_encode_utf8(text);
    lemma_replaced_byte_len(text, '/', '_');
    lemma_replaced_byte_len(replaced(text, '/', '_'), '+', '-');
}

/// What comes of the base64 form of a standard address, in both alphabets.
#[verifier::rlimit(40)]
proof fn lemma_form_reads_back(workchain: int, address: Seq<u8>, bounceable: bool, test: bool)
    requires
        i8::MIN <= workchain <= i8::MAX,
        address.len() == 32,
    ensures
        ({
            let payload = std_payload(workchain, address, bounceable, test);
            let text = base64_encoded(with_checksum(payload, crc16_xmodem(payload)));
            let read = Ok::<AddressView, SdkErrorView>(
                AddressView::Full(std_address(workchain, whole_bytes(address))),
            );
            &&& text.len() == 48 && complete(text) && parsed(text) == read
            &&& to_url_alphabet(text).len() == 48 && complete(to_url_alphabet(text)) && parsed(
                to_url_alphabet(text),
            ) == read
        }),
{
    let payload = std_payload(workchain, address, bounceable, test);
    let bytes = with_checksum(payload, crc16_xmodem(payload));
    let text = base64_encoded(bytes);
    assert(bytes.take(34) =~= payload);
    lemma_decode_encoded(bytes);
    lemma_payload_parsed(workchain, address, bounceable, test, text);
    lemma_symbols_parsed(text, bytes);
}

/// Text without padding is read by the bytes that it stands for, in both alphabets.
proof fn lemma_symbols_parsed(text: Seq<char>, bytes: Seq<u8>)
    requires
        is_symbols(text),
        text.len() == 48,
        base64_decoded(text) == Ok::<Seq<u8>, Base64Error>(bytes),
        bytes.len() == 36,
    ensures
        complete(text),
        parsed(text) == payload_parsed(bytes, crc16_xmodem(bytes.take(34)), text),
        to_url_alphabet(text).len() == 48,
        complete(to_url_alphabet(text)),
        parsed(to_url_alphabet(text)) == payload_parsed(
            bytes,
            crc16_xmodem(bytes.take(34)),
            text,
        ),
{
    lemma_url_alphabet(text);
}

/// The bytes of the base64 form are read as the address.
proof fn lemma_payload_parsed(
    workchain: int,
    address: Seq<u8>,
    bounceable: bool,
    test: bool,
    text: Seq<char>,
)
    requires
        i8::MIN <= workchain <= i8::MAX,
        address.len() == 32,
    ensures
        ({
            let payload = std_payload(workchain, address, bounceable, test);
            let checksum = crc16_xmodem(payload);
            payload_parsed(with_checksum(payload, checksum), checksum, text) == Ok::<
                AddressView,
                SdkErrorView,
            >(AddressView::Full(std_address(workchain, whole_bytes(address))))
        }),
{
    let payload = std_payload(workchain, address, bounceable, test);
    let bytes = with_checksum(payload, crc16_xmodem(payload));
    assert(bytes.subrange(2, 34) =~= address);
}

impl Clone for AnycastInfo {
    fn clone(&self) -> (copy: Self)
        ensures
            copy@ == self@,
    {
        AnycastInfo { depth: self.depth, rewrite_pfx: self.rewrite_pfx.clone() }
    }
}

fn clone_anycast(anycast: &Option<AnycastInfo>) -> (copy: Option<AnycastInfo>)
    ensures
        optional_view(copy) == optional_view(*anycast),
{
    match anycast {
        Some(info) => Some(info.clone()),
        None => None,
    }
}

impl Clone for MsgAddressInt {
    fn clone(&self) -> (copy: Self)
        ensures
            copy@ == self@,
    {
        match self {
            MsgAddressInt::AddrStd(std) => MsgAddressInt::AddrStd(
                MsgAddrStd {
                    anycast: clone_anycast(&std.anycast),
                    workchain_id: std.workchain_id,
                    address: std.address.clone(),
                },
            ),
            MsgAddressInt::AddrVar(var) => MsgAddressInt::AddrVar(
                MsgAddrVar {
                    anycast: clone_anycast(&var.anycast),
                    workchain_id: var.workchain_id,
                    address: var.address.clone(),
                },
            ),
        }
    }
}

impl Clone for AccountAddress {
    fn clone(&self) -> (copy: Self)
        ensures
            copy@ == self@,
    {
        match self {
            AccountAddress::Short(id) => AccountAddress::Short(id.clone()),
            AccountAddress::Full(address) => AccountAddress::Full(address.clone()),
        }
    }
}

impl MsgAddressInt {
    /// A standard address.
    pub fn with_standart(
        anycast: Option<AnycastInfo>,
        workchain_id: i8,
        address: AccountId,
    ) -> (result: Self)
        ensures
            result@ == (MsgAddressView::Std {
                anycast: optional_view(anycast),
                workchain_id: workchain_id as int,
                address: address@,
            }),
    {
        MsgAddressInt::AddrStd(MsgAddrStd { anycast, workchain_id, address })
    }

    /// The account's identifier in its workchain.
    pub fn get_address(&self) -> (address: AccountId)
        ensures
            address@ == self@.address(),
    {
        match self {
            MsgAddressInt::AddrStd(std) => std.address.clone(),
            MsgAddressInt::AddrVar(var) => var.address.clone(),
        }
    }
}

impl From<AccountId> for AccountAddress {
    fn from(data: AccountId) -> (address: Self) {
        AccountAddress::Short(data)
    }
}

impl vstd::std_specs::convert::FromSpecImpl<AccountId> for AccountAddress {
    open spec fn obeys_from_spec() -> bool {
        true
    }

    open spec fn from_spec(data: AccountId) -> Self {
        AccountAddress::Short(data)
    }
}

impl From<MsgAddressInt> for AccountAddress {
    fn from(data: MsgAddressInt) -> (address: Self) {
        AccountAddress::Full(data)
    }
}

impl vstd::std_specs::convert::FromSpecImpl<MsgAddressInt> for AccountAddress {
    open spec fn obeys_from_spec() -> bool {
        true
    }

    open spec fn from_spec(data: MsgAddressInt) -> Self {
        AccountAddress::Full(data)
    }
}

/// The number in the range of `i8` that agrees with `n` in the low eight bits.
fn truncate(n: i32) -> (result: i8)
    ensures
        result == low_byte(n as int),
{
    assert(n as i8 == (n + 128) % 256 - 128) by (bit_vector);
    #[verifier::truncate]
    (n as i8)
}

/// The number of one byte that a byte stands for.
fn signed(byte: u8) -> (result: i8)
    ensures
        result == low_byte(byte as int),
{
    assert(byte as i8 == (byte + 128) % 256 - 128) by (bit_vector);
    #[verifier::truncate]
    (byte as i8)
}

/// The byte that stands for a number of one byte.
fn unsigned(n: i8) -> (result: u8)
    ensures
        result == byte_of(n as int),
{
    assert(n < 0 ==> n as u8 == n + 256) by (bit_vector);
    #[verifier::truncate]
    (n as u8)
}

/// The bytes followed by a checksum, high byte first.
pub fn append_checksum(payload: Vec<u8>, checksum: u16) -> (bytes: Vec<u8>)
    ensures
        bytes@ == with_checksum(payload@, checksum),
{
    let mut bytes = payload;
    bytes.push((checksum / 256) as u8);
    bytes.push((checksum % 256) as u8);
    assert(bytes@ =~= with_checksum(payload@, checksum));
    bytes
}

/// Base64 text in the alphabet that is safe in URLs.
pub fn url_alphabet(text: &str) -> (result: String)
    ensures
        result@ == to_url_alphabet(text@),
{
    let slashed = replace(text, '/', '_');
    replace(slashed.as_str(), '+', '-')
}

/// Base64 text in the standard alphabet.
pub fn standard_alphabet(text: &str) -> (result: String)
    ensures
        result@ == from_url_alphabet(text@),
        encode_utf8(result@).len() == encode_utf8(text@).len(),
{
    let slashed = replace(text, '_', '/');
    proof {
        lemma_replaced_byte_len(text@, '_', '/');
        lemma_replaced_byte_len(slashed@, '-', '+');
    }
    replace(slashed.as_str(), '-', '+')
}

/// Where the only colon of a text stands, if it has only one.
fn only_colon(text: &str) -> (position: Option<usize>)
    ensures
        match position {
            Some(i) => is_only_colon(text@, i as int),
            None => forall|i: int| !is_only_colon(text@, i),
        },
{
    let total: usize = text.unicode_len();
    let mut found: Option<usize> = None;
    let mut several: bool = false;
    let mut i: usize = 0;
    for c in chars: text.chars()
        invariant
            chars.seq() == text@,
            total == text@.len(),
            i == chars.index(),
            match found {
                Some(k) => k < i && text@[k as int] == ':',
                None => !several,
            },
            !several ==> forall|j: int|
                0 <= j < i && found != Some(j as usize) ==> #[trigger] text@[j] != ':',
            several ==> exists|j: int, k: int|
                0 <= j < k < i && #[trigger] text@[j] == ':' && #[trigger] text@[k] == ':',
    {
        if c == ':' {
            match found {
                Some(_) => {
                    several = true;
                },
                None => {
                    found = Some(i);
                },
            }
        }
        i = i + 1;
    }
    if several {
        None
    } else {
        found
    }
}

impl AccountAddress {
    /// Returns the account's identifier.
    pub fn get_account_id(&self) -> (result: SdkResult<AccountId>)
        ensures
            agrees(result, self@.account_id()),
    {
        match self {
            AccountAddress::Short(account_id) => Ok(account_id.clone()),
            AccountAddress::Full(address) => {
                let id = address.get_address();
                if id.has_256_bits() {
                    Ok(id)
                } else {
                    Err(invalid_data("Address must be 32 bytes long"))
                }
            },
        }
    }

    /// Returns the full address; a short one is taken to be in the default workchain.
    pub fn get_msg_address(&self, settings: &Settings) -> (result: SdkResult<MsgAddressInt>)
        ensures
            agrees(result, self@.msg_address(settings.default_workchain)),
    {
        match self {
            AccountAddress::Full(address) => Ok(address.clone()),
            AccountAddress::Short(id) => match settings.default_workchain {
                Some(workchain) => Ok(
                    MsgAddressInt::with_standart(None, truncate(workchain), id.clone()),
                ),
                None => Err(SdkError::DefaultWorkchainNotSet),
            },
        }
    }

    /// Creates the full address of an account in a workchain.
    pub fn with_account_id_and_workchain(workchain: i8, account_id: AccountId) -> (result:
        SdkResult<Self>)
        ensures
            agrees(result, Ok(AddressView::Full(std_address(workchain as int, account_id@)))),
    {
        Ok(AccountAddress::Full(MsgAddressInt::with_standart(None, workchain, account_id)))
    }

    /// Reads an address out of the bytes of its base64 form. `checksum` is that of the first 34
    /// bytes, and `text` is what the bytes were read from.
    pub fn from_std_payload(payload: &[u8], checksum: u16, text: &str) -> (result: SdkResult<Self>)
        requires
            payload@.len() >= 36,
        ensures
            agrees(result, payload_parsed(payload@, checksum, text@)),
    {
        let high: u8 = payload[34];
        let low: u8 = payload[35];
        let tag: u8 = payload[0];
        assert(tag & 0x3f == tag % 64) by (bit_vector);
        if checksum != (high as u16) * 256 + (low as u16) || tag & 0x3f != 0x11 {
            return Err(invalid_arg(text));
        }
        let address = BitString::from_bytes(slice_to_vec(slice_subrange(payload, 2, 34)));
        Ok(AccountAddress::from(MsgAddressInt::with_standart(None, signed(payload[1]), address)))
    }

    /// Reads an address in base64 form, in either alphabet.
    fn decode_std_base64(data: &str) -> (result: SdkResult<Self>)
        requires
            encode_utf8(data@).len() <= usize::MAX / 4,
            base64_complete(data@),
        ensures
            agrees(result, base64_parsed(data@)),
    {
        let plain = standard_alphabet(data);
        match base64_decode(plain.as_str()) {
            Ok(payload) => {
                let head = slice_subrange(payload.as_slice(), 0, 34);
                assert(head@ =~= payload@.take(34));
                let checksum: u16 = crc16(head);
                Self::from_std_payload(payload.as_slice(), checksum, plain.as_str())
            },
            Err(error) => Err(SdkError::Base64(error)),
        }
    }

    /// Reads an address of workchain number, colon and hexadecimal digits.
    fn decode_std_hex(data: &str) -> (result: SdkResult<Self>)
        ensures
            agrees(result, hex_parsed(data@)),
    {
        match only_colon(data) {
            Some(i) => {
                let total: usize = data.unicode_len();
                let number = data.substring_char(0, i);
                let digits = data.substring_char(i + 1, total);
                proof {
                    let k = choose|k: int| is_only_colon(data@, k);
                    assert(is_only_colon(data@, i as int));
                    assert(k == i);
                    assert(number@ =~= data@.take(i as int));
                    assert(digits@ =~= data@.skip(i + 1));
                }
                let workchain: i8 = match parse_i8(number) {
                    Ok(workchain) => workchain,
                    Err(error) => return Err(SdkError::ParseInt(error)),
                };
                match hex_decode(digits) {
                    Ok(bytes) => Ok(
                        AccountAddress::from(
                            MsgAddressInt::with_standart(
                                None,
                                workchain,
                                BitString::from_bytes(bytes),
                            ),
                        ),
                    ),
                    Err(error) => Err(SdkError::Hex(error)),
                }
            },
            None => Err(invalid_arg(data)),
        }
    }

    /// Reads an address from text: 64 hexadecimal digits for an account in the default
    /// workchain, the base64 form of 48 characters, or workchain number, colon and hexadecimal
    /// digits. Base64 text must not break off before the checksum; `from_str_checked` takes any
    /// text.
    pub fn from_str(data: &str) -> (result: SdkResult<Self>)
        requires
            complete(data@),
        ensures
            agrees(result, parsed(data@)),
    {
        let length: usize = data.as_bytes().len();
        if length == 64 {
            match hex_decode(data) {
                Ok(bytes) => Ok(AccountAddress::Short(BitString::from_bytes(bytes))),
                Err(error) => Err(SdkError::Hex(error)),
            }
        } else if length == 48 {
            Self::decode_std_base64(data)
        } else {
            Self::decode_std_hex(data)
        }
    }

    /// Reads an address from any text; `None` where base64 text breaks off before the checksum.
    pub fn from_str_checked(data: &str) -> (result: Option<SdkResult<Self>>)
        ensures
            result is Some <==> complete(data@),
            result matches Some(address) ==> agrees(address, parsed(data@)),
    {
        if data.as_bytes().len() == 48 {
            let plain = standard_alphabet(data);
            if let Ok(payload) = base64_decode(plain.as_str()) {
                if payload.len() < 36 {
                    return None;
                }
            }
        }
        Some(Self::from_str(data))
    }

    /// The workchain and the 32 bytes of a standard address.
    fn get_std_address(&self) -> (result: SdkResult<(i8, Vec<u8>)>)
        ensures
            match result {
                Ok((workchain, address)) => {
                    &&& self@.std_parts() == Ok::<(int, Seq<u8>), SdkErrorView>(
                        (workchain as int, address@),
                    )
                    &&& address@.len() == 32
                    &&& self@ matches AddressView::Full(full)
                    &&& full.address() == whole_bytes(address@)
                },
                Err(error) => self@.std_parts() == Err::<(int, Seq<u8>), SdkErrorView>(error@),
            },
    {
        match self {
            AccountAddress::Full(MsgAddressInt::AddrStd(std)) => {
                if !std.address.has_256_bits() {
                    return Err(invalid_data("Address must be 32 bytes long"));
                }
                Ok((std.workchain_id, slice_to_vec(std.address.bytes())))
            },
            _ => Err(invalid_data("Non-std address")),
        }
    }

    /// Returns the base64 form of a standard address. Reading the text gives the address back,
    /// without anycast information, which the form has no place for.
    pub fn as_base64(&self, bounceable: bool, test: bool, as_url: bool) -> (result: SdkResult<
        String,
    >)
        ensures
            agrees(result, self@.base64_form(bounceable, test, as_url)),
            result matches Ok(text) ==> {
                &&& text@.len() == 48
                &&& complete(text@)
                &&& self@.std_parts() matches Ok((workchain, address))
                &&& parsed(text@) == Ok::<AddressView, SdkErrorView>(
                    AddressView::Full(std_address(workchain, whole_bytes(address))),
                )
            },
    {
        let bytes = match self.std_payload(bounceable, test) {
            Ok(bytes) => bytes,
            Err(error) => return Err(error),
        };
        let ghost payload = bytes@;
        let checksum: u16 = crc16(bytes.as_slice());
        let bytes = append_checksum(bytes, checksum);
        let text = base64_encode(bytes.as_slice());
        proof {
            let (workchain, address) = self@.std_parts()->Ok_0;
            assert(payload == std_payload(workchain, address, bounceable, test));
            lemma_form_reads_back(workchain, address, bounceable, test);
        }
        if as_url {
            Ok(url_alphabet(text.as_str()))
        } else {
            Ok(text)
        }
    }

    /// Returns what the checksum of the base64 form is taken of: tag, workchain and account.
    pub fn std_payload(&self, bounceable: bool, test: bool) -> (result: SdkResult<Vec<u8>>)
        ensures
            match result {
                Ok(payload) => {
                    &&& self@.std_parts() matches Ok((workchain, address))
                    &&& payload@ == std_payload(workchain, address, bounceable, test)
                    &&& payload@.len() == 34
                },
                Err(error) => self@.std_parts() matches Err(e) && error@ == e,
            },
    {
        let (workchain, mut address) = match self.get_std_address() {
            Ok(parts) => parts,
            Err(error) => return Err(error),
        };
        let ghost account = address@;
        let mut tag: u8 = if bounceable {
            0x11
        } else {
            0x51
        };
        if test {
            assert(0x11u8 | 0x80 == 0x91 && 0x51u8 | 0x80 == 0xd1) by (bit_vector);
            tag = tag | 0x80;
        }
        let mut bytes: Vec<u8> = Vec::new();
        bytes.push(tag);
        bytes.push(unsigned(workchain));
        bytes.append(&mut address);
        assert(bytes@ =~= std_payload(workchain as int, account, bounceable, test));
        Ok(bytes)
    }
}

} // verus!
