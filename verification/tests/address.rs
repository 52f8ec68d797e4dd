use ton_sdk::address::{
    append_checksum, standard_alphabet, url_alphabet, AccountAddress, AnycastInfo, MsgAddrVar,
    MsgAddressInt,
};
use ton_sdk::bits::BitString;
use ton_sdk::error::{Base64Error, HexError, IntError, SdkError};
use ton_sdk::settings::Settings;

const ACCOUNT: &str = "fcb91a3a3816d0f7b8c2c76108b8a9bc5a6b7a55bd79f8ab101c52db29232260";

fn account_bytes() -> Vec<u8> {
    hex::decode(ACCOUNT).unwrap()
}

fn std_parts(address: &AccountAddress) -> (i8, Vec<u8>) {
    match address {
        AccountAddress::Full(MsgAddressInt::AddrStd(std)) => {
            assert!(std.anycast.is_none());
            assert_eq!(std.address.unused(), 0);
            (std.workchain_id, std.address.bytes().to_vec())
        }
        _ => panic!("no standard address"),
    }
}

fn full(workchain: i8) -> AccountAddress {
    let id = BitString::from_bytes(account_bytes());
    AccountAddress::with_account_id_and_workchain(workchain, id).unwrap()
}

#[test]
fn reads_short_address() {
    let address = AccountAddress::from_str(ACCOUNT).unwrap();
    match &address {
        AccountAddress::Short(id) => assert_eq!(id.bytes(), &account_bytes()[..]),
        _ => panic!("no short address"),
    }
    assert_eq!(address.get_account_id().unwrap().bytes(), &account_bytes()[..]);
}

#[test]
fn reads_upper_case_digits() {
    let address = AccountAddress::from_str(&ACCOUNT.to_uppercase()).unwrap();
    assert_eq!(address.get_account_id().unwrap().bytes(), &account_bytes()[..]);
}

#[test]
fn reads_workchain_and_digits() {
    let address = AccountAddress::from_str(&format!("-1:{}", ACCOUNT)).unwrap();
    assert_eq!(std_parts(&address), (-1, account_bytes()));
    let address = AccountAddress::from_str(&format!("+7:{}", ACCOUNT)).unwrap();
    assert_eq!(std_parts(&address), (7, account_bytes()));
    let address = AccountAddress::from_str("0:0102").unwrap();
    assert_eq!(std_parts(&address), (0, vec![1, 2]));
}

#[test]
fn reads_base64_in_both_alphabets() {
    let standard = "kf/8uRo6OBbQ97jCx2EIuKm8Wmt6Vb15+KsQHFLbKSMiYIny";
    let url = "kf_8uRo6OBbQ97jCx2EIuKm8Wmt6Vb15-KsQHFLbKSMiYIny";
    let mixed = "kf_8uRo6OBbQ97jCx2EIuKm8Wmt6Vb15+KsQHFLbKSMiYIny";
    assert_eq!(std_parts(&AccountAddress::from_str(standard).unwrap()), (-1, account_bytes()));
    assert_eq!(std_parts(&AccountAddress::from_str(url).unwrap()), (-1, account_bytes()));
    assert_eq!(std_parts(&AccountAddress::from_str(mixed).unwrap()), (-1, account_bytes()));
}

#[test]
fn writes_base64() {
    let address = full(-1);
    assert_eq!(
        address.as_base64(true, true, false).unwrap(),
        "kf/8uRo6OBbQ97jCx2EIuKm8Wmt6Vb15+KsQHFLbKSMiYIny"
    );
    assert_eq!(
        address.as_base64(true, true, true).unwrap(),
        "kf_8uRo6OBbQ97jCx2EIuKm8Wmt6Vb15-KsQHFLbKSMiYIny"
    );
    assert_eq!(
        address.as_base64(true, false, false).unwrap(),
        "Ef/8uRo6OBbQ97jCx2EIuKm8Wmt6Vb15+KsQHFLbKSMiYDJ4"
    );
    assert_eq!(
        address.as_base64(false, true, true).unwrap(),
        "0f_8uRo6OBbQ97jCx2EIuKm8Wmt6Vb15-KsQHFLbKSMiYNQ3"
    );
    assert_eq!(
        address.as_base64(false, false, true).unwrap(),
        "Uf_8uRo6OBbQ97jCx2EIuKm8Wmt6Vb15-KsQHFLbKSMiYG-9"
    );
    assert_eq!(
        full(-128).as_base64(false, false, false).unwrap(),
        "UYD8uRo6OBbQ97jCx2EIuKm8Wmt6Vb15+KsQHFLbKSMiYFb3"
    );
}

#[test]
fn base64_reads_back() {
    for workchain in [-128i8, -1, 0, 5, 127] {
        for flags in 0..8 {
            let text = full(workchain)
                .as_base64(flags & 1 != 0, flags & 2 != 0, flags & 4 != 0)
                .unwrap();
            assert_eq!(text.len(), 48);
            let read = AccountAddress::from_str(&text).unwrap();
            assert_eq!(std_parts(&read), (workchain, account_bytes()));
        }
    }
}

#[test]
fn refuses_wrong_checksum_and_tag() {
    let text = "kf/8uRo6OBbQ97jCx2EIuKm8Wmt6Vb15+KsQHFLbKSMiYInz";
    match AccountAddress::from_str(text) {
        Err(SdkError::InvalidArg(complaint)) => assert_eq!(complaint, text),
        _ => panic!("accepted"),
    }
    // The complaint is about the text in the standard alphabet.
    match AccountAddress::from_str("EgD8uRo6OBbQ97jCx2EIuKm8Wmt6Vb15-KsQHFLbKSMiYHl-") {
        Err(SdkError::InvalidArg(complaint)) => {
            assert_eq!(complaint, "EgD8uRo6OBbQ97jCx2EIuKm8Wmt6Vb15+KsQHFLbKSMiYHl+")
        }
        _ => panic!("accepted"),
    }
}

#[test]
fn refuses_bad_base64() {
    let text = "kf/8uRo6OBbQ97jCx2EIuKm8Wmt6Vb15+KsQHFLbKSMiYI!y";
    match AccountAddress::from_str(text) {
        Err(SdkError::Base64(error)) => assert_eq!(error, Base64Error::InvalidByte(46, b'!')),
        _ => panic!("accepted"),
    }
    // The last symbol before the padding has bits that belong to no byte.
    let text = "kf/8uRo6OBbQ97jCx2EIuKm8Wmt6Vb15+KsQHFLbKSMiYIn=";
    match AccountAddress::from_str(text) {
        Err(SdkError::Base64(error)) => assert_eq!(error, Base64Error::InvalidLastSymbol(46, b'n')),
        _ => panic!("accepted"),
    }
}

#[test]
fn tells_base64_that_breaks_off() {
    let text = "kf/8uRo6OBbQ97jCx2EIuKm8Wmt6Vb15+KsQHFLbKSMiYIk=";
    assert!(AccountAddress::from_str_checked(text).is_none());
    let text = "kf/8uRo6OBbQ97jCx2EIuKm8Wmt6Vb15+KsQHFLbKSMiYA==";
    assert!(AccountAddress::from_str_checked(text).is_none());
    let text = "kf/8uRo6OBbQ97jCx2EIuKm8Wmt6Vb15+KsQHFLbKSMiYIny";
    let read = AccountAddress::from_str_checked(text).unwrap().unwrap();
    assert_eq!(std_parts(&read), (-1, account_bytes()));
    assert!(AccountAddress::from_str_checked("").unwrap().is_err());
}

#[test]
fn reads_payload_with_given_checksum() {
    let mut payload = vec![0xd1, 0x80];
    payload.extend_from_slice(&account_bytes());
    payload.extend_from_slice(&[0x12, 0x34]);
    let read = AccountAddress::from_std_payload(&payload, 0x1234, "text").unwrap();
    assert_eq!(std_parts(&read), (-128, account_bytes()));
    assert!(AccountAddress::from_std_payload(&payload, 0x3412, "text").is_err());
    payload[0] = 0x31;
    assert!(AccountAddress::from_std_payload(&payload, 0x1234, "text").is_err());
}

#[test]
fn refuses_bad_hex() {
    let mut text = ACCOUNT.to_owned();
    text.replace_range(10..11, "g");
    match AccountAddress::from_str(&text) {
        Err(SdkError::Hex(error)) => {
            assert_eq!(error, HexError::InvalidHexCharacter { c: 'g', index: 10 })
        }
        _ => panic!("accepted"),
    }
    match AccountAddress::from_str("0:123") {
        Err(SdkError::Hex(error)) => assert_eq!(error, HexError::OddLength),
        _ => panic!("accepted"),
    }
}

#[test]
fn refuses_wrong_number_of_colons() {
    for text in ["", "abc", "0:12:34", "::"] {
        match AccountAddress::from_str(text) {
            Err(SdkError::InvalidArg(complaint)) => assert_eq!(complaint, text),
            _ => panic!("accepted"),
        }
    }
}

#[test]
fn refuses_bad_workchain() {
    for text in ["128:12", "-129:12", ":12", "-:12", " 1:12", "1_0:12", "0x1:12", "é:12"] {
        assert!(matches!(AccountAddress::from_str(text), Err(SdkError::ParseInt(_))));
    }
    // The workchain is looked at before the digits.
    assert!(matches!(AccountAddress::from_str("x:y"), Err(SdkError::ParseInt(_))));
    assert_eq!(std_parts(&AccountAddress::from_str("-128:").unwrap()), (-128, vec![]));
}

#[test]
fn account_id_must_have_256_bits() {
    let address = AccountAddress::from_str("0:0102").unwrap();
    match address.get_account_id() {
        Err(SdkError::InvalidData(text)) => assert_eq!(text, "Address must be 32 bytes long"),
        _ => panic!("accepted"),
    }
    match address.as_base64(true, false, false) {
        Err(SdkError::InvalidData(text)) => assert_eq!(text, "Address must be 32 bytes long"),
        _ => panic!("accepted"),
    }
    let bits = BitString::new(account_bytes(), 1).unwrap();
    let var = MsgAddressInt::AddrVar(MsgAddrVar { anycast: None, workchain_id: 1000, address: bits });
    assert!(AccountAddress::from(var).get_account_id().is_err());
}

#[test]
fn only_standard_addresses_have_a_base64_form() {
    let id = BitString::from_bytes(account_bytes());
    let var = MsgAddressInt::AddrVar(MsgAddrVar {
        anycast: None,
        workchain_id: 1000,
        address: id.clone(),
    });
    let var = AccountAddress::from(var);
    assert_eq!(var.get_account_id().unwrap().bytes(), &account_bytes()[..]);
    for address in [var, AccountAddress::from(id)] {
        match address.as_base64(true, false, false) {
            Err(SdkError::InvalidData(text)) => assert_eq!(text, "Non-std address"),
            _ => panic!("accepted"),
        }
    }
}

#[test]
fn base64_form_drops_anycast() {
    let anycast = AnycastInfo { depth: 2, rewrite_pfx: BitString::new(vec![0x40], 6).unwrap() };
    let id = BitString::from_bytes(account_bytes());
    let address = MsgAddressInt::with_standart(Some(anycast), -1, id);
    let text = AccountAddress::from(address.clone()).as_base64(true, true, false).unwrap();
    assert_eq!(text, "kf/8uRo6OBbQ97jCx2EIuKm8Wmt6Vb15+KsQHFLbKSMiYIny");
    match address {
        MsgAddressInt::AddrStd(std) => assert_eq!(std.anycast.unwrap().depth, 2),
        _ => panic!("no standard address"),
    }
}

#[test]
fn short_address_is_in_default_workchain() {
    let address = AccountAddress::from_str(ACCOUNT).unwrap();
    let mut settings = Settings::new();
    assert!(matches!(
        address.get_msg_address(&settings),
        Err(SdkError::DefaultWorkchainNotSet)
    ));
    settings.default_workchain = Some(-1);
    let short = AccountAddress::from(address.get_msg_address(&settings).unwrap());
    assert_eq!(std_parts(&short), std_parts(&full(-1)));
    // Only the low byte of the number has room in an address.
    settings.default_workchain = Some(0x1ff);
    let short = AccountAddress::from(address.get_msg_address(&settings).unwrap());
    assert_eq!(std_parts(&short), (-1, account_bytes()));
    settings.default_workchain = Some(-129);
    let short = AccountAddress::from(address.get_msg_address(&settings).unwrap());
    assert_eq!(std_parts(&short), (127, account_bytes()));
}

#[test]
fn full_address_needs_no_default() {
    let address = full(3);
    let same = AccountAddress::from(address.get_msg_address(&Settings::new()).unwrap());
    assert_eq!(std_parts(&same), (3, account_bytes()));
    assert_eq!(address.clone().get_account_id().unwrap().bytes(), &account_bytes()[..]);
}

#[test]
fn bit_strings_have_their_last_bits() {
    assert!(BitString::new(vec![], 1).is_none());
    assert!(BitString::new(vec![0], 8).is_none());
    assert_eq!(BitString::one().bytes(), &[0x80]);
    assert_eq!(BitString::one().unused(), 7);
    assert!(BitString::from_bytes(vec![0; 32]).has_256_bits());
    assert!(!BitString::new(vec![0; 33], 7).unwrap().has_256_bits());
}

#[test]
fn payload_is_tag_workchain_and_account() {
    for (bounceable, test, tag) in
        [(true, false, 0x11), (false, false, 0x51), (true, true, 0x91), (false, true, 0xd1)]
    {
        let mut expected = vec![tag, 0xfe];
        expected.extend_from_slice(&account_bytes());
        assert_eq!(full(-2).std_payload(bounceable, test).unwrap(), expected);
    }
    let short = AccountAddress::from_str(ACCOUNT).unwrap();
    assert!(matches!(
        short.std_payload(true, true),
        Err(SdkError::InvalidData(t)) if t == "Non-std address"
    ));
}

#[test]
fn checksum_comes_high_byte_first() {
    assert_eq!(append_checksum(vec![1, 2], 0xabcd), vec![1, 2, 0xab, 0xcd]);
    assert_eq!(append_checksum(vec![], 7), vec![0, 7]);
}

#[test]
fn alphabets_differ_in_two_characters() {
    assert_eq!(url_alphabet("a+b/c=+/"), "a-b_c=-_");
    assert_eq!(standard_alphabet("a-b_c=+/"), "a+b/c=+/");
}

#[test]
fn tells_what_is_wrong_with_the_workchain() {
    let fault = |text: &str| match AccountAddress::from_str(text) {
        Err(SdkError::ParseInt(error)) => error,
        _ => panic!("no error of the workchain"),
    };
    assert_eq!(fault(":00"), IntError::Empty);
    assert_eq!(fault("128:00"), IntError::PosOverflow);
    assert_eq!(fault("-129:00"), IntError::NegOverflow);
    assert_eq!(fault("-:00"), IntError::InvalidDigit);
    assert_eq!(fault("1 :00"), IntError::InvalidDigit);
}

#[test]
fn every_changed_character_is_refused() {
    let alphabet = "ABCDEFGHIJKLMNOPQRSTUVWXYZabcdefghijklmnopqrstuvwxyz0123456789+/";
    for text in [
        "kf/8uRo6OBbQ97jCx2EIuKm8Wmt6Vb15+KsQHFLbKSMiYIny",
        "Uf_8uRo6OBbQ97jCx2EIuKm8Wmt6Vb15-KsQHFLbKSMiYG-9",
    ] {
        assert!(AccountAddress::from_str(text).is_ok());
        for i in 0..48 {
            for other in alphabet.chars() {
                let mut changed = text.to_owned();
                changed.replace_range(i..i + 1, &other.to_string());
                if standard_alphabet(&changed) == standard_alphabet(text) {
                    continue;
                }
                match AccountAddress::from_str(&changed) {
                    Err(SdkError::InvalidArg(complaint)) => {
                        assert_eq!(complaint, standard_alphabet(&changed))
                    }
                    _ => panic!("accepted"),
                }
            }
        }
    }
}

#[test]
fn checksum_goes_by_the_polynomial() {
    let payload = full(-1).std_payload(true, true).unwrap();
    let mut crc = 0u16;
    for byte in &payload {
        crc ^= (*byte as u16) << 8;
        for _ in 0..8 {
            crc = if crc & 0x8000 != 0 { (crc << 1) ^ 0x1021 } else { crc << 1 };
        }
    }
    let text = full(-1).as_base64(true, true, false).unwrap();
    assert_eq!(base64::decode(&text).unwrap(), append_checksum(payload, crc));
}

#[test]
fn unused_bits_are_zero() {
    assert_eq!(BitString::new(vec![1, 0xff], 3).unwrap().bytes(), &[1, 0xf8]);
    assert_eq!(BitString::new(vec![0xff], 7).unwrap().bytes(), &[0x80]);
    assert_eq!(BitString::new(vec![0xff], 0).unwrap().bytes(), &[0xff]);
}

#[test]
fn read_text_is_a_form_of_the_address() {
    let text = "0f_8uRo6OBbQ97jCx2EIuKm8Wmt6Vb15-KsQHFLbKSMiYNQ3";
    let address = AccountAddress::from_str(text).unwrap();
    assert_eq!(address.as_base64(false, true, true).unwrap(), text);
    assert_eq!(address.as_base64(false, true, false).unwrap(), standard_alphabet(text));
}

#[test]
fn tells_what_is_wrong_with_base64() {
    let fault = |text: &str| {
        assert_eq!(text.len(), 48);
        match AccountAddress::from_str(text) {
            Err(SdkError::Base64(error)) => error,
            _ => panic!("no error of base64"),
        }
    };
    let start = "kf/8uRo6OBbQ97jCx2EIuKm8Wmt6Vb15+KsQHFLbKSMi";
    let with = |end: &str| fault(&format!("{}{}", start, end));
    // A byte that is no character of the alphabet.
    assert_eq!(with("Y!n="), Base64Error::InvalidByte(45, b'!'));
    assert_eq!(with("YI\u{e9}"), Base64Error::InvalidByte(46, 0xc3));
    // Padding in the wrong place, or followed by something else.
    assert_eq!(with("Y==="), Base64Error::InvalidByte(45, b'='));
    assert_eq!(with("===="), Base64Error::InvalidByte(44, b'='));
    assert_eq!(with("YI=y"), Base64Error::InvalidByte(46, b'='));
    assert_eq!(with("YI=!"), Base64Error::InvalidByte(46, b'='));
    let early = "kf==uRo6OBbQ97jCx2EIuKm8Wmt6Vb15+KsQHFLbKSMiYIny";
    assert_eq!(fault(early), Base64Error::InvalidByte(2, b'='));
    // Bits that no byte takes up.
    assert_eq!(with("YI=="), Base64Error::InvalidLastSymbol(45, b'I'));
    assert_eq!(with("YIn="), Base64Error::InvalidLastSymbol(46, b'n'));
}
