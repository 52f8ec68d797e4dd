use std::sync::Arc;
use ed25519_dalek::{Keypair, PublicKey, SecretKey};
use ton_sdk::address::{AccountAddress, MsgAddressInt};
use ton_sdk::bits::BitString;
use ton_sdk::cell::{Cell, SliceData, StateInit};
use ton_sdk::contract::{
    Account, AccountState, Contract, ContractCallState, CurrencyCollection, DecodedMessage,
    ExtraCurrency, TransactionProcessingStatus,
};
use ton_sdk::error::{SdkError, SdkResult};
use ton_sdk::image::ContractImage;
use ton_sdk::message::{
    ExternalInboundMessageHeader, Message, MessageHeader, MessageId, MessageWriter,
};
use ton_sdk::settings::Settings;

fn cell(bytes: &[u8]) -> Arc<Cell> {
    Arc::new(Cell::with_bytes(bytes.to_vec()))
}

/// A bag of cells for these tests: roots between slashes.
fn roots(bag: &[u8]) -> SdkResult<Vec<Arc<Cell>>> {
    if bag == b"!" {
        return Err(SdkError::Other("unreadable".to_owned()));
    }
    Ok(bag.split(|b| *b == b'/').map(cell).collect())
}

fn dst(message: &Message) -> (i8, Vec<u8>) {
    match &message.header {
        MessageHeader::ExtInMsgInfo(header) => match &header.dst {
            MsgAddressInt::AddrStd(std) => (std.workchain_id, std.address.bytes().to_vec()),
            _ => panic!("no standard address"),
        },
        _ => panic!("no message into the blockchain"),
    }
}

fn body(message: &Message) -> Option<Vec<u8>> {
    message.body.as_ref().map(|slice| {
        assert_eq!((slice.bit_start, slice.reference_start), (0, 0));
        slice.cell.bits.bytes().to_vec()
    })
}

/// Writes a message as workchain, first byte of the account, code and body.
fn write(message: &Message) -> SdkResult<Arc<Cell>> {
    let (workchain, account) = dst(message);
    let mut bytes = vec![workchain as u8, account[0]];
    if let Some(init) = &message.init {
        bytes.push(b'i');
        bytes.extend_from_slice(init.code.as_ref().unwrap().bits.bytes());
    }
    if let Some(body) = body(message) {
        if body == b"unwritable" {
            return Err(SdkError::Other("unwritable".to_owned()));
        }
        bytes.push(b'b');
        bytes.extend_from_slice(&body);
    }
    Ok(cell(&bytes))
}

fn repr_hash(cell: &Arc<Cell>) -> MessageId {
    [cell.bits.bytes().len() as u8; 32]
}

fn write_bag(cell: &Arc<Cell>) -> SdkResult<Vec<u8>> {
    let bytes = cell.bits.bytes();
    if bytes.ends_with(b"unpackable") {
        return Err(SdkError::Other("unpackable".to_owned()));
    }
    Ok(bytes.to_vec())
}

fn writer() -> MessageWriter<
    fn(&Message) -> SdkResult<Arc<Cell>>,
    fn(&Arc<Cell>) -> MessageId,
    fn(&Arc<Cell>) -> SdkResult<Vec<u8>>,
> {
    MessageWriter { write_to_new_cell: write, repr_hash, write_bag }
}

fn encode(
    abi: String,
    func: String,
    input: String,
    key_pair: Option<&Keypair>,
) -> Result<Arc<Cell>, String> {
    if abi.is_empty() {
        return Err("no ABI".to_owned());
    }
    let signed = if key_pair.is_some() { "signed" } else { "" };
    Ok(cell(format!("{}{}{}{}", abi, func, input, signed).as_bytes()))
}

fn prepare(abi: String, func: String, input: String) -> Result<(Arc<Cell>, Vec<u8>), String> {
    encode(abi, func, input, None).map(|body| (body, b"to sign".to_vec()))
}

fn text(s: &str) -> String {
    s.to_owned()
}

fn account() -> AccountAddress {
    AccountAddress::from(BitString::from_bytes(vec![0xaa; 32]))
}

fn in_workchain(workchain: i32) -> Settings {
    let mut settings = Settings::new();
    Contract::set_default_workchain(&mut settings, Some(workchain));
    settings
}

fn image() -> ContractImage {
    let hash = |_: &StateInit| -> SdkResult<[u8; 32]> { Ok([0xbb; 32]) };
    ContractImage::new(b"code", None, None, roots, hash).unwrap()
}

fn key_pair() -> Keypair {
    let secret = SecretKey::from_bytes(&[1; 32]).unwrap();
    let public = PublicKey::from(&secret);
    Keypair { secret, public }
}

#[test]
fn default_workchain_is_what_was_set() {
    let mut settings = Settings::new();
    assert_eq!(Contract::get_default_workchain(&settings), None);
    Contract::set_default_workchain(&mut settings, Some(-1));
    assert_eq!(Contract::get_default_workchain(&settings), Some(-1));
    Contract::set_default_workchain(&mut settings, None);
    assert_eq!(Contract::get_default_workchain(&settings), None);
}

#[test]
fn call_message_has_body_and_destination() {
    let (data, id) = Contract::construct_call_message_json(
        account(), text("f"), text("i"), text("a"), None, &in_workchain(-1), encode, &writer(),
    )
    .unwrap();
    assert_eq!(data, b"\xff\xaabafi");
    assert_eq!(id, [6; 32]);
    let keys = key_pair();
    let (data, _) = Contract::construct_call_message_json(
        account(), text("f"), text("i"), text("a"), Some(&keys), &in_workchain(0), encode, &writer(),
    )
    .unwrap();
    assert_eq!(data, b"\x00\xaabafisigned");
}

#[test]
fn call_message_needs_abi_and_workchain() {
    let result = Contract::construct_call_message_json(
        account(), text("f"), text("i"), text(""), None, &Settings::new(), encode, &writer(),
    );
    assert!(matches!(result, Err(SdkError::AbiError(t)) if t == "no ABI"));
    let result = Contract::construct_call_message_json(
        account(), text("f"), text("i"), text("a"), None, &Settings::new(), encode, &writer(),
    );
    assert!(matches!(result, Err(SdkError::DefaultWorkchainNotSet)));
}

#[test]
fn errors_of_writing_are_handed_on() {
    let result = Contract::construct_call_message_with_body(
        account(), b"unwritable", &in_workchain(0), &roots, &writer(),
    );
    assert!(matches!(result, Err(SdkError::Other(t)) if t == "unwritable"));
    let result = Contract::construct_call_message_with_body(
        account(), b"unpackable", &in_workchain(0), &roots, &writer(),
    );
    assert!(matches!(result, Err(SdkError::Other(t)) if t == "unpackable"));
}

#[test]
fn call_message_takes_body_in_bytes() {
    let (data, _) = Contract::construct_call_message_with_body(
        account(), b"body", &in_workchain(1), &roots, &writer(),
    )
    .unwrap();
    assert_eq!(data, b"\x01\xaabbody");
    let result = Contract::construct_call_message_with_body(
        account(), b"one/two", &in_workchain(1), &roots, &writer(),
    );
    assert!(matches!(result, Err(SdkError::InvalidData(t)) if t == "Deserialize message error"));
    let result = Contract::construct_call_message_with_body(
        account(), b"!", &in_workchain(1), &roots, &writer(),
    );
    assert!(matches!(result, Err(SdkError::Other(t)) if t == "unreadable"));
}

#[test]
fn deploy_message_goes_to_account_of_image() {
    let settings = in_workchain(2);
    let (data, _) = Contract::construct_deploy_message_json(
        text("f"), text("i"), text("a"), image(), None, &settings, encode, &writer(),
    )
    .unwrap();
    assert_eq!(data, b"\x02\xbbicodebafi");
    let (data, _) =
        Contract::construct_deploy_message_with_body(image(), Some(b"body"), &settings, &roots, &writer())
            .unwrap();
    assert_eq!(data, b"\x02\xbbicodebbody");
    let (data, _) =
        Contract::construct_deploy_message_with_body(image(), None, &settings, &roots, &writer())
            .unwrap();
    assert_eq!(data, b"\x02\xbbicode");
    let (data, _) =
        Contract::construct_deploy_message_no_constructor(image(), &settings, &writer()).unwrap();
    assert_eq!(data, b"\x02\xbbicode");
}

#[test]
fn deploy_message_needs_abi_body_and_workchain() {
    let settings = in_workchain(2);
    let result = Contract::construct_deploy_message_json(
        text("f"), text("i"), text(""), image(), None, &settings, encode, &writer(),
    );
    assert!(matches!(result, Err(SdkError::AbiError(_))));
    let result = Contract::construct_deploy_message_with_body(
        image(), Some(b"one/two"), &settings, &roots, &writer(),
    );
    assert!(matches!(result, Err(SdkError::InvalidData(t)) if t == "Deserialize message error"));
    let result =
        Contract::construct_deploy_message_no_constructor(image(), &Settings::new(), &writer());
    assert!(matches!(result, Err(SdkError::DefaultWorkchainNotSet)));
}

#[test]
fn messages_to_sign_come_with_the_bytes_to_sign() {
    let settings = in_workchain(0);
    let call = Contract::get_call_message_bytes_for_signing(
        account(), text("f"), text("i"), text("a"), &settings, prepare, &writer(),
    )
    .unwrap();
    assert_eq!(call.message, b"\x00\xaabafi");
    assert_eq!(call.data_to_sign, b"to sign");
    let deploy = Contract::get_deploy_message_bytes_for_signing(
        text("f"), text("i"), text("a"), image(), &settings, prepare, &writer(),
    )
    .unwrap();
    assert_eq!(deploy.message, b"\x00\xbbicodebafi");
    assert_eq!(deploy.data_to_sign, b"to sign");
    let result = Contract::get_deploy_message_bytes_for_signing(
        text("f"), text("i"), text(""), image(), &settings, prepare, &writer(),
    );
    assert!(matches!(result, Err(SdkError::AbiError(_))));
    let result = Contract::get_call_message_bytes_for_signing(
        account(), text("f"), text("i"), text("a"), &Settings::new(), prepare, &writer(),
    );
    assert!(matches!(result, Err(SdkError::DefaultWorkchainNotSet)));
}

/// Reads a message for these tests: the cell is the body, and an empty one is none.
fn message_of(slice: SliceData) -> SdkResult<Message> {
    let address = BitString::from_bytes(vec![0xcc; 32]);
    let header = ExternalInboundMessageHeader {
        src: None,
        dst: MsgAddressInt::with_standart(None, 7, address),
        import_fee: 5,
    };
    let body = if slice.cell.bits.bytes().is_empty() { None } else { Some(slice) };
    Ok(Message { header: MessageHeader::ExtInMsgInfo(header), init: None, body })
}

fn sign(signature: &[u8], public_key: &[u8], body: SliceData) -> Result<Arc<Cell>, String> {
    if signature.is_empty() {
        return Err("no signature".to_owned());
    }
    Ok(cell(&[signature, public_key, body.cell.bits.bytes()].concat()))
}

#[test]
fn signature_goes_into_the_body() {
    let (data, id) =
        Contract::add_sign_to_message(b"s", b"k", b"body", &roots, &message_of, &sign, &writer())
            .unwrap();
    assert_eq!(data, b"\x07\xccbskbody");
    assert_eq!(id, [9; 32]);
}

#[test]
fn only_a_message_with_body_can_be_signed() {
    let sign_it = |signature: &[u8], message: &[u8]| {
        Contract::add_sign_to_message(
            signature, b"k", message, &roots, &message_of, &sign, &writer(),
        )
    };
    assert!(matches!(sign_it(b"s", b""), Err(SdkError::InvalidData(t)) if t == "No message body"));
    assert!(matches!(sign_it(b"", b"body"), Err(SdkError::AbiError(t)) if t == "no signature"));
    assert!(matches!(
        sign_it(b"s", b"one/two"),
        Err(SdkError::InvalidData(t)) if t == "Deserialize message error"
    ));
}

#[test]
fn reads_message_from_bytes() {
    let message = Contract::deserialize_message(b"body", &roots, &message_of).unwrap();
    assert_eq!(dst(&message), (7, vec![0xcc; 32]));
    assert_eq!(body(&message), Some(b"body".to_vec()));
    let result = Contract::deserialize_message(b"one/two", &roots, &message_of);
    assert!(matches!(result, Err(SdkError::InvalidData(t)) if t == "Deserialize message error"));
}

#[test]
fn identifier_of_a_message_is_its_hash() {
    let message = message_of(SliceData::from_cell(cell(b"xyz"))).unwrap();
    let (data, id) = Contract::serialize_message(message, &writer()).unwrap();
    assert_eq!(data, b"\x07\xccbxyz");
    assert_eq!(id, [6; 32]);
}

fn contract(state: Option<AccountState>, id: Option<u8>) -> Contract {
    let acc = Account {
        id: id.map(|byte| BitString::from_bytes(vec![byte; 32])),
        balance: None,
        state,
    };
    Contract::from_record(Some(Ok(acc))).unwrap().unwrap()
}

fn active(code: Option<Arc<Cell>>) -> Option<AccountState> {
    let mut state = StateInit::empty();
    state.code = code;
    state.data = Some(cell(b"data"));
    Some(AccountState::AccountActive(state))
}

/// A virtual machine for these tests: it answers with code, data and the destination.
fn run(code: Arc<Cell>, data: Option<Arc<Cell>>, message: &Message) -> SdkResult<Vec<Message>> {
    let mut bytes = code.bits.bytes().to_vec();
    bytes.extend_from_slice(data.unwrap().bits.bytes());
    bytes.push(dst(message).1[0]);
    bytes.extend_from_slice(&body(message).unwrap());
    Ok(vec![message_of(SliceData::from_cell(cell(&bytes)))?])
}

fn some_message() -> Message {
    message_of(SliceData::from_cell(cell(b"m"))).unwrap()
}

#[test]
fn runs_active_contract() {
    let contract = contract(active(Some(cell(b"code"))), Some(1));
    let sent = contract.local_call(some_message(), run).unwrap();
    assert_eq!(sent.len(), 1);
    assert_eq!(body(&sent[0]), Some(b"codedata\xccm".to_vec()));
}

#[test]
fn runs_no_contract_without_code_or_state() {
    let result = contract(active(None), None).local_call(some_message(), run);
    assert!(matches!(result, Err(SdkError::InvalidData(t)) if t == "Account has no code"));
    let result = contract(None, None).local_call(some_message(), run);
    assert!(matches!(result, Err(SdkError::InvalidData(t)) if t == "Account has no state"));
    let frozen = Some(AccountState::AccountFrozen(text("frozen")));
    let result = contract(frozen, None).local_call(some_message(), run);
    assert!(matches!(
        result,
        Err(SdkError::InvalidData(t)) if t == "Account is not active. State: frozen"
    ));
    let uninit = Some(AccountState::AccountUninit(text("uninit")));
    let result = contract(uninit, None).local_call(some_message(), run);
    assert!(matches!(
        result,
        Err(SdkError::InvalidData(t)) if t == "Account is not active. State: uninit"
    ));
    let mut state = StateInit::empty();
    state.data = Some(cell(b"data"));
    let result = Contract::local_contract_call_by_data(state, some_message(), run);
    assert!(matches!(result, Err(SdkError::InvalidData(t)) if t == "Account has no code"));
}

#[test]
fn runs_function_call() {
    let call = |contract: &Contract, abi: &str, settings: &Settings| {
        contract.local_call_json(
            text("f"), text("i"), text(abi), None, settings, encode, run,
        )
    };
    let known = contract(active(Some(cell(b"code"))), Some(1));
    let sent = call(&known, "a", &in_workchain(0)).unwrap();
    assert_eq!(body(&sent[0]), Some(b"codedata\x01afi".to_vec()));
    // An account without identifier gets the address zero.
    let unknown = contract(active(Some(cell(b"code"))), None);
    let sent = call(&unknown, "a", &in_workchain(0)).unwrap();
    assert_eq!(body(&sent[0]), Some(b"codedata\x00afi".to_vec()));
    assert!(matches!(call(&known, "", &in_workchain(0)), Err(SdkError::AbiError(_))));
    assert!(matches!(
        call(&known, "a", &Settings::new()),
        Err(SdkError::DefaultWorkchainNotSet)
    ));
}

#[test]
fn tells_what_is_known_of_the_account() {
    let empty = contract(None, None);
    assert!(matches!(empty.id(), Err(SdkError::InvalidData(t)) if t == "No account ID"));
    assert!(matches!(
        empty.balance_grams(),
        Err(SdkError::InvalidData(t)) if t == "No balance in account"
    ));
    assert!(matches!(
        empty.balance(),
        Err(SdkError::InvalidData(t)) if t == "No balance in account"
    ));
    let acc = Account {
        id: Some(BitString::from_bytes(vec![4; 32])),
        balance: Some(CurrencyCollection {
            grams: 1_000_000_007,
            other: vec![ExtraCurrency { id: 3, amount: [9; 32] }],
        }),
        state: None,
    };
    let known = Contract::from_record(Some(Ok(acc))).unwrap().unwrap();
    assert_eq!(known.id().unwrap().bytes(), &[4; 32]);
    assert_eq!(known.balance_grams().unwrap(), 1_000_000_007);
    let balance = known.balance().unwrap();
    assert_eq!(balance.grams, 1_000_000_007);
    assert_eq!((balance.other[0].id, balance.other[0].amount), (3, [9; 32]));
    assert!(known.acc().state.is_none());
}

#[test]
fn loads_contract_from_record() {
    assert!(Contract::from_record(None).unwrap().is_none());
    let result = Contract::from_record(Some(Err(text("no id"))));
    assert!(matches!(result, Err(SdkError::InvalidData(t)) if t == "error parsing account: no id"));
}

#[test]
fn loads_contract_from_json() {
    let parse = |json: &str| -> Result<Account, serde_json::Error> {
        let byte: u8 = serde_json::from_str(json)?;
        Ok(Account { id: Some(BitString::from_bytes(vec![byte; 32])), balance: None, state: None })
    };
    let contract = Contract::from_json("17", parse).unwrap();
    assert_eq!(contract.id().unwrap().bytes(), &[17; 32]);
    assert!(matches!(Contract::from_json("x", parse), Err(SdkError::SerdeJson(_))));
}

fn decode(abi: String, function: String, response: SliceData) -> Result<String, String> {
    if abi.is_empty() {
        return Err("no ABI".to_owned());
    }
    let body = String::from_utf8(response.cell.bits.bytes().to_vec()).unwrap();
    Ok(format!("{}{}{}", abi, function, body))
}

fn decode_any(abi: String, response: SliceData) -> Result<DecodedMessage, String> {
    decode(abi, text("any"), response)
        .map(|params| DecodedMessage { function_name: text("any"), params })
}

#[test]
fn decodes_responses_and_calls() {
    let slice = || SliceData::from_cell(cell(b"r"));
    let read = Contract::decode_function_response_json(text("a"), text("f"), slice(), decode);
    assert_eq!(read.unwrap(), "afr");
    let read = Contract::decode_function_response_json(text(""), text("f"), slice(), decode);
    assert!(matches!(read, Err(SdkError::AbiError(t)) if t == "no ABI"));
    let read = Contract::decode_function_response_from_bytes_json(
        text("a"), text("f"), b"bytes", &roots, decode,
    );
    assert_eq!(read.unwrap(), "afbytes");
    let read = Contract::decode_unknown_function_response_json(text("a"), slice(), decode_any);
    assert_eq!(read.unwrap().params, "aanyr");
    let read = Contract::decode_unknown_function_response_from_bytes_json(
        text("a"), b"bytes", &roots, decode_any,
    );
    assert_eq!(read.unwrap().params, "aanybytes");
    let read = Contract::decode_unknown_function_call_json(text("a"), slice(), decode_any);
    assert_eq!(read.unwrap().function_name, "any");
    let read = Contract::decode_unknown_function_call_from_bytes_json(
        text("a"), b"bytes", &roots, decode_any,
    );
    assert_eq!(read.unwrap().params, "aanybytes");
}

#[test]
fn decodes_only_a_single_root() {
    let read = Contract::decode_function_response_from_bytes_json(
        text("a"), text("f"), b"one/two", &roots, decode,
    );
    assert!(matches!(read, Err(SdkError::InvalidData(t)) if t == "Deserialize message error"));
    let read = Contract::decode_unknown_function_response_from_bytes_json(
        text("a"), b"one/two", &roots, decode_any,
    );
    assert!(read.is_err());
    let read = Contract::decode_unknown_function_call_from_bytes_json(
        text("a"), b"!", &roots, decode_any,
    );
    assert!(matches!(read, Err(SdkError::Other(t)) if t == "unreadable"));
}

#[test]
fn call_states_compare_by_their_fields() {
    let state = ContractCallState { id: [1; 32], status: TransactionProcessingStatus::Proposed };
    assert_eq!(state, state.clone());
    let later = ContractCallState { status: TransactionProcessingStatus::Finalized, ..state };
    assert_ne!(state, later);
}

/// Reads what `write` writes of a message with body and without state.
fn message_back(slice: SliceData) -> SdkResult<Message> {
    let bytes = slice.cell.bits.bytes();
    assert_eq!(bytes[2], b'b');
    let address = BitString::from_bytes(vec![bytes[1]; 32]);
    let header = ExternalInboundMessageHeader {
        src: None,
        dst: MsgAddressInt::with_standart(None, bytes[0] as i8, address),
        import_fee: 0,
    };
    let body = Some(SliceData::from_cell(cell(&bytes[3..])));
    Ok(Message { header: MessageHeader::ExtInMsgInfo(header), init: None, body })
}

#[test]
fn message_to_sign_is_signed_as_it_was_made() {
    let call = Contract::get_call_message_bytes_for_signing(
        account(), text("f"), text("i"), text("a"), &in_workchain(-1), prepare, &writer(),
    )
    .unwrap();
    let (data, _) = Contract::add_sign_to_message(
        b"s", b"k", &call.message, &roots, &message_back, &sign, &writer(),
    )
    .unwrap();
    assert_eq!(data, b"\xff\xaabskafi");
}

/// Reads what `write` writes of a message with the state of `image` and perhaps a body.
fn deployment_back(slice: SliceData) -> SdkResult<Message> {
    let bytes = slice.cell.bits.bytes();
    assert_eq!(&bytes[2..7], b"icode");
    let address = BitString::from_bytes(vec![bytes[1]; 32]);
    let header = ExternalInboundMessageHeader {
        src: None,
        dst: MsgAddressInt::with_standart(None, bytes[0] as i8, address),
        import_fee: 0,
    };
    let mut init = StateInit::empty();
    init.code = Some(cell(b"code"));
    let body = if bytes.len() > 7 { Some(SliceData::from_cell(cell(&bytes[8..]))) } else { None };
    Ok(Message { header: MessageHeader::ExtInMsgInfo(header), init: Some(init), body })
}

#[test]
fn message_without_body_cannot_be_signed_after_writing() {
    let (data, _) =
        Contract::construct_deploy_message_no_constructor(image(), &in_workchain(0), &writer())
            .unwrap();
    let result = Contract::add_sign_to_message(
        b"s", b"k", &data, &roots, &deployment_back, &sign, &writer(),
    );
    assert!(matches!(result, Err(SdkError::InvalidData(t)) if t == "No message body"));
}

#[test]
fn reading_undoes_writing() {
    let written = Contract::construct_deploy_message_with_body(
        image(), Some(b"body"), &in_workchain(-1), &roots, &writer(),
    )
    .unwrap();
    assert_eq!(written.0, b"\xff\xbbicodebbody");
    let read = Contract::deserialize_message(&written.0, &roots, &deployment_back).unwrap();
    assert_eq!(dst(&read), (-1, vec![0xbb; 32]));
    assert_eq!(body(&read), Some(b"body".to_vec()));
    assert_eq!(Contract::serialize_message(read, &writer()).unwrap(), written);
}

#[test]
fn writing_twice_gives_the_same() {
    let make = || {
        Contract::construct_call_message_with_body(
            account(), b"body", &in_workchain(3), &roots, &writer(),
        )
        .unwrap()
    };
    assert_eq!(make(), make());
}

#[test]
fn no_body_is_no_constructor() {
    let settings = in_workchain(5);
    let left_out =
        Contract::construct_deploy_message_with_body(image(), None, &settings, &roots, &writer());
    let none = Contract::construct_deploy_message_no_constructor(image(), &settings, &writer());
    assert_eq!(left_out.unwrap(), none.unwrap());
}

#[test]
fn loads_contract_from_value() {
    let parse = |value: serde_json::Value| -> Result<Account, String> {
        match value.as_u64() {
            Some(byte) => Ok(Account {
                id: Some(BitString::from_bytes(vec![byte as u8; 32])),
                balance: None,
                state: None,
            }),
            None => Err(text("no number")),
        }
    };
    let value = |json: &str| serde_json::from_str(json).unwrap();
    assert!(Contract::from_value(value("null"), parse).unwrap().is_none());
    let contract = Contract::from_value(value("7"), parse).unwrap().unwrap();
    assert_eq!(contract.id().unwrap().bytes(), &[7; 32]);
    for json in ["false", "0.5", "\"null\"", "[]", "{}"] {
        assert!(matches!(
            Contract::from_value(value(json), parse),
            Err(SdkError::InvalidData(t)) if t == "error parsing account: no number"
        ));
    }
}
