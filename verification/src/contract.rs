//! Contracts: what is known of them, and the messages that deploy and call them.

use std::sync::Arc;
use ed25519_dalek::Keypair;
use vstd::prelude::*;
use vstd::string::StringExecFns;
use crate::address::{AccountAddress, AddressView};
use crate::bits::{whole_bytes, AccountId, BitString, BitsView};
use crate::cell::{read_root, whole_cell, Cell, SliceData, StateInit};
use crate::error::{agrees, invalid_data, SdkError, SdkErrorView, SdkResult};
use crate::image::{ContractImage, ImageView};
use crate::json::{is_json_null, json_is_null};
use crate::message::{
    inbound, message_created, message_read, message_written, slice_read, Message, MessageId,
    MessageToSign, MessageWriter,
};
use crate::settings::Settings;

verus! {

/// An outside type: a pair of a secret and a public key.
#[verifier::external_type_specification]
#[verifier::external_body]
pub struct ExKeypair(Keypair);

/// How far a transaction has come.
#[derive(Clone, Copy, Debug, PartialEq, Eq, Structural)]
pub enum TransactionProcessingStatus {
    Unknown,
    Preliminary,
    Proposed,
    Finalized,
    Refused,
}

/// The state of a message that calls a contract.
#[derive(Clone, Copy, Debug, PartialEq, Eq)]
pub struct ContractCallState {
    pub id: [u8; 32],
    pub status: TransactionProcessingStatus,
}

/// A function call or its result, read from the body of a message.
#[derive(Debug)]
pub struct DecodedMessage {
    pub function_name: String,
    pub params: String,
}

/// An amount of another currency than grams, high byte first.
#[derive(Clone, Copy, Debug)]
pub struct ExtraCurrency {
    pub id: u32,
    pub amount: [u8; 32],
}

/// Amounts of currencies; grams are counted in nanograms.
#[derive(Debug)]
pub struct CurrencyCollection {
    pub grams: u128,
    pub other: Vec<ExtraCurrency>,
}

/// The state of an account. Of a state that is not active there is only the text that describes
/// it.
#[derive(Debug)]
pub enum AccountState {
    AccountUninit(String),
    AccountActive(StateInit),
    AccountFrozen(String),
}

/// What is known of an account.
#[derive(Debug)]
pub struct Account {
    pub id: Option<AccountId>,
    pub balance: Option<CurrencyCollection>,
    pub state: Option<AccountState>,
}

/// A contract in the blockchain; contract and account are the same thing.
#[derive(Debug)]
pub struct Contract {
    acc: Account,
}

/// Amounts of currencies as contracts of functions speak of them.
#[verifier::ext_equal]
pub struct CurrencyView {
    pub grams: u128,
    pub other: Seq<ExtraCurrency>,
}

impl View for CurrencyCollection {
    type V = CurrencyView;

    open spec fn view(&self) -> CurrencyView {
        CurrencyView { grams: self.grams, other: self.other@ }
    }
}

impl View for Contract {
    type V = Account;

    closed spec fn view(&self) -> Account {
        self.acc
    }
}

impl Account {
    /// The account's identifier.
    pub open spec fn known_id(self) -> Result<BitsView, SdkErrorView> {
        match self.id {
            Some(id) => Ok(id@),
            None => Err(SdkErrorView::InvalidData("No account ID"@)),
        }
    }

    /// The account's balance.
    pub open spec fn known_balance(self) -> Result<CurrencyView, SdkErrorView> {
        match self.balance {
            Some(balance) => Ok(balance@),
            None => Err(SdkErrorView::InvalidData("No balance in account"@)),
        }
    }

    /// The account's address: that of the identifier zero where the account has none.
    pub open spec fn address(self) -> AddressView {
        match self.id {
            Some(id) => AddressView::Short(id@),
            None => AddressView::Short(whole_bytes(Seq::new(32, |i: int| 0u8))),
        }
    }
}

/// `result` is what a record of the database is read as.
pub open spec fn record_read(
    record: Option<Result<Account, String>>,
    result: SdkResult<Option<Contract>>,
) -> bool {
    match record {
        None => result matches Ok(contract) && contract is None,
        Some(Ok(acc)) => result matches Ok(Some(contract)) && contract@ == acc,
        Some(Err(text)) => result matches Err(error) && error@ == SdkErrorView::InvalidData(
            "error parsing account: "@ + text@,
        ),
    }
}

/// `result` can come of running a contract from this state.
pub open spec fn state_called<
    R: Fn(Arc<Cell>, Option<Arc<Cell>>, &Message) -> SdkResult<Vec<Message>>,
>(run: R, state: StateInit, message: Message, result: SdkResult<Vec<Message>>) -> bool {
    match state.code {
        Some(code) => call_ensures(run, (code, state.data, &message), result),
        None => result matches Err(error) && error@ == SdkErrorView::InvalidData(
            "Account has no code"@,
        ),
    }
}

/// The complaint about a state that is not active.
pub open spec fn not_active(state: Seq<char>) -> SdkErrorView {
    SdkErrorView::InvalidData("Account is not active. State: "@ + state)
}

/// `result` can come of running the contract of an account.
pub open spec fn account_called<
    R: Fn(Arc<Cell>, Option<Arc<Cell>>, &Message) -> SdkResult<Vec<Message>>,
>(run: R, acc: Account, message: Message, result: SdkResult<Vec<Message>>) -> bool {
    match acc.state {
        Some(AccountState::AccountActive(state)) => state_called(run, state, message, result),
        Some(AccountState::AccountUninit(text)) => result matches Err(error) && error@
            == not_active(text@),
        Some(AccountState::AccountFrozen(text)) => result matches Err(error) && error@
            == not_active(text@),
        None => result matches Err(error) && error@ == SdkErrorView::InvalidData(
            "Account has no state"@,
        ),
    }
}

impl Contract {
    /// Sets the number of the workchain in which an account is looked for when its address names
    /// none.
    pub fn set_default_workchain(settings: &mut Settings, workchain: Option<i32>)
        ensures
            final(settings).default_workchain == workchain,
    {
        settings.default_workchain = workchain;
    }

    /// Returns the number of the workchain in which an account is looked for when its address
    /// names none.
    pub fn get_default_workchain(settings: &Settings) -> (workchain: Option<i32>)
        ensures
            workchain == settings.default_workchain,
    {
        settings.default_workchain
    }

    /// Returns the contract's identifier.
    pub fn id(&self) -> (result: SdkResult<AccountId>)
        ensures
            agrees(result, self@.known_id()),
    {
        match &self.acc.id {
            Some(id) => Ok(id.clone()),
            None => Err(invalid_data("No account ID")),
        }
    }

    /// Returns the contract's balance in nanograms.
    pub fn balance_grams(&self) -> (result: SdkResult<u128>)
        ensures
            match result {
                Ok(grams) => self@.known_balance() matches Ok(balance) && grams == balance.grams,
                Err(error) => self@.known_balance() matches Err(e) && error@ == e,
            },
    {
        match &self.acc.balance {
            Some(balance) => Ok(balance.grams),
            None => Err(invalid_data("No balance in account")),
        }
    }

    /// Returns the contract's balance.
    pub fn balance(&self) -> (result: SdkResult<CurrencyCollection>)
        ensures
            agrees(result, self@.known_balance()),
    {
        match &self.acc.balance {
            Some(balance) => Ok(
                CurrencyCollection {
                    grams: balance.grams,
                    other: vstd::slice::slice_to_vec(balance.other.as_slice()),
                },
            ),
            None => Err(invalid_data("No balance in account")),
        }
    }

    /// Returns what is known of the contract's account.
    pub fn acc(&self) -> (acc: &Account)
        ensures
            *acc == self@,
    {
        &self.acc
    }

    /// Creates a contract from JSON. `parse` reads an account from JSON.
    pub fn from_json<F: Fn(&str) -> Result<Account, serde_json::Error>>(
        json: &str,
        parse: F,
    ) -> (result: SdkResult<Self>)
        requires
            call_requires(parse, (json,)),
        ensures
            match result {
                Ok(contract) => call_ensures(
                    parse,
                    (json,),
                    Ok::<Account, serde_json::Error>(contract@),
                ),
                Err(SdkError::SerdeJson(error)) => call_ensures(
                    parse,
                    (json,),
                    Err::<Account, serde_json::Error>(error),
                ),
                Err(_) => false,
            },
    {
        let parsed = parse(json);
        match parsed {
            Ok(acc) => Ok(Contract { acc }),
            Err(error) => Err(SdkError::SerdeJson(error)),
        }
    }

    /// Creates a contract from a record of the database: none where there is no record, and an
    /// error where the record could not be read as an account.
    pub fn from_record(record: Option<Result<Account, String>>) -> (result: SdkResult<
        Option<Self>,
    >)
        ensures
            record_read(record, result),
    {
        match record {
            None => Ok(None),
            Some(Ok(acc)) => Ok(Some(Contract { acc })),
            Some(Err(text)) => {
                let mut message = "error parsing account: ".to_owned();
                message.append(text.as_str());
                Err(SdkError::InvalidData(message))
            },
        }
    }

    /// Creates a contract from the JSON value that the database has for it: none where the value
    /// is `null`. `parse` reads an account from a JSON value, or tells why it cannot.
    pub fn from_value<F: Fn(serde_json::Value) -> Result<Account, String>>(
        value: serde_json::Value,
        parse: F,
    ) -> (result: SdkResult<Option<Self>>)
        requires
            call_requires(parse, (value,)),
        ensures
            if is_json_null(value) {
                record_read(None, result)
            } else {
                exists|record: Result<Account, String>| #[trigger]
                    call_ensures(parse, (value,), record) && record_read(Some(record), result)
            },
    {
        if json_is_null(&value) {
            Self::from_record(None)
        } else {
            let record = parse(value);
            Self::from_record(Some(record))
        }
    }

    // ------- Running contracts on this machine -------

    /// Runs a contract from a state with an inbound message and returns the outbound messages.
    /// `run` is the virtual machine; it takes code, data and the message.
    pub fn local_contract_call_by_data<
        R: Fn(Arc<Cell>, Option<Arc<Cell>>, &Message) -> SdkResult<Vec<Message>>,
    >(state: StateInit, message: Message, run: R) -> (result: SdkResult<Vec<Message>>)
        requires
            forall|code: Arc<Cell>, data: Option<Arc<Cell>>, m: &Message| #[trigger]
                call_requires(run, (code, data, m)),
        ensures
            state_called(run, state, message, result),
    {
        match state.code {
            Some(code) => run(code, state.data, &message),
            None => Err(invalid_data("Account has no code")),
        }
    }

    /// Runs the contract with an inbound message and returns the outbound messages.
    pub fn local_call<R: Fn(Arc<Cell>, Option<Arc<Cell>>, &Message) -> SdkResult<Vec<Message>>>(
        &self,
        message: Message,
        run: R,
    ) -> (result: SdkResult<Vec<Message>>)
        requires
            forall|code: Arc<Cell>, data: Option<Arc<Cell>>, m: &Message| #[trigger]
                call_requires(run, (code, data, m)),
        ensures
            account_called(run, self@, message, result),
    {
        match &self.acc.state {
            Some(AccountState::AccountActive(state)) => {
                Self::local_contract_call_by_data(state.clone(), message, run)
            },
            Some(AccountState::AccountUninit(text)) => Err(inactive(text)),
            Some(AccountState::AccountFrozen(text)) => Err(inactive(text)),
            None => Err(invalid_data("Account has no state")),
        }
    }

    /// Runs the contract with a function call in JSON and returns the outbound messages.
    /// `encode_function_call` packs ABI, function name and input into a message's body, signed
    /// if there are keys.
    pub fn local_call_json<
        E: Fn(String, String, String, Option<&Keypair>) -> Result<Arc<Cell>, String>,
        R: Fn(Arc<Cell>, Option<Arc<Cell>>, &Message) -> SdkResult<Vec<Message>>,
    >(
        &self,
        func: String,
        input: String,
        abi: String,
        key_pair: Option<&Keypair>,
        settings: &Settings,
        encode_function_call: E,
        run: R,
    ) -> (result: SdkResult<Vec<Message>>)
        requires
            call_requires(encode_function_call, (abi, func, input, key_pair)),
            forall|code: Arc<Cell>, data: Option<Arc<Cell>>, m: &Message| #[trigger]
                call_requires(run, (code, data, m)),
        ensures
            exists|body: Result<Arc<Cell>, String>| #[trigger]
                call_ensures(encode_function_call, (abi, func, input, key_pair), body)
                    && match body {
                    Ok(body) => body_called(
                        run,
                        self@,
                        settings.default_workchain,
                        body,
                        result,
                    ),
                    Err(text) => result == Err::<Vec<Message>, SdkError>(SdkError::AbiError(text)),
                },
    {
        let encoded = encode_function_call(abi, func, input, key_pair);
        let msg_body = match encoded {
            Ok(body) => body,
            Err(text) => return Err(SdkError::AbiError(text)),
        };
        let address = match self.id() {
            Ok(id) => AccountAddress::from(id),
            Err(_) => {
                let zeros: [u8; 32] = [0;32];
                let id = BitString::from_bytes(vstd::slice::slice_to_vec(zeros.as_slice()));
                assert(id@ =~= whole_bytes(Seq::new(32, |i: int| 0u8)));
                AccountAddress::from(id)
            },
        };
        let created = Self::create_message(address, SliceData::from_cell(msg_body), settings);
        match created {
            Ok(message) => {
                let called = self.local_call(message, run);
                assert(body_called(run, self@, settings.default_workchain, msg_body, called));
                called
            },
            Err(error) => Err(error),
        }
    }

    // ------- Creating, writing and reading messages -------

    fn create_message(address: AccountAddress, msg_body: SliceData, settings: &Settings) -> (result:
        SdkResult<Message>)
        ensures
            message_created(
                address@,
                settings.default_workchain,
                Some(msg_body),
                None,
                result,
            ),
    {
        match address.get_msg_address(settings) {
            Ok(dst) => Ok(inbound(dst, Some(msg_body), None)),
            Err(error) => Err(error),
        }
    }

    fn create_deploy_message(
        msg_body: Option<SliceData>,
        image: ContractImage,
        settings: &Settings,
    ) -> (result: SdkResult<Message>)
        ensures
            message_created(
                AddressView::Short(image@.id),
                settings.default_workchain,
                msg_body,
                Some(image@.state_init),
                result,
            ),
    {
        let account_id = image.account_id();
        let state_init = image.state_init();
        match AccountAddress::from(account_id).get_msg_address(settings) {
            Ok(dst) => Ok(inbound(dst, msg_body, Some(state_init))),
            Err(error) => Err(error),
        }
    }

    /// Writes a message into bytes and returns them with the message's identifier.
    pub fn serialize_message<
        W: Fn(&Message) -> SdkResult<Arc<Cell>>,
        H: Fn(&Arc<Cell>) -> MessageId,
        B: Fn(&Arc<Cell>) -> SdkResult<Vec<u8>>,
    >(msg: Message, writer: &MessageWriter<W, H, B>) -> (result: SdkResult<(Vec<u8>, MessageId)>)
        requires
            writer.total(),
        ensures
            writer.written(msg, result),
    {
        let cells = (writer.write_to_new_cell)(&msg);
        match cells {
            Ok(cells) => {
                let id = (writer.repr_hash)(&cells);
                let data = (writer.write_bag)(&cells);
                match data {
                    Ok(data) => Ok((data, id)),
                    Err(error) => Err(error),
                }
            },
            Err(error) => Err(error),
        }
    }

    /// Reads a tree of cells from bytes.
    fn deserialize_tree_to_slice<D: Fn(&[u8]) -> SdkResult<Vec<Arc<Cell>>>>(
        data: &[u8],
        deserialize_cells_tree: &D,
    ) -> (result: SdkResult<SliceData>)
        requires
            call_requires(*deserialize_cells_tree, (data,)),
        ensures
            slice_read(*deserialize_cells_tree, data, result),
    {
        match read_root(deserialize_cells_tree, data, "Deserialize message error") {
            Ok(root) => Ok(SliceData::from_cell(root)),
            Err(error) => Err(error),
        }
    }

    /// Reads a message from bytes. `deserialize_cells_tree` reads the roots of a bag of cells,
    /// and `construct_from` reads a message from a cell.
    pub fn deserialize_message<
        D: Fn(&[u8]) -> SdkResult<Vec<Arc<Cell>>>,
        C: Fn(SliceData) -> SdkResult<Message>,
    >(message: &[u8], deserialize_cells_tree: &D, construct_from: &C) -> (result: SdkResult<
        Message,
    >)
        requires
            call_requires(*deserialize_cells_tree, (message,)),
            forall|slice: SliceData| #[trigger] call_requires(*construct_from, (slice,)),
        ensures
            message_read(*deserialize_cells_tree, *construct_from, message, result),
    {
        match Self::deserialize_tree_to_slice(message, deserialize_cells_tree) {
            Ok(slice) => construct_from(slice),
            Err(error) => Err(error),
        }
    }

    // ------- Calls -------

    /// Packs a function call in JSON into a message to the contract and returns the message in
    /// bytes with its identifier. `encode_function_call` is as in `local_call_json`.
    pub fn construct_call_message_json<
        E: Fn(String, String, String, Option<&Keypair>) -> Result<Arc<Cell>, String>,
        W: Fn(&Message) -> SdkResult<Arc<Cell>>,
        H: Fn(&Arc<Cell>) -> MessageId,
        B: Fn(&Arc<Cell>) -> SdkResult<Vec<u8>>,
    >(
        address: AccountAddress,
        func: String,
        input: String,
        abi: String,
        key_pair: Option<&Keypair>,
        settings: &Settings,
        encode_function_call: E,
        writer: &MessageWriter<W, H, B>,
    ) -> (result: SdkResult<(Vec<u8>, MessageId)>)
        requires
            call_requires(encode_function_call, (abi, func, input, key_pair)),
            writer.total(),
        ensures
            exists|body: Result<Arc<Cell>, String>| #[trigger]
                call_ensures(encode_function_call, (abi, func, input, key_pair), body)
                    && match body {
                    Ok(body) => message_written(
                        *writer,
                        address@,
                        settings.default_workchain,
                        Some(whole_cell(body)),
                        None,
                        result,
                    ),
                    Err(text) => result == Err::<(Vec<u8>, MessageId), SdkError>(
                        SdkError::AbiError(text),
                    ),
                },
    {
        let encoded = encode_function_call(abi, func, input, key_pair);
        match encoded {
            Ok(body) => {
                let msg = Self::create_message(address, SliceData::from_cell(body), settings);
                Self::write(msg, writer)
            },
            Err(text) => Err(SdkError::AbiError(text)),
        }
    }

    /// Writes a message, if there is one.
    fn write<
        W: Fn(&Message) -> SdkResult<Arc<Cell>>,
        H: Fn(&Arc<Cell>) -> MessageId,
        B: Fn(&Arc<Cell>) -> SdkResult<Vec<u8>>,
    >(msg: SdkResult<Message>, writer: &MessageWriter<W, H, B>) -> (result: SdkResult<
        (Vec<u8>, MessageId),
    >)
        requires
            writer.total(),
        ensures
            match msg {
                Ok(message) => writer.written(message, result),
                Err(error) => result == Err::<(Vec<u8>, MessageId), SdkError>(error),
            },
    {
        match msg {
            Ok(message) => Self::serialize_message(message, writer),
            Err(error) => Err(error),
        }
    }

    /// Writes a message that is still to be signed, if there is one.
    fn write_to_sign<
        W: Fn(&Message) -> SdkResult<Arc<Cell>>,
        H: Fn(&Arc<Cell>) -> MessageId,
        B: Fn(&Arc<Cell>) -> SdkResult<Vec<u8>>,
    >(msg: SdkResult<Message>, data_to_sign: Vec<u8>, writer: &MessageWriter<W, H, B>) -> (result:
        SdkResult<MessageToSign>)
        requires
            writer.total(),
        ensures
            forall|
                address: AddressView,
                default_workchain: Option<i32>,
                body: Option<SliceData>,
                init: Option<StateInit>,
            | #[trigger]
                message_created(address, default_workchain, body, init, msg) ==> to_sign_written(
                    *writer,
                    address,
                    default_workchain,
                    body,
                    init,
                    data_to_sign,
                    result,
                ),
    {
        let written = Self::write(msg, writer);
        assert forall|
            address: AddressView,
            default_workchain: Option<i32>,
            body: Option<SliceData>,
            init: Option<StateInit>,
        | #[trigger]
            message_created(
                address,
                default_workchain,
                body,
                init,
                msg,
            ) implies message_written(
            *writer,
            address,
            default_workchain,
            body,
            init,
            written,
        ) by {}
        match written {
            Ok((message, _)) => Ok(MessageToSign { message, data_to_sign }),
            Err(error) => Err(error),
        }
    }

    /// Creates a message to the contract with a body in bytes and returns the message in bytes
    /// with its identifier.
    pub fn construct_call_message_with_body<
        D: Fn(&[u8]) -> SdkResult<Vec<Arc<Cell>>>,
        W: Fn(&Message) -> SdkResult<Arc<Cell>>,
        H: Fn(&Arc<Cell>) -> MessageId,
        B: Fn(&Arc<Cell>) -> SdkResult<Vec<u8>>,
    >(
        address: AccountAddress,
        body: &[u8],
        settings: &Settings,
        deserialize_cells_tree: &D,
        writer: &MessageWriter<W, H, B>,
    ) -> (result: SdkResult<(Vec<u8>, MessageId)>)
        requires
            call_requires(*deserialize_cells_tree, (body,)),
            writer.total(),
        ensures
            exists|slice: SdkResult<SliceData>| #[trigger]
                slice_read(*deserialize_cells_tree, body, slice) && match slice {
                    Ok(slice) => message_written(
                        *writer,
                        address@,
                        settings.default_workchain,
                        Some(slice),
                        None,
                        result,
                    ),
                    Err(error) => result == Err::<(Vec<u8>, MessageId), SdkError>(error),
                },
    {
        match Self::deserialize_tree_to_slice(body, deserialize_cells_tree) {
            Ok(slice) => {
                let msg = Self::create_message(address, slice, settings);
                Self::write(msg, writer)
            },
            Err(error) => Err(error),
        }
    }

    /// Packs a function call in JSON into a message to the contract without a signature, and
    /// returns the message in bytes with the bytes to sign. `add_sign_to_message` adds the
    /// signature. `prepare_function_call_for_sign` packs ABI, function name and input into a
    /// message's body and gives the bytes to sign.
    pub fn get_call_message_bytes_for_signing<
        E: Fn(String, String, String) -> Result<(Arc<Cell>, Vec<u8>), String>,
        W: Fn(&Message) -> SdkResult<Arc<Cell>>,
        H: Fn(&Arc<Cell>) -> MessageId,
        B: Fn(&Arc<Cell>) -> SdkResult<Vec<u8>>,
    >(
        address: AccountAddress,
        func: String,
        input: String,
        abi: String,
        settings: &Settings,
        prepare_function_call_for_sign: E,
        writer: &MessageWriter<W, H, B>,
    ) -> (result: SdkResult<MessageToSign>)
        requires
            call_requires(prepare_function_call_for_sign, (abi, func, input)),
            writer.total(),
        ensures
            exists|prepared: Result<(Arc<Cell>, Vec<u8>), String>| #[trigger]
                call_ensures(prepare_function_call_for_sign, (abi, func, input), prepared)
                    && match prepared {
                    Ok((body, data_to_sign)) => to_sign_written(
                        *writer,
                        address@,
                        settings.default_workchain,
                        Some(whole_cell(body)),
                        None,
                        data_to_sign,
                        result,
                    ),
                    Err(text) => result == Err::<MessageToSign, SdkError>(
                        SdkError::AbiError(text),
                    ),
                },
    {
        let prepared = prepare_function_call_for_sign(abi, func, input);
        match prepared {
            Ok((body, data_to_sign)) => {
                let msg = Self::create_message(address, SliceData::from_cell(body), settings);
                Self::write_to_sign(msg, data_to_sign, writer)
            },
            Err(text) => Err(SdkError::AbiError(text)),
        }
    }

    // ------- Deployment -------

    /// Packs an image and a call of its constructor in JSON into a message and returns the
    /// message in bytes with its identifier.
    pub fn construct_deploy_message_json<
        E: Fn(String, String, String, Option<&Keypair>) -> Result<Arc<Cell>, String>,
        W: Fn(&Message) -> SdkResult<Arc<Cell>>,
        H: Fn(&Arc<Cell>) -> MessageId,
        B: Fn(&Arc<Cell>) -> SdkResult<Vec<u8>>,
    >(
        func: String,
        input: String,
        abi: String,
        image: ContractImage,
        key_pair: Option<&Keypair>,
        settings: &Settings,
        encode_function_call: E,
        writer: &MessageWriter<W, H, B>,
    ) -> (result: SdkResult<(Vec<u8>, MessageId)>)
        requires
            call_requires(encode_function_call, (abi, func, input, key_pair)),
            writer.total(),
        ensures
            exists|body: Result<Arc<Cell>, String>| #[trigger]
                call_ensures(encode_function_call, (abi, func, input, key_pair), body)
                    && match body {
                    Ok(body) => message_written(
                        *writer,
                        AddressView::Short(image@.id),
                        settings.default_workchain,
                        Some(whole_cell(body)),
                        Some(image@.state_init),
                        result,
                    ),
                    Err(text) => result == Err::<(Vec<u8>, MessageId), SdkError>(
                        SdkError::AbiError(text),
                    ),
                },
    {
        let encoded = encode_function_call(abi, func, input, key_pair);
        match encoded {
            Ok(body) => {
                let slice = SliceData::from_cell(body);
                let msg = Self::create_deploy_message(Some(slice), image, settings);
                Self::write(msg, writer)
            },
            Err(text) => Err(SdkError::AbiError(text)),
        }
    }

    /// Packs an image and, where there is one, a body in bytes into a message and returns the
    /// message in bytes with its identifier.
    pub fn construct_deploy_message_with_body<
        D: Fn(&[u8]) -> SdkResult<Vec<Arc<Cell>>>,
        W: Fn(&Message) -> SdkResult<Arc<Cell>>,
        H: Fn(&Arc<Cell>) -> MessageId,
        B: Fn(&Arc<Cell>) -> SdkResult<Vec<u8>>,
    >(
        image: ContractImage,
        body: Option<&[u8]>,
        settings: &Settings,
        deserialize_cells_tree: &D,
        writer: &MessageWriter<W, H, B>,
    ) -> (result: SdkResult<(Vec<u8>, MessageId)>)
        requires
            forall|bag: &[u8]| #[trigger] call_requires(*deserialize_cells_tree, (bag,)),
            writer.total(),
        ensures
            body_deployed(
                *deserialize_cells_tree,
                *writer,
                settings.default_workchain,
                image@,
                body,
                result,
            ),
    {
        let body_slice = match body {
            None => None,
            Some(data) => match Self::deserialize_tree_to_slice(data, deserialize_cells_tree) {
                Ok(slice) => Some(slice),
                Err(error) => {
                    assert(optional_slice_read(*deserialize_cells_tree, body, Err(error)));
                    return Err(error);
                },
            },
        };
        assert(optional_slice_read(*deserialize_cells_tree, body, Ok(body_slice)));
        let msg = Self::create_deploy_message(body_slice, image, settings);
        Self::write(msg, writer)
    }

    /// Packs an image into a message without a call and returns the message in bytes with its
    /// identifier.
    pub fn construct_deploy_message_no_constructor<
        W: Fn(&Message) -> SdkResult<Arc<Cell>>,
        H: Fn(&Arc<Cell>) -> MessageId,
        B: Fn(&Arc<Cell>) -> SdkResult<Vec<u8>>,
    >(image: ContractImage, settings: &Settings, writer: &MessageWriter<W, H, B>) -> (result:
        SdkResult<(Vec<u8>, MessageId)>)
        requires
            writer.total(),
        ensures
            message_written(
                *writer,
                AddressView::Short(image@.id),
                settings.default_workchain,
                None,
                Some(image@.state_init),
                result,
            ),
    {
        let msg = Self::create_deploy_message(None, image, settings);
        Self::write(msg, writer)
    }

    /// Packs an image and a call of its constructor in JSON into a message without a signature,
    /// and returns the message in bytes with the bytes to sign. `add_sign_to_message` adds the
    /// signature.
    pub fn get_deploy_message_bytes_for_signing<
        E: Fn(String, String, String) -> Result<(Arc<Cell>, Vec<u8>), String>,
        W: Fn(&Message) -> SdkResult<Arc<Cell>>,
        H: Fn(&Arc<Cell>) -> MessageId,
        B: Fn(&Arc<Cell>) -> SdkResult<Vec<u8>>,
    >(
        func: String,
        input: String,
        abi: String,
        image: ContractImage,
        settings: &Settings,
        prepare_function_call_for_sign: E,
        writer: &MessageWriter<W, H, B>,
    ) -> (result: SdkResult<MessageToSign>)
        requires
            call_requires(prepare_function_call_for_sign, (abi, func, input)),
            writer.total(),
        ensures
            exists|prepared: Result<(Arc<Cell>, Vec<u8>), String>| #[trigger]
                call_ensures(prepare_function_call_for_sign, (abi, func, input), prepared)
                    && match prepared {
                    Ok((body, data_to_sign)) => to_sign_written(
                        *writer,
                        AddressView::Short(image@.id),
                        settings.default_workchain,
                        Some(whole_cell(body)),
                        Some(image@.state_init),
                        data_to_sign,
                        result,
                    ),
                    Err(text) => result == Err::<MessageToSign, SdkError>(
                        SdkError::AbiError(text),
                    ),
                },
    {
        let prepared = prepare_function_call_for_sign(abi, func, input);
        match prepared {
            Ok((body, data_to_sign)) => {
                let slice = SliceData::from_cell(body);
                let msg = Self::create_deploy_message(Some(slice), image, settings);
                Self::write_to_sign(msg, data_to_sign, writer)
            },
            Err(text) => Err(SdkError::AbiError(text)),
        }
    }

    /// Adds a signature to a message from `get_call_message_bytes_for_signing` or
    /// `get_deploy_message_bytes_for_signing`, and returns the message in bytes with its
    /// identifier. `add_sign_to_function_call` adds signature and public key to a message's body.
    pub fn add_sign_to_message<
        D: Fn(&[u8]) -> SdkResult<Vec<Arc<Cell>>>,
        C: Fn(SliceData) -> SdkResult<Message>,
        A: Fn(&[u8], &[u8], SliceData) -> Result<Arc<Cell>, String>,
        W: Fn(&Message) -> SdkResult<Arc<Cell>>,
        H: Fn(&Arc<Cell>) -> MessageId,
        B: Fn(&Arc<Cell>) -> SdkResult<Vec<u8>>,
    >(
        signature: &[u8],
        public_key: &[u8],
        message: &[u8],
        deserialize_cells_tree: &D,
        construct_from: &C,
        add_sign_to_function_call: &A,
        writer: &MessageWriter<W, H, B>,
    ) -> (result: SdkResult<(Vec<u8>, MessageId)>)
        requires
            call_requires(*deserialize_cells_tree, (message,)),
            forall|slice: SliceData| #[trigger] call_requires(*construct_from, (slice,)),
            forall|slice: SliceData| #[trigger]
                call_requires(*add_sign_to_function_call, (signature, public_key, slice)),
            writer.total(),
        ensures
            bytes_signed(
                *deserialize_cells_tree,
                *construct_from,
                *add_sign_to_function_call,
                *writer,
                signature,
                public_key,
                message,
                result,
            ),
    {
        let read = Self::deserialize_message(message, deserialize_cells_tree, construct_from);
        let mut msg = match read {
            Ok(msg) => msg,
            Err(error) => return Err(error),
        };
        let ghost before = msg;
        let body = match msg.body {
            Some(body) => body,
            None => return Err(invalid_data("No message body")),
        };
        let signed = add_sign_to_function_call(signature, public_key, body);
        match signed {
            Ok(signed_body) => {
                msg.body = Some(SliceData::from_cell(signed_body));
                let written = Self::serialize_message(msg, writer);
                assert(message_signed(
                    *add_sign_to_function_call,
                    *writer,
                    signature,
                    public_key,
                    before,
                    written,
                ));
                written
            },
            Err(text) => Err(SdkError::AbiError(text)),
        }
    }

    // ------- Reading calls and responses -------

    /// Reads the output of a function from the body of a message, as JSON.
    /// `decode_function_response` does so by ABI and function name.
    pub fn decode_function_response_json<
        F: Fn(String, String, SliceData) -> Result<String, String>,
    >(
        abi: String,
        function: String,
        response: SliceData,
        decode_function_response: F,
    ) -> (result: SdkResult<String>)
        requires
            call_requires(decode_function_response, (abi, function, response)),
        ensures
            exists|decoded: Result<String, String>| #[trigger]
                call_ensures(decode_function_response, (abi, function, response), decoded)
                    && is_abi_result(decoded, result),
    {
        let decoded = decode_function_response(abi, function, response);
        abi_result(decoded)
    }

    /// Reads the output of a function from the body of a message in bytes, as JSON.
    pub fn decode_function_response_from_bytes_json<
        D: Fn(&[u8]) -> SdkResult<Vec<Arc<Cell>>>,
        F: Fn(String, String, SliceData) -> Result<String, String>,
    >(
        abi: String,
        function: String,
        response: &[u8],
        deserialize_cells_tree: &D,
        decode_function_response: F,
    ) -> (result: SdkResult<String>)
        requires
            call_requires(*deserialize_cells_tree, (response,)),
            forall|slice: SliceData| #[trigger]
                call_requires(decode_function_response, (abi, function, slice)),
        ensures
            exists|slice: SdkResult<SliceData>| #[trigger]
                slice_read(*deserialize_cells_tree, response, slice) && match slice {
                    Ok(slice) => exists|decoded: Result<String, String>| #[trigger]
                        call_ensures(decode_function_response, (abi, function, slice), decoded)
                            && is_abi_result(decoded, result),
                    Err(error) => result == Err::<String, SdkError>(error),
                },
    {
        match Self::deserialize_tree_to_slice(response, deserialize_cells_tree) {
            Ok(slice) => Self::decode_function_response_json(
                abi,
                function,
                slice,
                decode_function_response,
            ),
            Err(error) => Err(error),
        }
    }

    /// Reads the output of whichever function it comes from out of the body of a message.
    /// `decode_unknown_function_response` does so by ABI.
    pub fn decode_unknown_function_response_json<
        F: Fn(String, SliceData) -> Result<DecodedMessage, String>,
    >(abi: String, response: SliceData, decode_unknown_function_response: F) -> (result: SdkResult<
        DecodedMessage,
    >)
        requires
            call_requires(decode_unknown_function_response, (abi, response)),
        ensures
            exists|decoded: Result<DecodedMessage, String>| #[trigger]
                call_ensures(decode_unknown_function_response, (abi, response), decoded)
                    && is_abi_result(decoded, result),
    {
        let decoded = decode_unknown_function_response(abi, response);
        abi_result(decoded)
    }

    /// Reads the output of whichever function it comes from out of the body of a message in
    /// bytes.
    pub fn decode_unknown_function_response_from_bytes_json<
        D: Fn(&[u8]) -> SdkResult<Vec<Arc<Cell>>>,
        F: Fn(String, SliceData) -> Result<DecodedMessage, String>,
    >(
        abi: String,
        response: &[u8],
        deserialize_cells_tree: &D,
        decode_unknown_function_response: F,
    ) -> (result: SdkResult<DecodedMessage>)
        requires
            call_requires(*deserialize_cells_tree, (response,)),
            forall|slice: SliceData| #[trigger]
                call_requires(decode_unknown_function_response, (abi, slice)),
        ensures
            exists|slice: SdkResult<SliceData>| #[trigger]
                slice_read(*deserialize_cells_tree, response, slice) && match slice {
                    Ok(slice) => exists|decoded: Result<DecodedMessage, String>| #[trigger]
                        call_ensures(decode_unknown_function_response, (abi, slice), decoded)
                            && is_abi_result(decoded, result),
                    Err(error) => result == Err::<DecodedMessage, SdkError>(error),
                },
    {
        match Self::deserialize_tree_to_slice(response, deserialize_cells_tree) {
            Ok(slice) => Self::decode_unknown_function_response_json(
                abi,
                slice,
                decode_unknown_function_response,
            ),
            Err(error) => Err(error),
        }
    }

    /// Reads the call of whichever function it is out of the body of a message.
    /// `decode_unknown_function_call` does so by ABI.
    pub fn decode_unknown_function_call_json<
        F: Fn(String, SliceData) -> Result<DecodedMessage, String>,
    >(abi: String, response: SliceData, decode_unknown_function_call: F) -> (result: SdkResult<
        DecodedMessage,
    >)
        requires
            call_requires(decode_unknown_function_call, (abi, response)),
        ensures
            exists|decoded: Result<DecodedMessage, String>| #[trigger]
                call_ensures(decode_unknown_function_call, (abi, response), decoded)
                    && is_abi_result(decoded, result),
    {
        let decoded = decode_unknown_function_call(abi, response);
        abi_result(decoded)
    }

    /// Reads the call of whichever function it is out of the body of a message in bytes.
    pub fn decode_unknown_function_call_from_bytes_json<
        D: Fn(&[u8]) -> SdkResult<Vec<Arc<Cell>>>,
        F: Fn(String, SliceData) -> Result<DecodedMessage, String>,
    >(
        abi: String,
        response: &[u8],
        deserialize_cells_tree: &D,
        decode_unknown_function_call: F,
    ) -> (result: SdkResult<DecodedMessage>)
        requires
            call_requires(*deserialize_cells_tree, (response,)),
            forall|slice: SliceData| #[trigger]
                call_requires(decode_unknown_function_call, (abi, slice)),
        ensures
            exists|slice: SdkResult<SliceData>| #[trigger]
                slice_read(*deserialize_cells_tree, response, slice) && match slice {
                    Ok(slice) => exists|decoded: Result<DecodedMessage, String>| #[trigger]
                        call_ensures(decode_unknown_function_call, (abi, slice), decoded)
                            && is_abi_result(decoded, result),
                    Err(error) => result == Err::<DecodedMessage, SdkError>(error),
                },
    {
        match Self::deserialize_tree_to_slice(response, deserialize_cells_tree) {
            Ok(slice) => Self::decode_unknown_function_call_json(
                abi,
                slice,
                decode_unknown_function_call,
            ),
            Err(error) => Err(error),
        }
    }
}

/// `result` is what an ABI made of its input, with the error as one of the library.
pub open spec fn is_abi_result<T>(made: Result<T, String>, result: SdkResult<T>) -> bool {
    match made {
        Ok(value) => result == Ok::<T, SdkError>(value),
        Err(text) => result == Err::<T, SdkError>(SdkError::AbiError(text)),
    }
}

fn abi_result<T>(made: Result<T, String>) -> (result: SdkResult<T>)
    ensures
        is_abi_result(made, result),
{
    match made {
        Ok(value) => Ok(value),
        Err(text) => Err(SdkError::AbiError(text)),
    }
}

/// `result` can come of reading the tree of cells in bytes that may be missing.
pub open spec fn optional_slice_read<D: Fn(&[u8]) -> SdkResult<Vec<Arc<Cell>>>>(
    deserialize_cells_tree: D,
    data: Option<&[u8]>,
    result: SdkResult<Option<SliceData>>,
) -> bool {
    match data {
        Some(data) => match result {
            Ok(slice) => slice matches Some(slice) && slice_read(
                deserialize_cells_tree,
                data,
                Ok(slice),
            ),
            Err(error) => slice_read(deserialize_cells_tree, data, Err(error)),
        },
        None => result == Ok::<Option<SliceData>, SdkError>(None),
    }
}

/// `result` can come of creating and writing a message that deploys an image with a body in bytes
/// that may be missing.
pub open spec fn body_deployed<
    D: Fn(&[u8]) -> SdkResult<Vec<Arc<Cell>>>,
    W: Fn(&Message) -> SdkResult<Arc<Cell>>,
    H: Fn(&Arc<Cell>) -> MessageId,
    B: Fn(&Arc<Cell>) -> SdkResult<Vec<u8>>,
>(
    deserialize_cells_tree: D,
    writer: MessageWriter<W, H, B>,
    default_workchain: Option<i32>,
    image: ImageView,
    body: Option<&[u8]>,
    result: SdkResult<(Vec<u8>, MessageId)>,
) -> bool {
    exists|slice: SdkResult<Option<SliceData>>| #[trigger]
        optional_slice_read(deserialize_cells_tree, body, slice) && match slice {
            Ok(slice) => message_written(
                writer,
                AddressView::Short(image.id),
                default_workchain,
                slice,
                Some(image.state_init),
                result,
            ),
            Err(error) => result == Err::<(Vec<u8>, MessageId), SdkError>(error),
        }
}

/// `result` can come of creating a message that is still to be signed and writing it.
pub open spec fn to_sign_written<
    W: Fn(&Message) -> SdkResult<Arc<Cell>>,
    H: Fn(&Arc<Cell>) -> MessageId,
    B: Fn(&Arc<Cell>) -> SdkResult<Vec<u8>>,
>(
    writer: MessageWriter<W, H, B>,
    address: AddressView,
    default_workchain: Option<i32>,
    body: Option<SliceData>,
    init: Option<StateInit>,
    data_to_sign: Vec<u8>,
    result: SdkResult<MessageToSign>,
) -> bool {
    exists|written: SdkResult<(Vec<u8>, MessageId)>| #[trigger]
        message_written(writer, address, default_workchain, body, init, written)
            && match written {
            Ok((message, _)) => result == Ok::<MessageToSign, SdkError>(
                MessageToSign { message, data_to_sign },
            ),
            Err(error) => result == Err::<MessageToSign, SdkError>(error),
        }
}

/// `result` can come of signing the body of a message and writing the message.
pub open spec fn message_signed<
    A: Fn(&[u8], &[u8], SliceData) -> Result<Arc<Cell>, String>,
    W: Fn(&Message) -> SdkResult<Arc<Cell>>,
    H: Fn(&Arc<Cell>) -> MessageId,
    B: Fn(&Arc<Cell>) -> SdkResult<Vec<u8>>,
>(
    add_sign_to_function_call: A,
    writer: MessageWriter<W, H, B>,
    signature: &[u8],
    public_key: &[u8],
    message: Message,
    result: SdkResult<(Vec<u8>, MessageId)>,
) -> bool {
    match message.body {
        Some(body) => exists|signed: Result<Arc<Cell>, String>| #[trigger]
            call_ensures(add_sign_to_function_call, (signature, public_key, body), signed)
                && match signed {
                Ok(signed) => writer.written(
                    Message { body: Some(whole_cell(signed)), ..message },
                    result,
                ),
                Err(text) => result == Err::<(Vec<u8>, MessageId), SdkError>(
                    SdkError::AbiError(text),
                ),
            },
        None => result matches Err(error) && error@ == SdkErrorView::InvalidData(
            "No message body"@,
        ),
    }
}

/// `result` can come of reading a message from bytes, signing its body and writing it again.
pub open spec fn bytes_signed<
    D: Fn(&[u8]) -> SdkResult<Vec<Arc<Cell>>>,
    C: Fn(SliceData) -> SdkResult<Message>,
    A: Fn(&[u8], &[u8], SliceData) -> Result<Arc<Cell>, String>,
    W: Fn(&Message) -> SdkResult<Arc<Cell>>,
    H: Fn(&Arc<Cell>) -> MessageId,
    B: Fn(&Arc<Cell>) -> SdkResult<Vec<u8>>,
>(
    deserialize_cells_tree: D,
    construct_from: C,
    add_sign_to_function_call: A,
    writer: MessageWriter<W, H, B>,
    signature: &[u8],
    public_key: &[u8],
    message: &[u8],
    result: SdkResult<(Vec<u8>, MessageId)>,
) -> bool {
    exists|read: SdkResult<Message>| #[trigger]
        message_read(deserialize_cells_tree, construct_from, message, read) && match read {
            Ok(read) => message_signed(
                add_sign_to_function_call,
                writer,
                signature,
                public_key,
                read,
                result,
            ),
            Err(error) => result == Err::<(Vec<u8>, MessageId), SdkError>(error),
        }
}

/// `result` can come of running the contract of an account with a message of this body.
pub open spec fn body_called<
    R: Fn(Arc<Cell>, Option<Arc<Cell>>, &Message) -> SdkResult<Vec<Message>>,
>(
    run: R,
    acc: Account,
    default_workchain: Option<i32>,
    body: Arc<Cell>,
    result: SdkResult<Vec<Message>>,
) -> bool {
    exists|message: SdkResult<Message>| #[trigger]
        message_created(
            acc.address(),
            default_workchain,
            Some(whole_cell(body)),
            None,
            message,
        ) && match message {
            Ok(message) => account_called(run, acc, message, result),
            Err(error) => result == Err::<Vec<Message>, SdkError>(error),
        }
}

fn inactive(state: &String) -> (error: SdkError)
    ensures
        error@ == not_active(state@),
{
    let mut message = "Account is not active. State: ".to_owned();
    message.append(state.as_str());
    SdkError::InvalidData(message)
}

} // verus!
