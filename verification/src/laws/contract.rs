//! Laws of contracts: what is known of them, running them, and reading what they send.

use std::sync::Arc;
use ed25519_dalek::Keypair;
use vstd::prelude::*;
use crate::bits::{AccountId, BitsView};
use crate::cell::{whole_cell, Cell, SliceData, StateInit};
use crate::contract::{
    account_called, body_called, Account, AccountState, Contract, CurrencyCollection,
    DecodedMessage,
};
use crate::error::{SdkError, SdkResult};
use crate::json::is_json_null;
use crate::laws::outgoing::{has_no_root, has_root, is_in_workchain, lemma_slice};
use crate::message::{message_created, Message, MessageHeader};
use crate::settings::Settings;

verus! {

/// A default workchain that was set is what the settings hold.
pub proof fn law_default_workchain_is_set(
    settings: &mut Settings,
    workchain: Option<i32>,
)
    requires
        call_ensures(
            Contract::set_default_workchain,
            (settings, workchain),
            (),
        ),
    ensures
        final(settings).default_workchain == workchain,
{
}

/// The default workchain is what the settings hold.
pub proof fn law_default_workchain_is_read(
    settings: &Settings,
    result: Option<i32>,
)
    requires
        call_ensures(
            Contract::get_default_workchain,
            (settings,),
            result,
        ),
    ensures
        result == settings.default_workchain,
{
}

/// A contract's identifier is that of its account, bit for bit.
pub proof fn law_contract_id(
    contract: &Contract,
    result: SdkResult<AccountId>,
)
    requires
        call_ensures(
            Contract::id,
            (contract,),
            result,
        ),
    ensures
        match (contract@.id, result) {
            (Some(known), Ok(id)) => id@.bytes == known@.bytes && id@.unused == known@.unused,
            (None, Err(SdkError::InvalidData(text))) => text@ == "No account ID"@,
            _ => false,
        },
{
}

/// A contract's balance in nanograms is that of its account.
pub proof fn law_contract_grams(
    contract: &Contract,
    result: SdkResult<u128>,
)
    requires
        call_ensures(
            Contract::balance_grams,
            (contract,),
            result,
        ),
    ensures
        match (contract@.balance, result) {
            (Some(known), Ok(grams)) => grams == known.grams,
            (None, Err(SdkError::InvalidData(text))) => text@ == "No balance in account"@,
            _ => false,
        },
{
}

/// A contract's balance is that of its account, in every currency.
pub proof fn law_contract_balance(
    contract: &Contract,
    result: SdkResult<CurrencyCollection>,
)
    requires
        call_ensures(
            Contract::balance,
            (contract,),
            result,
        ),
    ensures
        match (contract@.balance, result) {
            (Some(known), Ok(balance)) => {
                &&& balance.grams == known.grams
                &&& balance.other@.len() == known.other@.len()
                &&& forall|i: int|
                    0 <= i < known.other@.len() ==> #[trigger] balance.other@[i] == known.other@[i]
            },
            (None, Err(SdkError::InvalidData(text))) => text@ == "No balance in account"@,
            _ => false,
        },
{
}

/// A contract's account is handed out as it is.
pub proof fn law_contract_account(
    contract: &Contract,
    result: &Account,
)
    requires
        call_ensures(
            Contract::acc,
            (contract,),
            result,
        ),
    ensures
        result.id == contract@.id,
        result.balance == contract@.balance,
        result.state == contract@.state,
{
}

/// A contract from JSON is the account that was read, and the only error is that of reading it.
pub proof fn law_contract_from_json<
    F: Fn(&str) -> Result<Account, serde_json::Error>,
>(
    json: &str,
    parse: F,
    result: SdkResult<Contract>,
)
    requires
        call_ensures(
            Contract::from_json::<F>,
            (json, parse),
            result,
        ),
    ensures
        exists|read: Result<Account, serde_json::Error>| #[trigger]
            call_ensures(parse, (json,), read) && match (read, result) {
                (Ok(acc), Ok(contract)) => contract@ == acc,
                (Err(a), Err(SdkError::SerdeJson(b))) => a == b,
                _ => false,
            },
{
    match result {
        Ok(contract) => {
            assert(call_ensures(parse, (json,), Ok::<Account, serde_json::Error>(contract@)));
        },
        Err(SdkError::SerdeJson(error)) => {
            assert(call_ensures(parse, (json,), Err::<Account, serde_json::Error>(error)));
        },
        Err(_) => {},
    }
}

/// No record is no contract, an account is its contract, and what is no account is complained
/// about.
pub proof fn law_contract_from_record(
    record: Option<Result<Account, String>>,
    result: SdkResult<Option<Contract>>,
)
    requires
        call_ensures(
            Contract::from_record,
            (record,),
            result,
        ),
    ensures
        match (record, result) {
            (None, Ok(None)) => true,
            (Some(Ok(acc)), Ok(Some(contract))) => contract@ == acc,
            (Some(Err(text)), Err(SdkError::InvalidData(complaint))) => complaint@
                == "error parsing account: "@ + text@,
            _ => false,
        },
{
}

/// The value `null` is no contract; any other value is read as an account.
pub proof fn law_contract_from_value<
    F: Fn(serde_json::Value) -> Result<Account, String>,
>(
    value: serde_json::Value,
    parse: F,
    result: SdkResult<Option<Contract>>,
)
    requires
        call_ensures(
            Contract::from_value::<F>,
            (value, parse),
            result,
        ),
    ensures
        is_json_null(value) ==> (result matches Ok(contract) && contract is None),
        !is_json_null(value) ==> exists|read: Result<Account, String>| #[trigger]
            call_ensures(parse, (value,), read) && match (read, result) {
                (Ok(acc), Ok(Some(contract))) => contract@ == acc,
                (Err(text), Err(SdkError::InvalidData(complaint))) => complaint@
                    == "error parsing account: "@ + text@,
                _ => false,
            },
{
}

/// A contract runs with the code and the data of its state, and all that the run gives is the
/// result: every message, in order, or the error.
pub proof fn law_run_by_data<
    R: Fn(Arc<Cell>, Option<Arc<Cell>>, &Message) -> SdkResult<Vec<Message>>,
>(
    state: StateInit,
    message: Message,
    run: R,
    result: SdkResult<Vec<Message>>,
)
    requires
        call_ensures(
            Contract::local_contract_call_by_data::<R>,
            (state, message, run),
            result,
        ),
    ensures
        match state.code {
            Some(code) => call_ensures(run, (code, state.data, &message), result),
            None => result matches Err(SdkError::InvalidData(text)) && text@
                == "Account has no code"@,
        },
{
}

/// An active contract with code runs with its code and its data, and all that the run gives is the
/// result: every message, in order, or the error. Any other contract is refused.
pub proof fn law_local_call<
    R: Fn(Arc<Cell>, Option<Arc<Cell>>, &Message) -> SdkResult<Vec<Message>>,
>(
    contract: &Contract,
    message: Message,
    run: R,
    result: SdkResult<Vec<Message>>,
)
    requires
        call_ensures(
            Contract::local_call::<R>,
            (contract, message, run),
            result,
        ),
    ensures
        match contract@.state {
            Some(AccountState::AccountActive(state)) => match state.code {
                Some(code) => call_ensures(run, (code, state.data, &message), result),
                None => result matches Err(SdkError::InvalidData(text)) && text@
                    == "Account has no code"@,
            },
            Some(AccountState::AccountUninit(shown)) => result matches Err(
                SdkError::InvalidData(text),
            ) && text@ == "Account is not active. State: "@ + shown@,
            Some(AccountState::AccountFrozen(shown)) => result matches Err(
                SdkError::InvalidData(text),
            ) && text@ == "Account is not active. State: "@ + shown@,
            None => result matches Err(SdkError::InvalidData(text)) && text@
                == "Account has no state"@,
        },
{
}

/// `message` is a message into the blockchain to the account in the workchain, with the whole of
/// the cell as body and without a state.
pub open spec fn carries_call(
    message: Message,
    id: BitsView,
    workchain: i32,
    cell: Arc<Cell>,
) -> bool {
    &&& message.header matches MessageHeader::ExtInMsgInfo(header)
    &&& header.src is None
    &&& header.import_fee == 0
    &&& is_in_workchain(header.dst, id, workchain)
    &&& message.init is None
    &&& message.body == Some(SliceData { cell, bit_start: 0, reference_start: 0 })
}

/// `id` is the identifier of the account, or 256 zero bits where the account has none.
pub open spec fn is_id_or_zero(acc: Account, id: BitsView) -> bool {
    match acc.id {
        Some(known) => id == known@,
        None => id.unused == 0 && id.bytes.len() == 32 && forall|i: int|
            0 <= i < 32 ==> #[trigger] id.bytes[i] == 0,
    }
}

/// A function call runs as a message to the contract itself with the encoded call as body, and all
/// that the run gives is the result.
pub proof fn law_local_call_json<
    E: Fn(String, String, String, Option<&Keypair>) -> Result<Arc<Cell>, String>,
    R: Fn(Arc<Cell>, Option<Arc<Cell>>, &Message) -> SdkResult<Vec<Message>>,
>(
    contract: &Contract,
    func: String,
    input: String,
    abi: String,
    key_pair: Option<&Keypair>,
    settings: &Settings,
    encode_function_call: E,
    run: R,
    result: SdkResult<Vec<Message>>,
)
    requires
        call_ensures(
            Contract::local_call_json::<E, R>,
            (contract, func, input, abi, key_pair, settings, encode_function_call, run),
            result,
        ),
    ensures
        exists|encoded: Result<Arc<Cell>, String>| #[trigger]
            call_ensures(encode_function_call, (abi, func, input, key_pair), encoded)
                && match (encoded, settings.default_workchain) {
                (Err(text), _) => result matches Err(error) && error == SdkError::AbiError(text),
                (Ok(_), None) => result matches Err(error) && error is DefaultWorkchainNotSet,
                (Ok(cell), Some(workchain)) => exists|message: Message, id: BitsView|
                    {
                        &&& is_id_or_zero(contract@, id)
                        &&& #[trigger] carries_call(message, id, workchain, cell)
                        &&& match contract@.state {
                            Some(AccountState::AccountActive(state)) => match state.code {
                                Some(code) => call_ensures(
                                    run,
                                    (code, state.data, &message),
                                    result,
                                ),
                                None => result matches Err(SdkError::InvalidData(text)) && text@
                                    == "Account has no code"@,
                            },
                            Some(AccountState::AccountUninit(shown)) => result matches Err(
                                SdkError::InvalidData(text),
                            ) && text@ == "Account is not active. State: "@ + shown@,
                            Some(AccountState::AccountFrozen(shown)) => result matches Err(
                                SdkError::InvalidData(text),
                            ) && text@ == "Account is not active. State: "@ + shown@,
                            None => result matches Err(SdkError::InvalidData(text)) && text@
                                == "Account has no state"@,
                        }
                    },
            },
{
    let acc = contract@;
    let encoded = choose|encoded: Result<Arc<Cell>, String>| #[trigger]
        call_ensures(encode_function_call, (abi, func, input, key_pair), encoded)
            && match encoded {
            Ok(body) => body_called(run, acc, settings.default_workchain, body, result),
            Err(text) => result == Err::<Vec<Message>, SdkError>(SdkError::AbiError(text)),
        };
    if encoded is Ok {
        let cell = encoded->Ok_0;
        let message = choose|message: SdkResult<Message>| #[trigger]
            message_created(
                acc.address(),
                settings.default_workchain,
                Some(whole_cell(cell)),
                None,
                message,
            ) && match message {
                Ok(message) => account_called(run, acc, message, result),
                Err(error) => result == Err::<Vec<Message>, SdkError>(error),
            };
        if settings.default_workchain is Some {
            let id = acc.address()->Short_0;
            assert(is_id_or_zero(acc, id));
            assert(carries_call(message->Ok_0, id, settings.default_workchain->0, cell));
        }
    }
}

/// The output of a function is what the ABI makes of it, and the only error is that of the ABI.
pub proof fn law_function_response_json<
    F: Fn(String, String, SliceData) -> Result<String, String>,
>(
    abi: String,
    function: String,
    response: SliceData,
    decode: F,
    result: SdkResult<String>,
)
    requires
        call_ensures(
            Contract::decode_function_response_json::<F>,
            (abi, function, response, decode),
            result,
        ),
    ensures
        exists|decoded: Result<String, String>| #[trigger]
            call_ensures(decode, (abi, function, response), decoded) && match (decoded, result) {
                (Ok(a), Ok(b)) => a == b,
                (Err(text), Err(SdkError::AbiError(told))) => text == told,
                _ => false,
            },
{
}

/// The output of a function in bytes is what the ABI makes of the only root of the bytes.
pub proof fn law_function_response_from_bytes_json<
    D: Fn(&[u8]) -> SdkResult<Vec<Arc<Cell>>>,
    F: Fn(String, String, SliceData) -> Result<String, String>,
>(
    abi: String,
    function: String,
    bytes: &[u8],
    deserialize_cells_tree: &D,
    decode: F,
    result: SdkResult<String>,
)
    requires
        call_ensures(
            Contract::decode_function_response_from_bytes_json::<D, F>,
            (abi, function, bytes, deserialize_cells_tree, decode),
            result,
        ),
    ensures
        ({
            ||| result matches Err(error) && has_no_root(
                *deserialize_cells_tree,
                bytes,
                "Deserialize message error"@,
                error,
            )
            ||| exists|cell: Arc<Cell>, decoded: Result<String, String>|
                {
                    &&& #[trigger] has_root(*deserialize_cells_tree, bytes, cell)
                    &&& #[trigger] call_ensures(
                        decode,
                        (abi, function, SliceData { cell, bit_start: 0, reference_start: 0 }),
                        decoded,
                    )
                    &&& match (decoded, result) {
                        (Ok(a), Ok(b)) => a == b,
                        (Err(text), Err(SdkError::AbiError(told))) => text == told,
                        _ => false,
                    }
                }
        }),
{
    broadcast use lemma_slice;

}

/// The output of whichever function is what the ABI makes of it, and the only error is that of the
/// ABI.
pub proof fn law_unknown_function_response_json<
    F: Fn(String, SliceData) -> Result<DecodedMessage, String>,
>(
    abi: String,
    response: SliceData,
    decode: F,
    result: SdkResult<DecodedMessage>,
)
    requires
        call_ensures(
            Contract::decode_unknown_function_response_json::<F>,
            (abi, response, decode),
            result,
        ),
    ensures
        exists|decoded: Result<DecodedMessage, String>| #[trigger]
            call_ensures(decode, (abi, response), decoded) && match (decoded, result) {
                (Ok(a), Ok(b)) => a == b,
                (Err(text), Err(SdkError::AbiError(told))) => text == told,
                _ => false,
            },
{
}

/// The output of whichever function in bytes is what the ABI makes of the only root of the bytes.
pub proof fn law_unknown_function_response_from_bytes_json<
    D: Fn(&[u8]) -> SdkResult<Vec<Arc<Cell>>>,
    F: Fn(String, SliceData) -> Result<DecodedMessage, String>,
>(
    abi: String,
    bytes: &[u8],
    deserialize_cells_tree: &D,
    decode: F,
    result: SdkResult<DecodedMessage>,
)
    requires
        call_ensures(
            Contract::decode_unknown_function_response_from_bytes_json::<D, F>,
            (abi, bytes, deserialize_cells_tree, decode),
            result,
        ),
    ensures
        ({
            ||| result matches Err(error) && has_no_root(
                *deserialize_cells_tree,
                bytes,
                "Deserialize message error"@,
                error,
            )
            ||| exists|cell: Arc<Cell>, decoded: Result<DecodedMessage, String>|
                {
                    &&& #[trigger] has_root(*deserialize_cells_tree, bytes, cell)
                    &&& #[trigger] call_ensures(
                        decode,
                        (abi, SliceData { cell, bit_start: 0, reference_start: 0 }),
                        decoded,
                    )
                    &&& match (decoded, result) {
                        (Ok(a), Ok(b)) => a == b,
                        (Err(text), Err(SdkError::AbiError(told))) => text == told,
                        _ => false,
                    }
                }
        }),
{
    broadcast use lemma_slice;

}

/// The call of whichever function is what the ABI makes of it, and the only error is that of the
/// ABI.
pub proof fn law_unknown_function_call_json<
    F: Fn(String, SliceData) -> Result<DecodedMessage, String>,
>(
    abi: String,
    response: SliceData,
    decode: F,
    result: SdkResult<DecodedMessage>,
)
    requires
        call_ensures(
            Contract::decode_unknown_function_call_json::<F>,
            (abi, response, decode),
            result,
        ),
    ensures
        exists|decoded: Result<DecodedMessage, String>| #[trigger]
            call_ensures(decode, (abi, response), decoded) && match (decoded, result) {
                (Ok(a), Ok(b)) => a == b,
                (Err(text), Err(SdkError::AbiError(told))) => text == told,
                _ => false,
            },
{
}

/// The call of whichever function in bytes is what the ABI makes of the only root of the bytes.
pub proof fn law_unknown_function_call_from_bytes_json<
    D: Fn(&[u8]) -> SdkResult<Vec<Arc<Cell>>>,
    F: Fn(String, SliceData) -> Result<DecodedMessage, String>,
>(
    abi: String,
    bytes: &[u8],
    deserialize_cells_tree: &D,
    decode: F,
    result: SdkResult<DecodedMessage>,
)
    requires
        call_ensures(
            Contract::decode_unknown_function_call_from_bytes_json::<D, F>,
            (abi, bytes, deserialize_cells_tree, decode),
            result,
        ),
    ensures
        ({
            ||| result matches Err(error) && has_no_root(
                *deserialize_cells_tree,
                bytes,
                "Deserialize message error"@,
                error,
            )
            ||| exists|cell: Arc<Cell>, decoded: Result<DecodedMessage, String>|
                {
                    &&& #[trigger] has_root(*deserialize_cells_tree, bytes, cell)
                    &&& #[trigger] call_ensures(
                        decode,
                        (abi, SliceData { cell, bit_start: 0, reference_start: 0 }),
                        decoded,
                    )
                    &&& match (decoded, result) {
                        (Ok(a), Ok(b)) => a == b,
                        (Err(text), Err(SdkError::AbiError(told))) => text == told,
                        _ => false,
                    }
                }
        }),
{
    broadcast use lemma_slice;

}

} // verus!
