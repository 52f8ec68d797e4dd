//! Laws of the messages that are built: what is in them, what they are written as, and which errors
//! come of it.

use std::sync::Arc;
use ed25519_dalek::Keypair;
use vstd::prelude::*;
use crate::address::{AccountAddress, AddressView, AnycastInfo, MsgAddressInt};
use crate::bits::BitsView;
use crate::cell::{Cell, SliceData};
use crate::contract::Contract;
use crate::error::{SdkError, SdkResult};
use crate::image::ContractImage;
use crate::message::{
    message_created, message_written, slice_read, Message, MessageHeader, MessageId, MessageToSign,
    MessageWriter,
};
use crate::settings::Settings;

verus! {

/// Both are missing, or both have the same depth and the same prefix.
pub open spec fn same_anycast(a: Option<AnycastInfo>, b: Option<AnycastInfo>) -> bool {
    match (a, b) {
        (Some(a), Some(b)) => a.depth == b.depth && a.rewrite_pfx@ == b.rewrite_pfx@,
        (None, None) => true,
        _ => false,
    }
}

/// `full` is the standard address of the account in the workchain whose number has the same low
/// byte as `workchain`.
pub open spec fn is_in_workchain(full: MsgAddressInt, id: BitsView, workchain: i32) -> bool {
    match full {
        MsgAddressInt::AddrStd(std) => {
            &&& std.anycast is None
            &&& std.address@ == id
            &&& (std.workchain_id - workchain) % 256 == 0
        },
        MsgAddressInt::AddrVar(_) => false,
    }
}

/// `full` is what a message to `address` names as its destination.
pub open spec fn is_destination(
    full: MsgAddressInt,
    address: AccountAddress,
    default_workchain: Option<i32>,
) -> bool {
    match (address, full) {
        (AccountAddress::Short(id), _) => default_workchain matches Some(workchain)
            && is_in_workchain(full, id@, workchain),
        (AccountAddress::Full(MsgAddressInt::AddrStd(a)), MsgAddressInt::AddrStd(b)) => {
            &&& a.workchain_id == b.workchain_id
            &&& a.address@ == b.address@
            &&& same_anycast(a.anycast, b.anycast)
        },
        (AccountAddress::Full(MsgAddressInt::AddrVar(a)), MsgAddressInt::AddrVar(b)) => {
            &&& a.workchain_id == b.workchain_id
            &&& a.address@ == b.address@
            &&& same_anycast(a.anycast, b.anycast)
        },
        _ => false,
    }
}

/// `result` is what the functions of the writer make of the message: the cell of the message, its
/// hash as identifier, and its bytes.
pub open spec fn is_posted<
    W: Fn(&Message) -> SdkResult<Arc<Cell>>,
    H: Fn(&Arc<Cell>) -> MessageId,
    B: Fn(&Arc<Cell>) -> SdkResult<Vec<u8>>,
>(
    writer: MessageWriter<W, H, B>,
    message: Message,
    result: SdkResult<(Vec<u8>, MessageId)>,
) -> bool {
    exists|cell: SdkResult<Arc<Cell>>| #[trigger]
        call_ensures(writer.write_to_new_cell, (&message,), cell) && match (cell, result) {
            (Ok(cell), Ok((data, id))) => {
                &&& call_ensures(writer.repr_hash, (&cell,), id)
                &&& call_ensures(writer.write_bag, (&cell,), Ok::<Vec<u8>, SdkError>(data))
            },
            (Ok(cell), Err(error)) => call_ensures(
                writer.write_bag,
                (&cell,),
                Err::<Vec<u8>, SdkError>(error),
            ),
            (Err(a), Err(b)) => a == b,
            (Err(_), Ok(_)) => false,
        }
}

/// `result` comes of a message to `address` with this body and without a state.
pub open spec fn is_call<
    W: Fn(&Message) -> SdkResult<Arc<Cell>>,
    H: Fn(&Arc<Cell>) -> MessageId,
    B: Fn(&Arc<Cell>) -> SdkResult<Vec<u8>>,
>(
    writer: MessageWriter<W, H, B>,
    address: AccountAddress,
    default_workchain: Option<i32>,
    body: SliceData,
    result: SdkResult<(Vec<u8>, MessageId)>,
) -> bool {
    if address is Short && default_workchain is None {
        result matches Err(error) && error is DefaultWorkchainNotSet
    } else {
        exists|message: Message|
            {
                &&& message.header matches MessageHeader::ExtInMsgInfo(header)
                &&& header.src is None
                &&& header.import_fee == 0
                &&& is_destination(header.dst, address, default_workchain)
                &&& message.init is None
                &&& message.body == Some(body)
                &&& #[trigger] is_posted(writer, message, result)
            }
    }
}

/// `result` comes of a message to the account of the image with the state of the image and this
/// body.
pub open spec fn is_deployment<
    W: Fn(&Message) -> SdkResult<Arc<Cell>>,
    H: Fn(&Arc<Cell>) -> MessageId,
    B: Fn(&Arc<Cell>) -> SdkResult<Vec<u8>>,
>(
    writer: MessageWriter<W, H, B>,
    image: ContractImage,
    default_workchain: Option<i32>,
    body: Option<SliceData>,
    result: SdkResult<(Vec<u8>, MessageId)>,
) -> bool {
    match default_workchain {
        None => result matches Err(error) && error is DefaultWorkchainNotSet,
        Some(workchain) => exists|message: Message|
            {
                &&& message.header matches MessageHeader::ExtInMsgInfo(header)
                &&& header.src is None
                &&& header.import_fee == 0
                &&& is_in_workchain(header.dst, image@.id, workchain)
                &&& message.init == Some(image@.state_init)
                &&& message.body == body
                &&& #[trigger] is_posted(writer, message, result)
            },
    }
}

/// The bytes have this cell as their only root.
pub open spec fn has_root<D: Fn(&[u8]) -> SdkResult<Vec<Arc<Cell>>>>(
    deserialize_cells_tree: D,
    bytes: &[u8],
    root: Arc<Cell>,
) -> bool {
    exists|roots: SdkResult<Vec<Arc<Cell>>>| #[trigger]
        call_ensures(deserialize_cells_tree, (bytes,), roots) && (roots matches Ok(roots)
            && roots@.len() == 1 && roots@[0] == root)
}

/// The bytes are refused with this error: they cannot be read, or they do not have a single root
/// and `complaint` says so.
pub open spec fn has_no_root<D: Fn(&[u8]) -> SdkResult<Vec<Arc<Cell>>>>(
    deserialize_cells_tree: D,
    bytes: &[u8],
    complaint: Seq<char>,
    error: SdkError,
) -> bool {
    exists|roots: SdkResult<Vec<Arc<Cell>>>| #[trigger]
        call_ensures(deserialize_cells_tree, (bytes,), roots) && match roots {
            Ok(roots) => roots@.len() != 1 && (error matches SdkError::InvalidData(text) && text@
                == complaint),
            Err(e) => error == e,
        }
}

/// Writing is posting.
pub broadcast proof fn lemma_posted<
    W: Fn(&Message) -> SdkResult<Arc<Cell>>,
    H: Fn(&Arc<Cell>) -> MessageId,
    B: Fn(&Arc<Cell>) -> SdkResult<Vec<u8>>,
>(
    writer: MessageWriter<W, H, B>,
    message: Message,
    result: SdkResult<(Vec<u8>, MessageId)>,
)
    requires
        #[trigger] writer.written(message, result),
    ensures
        is_posted(writer, message, result),
{
}

/// A slice that is read is the whole of the only root.
pub broadcast proof fn lemma_slice<D: Fn(&[u8]) -> SdkResult<Vec<Arc<Cell>>>>(
    deserialize_cells_tree: D,
    bytes: &[u8],
    slice: SdkResult<SliceData>,
)
    requires
        #[trigger] slice_read(deserialize_cells_tree, bytes, slice),
    ensures
        match slice {
            Ok(slice) => {
                &&& has_root(deserialize_cells_tree, bytes, slice.cell)
                &&& slice.bit_start == 0
                &&& slice.reference_start == 0
            },
            Err(error) => has_no_root(
                deserialize_cells_tree,
                bytes,
                "Deserialize message error"@,
                error,
            ),
        },
{
}

/// What a message to an address is written as.
pub broadcast proof fn lemma_call<
    W: Fn(&Message) -> SdkResult<Arc<Cell>>,
    H: Fn(&Arc<Cell>) -> MessageId,
    B: Fn(&Arc<Cell>) -> SdkResult<Vec<u8>>,
>(
    writer: MessageWriter<W, H, B>,
    address: AccountAddress,
    default_workchain: Option<i32>,
    body: SliceData,
    result: SdkResult<(Vec<u8>, MessageId)>,
)
    requires
        #[trigger] message_written(
            writer,
            address@,
            default_workchain,
            Some(body),
            None,
            result,
        ),
    ensures
        is_call(writer, address, default_workchain, body, result),
{
    broadcast use lemma_posted;

    let created = choose|created: SdkResult<Message>| #[trigger]
        message_created(address@, default_workchain, Some(body), None, created) && match created {
            Ok(message) => writer.written(message, result),
            Err(error) => result == Err::<(Vec<u8>, MessageId), SdkError>(error),
        };
    if created is Ok {
        let message = created->Ok_0;
        assert(writer.written(message, result));
    }
}

/// What a message that deploys an image is written as.
pub broadcast proof fn lemma_deployment<
    W: Fn(&Message) -> SdkResult<Arc<Cell>>,
    H: Fn(&Arc<Cell>) -> MessageId,
    B: Fn(&Arc<Cell>) -> SdkResult<Vec<u8>>,
>(
    writer: MessageWriter<W, H, B>,
    image: ContractImage,
    default_workchain: Option<i32>,
    body: Option<SliceData>,
    result: SdkResult<(Vec<u8>, MessageId)>,
)
    requires
        #[trigger] message_written(
            writer,
            AddressView::Short(image@.id),
            default_workchain,
            body,
            Some(image@.state_init),
            result,
        ),
    ensures
        is_deployment(writer, image, default_workchain, body, result),
{
    broadcast use lemma_posted;

    let created = choose|created: SdkResult<Message>| #[trigger]
        message_created(
            AddressView::Short(image@.id),
            default_workchain,
            body,
            Some(image@.state_init),
            created,
        ) && match created {
            Ok(message) => writer.written(message, result),
            Err(error) => result == Err::<(Vec<u8>, MessageId), SdkError>(error),
        };
    if created is Ok {
        let message = created->Ok_0;
        assert(writer.written(message, result));
    }
}

/// A message is written into its cell; the identifier is the hash of the cell, and the bytes are
/// those of the cell.
pub proof fn law_serialized_message<
    W: Fn(&Message) -> SdkResult<Arc<Cell>>,
    H: Fn(&Arc<Cell>) -> MessageId,
    B: Fn(&Arc<Cell>) -> SdkResult<Vec<u8>>,
>(
    message: Message,
    writer: &MessageWriter<W, H, B>,
    result: SdkResult<(Vec<u8>, MessageId)>,
)
    requires
        call_ensures(
            Contract::serialize_message::<W, H, B>,
            (message, writer),
            result,
        ),
    ensures
        is_posted(*writer, message, result),
{
    broadcast use {lemma_posted, lemma_slice, lemma_call, lemma_deployment};

}

/// A function call goes to the address, with the encoded call as body. An error of the encoding is
/// told as such.
pub proof fn law_call_message_json<
    E: Fn(String, String, String, Option<&Keypair>) -> Result<Arc<Cell>, String>,
    W: Fn(&Message) -> SdkResult<Arc<Cell>>,
    H: Fn(&Arc<Cell>) -> MessageId,
    B: Fn(&Arc<Cell>) -> SdkResult<Vec<u8>>,
>(
    address: AccountAddress,
    func: String,
    input: String,
    abi: String,
    key_pair: Option<&Keypair>,
    settings: &Settings,
    encode_function_call: E,
    writer: &MessageWriter<W, H, B>,
    result: SdkResult<(Vec<u8>, MessageId)>,
)
    requires
        call_ensures(
            Contract::construct_call_message_json::<E, W, H, B>,
            (address, func, input, abi, key_pair, settings, encode_function_call, writer),
            result,
        ),
    ensures
        exists|encoded: Result<Arc<Cell>, String>| #[trigger]
            call_ensures(encode_function_call, (abi, func, input, key_pair), encoded)
                && match encoded {
                Ok(cell) => is_call(
                    *writer,
                    address,
                    settings.default_workchain,
                    SliceData { cell, bit_start: 0, reference_start: 0 },
                    result,
                ),
                Err(text) => result matches Err(error) && error == SdkError::AbiError(text),
            },
{
    broadcast use {lemma_posted, lemma_slice, lemma_call, lemma_deployment};

}

/// A call with a body in bytes goes to the address, with the only root of the bytes as body.
pub proof fn law_call_message_with_body<
    D: Fn(&[u8]) -> SdkResult<Vec<Arc<Cell>>>,
    W: Fn(&Message) -> SdkResult<Arc<Cell>>,
    H: Fn(&Arc<Cell>) -> MessageId,
    B: Fn(&Arc<Cell>) -> SdkResult<Vec<u8>>,
>(
    address: AccountAddress,
    body: &[u8],
    settings: &Settings,
    deserialize_cells_tree: &D,
    writer: &MessageWriter<W, H, B>,
    result: SdkResult<(Vec<u8>, MessageId)>,
)
    requires
        call_ensures(
            Contract::construct_call_message_with_body::<D, W, H, B>,
            (address, body, settings, deserialize_cells_tree, writer),
            result,
        ),
    ensures
        ({
            ||| result matches Err(error) && has_no_root(
                *deserialize_cells_tree,
                body,
                "Deserialize message error"@,
                error,
            )
            ||| exists|cell: Arc<Cell>| #[trigger]
                has_root(*deserialize_cells_tree, body, cell) && is_call(
                    *writer,
                    address,
                    settings.default_workchain,
                    SliceData { cell, bit_start: 0, reference_start: 0 },
                    result,
                )
        }),
{
    broadcast use {lemma_posted, lemma_slice, lemma_call, lemma_deployment};

}

/// The message that deploys an image with a call of its constructor goes to the account of the
/// image, with the state of the image and the encoded call as body.
pub proof fn law_deploy_message_json<
    E: Fn(String, String, String, Option<&Keypair>) -> Result<Arc<Cell>, String>,
    W: Fn(&Message) -> SdkResult<Arc<Cell>>,
    H: Fn(&Arc<Cell>) -> MessageId,
    B: Fn(&Arc<Cell>) -> SdkResult<Vec<u8>>,
>(
    func: String,
    input: String,
    abi: String,
    image: ContractImage,
    key_pair: Option<&Keypair>,
    settings: &Settings,
    encode_function_call: E,
    writer: &MessageWriter<W, H, B>,
    result: SdkResult<(Vec<u8>, MessageId)>,
)
    requires
        call_ensures(
            Contract::construct_deploy_message_json::<E, W, H, B>,
            (func, input, abi, image, key_pair, settings, encode_function_call, writer),
            result,
        ),
    ensures
        exists|encoded: Result<Arc<Cell>, String>| #[trigger]
            call_ensures(encode_function_call, (abi, func, input, key_pair), encoded)
                && match encoded {
                Ok(cell) => is_deployment(
                    *writer,
                    image,
                    settings.default_workchain,
                    Some(SliceData { cell, bit_start: 0, reference_start: 0 }),
                    result,
                ),
                Err(text) => result matches Err(error) && error == SdkError::AbiError(text),
            },
{
    broadcast use {lemma_posted, lemma_slice, lemma_call, lemma_deployment};

}

/// The message that deploys an image with a body in bytes goes to the account of the image, with
/// the state of the image and the only root of the bytes as body, or without a body.
pub proof fn law_deploy_message_with_body<
    D: Fn(&[u8]) -> SdkResult<Vec<Arc<Cell>>>,
    W: Fn(&Message) -> SdkResult<Arc<Cell>>,
    H: Fn(&Arc<Cell>) -> MessageId,
    B: Fn(&Arc<Cell>) -> SdkResult<Vec<u8>>,
>(
    image: ContractImage,
    body: Option<&[u8]>,
    settings: &Settings,
    deserialize_cells_tree: &D,
    writer: &MessageWriter<W, H, B>,
    result: SdkResult<(Vec<u8>, MessageId)>,
)
    requires
        call_ensures(
            Contract::construct_deploy_message_with_body::<D, W, H, B>,
            (image, body, settings, deserialize_cells_tree, writer),
            result,
        ),
    ensures
        match body {
            None => is_deployment(*writer, image, settings.default_workchain, None, result),
            Some(bytes) => {
                ||| result matches Err(error) && has_no_root(
                    *deserialize_cells_tree,
                    bytes,
                    "Deserialize message error"@,
                    error,
                )
                ||| exists|cell: Arc<Cell>| #[trigger]
                    has_root(*deserialize_cells_tree, bytes, cell) && is_deployment(
                        *writer,
                        image,
                        settings.default_workchain,
                        Some(SliceData { cell, bit_start: 0, reference_start: 0 }),
                        result,
                    )
            },
        },
{
    broadcast use {lemma_posted, lemma_slice, lemma_call, lemma_deployment};

}

/// The message that deploys an image without a call goes to the account of the image, with the
/// state of the image and without a body.
pub proof fn law_deploy_message_no_constructor<
    W: Fn(&Message) -> SdkResult<Arc<Cell>>,
    H: Fn(&Arc<Cell>) -> MessageId,
    B: Fn(&Arc<Cell>) -> SdkResult<Vec<u8>>,
>(
    image: ContractImage,
    settings: &Settings,
    writer: &MessageWriter<W, H, B>,
    result: SdkResult<(Vec<u8>, MessageId)>,
)
    requires
        call_ensures(
            Contract::construct_deploy_message_no_constructor::<W, H, B>,
            (image, settings, writer),
            result,
        ),
    ensures
        is_deployment(*writer, image, settings.default_workchain, None, result),
{
    broadcast use {lemma_posted, lemma_slice, lemma_call, lemma_deployment};

}

/// A call that is still to be signed is the message to the address with the prepared call as body,
/// and the bytes to sign are all those that were prepared, whatever their number.
pub proof fn law_call_message_to_sign<
    E: Fn(String, String, String) -> Result<(Arc<Cell>, Vec<u8>), String>,
    W: Fn(&Message) -> SdkResult<Arc<Cell>>,
    H: Fn(&Arc<Cell>) -> MessageId,
    B: Fn(&Arc<Cell>) -> SdkResult<Vec<u8>>,
>(
    address: AccountAddress,
    func: String,
    input: String,
    abi: String,
    settings: &Settings,
    prepare_function_call_for_sign: E,
    writer: &MessageWriter<W, H, B>,
    result: SdkResult<MessageToSign>,
)
    requires
        call_ensures(
            Contract::get_call_message_bytes_for_signing::<E, W, H, B>,
            (address, func, input, abi, settings, prepare_function_call_for_sign, writer),
            result,
        ),
    ensures
        exists|prepared: Result<(Arc<Cell>, Vec<u8>), String>| #[trigger]
            call_ensures(prepare_function_call_for_sign, (abi, func, input), prepared)
                && match prepared {
                Err(text) => result matches Err(error) && error == SdkError::AbiError(text),
                Ok((cell, data)) => exists|written: SdkResult<(Vec<u8>, MessageId)>|
                    {
                        &&& #[trigger] is_call(
                            *writer,
                            address,
                            settings.default_workchain,
                            SliceData { cell, bit_start: 0, reference_start: 0 },
                            written,
                        )
                        &&& match (written, result) {
                            (Ok((bytes, _)), Ok(to_sign)) => {
                                &&& to_sign.message@.len() == bytes@.len()
                                &&& forall|i: int|
                                    0 <= i < bytes@.len() ==> to_sign.message@[i] == bytes@[i]
                                &&& to_sign.data_to_sign@.len() == data@.len()
                                &&& forall|i: int|
                                    0 <= i < data@.len() ==> to_sign.data_to_sign@[i] == data@[i]
                            },
                            (Err(a), Err(b)) => a == b,
                            _ => false,
                        }
                    },
            },
{
    broadcast use {lemma_posted, lemma_slice, lemma_call, lemma_deployment};

}

/// A deployment that is still to be signed is the message to the account of the image with its
/// state and the prepared call as body, and the bytes to sign are all those that were prepared,
/// whatever their number.
pub proof fn law_deploy_message_to_sign<
    E: Fn(String, String, String) -> Result<(Arc<Cell>, Vec<u8>), String>,
    W: Fn(&Message) -> SdkResult<Arc<Cell>>,
    H: Fn(&Arc<Cell>) -> MessageId,
    B: Fn(&Arc<Cell>) -> SdkResult<Vec<u8>>,
>(
    func: String,
    input: String,
    abi: String,
    image: ContractImage,
    settings: &Settings,
    prepare_function_call_for_sign: E,
    writer: &MessageWriter<W, H, B>,
    result: SdkResult<MessageToSign>,
)
    requires
        call_ensures(
            Contract::get_deploy_message_bytes_for_signing::<E, W, H, B>,
            (func, input, abi, image, settings, prepare_function_call_for_sign, writer),
            result,
        ),
    ensures
        exists|prepared: Result<(Arc<Cell>, Vec<u8>), String>| #[trigger]
            call_ensures(prepare_function_call_for_sign, (abi, func, input), prepared)
                && match prepared {
                Err(text) => result matches Err(error) && error == SdkError::AbiError(text),
                Ok((cell, data)) => exists|written: SdkResult<(Vec<u8>, MessageId)>|
                    {
                        &&& #[trigger] is_deployment(
                            *writer,
                            image,
                            settings.default_workchain,
                            Some(SliceData { cell, bit_start: 0, reference_start: 0 }),
                            written,
                        )
                        &&& match (written, result) {
                            (Ok((bytes, _)), Ok(to_sign)) => {
                                &&& to_sign.message@.len() == bytes@.len()
                                &&& forall|i: int|
                                    0 <= i < bytes@.len() ==> to_sign.message@[i] == bytes@[i]
                                &&& to_sign.data_to_sign@.len() == data@.len()
                                &&& forall|i: int|
                                    0 <= i < data@.len() ==> to_sign.data_to_sign@[i] == data@[i]
                            },
                            (Err(a), Err(b)) => a == b,
                            _ => false,
                        }
                    },
            },
{
    broadcast use {lemma_posted, lemma_slice, lemma_call, lemma_deployment};

}

/// A message is read from the only root of its bytes, from the first bit on.
pub proof fn law_deserialized_message<
    D: Fn(&[u8]) -> SdkResult<Vec<Arc<Cell>>>,
    C: Fn(SliceData) -> SdkResult<Message>,
>(
    bytes: &[u8],
    deserialize_cells_tree: &D,
    construct_from: &C,
    result: SdkResult<Message>,
)
    requires
        call_ensures(
            Contract::deserialize_message::<D, C>,
            (bytes, deserialize_cells_tree, construct_from),
            result,
        ),
    ensures
        ({
            ||| result matches Err(error) && has_no_root(
                *deserialize_cells_tree,
                bytes,
                "Deserialize message error"@,
                error,
            )
            ||| exists|cell: Arc<Cell>| #[trigger]
                has_root(*deserialize_cells_tree, bytes, cell) && call_ensures(
                    *construct_from,
                    (SliceData { cell, bit_start: 0, reference_start: 0 },),
                    result,
                )
        }),
{
    broadcast use {lemma_posted, lemma_slice, lemma_call, lemma_deployment};

}

/// A signature changes the body of a message and nothing else, and the message is written again.
pub proof fn law_signed_message<
    D: Fn(&[u8]) -> SdkResult<Vec<Arc<Cell>>>,
    C: Fn(SliceData) -> SdkResult<Message>,
    A: Fn(&[u8], &[u8], SliceData) -> Result<Arc<Cell>, String>,
    W: Fn(&Message) -> SdkResult<Arc<Cell>>,
    H: Fn(&Arc<Cell>) -> MessageId,
    B: Fn(&Arc<Cell>) -> SdkResult<Vec<u8>>,
>(
    signature: &[u8],
    public_key: &[u8],
    bytes: &[u8],
    deserialize_cells_tree: &D,
    construct_from: &C,
    add_sign_to_function_call: &A,
    writer: &MessageWriter<W, H, B>,
    result: SdkResult<(Vec<u8>, MessageId)>,
)
    requires
        call_ensures(
            Contract::add_sign_to_message::<D, C, A, W, H, B>,
            (
                signature,
                public_key,
                bytes,
                deserialize_cells_tree,
                construct_from,
                add_sign_to_function_call,
                writer,
            ),
            result,
        ),
    ensures
        ({
            ||| result matches Err(error) && has_no_root(
                *deserialize_cells_tree,
                bytes,
                "Deserialize message error"@,
                error,
            )
            ||| exists|cell: Arc<Cell>, read: SdkResult<Message>|
                {
                    &&& #[trigger] has_root(*deserialize_cells_tree, bytes, cell)
                    &&& #[trigger] call_ensures(
                        *construct_from,
                        (SliceData { cell, bit_start: 0, reference_start: 0 },),
                        read,
                    )
                    &&& match read {
                        Err(e) => result matches Err(error) && error == e,
                        Ok(message) => match message.body {
                            None => result matches Err(SdkError::InvalidData(text)) && text@
                                == "No message body"@,
                            Some(body) => exists|signed: Result<Arc<Cell>, String>| #[trigger]
                                call_ensures(
                                    *add_sign_to_function_call,
                                    (signature, public_key, body),
                                    signed,
                                ) && match signed {
                                    Err(text) => result matches Err(error) && error
                                        == SdkError::AbiError(text),
                                    Ok(root) => exists|sent: Message|
                                        {
                                            &&& sent.header == message.header
                                            &&& sent.init == message.init
                                            &&& sent.body == Some(
                                                SliceData {
                                                    cell: root,
                                                    bit_start: 0,
                                                    reference_start: 0,
                                                },
                                            )
                                            &&& #[trigger] is_posted(*writer, sent, result)
                                        },
                                },
                        },
                    }
                }
        }),
{
    broadcast use {lemma_posted, lemma_slice, lemma_call, lemma_deployment};

}

} // verus!
