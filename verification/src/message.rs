//! Messages to contracts.

use std::sync::Arc;
use vstd::prelude::*;
use crate::address::{AddressView, MsgAddressInt, MsgAddressView};
use crate::bits::{AccountId, BitsView};
use crate::cell::{
    root_read, whole_cell, Cell, CellView, SliceData, SliceView, StateInit, StateView,
};
use crate::error::{alike, optional_view, SdkError, SdkResult};

verus! {

/// The identifier of a message.
pub type MessageId = [u8; 32];

/// The header of a message into the blockchain.
#[derive(Debug)]
pub struct ExternalInboundMessageHeader {
    /// The address outside the blockchain that the message comes from, where it has one.
    pub src: Option<AccountId>,
    /// The address of the account that the message is for.
    pub dst: MsgAddressInt,
    /// What is paid for bringing the message in, in nanograms.
    pub import_fee: u128,
}

/// The header of a message.
#[derive(Debug)]
pub enum MessageHeader {
    ExtInMsgInfo(ExternalInboundMessageHeader),
    /// The header of a message of another kind, in the cell that it is written in.
    Other(Arc<Cell>),
}

/// A message.
#[derive(Debug)]
pub struct Message {
    pub header: MessageHeader,
    pub init: Option<StateInit>,
    pub body: Option<SliceData>,
}

/// A message that is still to be signed, and the bytes to sign.
#[derive(Debug)]
pub struct MessageToSign {
    pub message: Vec<u8>,
    pub data_to_sign: Vec<u8>,
}

/// The header of a message as contracts speak of it.
pub enum HeaderView {
    ExtInMsgInfo { src: Option<BitsView>, dst: MsgAddressView, import_fee: u128 },
    Other(CellView),
}

/// A message as contracts speak of it.
pub struct MessageView {
    pub header: HeaderView,
    pub init: Option<StateView>,
    pub body: Option<SliceView>,
}

impl View for MessageHeader {
    type V = HeaderView;

    open spec fn view(&self) -> HeaderView {
        match self {
            MessageHeader::ExtInMsgInfo(header) => HeaderView::ExtInMsgInfo {
                src: optional_view(header.src),
                dst: header.dst@,
                import_fee: header.import_fee,
            },
            MessageHeader::Other(cell) => HeaderView::Other(cell@),
        }
    }
}

impl View for Message {
    type V = MessageView;

    open spec fn view(&self) -> MessageView {
        MessageView {
            header: self.header@,
            init: optional_view(self.init),
            body: optional_view(self.body),
        }
    }
}

/// The functions by which messages are written: into cells, which have a hash, and from there
/// into bytes.
pub struct MessageWriter<
    W: Fn(&Message) -> SdkResult<Arc<Cell>>,
    H: Fn(&Arc<Cell>) -> MessageId,
    B: Fn(&Arc<Cell>) -> SdkResult<Vec<u8>>,
> {
    pub write_to_new_cell: W,
    pub repr_hash: H,
    pub write_bag: B,
}

impl<
    W: Fn(&Message) -> SdkResult<Arc<Cell>>,
    H: Fn(&Arc<Cell>) -> MessageId,
    B: Fn(&Arc<Cell>) -> SdkResult<Vec<u8>>,
> MessageWriter<W, H, B> {
    /// The functions may be called with any arguments.
    pub open spec fn total(self) -> bool {
        &&& forall|message: &Message| #[trigger] call_requires(self.write_to_new_cell, (message,))
        &&& forall|cell: &Arc<Cell>| #[trigger] call_requires(self.repr_hash, (cell,))
        &&& forall|cell: &Arc<Cell>| #[trigger] call_requires(self.write_bag, (cell,))
    }

    /// The functions give results that look the same for messages, or cells, that look the same.
    pub open spec fn deterministic(self) -> bool {
        &&& forall|a: Message, b: Message, c: SdkResult<Arc<Cell>>, d: SdkResult<Arc<Cell>>|
            #[trigger] call_ensures(self.write_to_new_cell, (&a,), c) && #[trigger] call_ensures(
                self.write_to_new_cell,
                (&b,),
                d,
            ) && a@ == b@ ==> alike(c, d)
        &&& forall|a: Arc<Cell>, b: Arc<Cell>, c: MessageId, d: MessageId|
            #[trigger] call_ensures(self.repr_hash, (&a,), c) && #[trigger] call_ensures(
                self.repr_hash,
                (&b,),
                d,
            ) && a@ == b@ ==> c@ == d@
        &&& forall|a: Arc<Cell>, b: Arc<Cell>, c: SdkResult<Vec<u8>>, d: SdkResult<Vec<u8>>|
            #[trigger] call_ensures(self.write_bag, (&a,), c) && #[trigger] call_ensures(
                self.write_bag,
                (&b,),
                d,
            ) && a@ == b@ ==> alike(c, d)
    }

    /// `result` can come of writing the tree of cells of a message: its bytes and, as the
    /// message's identifier, its hash.
    pub open spec fn cells_written(
        self,
        cells: Arc<Cell>,
        result: SdkResult<(Vec<u8>, MessageId)>,
    ) -> bool {
        match result {
            Ok((data, id)) => {
                &&& call_ensures(self.repr_hash, (&cells,), id)
                &&& call_ensures(self.write_bag, (&cells,), Ok::<Vec<u8>, SdkError>(data))
            },
            Err(error) => call_ensures(
                self.write_bag,
                (&cells,),
                Err::<Vec<u8>, SdkError>(error),
            ),
        }
    }

    /// `result` can come of writing a message.
    pub open spec fn written(
        self,
        message: Message,
        result: SdkResult<(Vec<u8>, MessageId)>,
    ) -> bool {
        exists|cells: SdkResult<Arc<Cell>>| #[trigger]
            call_ensures(self.write_to_new_cell, (&message,), cells) && match cells {
                Ok(cells) => self.cells_written(cells, result),
                Err(error) => result == Err::<(Vec<u8>, MessageId), SdkError>(error),
            }
    }
}

/// The message is one into the blockchain with this destination, body and state.
pub open spec fn is_inbound(
    message: Message,
    dst: MsgAddressView,
    body: Option<SliceData>,
    init: Option<StateInit>,
) -> bool {
    &&& message.header@ == (HeaderView::ExtInMsgInfo { src: None, dst, import_fee: 0 })
    &&& message.init == init
    &&& message.body == body
}

/// What a message into the blockchain with this destination, body and state looks like.
pub open spec fn inbound_view(
    dst: MsgAddressView,
    body: Option<SliceView>,
    init: Option<StateView>,
) -> MessageView {
    MessageView {
        header: HeaderView::ExtInMsgInfo { src: None, dst, import_fee: 0 },
        init,
        body,
    }
}

/// `result` can come of creating a message to an account: the message, or an error where the
/// address is not complete and there is no default workchain.
pub open spec fn message_created(
    address: AddressView,
    default_workchain: Option<i32>,
    body: Option<SliceData>,
    init: Option<StateInit>,
    result: SdkResult<Message>,
) -> bool {
    match address.msg_address(default_workchain) {
        Ok(dst) => result matches Ok(message) && is_inbound(message, dst, body, init),
        Err(error) => result matches Err(e) && e@ == error,
    }
}

/// `result` can come of creating a message to an account and writing it.
pub open spec fn message_written<
    W: Fn(&Message) -> SdkResult<Arc<Cell>>,
    H: Fn(&Arc<Cell>) -> MessageId,
    B: Fn(&Arc<Cell>) -> SdkResult<Vec<u8>>,
>(
    writer: MessageWriter<W, H, B>,
    address: AddressView,
    default_workchain: Option<i32>,
    body: Option<SliceData>,
    init: Option<StateInit>,
    result: SdkResult<(Vec<u8>, MessageId)>,
) -> bool {
    exists|message: SdkResult<Message>| #[trigger]
        message_created(address, default_workchain, body, init, message) && match message {
            Ok(message) => writer.written(message, result),
            Err(error) => result == Err::<(Vec<u8>, MessageId), SdkError>(error),
        }
}

/// `result` can come of reading the tree of cells in these bytes.
pub open spec fn slice_read<D: Fn(&[u8]) -> SdkResult<Vec<Arc<Cell>>>>(
    deserialize_cells_tree: D,
    data: &[u8],
    result: SdkResult<SliceData>,
) -> bool {
    exists|root: SdkResult<Arc<Cell>>| #[trigger]
        root_read(deserialize_cells_tree, data, "Deserialize message error"@, root) && match root {
            Ok(root) => result == Ok::<SliceData, SdkError>(whole_cell(root)),
            Err(error) => result == Err::<SliceData, SdkError>(error),
        }
}

/// `result` can come of reading the message in these bytes.
pub open spec fn message_read<
    D: Fn(&[u8]) -> SdkResult<Vec<Arc<Cell>>>,
    C: Fn(SliceData) -> SdkResult<Message>,
>(deserialize_cells_tree: D, construct_from: C, data: &[u8], result: SdkResult<Message>) -> bool {
    exists|slice: SdkResult<SliceData>| #[trigger]
        slice_read(deserialize_cells_tree, data, slice) && match slice {
            Ok(slice) => call_ensures(construct_from, (slice,), result),
            Err(error) => result == Err::<Message, SdkError>(error),
        }
}

/// A message into the blockchain.
pub(crate) fn inbound(
    dst: MsgAddressInt,
    body: Option<SliceData>,
    init: Option<StateInit>,
) -> (message: Message)
    ensures
        is_inbound(message, dst@, body, init),
{
    let header = ExternalInboundMessageHeader { src: None, dst, import_fee: 0 };
    Message { header: MessageHeader::ExtInMsgInfo(header), init, body }
}

} // verus!
