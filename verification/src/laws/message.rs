//! Laws of messages.

use std::sync::Arc;
use vstd::prelude::*;
use crate::address::{low_byte, std_address, AddressView, MsgAddressView};
use crate::cell::{
    is_single_root, root_read, whole_cell, Cell, CellView, SliceData, SliceView, StateInit,
    StateView,
};
use crate::contract::{
    body_deployed, bytes_signed, message_signed, optional_slice_read, to_sign_written,
};
use crate::error::{alike, optional_view, SdkError, SdkErrorView, SdkResult};
use crate::image::ImageView;
use crate::message::{
    inbound_view, is_inbound, message_created, message_read, message_written, slice_read, Message,
    MessageId, MessageToSign, MessageWriter,
};

verus! {

/// A message that deploys an image goes to the account of the image in the default workchain and
/// carries what the account starts from.
pub proof fn law_deploy_message_goes_to_image(
    image: ImageView,
    workchain: i32,
    body: Option<SliceData>,
    result: SdkResult<Message>,
)
    requires
        message_created(
            AddressView::Short(image.id),
            Some(workchain),
            body,
            Some(image.state_init),
            result,
        ),
    ensures
        result matches Ok(message) && is_inbound(
            message,
            std_address(low_byte(workchain as int), image.id),
            body,
            Some(image.state_init),
        ),
{
}

/// Signing a message into the blockchain gives a message to the same account with the same state,
/// whose body is what the signature made of the body.
pub proof fn law_signing_keeps_destination<
    A: Fn(&[u8], &[u8], SliceData) -> Result<Arc<Cell>, String>,
    W: Fn(&Message) -> SdkResult<Arc<Cell>>,
    H: Fn(&Arc<Cell>) -> MessageId,
    B: Fn(&Arc<Cell>) -> SdkResult<Vec<u8>>,
>(
    add_sign_to_function_call: A,
    writer: MessageWriter<W, H, B>,
    signature: &[u8],
    public_key: &[u8],
    dst: MsgAddressView,
    body: SliceView,
    init: Option<StateView>,
    message: Message,
    result: SdkResult<(Vec<u8>, MessageId)>,
)
    requires
        message@ == inbound_view(dst, Some(body), init),
        message_signed(
            add_sign_to_function_call,
            writer,
            signature,
            public_key,
            message,
            result,
        ),
        result is Ok,
    ensures
        signed_and_sent(
            add_sign_to_function_call,
            writer,
            signature,
            public_key,
            dst,
            body,
            init,
            result,
        ),
{
    let slice = message.body->0;
    let made = choose|made: Result<Arc<Cell>, String>| #[trigger]
        call_ensures(add_sign_to_function_call, (signature, public_key, slice), made)
            && match made {
            Ok(signed) => writer.written(
                Message { body: Some(whole_cell(signed)), ..message },
                result,
            ),
            Err(text) => false,
        };
    let signed = made->Ok_0;
    let sent = Message { body: Some(whole_cell(signed)), ..message };
    assert(made == Ok::<Arc<Cell>, String>(signed));
    assert(sent@ == inbound_view(dst, Some(whole_cell(signed)@), init));
    assert(writer.written(sent, result));
}

/// `result` can come of signing a body like `body` and writing a message with this destination and
/// state and the signed body.
pub open spec fn signed_and_sent<
    A: Fn(&[u8], &[u8], SliceData) -> Result<Arc<Cell>, String>,
    W: Fn(&Message) -> SdkResult<Arc<Cell>>,
    H: Fn(&Arc<Cell>) -> MessageId,
    B: Fn(&Arc<Cell>) -> SdkResult<Vec<u8>>,
>(
    add_sign_to_function_call: A,
    writer: MessageWriter<W, H, B>,
    signature: &[u8],
    public_key: &[u8],
    dst: MsgAddressView,
    body: SliceView,
    init: Option<StateView>,
    result: SdkResult<(Vec<u8>, MessageId)>,
) -> bool {
    exists|slice: SliceData, signed: Arc<Cell>, sent: Message|
        {
            &&& slice@ == body
            &&& #[trigger] call_ensures(
                add_sign_to_function_call,
                (signature, public_key, slice),
                Ok::<Arc<Cell>, String>(signed),
            )
            &&& sent@ == inbound_view(dst, Some(whole_cell(signed)@), init)
            &&& #[trigger] writer.written(sent, result)
        }
}

/// Reading the bytes of a written message gives the message back.
pub open spec fn reads_back<
    D: Fn(&[u8]) -> SdkResult<Vec<Arc<Cell>>>,
    C: Fn(SliceData) -> SdkResult<Message>,
    W: Fn(&Message) -> SdkResult<Arc<Cell>>,
    H: Fn(&Arc<Cell>) -> MessageId,
    B: Fn(&Arc<Cell>) -> SdkResult<Vec<u8>>,
>(deserialize_cells_tree: D, construct_from: C, writer: MessageWriter<W, H, B>) -> bool {
    forall|message: Message, data: Vec<u8>, id: MessageId, bytes: &[u8], read: SdkResult<Message>|
        #[trigger] writer.written(message, Ok((data, id))) && bytes@ == data@
            && #[trigger] message_read(deserialize_cells_tree, construct_from, bytes, read)
            ==> (read matches Ok(back) && back@ == message@)
}

/// Where reading undoes writing, a message that was made to be signed is signed as it was made: it
/// still goes to the same account with the same state, and its body is what the signature made of
/// the body.
pub proof fn law_message_to_sign_is_signed<
    D: Fn(&[u8]) -> SdkResult<Vec<Arc<Cell>>>,
    C: Fn(SliceData) -> SdkResult<Message>,
    A: Fn(&[u8], &[u8], SliceData) -> Result<Arc<Cell>, String>,
    W: Fn(&Message) -> SdkResult<Arc<Cell>>,
    H: Fn(&Arc<Cell>) -> MessageId,
    B: Fn(&Arc<Cell>) -> SdkResult<Vec<u8>>,
>(
    deserialize_cells_tree: D,
    construct_from: C,
    add_sign_to_function_call: A,
    writer: MessageWriter<W, H, B>,
    signature: &[u8],
    public_key: &[u8],
    address: AddressView,
    default_workchain: Option<i32>,
    body: SliceData,
    init: Option<StateInit>,
    to_sign: MessageToSign,
    bytes: &[u8],
    result: SdkResult<(Vec<u8>, MessageId)>,
)
    requires
        reads_back(deserialize_cells_tree, construct_from, writer),
        to_sign_written(
            writer,
            address,
            default_workchain,
            Some(body),
            init,
            to_sign.data_to_sign,
            Ok(to_sign),
        ),
        bytes@ == to_sign.message@,
        bytes_signed(
            deserialize_cells_tree,
            construct_from,
            add_sign_to_function_call,
            writer,
            signature,
            public_key,
            bytes,
            result,
        ),
        result is Ok,
    ensures
        signed_and_sent(
            add_sign_to_function_call,
            writer,
            signature,
            public_key,
            address.msg_address(default_workchain)->Ok_0,
            body@,
            optional_view(init),
            result,
        ),
{
    let written = choose|written: SdkResult<(Vec<u8>, MessageId)>| #[trigger]
        message_written(writer, address, default_workchain, Some(body), init, written)
            && match written {
            Ok((message, _)) => to_sign.message == message,
            Err(error) => false,
        };
    let created = choose|created: SdkResult<Message>| #[trigger]
        message_created(address, default_workchain, Some(body), init, created) && match created {
            Ok(message) => writer.written(message, written),
            Err(error) => false,
        };
    let message = created->Ok_0;
    let (data, id) = written->Ok_0;
    assert(writer.written(message, Ok((data, id))));
    let read = choose|read: SdkResult<Message>| #[trigger]
        message_read(deserialize_cells_tree, construct_from, bytes, read) && match read {
            Ok(read) => message_signed(
                add_sign_to_function_call,
                writer,
                signature,
                public_key,
                read,
                result,
            ),
            Err(error) => false,
        };
    assert(read matches Ok(back) && back@ == message@);
    law_signing_keeps_destination(
        add_sign_to_function_call,
        writer,
        signature,
        public_key,
        address.msg_address(default_workchain)->Ok_0,
        body@,
        optional_view(init),
        read->Ok_0,
        result,
    );
}

/// Reading the bytes of a tree of cells gives its root back.
pub open spec fn bags_read_back<
    D: Fn(&[u8]) -> SdkResult<Vec<Arc<Cell>>>,
    W: Fn(&Message) -> SdkResult<Arc<Cell>>,
    H: Fn(&Arc<Cell>) -> MessageId,
    B: Fn(&Arc<Cell>) -> SdkResult<Vec<u8>>,
>(deserialize_cells_tree: D, writer: MessageWriter<W, H, B>) -> bool {
    forall|cell: Arc<Cell>, data: Vec<u8>, bytes: &[u8], roots: SdkResult<Vec<Arc<Cell>>>|
        #[trigger] call_ensures(writer.write_bag, (&cell,), Ok::<Vec<u8>, SdkError>(data)) && bytes@
            == data@ && #[trigger] call_ensures(deserialize_cells_tree, (bytes,), roots) ==> (
        roots matches Ok(roots) && is_only_root(roots@, cell@))
}

/// There is one root, and it looks like `cell`.
pub open spec fn is_only_root(roots: Seq<Arc<Cell>>, cell: CellView) -> bool {
    roots.len() == 1 && roots[0]@ == cell
}

/// Reading the cell of a message gives the message back.
pub open spec fn cells_read_back<
    C: Fn(SliceData) -> SdkResult<Message>,
    W: Fn(&Message) -> SdkResult<Arc<Cell>>,
    H: Fn(&Arc<Cell>) -> MessageId,
    B: Fn(&Arc<Cell>) -> SdkResult<Vec<u8>>,
>(construct_from: C, writer: MessageWriter<W, H, B>) -> bool {
    forall|message: Message, cell: Arc<Cell>, slice: SliceData, read: SdkResult<Message>|
        #[trigger] call_ensures(
            writer.write_to_new_cell,
            (&message,),
            Ok::<Arc<Cell>, SdkError>(cell),
        ) && slice@ == whole_cell(cell)@ && #[trigger] call_ensures(construct_from, (slice,), read)
            ==> (read matches Ok(back) && back@ == message@)
}

/// The only root in the bytes of a message is the cell of the message, and its hash is the
/// message's identifier.
pub proof fn law_message_is_the_only_root<
    D: Fn(&[u8]) -> SdkResult<Vec<Arc<Cell>>>,
    W: Fn(&Message) -> SdkResult<Arc<Cell>>,
    H: Fn(&Arc<Cell>) -> MessageId,
    B: Fn(&Arc<Cell>) -> SdkResult<Vec<u8>>,
>(
    deserialize_cells_tree: D,
    writer: MessageWriter<W, H, B>,
    message: Message,
    data: Vec<u8>,
    id: MessageId,
    bytes: &[u8],
)
    requires
        bags_read_back(deserialize_cells_tree, writer),
        writer.written(message, Ok((data, id))),
        bytes@ == data@,
    ensures
        exists|cell: Arc<Cell>|
            {
                &&& #[trigger] call_ensures(
                    writer.write_to_new_cell,
                    (&message,),
                    Ok::<Arc<Cell>, SdkError>(cell),
                )
                &&& call_ensures(writer.repr_hash, (&cell,), id)
                &&& forall|roots: SdkResult<Vec<Arc<Cell>>>| #[trigger]
                    call_ensures(deserialize_cells_tree, (bytes,), roots) ==> (roots matches Ok(
                        roots,
                    ) && is_only_root(roots@, cell@))
            },
{
    let cells = choose|cells: SdkResult<Arc<Cell>>| #[trigger]
        call_ensures(writer.write_to_new_cell, (&message,), cells) && match cells {
            Ok(cells) => writer.cells_written(cells, Ok((data, id))),
            Err(error) => false,
        };
    let cell = cells->Ok_0;
    assert(cells == Ok::<Arc<Cell>, SdkError>(cell));
    assert(call_ensures(writer.write_bag, (&cell,), Ok::<Vec<u8>, SdkError>(data)));
}

/// Where cells are read back from their bytes and messages from their cells, reading undoes
/// writing.
pub proof fn law_reading_undoes_writing<
    D: Fn(&[u8]) -> SdkResult<Vec<Arc<Cell>>>,
    C: Fn(SliceData) -> SdkResult<Message>,
    W: Fn(&Message) -> SdkResult<Arc<Cell>>,
    H: Fn(&Arc<Cell>) -> MessageId,
    B: Fn(&Arc<Cell>) -> SdkResult<Vec<u8>>,
>(deserialize_cells_tree: D, construct_from: C, writer: MessageWriter<W, H, B>)
    requires
        bags_read_back(deserialize_cells_tree, writer),
        cells_read_back(construct_from, writer),
    ensures
        reads_back(deserialize_cells_tree, construct_from, writer),
{
    assert forall|
        message: Message,
        data: Vec<u8>,
        id: MessageId,
        bytes: &[u8],
        read: SdkResult<Message>,
    |
        #[trigger] writer.written(message, Ok((data, id))) && bytes@ == data@
            && #[trigger] message_read(
            deserialize_cells_tree,
            construct_from,
            bytes,
            read,
        ) implies (read matches Ok(back) && back@ == message@) by {
        let cells = choose|cells: SdkResult<Arc<Cell>>| #[trigger]
            call_ensures(writer.write_to_new_cell, (&message,), cells) && match cells {
                Ok(cells) => writer.cells_written(cells, Ok((data, id))),
                Err(error) => false,
            };
        let cell = cells->Ok_0;
        assert(cells == Ok::<Arc<Cell>, SdkError>(cell));
        assert(call_ensures(writer.write_bag, (&cell,), Ok::<Vec<u8>, SdkError>(data)));
        let slice = choose|slice: SdkResult<SliceData>| #[trigger]
            slice_read(deserialize_cells_tree, bytes, slice) && match slice {
                Ok(slice) => call_ensures(construct_from, (slice,), read),
                Err(error) => read == Err::<Message, SdkError>(error),
            };
        let root = choose|root: SdkResult<Arc<Cell>>| #[trigger]
            root_read(deserialize_cells_tree, bytes, "Deserialize message error"@, root)
                && match root {
                Ok(root) => slice == Ok::<SliceData, SdkError>(whole_cell(root)),
                Err(error) => slice == Err::<SliceData, SdkError>(error),
            };
        let roots = choose|roots: SdkResult<Vec<Arc<Cell>>>| #[trigger]
            call_ensures(deserialize_cells_tree, (bytes,), roots) && is_single_root(
                roots,
                "Deserialize message error"@,
                root,
            );
        assert(roots matches Ok(roots) && is_only_root(roots@, cell@));
        assert(slice matches Ok(slice) && slice@ == whole_cell(cell)@);
    }
}

/// Bytes that do not have a single root are no message.
pub proof fn law_message_has_a_single_root<
    D: Fn(&[u8]) -> SdkResult<Vec<Arc<Cell>>>,
    C: Fn(SliceData) -> SdkResult<Message>,
>(deserialize_cells_tree: D, construct_from: C, bytes: &[u8], result: SdkResult<Message>)
    requires
        forall|roots: SdkResult<Vec<Arc<Cell>>>| #[trigger]
            call_ensures(deserialize_cells_tree, (bytes,), roots) ==> (roots matches Ok(roots)
                && roots@.len() != 1),
        message_read(deserialize_cells_tree, construct_from, bytes, result),
    ensures
        result matches Err(error) && error@ == SdkErrorView::InvalidData(
            "Deserialize message error"@,
        ),
{
}

/// Where writing is deterministic, messages that look the same are written in the same bytes with
/// the same identifier, or refused with the same error.
pub proof fn law_writing_is_repeatable<
    W: Fn(&Message) -> SdkResult<Arc<Cell>>,
    H: Fn(&Arc<Cell>) -> MessageId,
    B: Fn(&Arc<Cell>) -> SdkResult<Vec<u8>>,
>(
    writer: MessageWriter<W, H, B>,
    message: Message,
    again: Message,
    first: SdkResult<(Vec<u8>, MessageId)>,
    second: SdkResult<(Vec<u8>, MessageId)>,
)
    requires
        writer.deterministic(),
        message@ == again@,
        writer.written(message, first),
        writer.written(again, second),
    ensures
        alike(first, second),
{
    let a = choose|a: SdkResult<Arc<Cell>>| #[trigger]
        call_ensures(writer.write_to_new_cell, (&message,), a) && match a {
            Ok(cells) => writer.cells_written(cells, first),
            Err(error) => first == Err::<(Vec<u8>, MessageId), SdkError>(error),
        };
    let b = choose|b: SdkResult<Arc<Cell>>| #[trigger]
        call_ensures(writer.write_to_new_cell, (&again,), b) && match b {
            Ok(cells) => writer.cells_written(cells, second),
            Err(error) => second == Err::<(Vec<u8>, MessageId), SdkError>(error),
        };
    assert(alike(a, b));
}

/// Where reading undoes writing and writing is deterministic, a message that was read from its
/// bytes is written in the same bytes again, with the same identifier.
pub proof fn law_read_message_is_written_alike<
    D: Fn(&[u8]) -> SdkResult<Vec<Arc<Cell>>>,
    C: Fn(SliceData) -> SdkResult<Message>,
    W: Fn(&Message) -> SdkResult<Arc<Cell>>,
    H: Fn(&Arc<Cell>) -> MessageId,
    B: Fn(&Arc<Cell>) -> SdkResult<Vec<u8>>,
>(
    deserialize_cells_tree: D,
    construct_from: C,
    writer: MessageWriter<W, H, B>,
    message: Message,
    data: Vec<u8>,
    id: MessageId,
    bytes: &[u8],
    read: SdkResult<Message>,
    again: SdkResult<(Vec<u8>, MessageId)>,
)
    requires
        reads_back(deserialize_cells_tree, construct_from, writer),
        writer.deterministic(),
        writer.written(message, Ok((data, id))),
        bytes@ == data@,
        message_read(deserialize_cells_tree, construct_from, bytes, read),
        read matches Ok(back) ==> writer.written(back, again),
    ensures
        read matches Ok(back) && back@ == message@,
        again matches Ok((data_again, id_again)) && data_again@ == data@ && id_again@ == id@,
{
    assert(read matches Ok(back) && back@ == message@);
    law_writing_is_repeatable(writer, message, read->Ok_0, Ok((data, id)), again);
}

/// Where writing is deterministic, images that look the same are deployed without a body by the
/// same message, whether the body is left out or the image has no constructor.
pub proof fn law_no_body_is_no_constructor<
    D: Fn(&[u8]) -> SdkResult<Vec<Arc<Cell>>>,
    W: Fn(&Message) -> SdkResult<Arc<Cell>>,
    H: Fn(&Arc<Cell>) -> MessageId,
    B: Fn(&Arc<Cell>) -> SdkResult<Vec<u8>>,
>(
    deserialize_cells_tree: D,
    writer: MessageWriter<W, H, B>,
    default_workchain: Option<i32>,
    image1: ImageView,
    image2: ImageView,
    with_body: SdkResult<(Vec<u8>, MessageId)>,
    no_constructor: SdkResult<(Vec<u8>, MessageId)>,
)
    requires
        writer.deterministic(),
        image1.state_init@ == image2.state_init@,
        image1.id == image2.id,
        body_deployed(deserialize_cells_tree, writer, default_workchain, image1, None, with_body),
        message_written(
            writer,
            AddressView::Short(image2.id),
            default_workchain,
            None,
            Some(image2.state_init),
            no_constructor,
        ),
    ensures
        alike(with_body, no_constructor),
{
    let address = AddressView::Short(image1.id);
    let init1 = Some(image1.state_init);
    let init2 = Some(image2.state_init);
    assert(message_written(writer, address, default_workchain, None, init1, with_body));
    let a = choose|a: SdkResult<Message>| #[trigger]
        message_created(address, default_workchain, None, init1, a) && match a {
            Ok(message) => writer.written(message, with_body),
            Err(error) => with_body == Err::<(Vec<u8>, MessageId), SdkError>(error),
        };
    let b = choose|b: SdkResult<Message>| #[trigger]
        message_created(address, default_workchain, None, init2, b) && match b {
            Ok(message) => writer.written(message, no_constructor),
            Err(error) => no_constructor == Err::<(Vec<u8>, MessageId), SdkError>(error),
        };
    if default_workchain is Some {
        law_writing_is_repeatable(writer, a->Ok_0, b->Ok_0, with_body, no_constructor);
    }
}

/// An image is deployed with the only root of the bytes as body.
pub proof fn law_body_is_the_only_root<
    D: Fn(&[u8]) -> SdkResult<Vec<Arc<Cell>>>,
    W: Fn(&Message) -> SdkResult<Arc<Cell>>,
    H: Fn(&Arc<Cell>) -> MessageId,
    B: Fn(&Arc<Cell>) -> SdkResult<Vec<u8>>,
>(
    deserialize_cells_tree: D,
    writer: MessageWriter<W, H, B>,
    default_workchain: Option<i32>,
    image: ImageView,
    body: &[u8],
    cell: CellView,
    result: SdkResult<(Vec<u8>, MessageId)>,
)
    requires
        forall|roots: SdkResult<Vec<Arc<Cell>>>| #[trigger]
            call_ensures(deserialize_cells_tree, (body,), roots) ==> (roots matches Ok(roots)
                && is_only_root(roots@, cell)),
        body_deployed(
            deserialize_cells_tree,
            writer,
            default_workchain,
            image,
            Some(body),
            result,
        ),
    ensures
        exists|root: Arc<Cell>|
            root@ == cell && #[trigger] message_written(
                writer,
                AddressView::Short(image.id),
                default_workchain,
                Some(whole_cell(root)),
                Some(image.state_init),
                result,
            ),
{
    let slice = choose|slice: SdkResult<Option<SliceData>>| #[trigger]
        optional_slice_read(deserialize_cells_tree, Some(body), slice) && match slice {
            Ok(slice) => message_written(
                writer,
                AddressView::Short(image.id),
                default_workchain,
                slice,
                Some(image.state_init),
                result,
            ),
            Err(error) => result == Err::<(Vec<u8>, MessageId), SdkError>(error),
        };
    assert(slice is Ok);
    let root = slice->Ok_0->0.cell;
    assert(slice->Ok_0->0 == whole_cell(root) && root@ == cell);
}

/// An image is not deployed with bytes as body that do not have a single root.
pub proof fn law_body_has_a_single_root<
    D: Fn(&[u8]) -> SdkResult<Vec<Arc<Cell>>>,
    W: Fn(&Message) -> SdkResult<Arc<Cell>>,
    H: Fn(&Arc<Cell>) -> MessageId,
    B: Fn(&Arc<Cell>) -> SdkResult<Vec<u8>>,
>(
    deserialize_cells_tree: D,
    writer: MessageWriter<W, H, B>,
    default_workchain: Option<i32>,
    image: ImageView,
    body: &[u8],
    result: SdkResult<(Vec<u8>, MessageId)>,
)
    requires
        forall|roots: SdkResult<Vec<Arc<Cell>>>| #[trigger]
            call_ensures(deserialize_cells_tree, (body,), roots) ==> (roots matches Ok(roots)
                && roots@.len() != 1),
        body_deployed(
            deserialize_cells_tree,
            writer,
            default_workchain,
            image,
            Some(body),
            result,
        ),
    ensures
        result matches Err(error) && error@ == SdkErrorView::InvalidData(
            "Deserialize message error"@,
        ),
{
}

/// Where reading undoes writing, a message without a body is refused when it is to be signed.
pub proof fn law_nothing_to_sign_is_refused<
    D: Fn(&[u8]) -> SdkResult<Vec<Arc<Cell>>>,
    C: Fn(SliceData) -> SdkResult<Message>,
    A: Fn(&[u8], &[u8], SliceData) -> Result<Arc<Cell>, String>,
    W: Fn(&Message) -> SdkResult<Arc<Cell>>,
    H: Fn(&Arc<Cell>) -> MessageId,
    B: Fn(&Arc<Cell>) -> SdkResult<Vec<u8>>,
>(
    deserialize_cells_tree: D,
    construct_from: C,
    add_sign_to_function_call: A,
    writer: MessageWriter<W, H, B>,
    signature: &[u8],
    public_key: &[u8],
    address: AddressView,
    default_workchain: Option<i32>,
    init: Option<StateInit>,
    data: Vec<u8>,
    id: MessageId,
    bytes: &[u8],
    result: SdkResult<(Vec<u8>, MessageId)>,
)
    requires
        reads_back(deserialize_cells_tree, construct_from, writer),
        message_written(writer, address, default_workchain, None, init, Ok((data, id))),
        bytes@ == data@,
        bytes_signed(
            deserialize_cells_tree,
            construct_from,
            add_sign_to_function_call,
            writer,
            signature,
            public_key,
            bytes,
            result,
        ),
    ensures
        result matches Err(error) && error@ == SdkErrorView::InvalidData("No message body"@),
{
    let written = Ok::<(Vec<u8>, MessageId), SdkError>((data, id));
    let created = choose|created: SdkResult<Message>| #[trigger]
        message_created(address, default_workchain, None, init, created) && match created {
            Ok(message) => writer.written(message, written),
            Err(error) => false,
        };
    let message = created->Ok_0;
    assert(writer.written(message, Ok((data, id))));
    let read = choose|read: SdkResult<Message>| #[trigger]
        message_read(deserialize_cells_tree, construct_from, bytes, read) && match read {
            Ok(read) => message_signed(
                add_sign_to_function_call,
                writer,
                signature,
                public_key,
                read,
                result,
            ),
            Err(error) => result == Err::<(Vec<u8>, MessageId), SdkError>(error),
        };
    assert(read matches Ok(back) && back@ == message@);
}

} // verus!
