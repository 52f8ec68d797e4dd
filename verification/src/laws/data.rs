//! Laws of strings of bits and cells.

use std::sync::Arc;
use vstd::prelude::*;
use crate::address::{AccountAddress, MsgAddressInt};
use crate::bits::{AccountId, BitString};
use crate::cell::{read_root, Cell, SliceData, StateInit};
use crate::error::{invalid_arg, invalid_data, SdkError, SdkResult};
use crate::json::{json_value, parse_json};
use crate::laws::making::lemma_root;
use crate::laws::outgoing::{has_no_root, has_root, is_destination};
use crate::settings::Settings;

verus! {

/// A string of bits has the bits of its bytes but for the last ones, which are unused and zero. The
/// bytes must have as many last bits, fewer than eight.
pub proof fn law_new_bits(bytes: Vec<u8>, unused: u8, result: Option<BitString>)
    requires
        call_ensures(BitString::new, (bytes, unused), result),
    ensures
        result is None <==> unused >= 8 || (unused > 0 && bytes@.len() == 0),
        result matches Some(bits) ==> {
            let last = bytes@.len() - 1;
            &&& bits@.unused == unused
            &&& bits@.bytes.len() == bytes@.len()
            &&& forall|i: int| 0 <= i < last ==> #[trigger] bits@.bytes[i] == bytes@[i]
            &&& last >= 0 ==> bits@.bytes[last] >> unused == bytes@[last] >> unused
            &&& last >= 0 ==> (bits@.bytes[last] >> unused) << unused == bits@.bytes[last]
        },
{
    if result is Some && bytes@.len() > 0 {
        let byte = bytes@.last();
        assert(unused < 8 ==> ((byte >> unused) << unused) >> unused == byte >> unused)
            by (bit_vector);
        assert((byte >> 0u8) << 0u8 == byte) by (bit_vector);
        assert(unused < 8 ==> (((byte >> unused) << unused) >> unused) << unused == (byte
            >> unused) << unused) by (bit_vector);
    }
}

/// The bits of whole bytes are all the bits of the bytes.
pub proof fn law_bits_of_bytes(bytes: Vec<u8>, result: BitString)
    requires
        call_ensures(BitString::from_bytes, (bytes,), result),
    ensures
        result@.bytes == bytes@,
        result@.unused == 0,
{
}

/// The single bit one is the high bit of one byte.
pub proof fn law_bit_one(result: BitString)
    requires
        call_ensures(BitString::one, (), result),
    ensures
        result@.bytes == seq![0x80u8],
        result@.unused == 7,
{
}

/// No bits are no bytes.
pub proof fn law_no_bits(result: BitString)
    requires
        call_ensures(BitString::empty, (), result),
    ensures
        result@.bytes.len() == 0,
        result@.unused == 0,
{
}

/// A string has 256 bits if its bytes have them, without the unused ones.
pub proof fn law_256_bits(bits: &BitString, result: bool)
    requires
        call_ensures(BitString::has_256_bits, (bits,), result),
    ensures
        result <==> 8 * bits@.bytes.len() - bits@.unused == 256,
{
}

/// The bytes of a string of bits are those that it was made of.
pub proof fn law_bytes_of_bits(bits: &BitString, bytes: &[u8], unused: u8)
    requires
        call_ensures(BitString::bytes, (bits,), bytes),
        call_ensures(BitString::unused, (bits,), unused),
    ensures
        bytes@ == bits@.bytes,
        unused == bits@.unused,
{
}

/// A cell of bytes has their bits and refers to nothing.
pub proof fn law_cell_of_bytes(bytes: Vec<u8>, result: Cell)
    requires
        call_ensures(Cell::with_bytes, (bytes,), result),
    ensures
        result.bits@.bytes == bytes@,
        result.bits@.unused == 0,
        result.references@.len() == 0,
{
}

/// An empty cell has no bits and refers to nothing.
pub proof fn law_empty_cell(result: Cell)
    requires
        call_ensures(Cell::empty, (), result),
    ensures
        result.bits@.bytes.len() == 0,
        result.bits@.unused == 0,
        result.references@.len() == 0,
{
}

/// The cell of a dictionary has the single bit one and refers to the root alone.
pub proof fn law_cell_of_dictionary(root: Arc<Cell>, result: Cell)
    requires
        call_ensures(Cell::with_dictionary, (root,), result),
    ensures
        result.bits@.bytes == seq![0x80u8],
        result.bits@.unused == 7,
        result.references@.len() == 1,
        result.references@[0] == root,
{
}

/// The slice of a cell begins at its first bit and its first reference.
pub proof fn law_slice_of_cell(cell: Arc<Cell>, result: SliceData)
    requires
        call_ensures(SliceData::from_cell, (cell,), result),
    ensures
        result.cell == cell,
        result.bit_start == 0,
        result.reference_start == 0,
{
}

/// An empty state has no parts.
pub proof fn law_empty_state(result: StateInit)
    requires
        call_ensures(StateInit::empty, (), result),
    ensures
        result.code is None,
        result.data is None,
        result.library is None,
        result.split_depth is None,
        result.special is None,
{
}

/// A bag of cells is read as its only root; else the error is that of reading it, or the complaint.
pub proof fn law_read_root<D: Fn(&[u8]) -> SdkResult<Vec<Arc<Cell>>>>(
    deserialize_cells_tree: &D,
    bag: &[u8],
    complaint: &str,
    result: SdkResult<Arc<Cell>>,
)
    requires
        call_ensures(read_root::<D>, (deserialize_cells_tree, bag, complaint), result),
    ensures
        match result {
            Ok(root) => has_root(*deserialize_cells_tree, bag, root),
            Err(error) => has_no_root(*deserialize_cells_tree, bag, complaint@, error),
        },
{
    broadcast use lemma_root;

}

/// JSON text is read as its value, or refused with the error of reading it.
pub proof fn law_parsed_json(text: &str, result: SdkResult<serde_json::Value>)
    requires
        call_ensures(parse_json, (text,), result),
    ensures
        match (json_value(text@), result) {
            (Ok(a), Ok(b)) => a == b,
            (Err(a), Err(SdkError::SerdeJson(b))) => a == b,
            _ => false,
        },
{
}

/// New settings have no default workchain.
pub proof fn law_new_settings(result: Settings)
    requires
        call_ensures(Settings::new, (), result),
    ensures
        result.default_workchain is None,
{
}

/// An identifier is a short address.
pub proof fn law_address_of_id(id: AccountId, result: AccountAddress)
    requires
        call_ensures(<AccountAddress as From<AccountId>>::from, (id,), result),
    ensures
        result matches AccountAddress::Short(short) && short == id,
{
}

/// An address in the blockchain is a full address.
pub proof fn law_address_of_message(address: MsgAddressInt, result: AccountAddress)
    requires
        call_ensures(<AccountAddress as From<MsgAddressInt>>::from, (address,), result),
    ensures
        result matches AccountAddress::Full(full) && full == address,
{
}

/// A copy of a string of bits has the same bits.
pub proof fn law_copy_of_bits(bits: &BitString, result: BitString)
    requires
        call_ensures(<BitString as Clone>::clone, (bits,), result),
    ensures
        result@.bytes == bits@.bytes,
        result@.unused == bits@.unused,
{
}

/// A copy of a state has the same parts.
pub proof fn law_copy_of_state(state: &StateInit, result: StateInit)
    requires
        call_ensures(<StateInit as Clone>::clone, (state,), result),
    ensures
        result.code == state.code,
        result.data == state.data,
        result.library == state.library,
        result.split_depth == state.split_depth,
        result.special == state.special,
{
}

/// A copy of an address names the same account in the same workchain.
pub proof fn law_copy_of_address(address: &AccountAddress, result: AccountAddress)
    requires
        call_ensures(<AccountAddress as Clone>::clone, (address,), result),
    ensures
        match (*address, result) {
            (AccountAddress::Short(a), AccountAddress::Short(b)) => a@ == b@,
            (AccountAddress::Full(a), AccountAddress::Full(b)) => is_destination(
                b,
                AccountAddress::Full(a),
                None,
            ),
            _ => false,
        },
{
}

/// The complaint about data has the text that is given.
pub proof fn law_complaint_about_data(text: &str, result: SdkError)
    requires
        call_ensures(invalid_data, (text,), result),
    ensures
        result matches SdkError::InvalidData(told) && told@ == text@,
{
}

/// The complaint about an argument has the text that is given.
pub proof fn law_complaint_about_argument(text: &str, result: SdkError)
    requires
        call_ensures(invalid_arg, (text,), result),
    ensures
        result matches SdkError::InvalidArg(told) && told@ == text@,
{
}

} // verus!
