//! Trees of cells, in which the blockchain keeps its data.

use std::sync::Arc;
use vstd::prelude::*;
use crate::bits::{one_bit, whole_bytes, BitString, BitsView};
use crate::error::{invalid_data, optional_view, SdkError, SdkErrorView, SdkResult};

verus! {

/// A cell: bits of its own and references to other cells.
#[derive(Debug)]
pub struct Cell {
    pub bits: BitString,
    pub references: Vec<Arc<Cell>>,
}

/// What is left of a cell from a bit and a reference on.
#[derive(Debug)]
pub struct SliceData {
    pub cell: Arc<Cell>,
    pub bit_start: usize,
    pub reference_start: usize,
}

/// When the blockchain itself calls a special contract.
#[derive(Clone, Copy, Debug, PartialEq, Eq, Structural)]
pub struct TickTock {
    pub tick: bool,
    pub tock: bool,
}

/// What an account starts from.
#[derive(Debug)]
pub struct StateInit {
    pub split_depth: Option<u8>,
    pub special: Option<TickTock>,
    pub code: Option<Arc<Cell>>,
    pub data: Option<Arc<Cell>>,
    pub library: Option<Arc<Cell>>,
}

/// A cell as contracts speak of it: its bits and what it refers to, down to the leaves of the tree.
#[verifier::ext_equal]
pub struct CellView {
    pub bits: BitsView,
    pub references: Seq<CellView>,
}

/// What is left of a cell, as contracts speak of it.
pub struct SliceView {
    pub cell: CellView,
    pub bit_start: usize,
    pub reference_start: usize,
}

/// What an account starts from, as contracts speak of it.
pub struct StateView {
    pub split_depth: Option<u8>,
    pub special: Option<TickTock>,
    pub code: Option<CellView>,
    pub data: Option<CellView>,
    pub library: Option<CellView>,
}

/// The content of a tree of cells.
pub open spec fn cell_content(cell: Cell) -> CellView
    decreases cell,
{
    CellView {
        bits: cell.bits@,
        references: Seq::new(
            cell.references@.len(),
            |i: int|
                if 0 <= i < cell.references@.len() {
                    cell_content(*cell.references@[i])
                } else {
                    arbitrary()
                },
        ),
    }
}

impl View for Cell {
    type V = CellView;

    open spec fn view(&self) -> CellView {
        cell_content(*self)
    }
}

impl View for SliceData {
    type V = SliceView;

    open spec fn view(&self) -> SliceView {
        SliceView {
            cell: self.cell@,
            bit_start: self.bit_start,
            reference_start: self.reference_start,
        }
    }
}

impl View for StateInit {
    type V = StateView;

    open spec fn view(&self) -> StateView {
        StateView {
            split_depth: self.split_depth,
            special: self.special,
            code: optional_view(self.code),
            data: optional_view(self.data),
            library: optional_view(self.library),
        }
    }
}

/// A cell with the bits of these bytes and no references.
pub open spec fn bytes_cell(bytes: Seq<u8>) -> CellView {
    CellView { bits: whole_bytes(bytes), references: Seq::empty() }
}

/// A cell with the single bit one that refers to `root`: a dictionary that is not empty.
pub open spec fn dictionary_cell(root: CellView) -> CellView {
    CellView { bits: one_bit(), references: seq![root] }
}

/// The cell has the bits of these bytes and no references.
pub open spec fn is_bytes_cell(cell: Cell, bytes: Seq<u8>) -> bool {
    cell.bits@ == whole_bytes(bytes) && cell.references@.len() == 0
}

/// The cell holds a dictionary with this root.
pub open spec fn is_dictionary_cell(cell: Cell, root: Arc<Cell>) -> bool {
    cell.bits@ == one_bit() && cell.references@ == seq![root]
}

/// The content of a cell without references.
pub proof fn lemma_bytes_cell(cell: &Cell, bytes: Seq<u8>)
    requires
        is_bytes_cell(*cell, bytes),
    ensures
        cell@ == bytes_cell(bytes),
{
    assert(cell@.references =~= Seq::empty());
}

/// The content of a cell that holds a dictionary.
pub proof fn lemma_dictionary_cell(cell: &Cell, root: Arc<Cell>)
    requires
        is_dictionary_cell(*cell, root),
    ensures
        cell@ == dictionary_cell(root@),
{
    assert(cell@.references =~= seq![root@]);
}

/// The whole of a cell.
pub open spec fn whole_cell(cell: Arc<Cell>) -> SliceData {
    SliceData { cell, bit_start: 0, reference_start: 0 }
}

/// Calls `Arc::clone`. Trusted: the result refers to the same cell.
#[verifier::external_body]
pub(crate) fn share(cell: &Arc<Cell>) -> (result: Arc<Cell>)
    ensures
        result == *cell,
{
    Arc::clone(cell)
}

pub(crate) fn share_option(cell: &Option<Arc<Cell>>) -> (result: Option<Arc<Cell>>)
    ensures
        result == *cell,
{
    match cell {
        Some(cell) => Some(share(cell)),
        None => None,
    }
}

impl Cell {
    /// A cell without bits and references.
    pub fn empty() -> (cell: Self)
        ensures
            is_bytes_cell(cell, Seq::empty()),
    {
        Cell { bits: BitString::empty(), references: Vec::new() }
    }

    /// A cell with the bits of these bytes and no references.
    pub fn with_bytes(bytes: Vec<u8>) -> (cell: Self)
        ensures
            is_bytes_cell(cell, bytes@),
    {
        Cell { bits: BitString::from_bytes(bytes), references: Vec::new() }
    }

    /// The cell that holds a dictionary with this root.
    pub fn with_dictionary(root: Arc<Cell>) -> (cell: Self)
        ensures
            is_dictionary_cell(cell, root),
    {
        let mut references: Vec<Arc<Cell>> = Vec::new();
        references.push(root);
        assert(references@ =~= seq![root]);
        Cell { bits: BitString::one(), references }
    }
}

impl SliceData {
    /// The whole of a cell.
    pub fn from_cell(cell: Arc<Cell>) -> (slice: Self)
        ensures
            slice == whole_cell(cell),
    {
        SliceData { cell, bit_start: 0, reference_start: 0 }
    }
}

impl StateInit {
    /// Nothing to start from.
    pub fn empty() -> (state: Self)
        ensures
            state == (StateInit {
                split_depth: None,
                special: None,
                code: None,
                data: None,
                library: None,
            }),
    {
        StateInit { split_depth: None, special: None, code: None, data: None, library: None }
    }
}

impl Clone for StateInit {
    fn clone(&self) -> (copy: Self)
        ensures
            copy == *self,
    {
        StateInit {
            split_depth: self.split_depth,
            special: self.special,
            code: share_option(&self.code),
            data: share_option(&self.data),
            library: share_option(&self.library),
        }
    }
}

/// `result` is the root of a bag of cells that was read as `roots`: the only one, or else a
/// complaint.
pub open spec fn is_single_root(
    roots: SdkResult<Vec<Arc<Cell>>>,
    complaint: Seq<char>,
    result: SdkResult<Arc<Cell>>,
) -> bool {
    match roots {
        Ok(roots) => if roots@.len() == 1 {
            result == Ok::<Arc<Cell>, SdkError>(roots@[0])
        } else {
            result matches Err(error) && error@ == SdkErrorView::InvalidData(complaint)
        },
        Err(error) => result == Err::<Arc<Cell>, SdkError>(error),
    }
}

/// `result` can come of reading the only root of the bag of cells `bag`.
pub open spec fn root_read<D: Fn(&[u8]) -> SdkResult<Vec<Arc<Cell>>>>(
    deserialize_cells_tree: D,
    bag: &[u8],
    complaint: Seq<char>,
    result: SdkResult<Arc<Cell>>,
) -> bool {
    exists|roots: SdkResult<Vec<Arc<Cell>>>| #[trigger]
        call_ensures(deserialize_cells_tree, (bag,), roots) && is_single_root(
            roots,
            complaint,
            result,
        )
}

/// Reads a bag of cells that must have a single root.
pub fn read_root<D: Fn(&[u8]) -> SdkResult<Vec<Arc<Cell>>>>(
    deserialize_cells_tree: &D,
    bag: &[u8],
    complaint: &str,
) -> (result: SdkResult<Arc<Cell>>)
    requires
        call_requires(*deserialize_cells_tree, (bag,)),
    ensures
        root_read(*deserialize_cells_tree, bag, complaint@, result),
{
    let read = deserialize_cells_tree(bag);
    match read {
        Ok(mut roots) => {
            if roots.len() != 1 {
                return Err(invalid_data(complaint));
            }
            Ok(roots.remove(0))
        },
        Err(error) => Err(error),
    }
}

} // verus!
