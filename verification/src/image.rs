//! Images of contracts that are to be deployed.

use std::sync::Arc;
use ed25519_dalek::PublicKey;
use vstd::prelude::*;
use vstd::string::StringExecFns;
use crate::bits::{whole_bytes, AccountId, BitString, BitsView};
use crate::cell::{
    is_bytes_cell, is_dictionary_cell, read_root, root_read, share, whole_cell, Cell, SliceData,
    StateInit,
};
use crate::error::{SdkError, SdkErrorView, SdkResult};
use crate::json::{json_value, parse_json};

verus! {

/// An outside type: a public key.
#[verifier::external_type_specification]
#[verifier::external_body]
pub struct ExPublicKey(PublicKey);

/// The bytes of a public key by `PublicKey::as_bytes`.
pub uninterp spec fn public_key_bytes(key: PublicKey) -> Seq<u8>;

/// Calls `PublicKey::as_bytes`. Trusted: the bytes are a function of the key.
#[verifier::external_body]
pub(crate) fn key_bytes(key: &PublicKey) -> (bytes: [u8; 32])
    ensures
        bytes@ == public_key_bytes(*key),
{
    *key.as_bytes()
}

/// The length in bits of the keys by which a contract's data is kept.
pub const DATA_MAP_KEYLEN: usize = 64;

/// The image of a contract: what its account starts from, and the account's identifier.
#[derive(Debug)]
pub struct ContractImage {
    state_init: StateInit,
    id: AccountId,
}

/// A contract's image as contracts of functions speak of it.
pub struct ImageView {
    pub state_init: StateInit,
    pub id: BitsView,
}

impl View for ContractImage {
    type V = ImageView;

    closed spec fn view(&self) -> ImageView {
        ImageView { state_init: self.state_init, id: self.id@ }
    }
}

/// A variable of a contract that can be set before the contract is deployed: its name, the key by
/// which the contract's data keeps it, and its description in the ABI.
#[derive(Debug)]
pub struct DataItem<P> {
    pub name: String,
    pub key: u64,
    pub value: P,
}

/// A value for a variable.
#[derive(Debug)]
pub struct Token<V> {
    pub name: String,
    pub value: V,
}

/// `result` can come of reading the root of a bag of cells that may be missing.
pub open spec fn optional_root_read<D: Fn(&[u8]) -> SdkResult<Vec<Arc<Cell>>>>(
    deserialize_cells_tree: D,
    bag: Option<&[u8]>,
    complaint: Seq<char>,
    result: SdkResult<Option<Arc<Cell>>>,
) -> bool {
    match bag {
        Some(bag) => match result {
            Ok(root) => root matches Some(root) && root_read(
                deserialize_cells_tree,
                bag,
                complaint,
                Ok(root),
            ),
            Err(error) => root_read(deserialize_cells_tree, bag, complaint, Err(error)),
        },
        None => result == Ok::<Option<Arc<Cell>>, SdkError>(None),
    }
}

/// `result` can come of reading the code of a contract.
pub open spec fn code_read<D: Fn(&[u8]) -> SdkResult<Vec<Arc<Cell>>>>(
    deserialize_cells_tree: D,
    bag: &[u8],
    result: SdkResult<Arc<Cell>>,
) -> bool {
    root_read(deserialize_cells_tree, bag, "Invalid code's bag of cells"@, result)
}

/// `result` can come of reading the data of a contract.
pub open spec fn data_read<D: Fn(&[u8]) -> SdkResult<Vec<Arc<Cell>>>>(
    deserialize_cells_tree: D,
    bag: Option<&[u8]>,
    result: SdkResult<Option<Arc<Cell>>>,
) -> bool {
    optional_root_read(deserialize_cells_tree, bag, "Invalid data's bag of cells"@, result)
}

/// `result` can come of reading the library of a contract.
pub open spec fn library_read<D: Fn(&[u8]) -> SdkResult<Vec<Arc<Cell>>>>(
    deserialize_cells_tree: D,
    bag: Option<&[u8]>,
    result: SdkResult<Option<Arc<Cell>>>,
) -> bool {
    optional_root_read(deserialize_cells_tree, bag, "Invalid library's bag of cells"@, result)
}

/// `result` can come of reading code, data and library, in this order.
pub open spec fn parts_read<D: Fn(&[u8]) -> SdkResult<Vec<Arc<Cell>>>>(
    deserialize_cells_tree: D,
    code: &[u8],
    data: Option<&[u8]>,
    library: Option<&[u8]>,
    result: SdkResult<StateInit>,
) -> bool {
    match result {
        Ok(state) => {
            &&& state.code matches Some(root) && code_read(deserialize_cells_tree, code, Ok(root))
            &&& data_read(deserialize_cells_tree, data, Ok(state.data))
            &&& library_read(deserialize_cells_tree, library, Ok(state.library))
            &&& state.split_depth is None
            &&& state.special is None
        },
        Err(error) => {
            ||| code_read(deserialize_cells_tree, code, Err(error))
            ||| exists|c: Arc<Cell>| #[trigger]
                code_read(deserialize_cells_tree, code, Ok(c)) && data_read(
                    deserialize_cells_tree,
                    data,
                    Err(error),
                )
            ||| exists|c: Arc<Cell>, d: Option<Arc<Cell>>| #[trigger]
                code_read(deserialize_cells_tree, code, Ok(c)) && #[trigger] data_read(
                    deserialize_cells_tree,
                    data,
                    Ok(d),
                ) && library_read(deserialize_cells_tree, library, Err(error))
        },
    }
}

/// What an account with this code, data and library starts from.
pub open spec fn state_of_roots(
    code: Arc<Cell>,
    data: Option<Arc<Cell>>,
    library: Option<Arc<Cell>>,
) -> StateInit {
    StateInit { split_depth: None, special: None, code: Some(code), data, library }
}

fn read_optional_root<D: Fn(&[u8]) -> SdkResult<Vec<Arc<Cell>>>>(
    deserialize_cells_tree: &D,
    bag: Option<&[u8]>,
    complaint: &str,
) -> (result: SdkResult<Option<Arc<Cell>>>)
    requires
        forall|bag: &[u8]| #[trigger] call_requires(*deserialize_cells_tree, (bag,)),
    ensures
        optional_root_read(*deserialize_cells_tree, bag, complaint@, result),
{
    match bag {
        Some(bag) => match read_root(deserialize_cells_tree, bag, complaint) {
            Ok(root) => Ok(Some(root)),
            Err(error) => Err(error),
        },
        None => Ok(None),
    }
}

/// `result` can come of making the image of `state_init`: its identifier is the hash.
pub open spec fn image_made<H: Fn(&StateInit) -> SdkResult<[u8; 32]>>(
    hash: H,
    state_init: StateInit,
    result: SdkResult<ContractImage>,
) -> bool {
    match result {
        Ok(image) => image@.state_init == state_init && is_hash(hash, image@),
        Err(error) => call_ensures(hash, (&state_init,), Err::<[u8; 32], SdkError>(error)),
    }
}

/// The identifier of the image is a hash of what its account starts from.
pub open spec fn is_hash<H: Fn(&StateInit) -> SdkResult<[u8; 32]>>(
    hash: H,
    image: ImageView,
) -> bool {
    exists|h: [u8; 32]| #[trigger]
        call_ensures(hash, (&image.state_init,), Ok::<[u8; 32], SdkError>(h)) && image.id
            == whole_bytes(h@)
}

impl ContractImage {
    fn with_state_init<H: Fn(&StateInit) -> SdkResult<[u8; 32]>>(
        state_init: StateInit,
        hash: &H,
    ) -> (result: SdkResult<Self>)
        requires
            call_requires(*hash, (&state_init,)),
        ensures
            image_made(*hash, state_init, result),
    {
        let h = hash(&state_init);
        match h {
            Ok(h) => {
                let id = BitString::from_bytes(vstd::slice::slice_to_vec(h.as_slice()));
                Ok(ContractImage { state_init, id })
            },
            Err(error) => Err(error),
        }
    }

    /// Creates the image of a contract from bags of cells with its code and, where it has them,
    /// its data and its library. `deserialize_cells_tree` reads the roots of a bag of cells, and
    /// `hash` gives the identifier of the account that starts from a state.
    pub fn new<
        D: Fn(&[u8]) -> SdkResult<Vec<Arc<Cell>>>,
        H: Fn(&StateInit) -> SdkResult<[u8; 32]>,
    >(
        code: &[u8],
        data: Option<&[u8]>,
        library: Option<&[u8]>,
        deserialize_cells_tree: D,
        hash: H,
    ) -> (result: SdkResult<Self>)
        requires
            forall|bag: &[u8]| #[trigger] call_requires(deserialize_cells_tree, (bag,)),
            forall|state: &StateInit| #[trigger] call_requires(hash, (state,)),
        ensures
            exists|state: SdkResult<StateInit>| #[trigger]
                parts_read(deserialize_cells_tree, code, data, library, state) && match state {
                    Ok(state_init) => image_made(hash, state_init, result),
                    Err(error) => result == Err::<Self, SdkError>(error),
                },
    {
        let code_root = match Self::code_root(code, &deserialize_cells_tree) {
            Ok(root) => root,
            Err(error) => {
                assert(parts_read(deserialize_cells_tree, code, data, library, Err(error)));
                return Err(error);
            },
        };
        let data_root = match Self::data_root(data, &deserialize_cells_tree) {
            Ok(root) => root,
            Err(error) => {
                assert(parts_read(deserialize_cells_tree, code, data, library, Err(error)));
                return Err(error);
            },
        };
        let library_root = match Self::library_root(library, &deserialize_cells_tree) {
            Ok(root) => root,
            Err(error) => {
                assert(parts_read(deserialize_cells_tree, code, data, library, Err(error)));
                return Err(error);
            },
        };
        assert(parts_read(
            deserialize_cells_tree,
            code,
            data,
            library,
            Ok(state_of_roots(code_root, data_root, library_root)),
        ));
        Self::from_roots(code_root, data_root, library_root, hash)
    }

    /// Reads the root of a bag of cells with a contract's code.
    pub fn code_root<D: Fn(&[u8]) -> SdkResult<Vec<Arc<Cell>>>>(
        bag: &[u8],
        deserialize_cells_tree: &D,
    ) -> (result: SdkResult<Arc<Cell>>)
        requires
            call_requires(*deserialize_cells_tree, (bag,)),
        ensures
            code_read(*deserialize_cells_tree, bag, result),
    {
        read_root(deserialize_cells_tree, bag, "Invalid code's bag of cells")
    }

    /// Reads the root of a bag of cells with a contract's data, where there is one.
    pub fn data_root<D: Fn(&[u8]) -> SdkResult<Vec<Arc<Cell>>>>(
        bag: Option<&[u8]>,
        deserialize_cells_tree: &D,
    ) -> (result: SdkResult<Option<Arc<Cell>>>)
        requires
            forall|bag: &[u8]| #[trigger] call_requires(*deserialize_cells_tree, (bag,)),
        ensures
            data_read(*deserialize_cells_tree, bag, result),
    {
        read_optional_root(deserialize_cells_tree, bag, "Invalid data's bag of cells")
    }

    /// Reads the root of a bag of cells with a contract's library, where there is one.
    pub fn library_root<D: Fn(&[u8]) -> SdkResult<Vec<Arc<Cell>>>>(
        bag: Option<&[u8]>,
        deserialize_cells_tree: &D,
    ) -> (result: SdkResult<Option<Arc<Cell>>>)
        requires
            forall|bag: &[u8]| #[trigger] call_requires(*deserialize_cells_tree, (bag,)),
        ensures
            library_read(*deserialize_cells_tree, bag, result),
    {
        read_optional_root(deserialize_cells_tree, bag, "Invalid library's bag of cells")
    }

    /// Creates the image of a contract from the roots of its code and, where it has them, its data
    /// and its library.
    pub fn from_roots<H: Fn(&StateInit) -> SdkResult<[u8; 32]>>(
        code: Arc<Cell>,
        data: Option<Arc<Cell>>,
        library: Option<Arc<Cell>>,
        hash: H,
    ) -> (result: SdkResult<Self>)
        requires
            forall|state: &StateInit| #[trigger] call_requires(hash, (state,)),
        ensures
            image_made(hash, state_of_roots(code, data, library), result),
    {
        let mut state_init = StateInit::empty();
        state_init.code = Some(code);
        state_init.data = data;
        state_init.library = library;
        Self::with_state_init(state_init, &hash)
    }
}

/// The cell is the data, or an empty cell where there is none.
pub open spec fn is_data_or_empty(data: Option<Arc<Cell>>, cell: Arc<Cell>) -> bool {
    match data {
        Some(data) => cell == data,
        None => is_bytes_cell(*cell, Seq::empty()),
    }
}

/// `result` can come of putting `value` under `key` into the dictionary in `data`: the cell that
/// holds the new dictionary.
pub open spec fn data_item_inserted<
    S: Fn(usize, Arc<Cell>, u64, Cell) -> Result<Arc<Cell>, String>,
>(set: S, data: Arc<Cell>, key: u64, value: Cell, result: SdkResult<Arc<Cell>>) -> bool {
    exists|root: Result<Arc<Cell>, String>| #[trigger]
        call_ensures(set, (DATA_MAP_KEYLEN, data, key, value), root) && match root {
            Ok(root) => result matches Ok(cell) && is_dictionary_cell(*cell, root),
            Err(text) => result matches Err(error) && error@ == SdkErrorView::InternalError(
                "failed to update data item in data map: "@ + text@,
            ),
        }
}

/// Puts a value into a contract's data. `set` puts it under the key into the dictionary, whose
/// keys have the given length in bits, and gives the root of the new dictionary.
fn insert_data_item<S: Fn(usize, Arc<Cell>, u64, Cell) -> Result<Arc<Cell>, String>>(
    data: Arc<Cell>,
    key: u64,
    value: Cell,
    set: &S,
) -> (result: SdkResult<Arc<Cell>>)
    requires
        call_requires(*set, (DATA_MAP_KEYLEN, data, key, value)),
    ensures
        data_item_inserted(*set, data, key, value, result),
{
    let root = set(DATA_MAP_KEYLEN, data, key, value);
    match root {
        Ok(root) => Ok(Arc::new(Cell::with_dictionary(root))),
        Err(text) => {
            let mut message = "failed to update data item in data map: ".to_owned();
            message.append(text.as_str());
            Err(SdkError::InternalError(message))
        },
    }
}

/// `result` can come of putting a public key into a contract's data.
pub open spec fn pubkey_inserted<S: Fn(usize, Arc<Cell>, u64, Cell) -> Result<Arc<Cell>, String>>(
    set: S,
    data: Option<Arc<Cell>>,
    pubkey: Seq<u8>,
    result: SdkResult<Arc<Cell>>,
) -> bool {
    exists|from: Arc<Cell>, value: Cell|
        is_data_or_empty(data, from) && is_bytes_cell(value, pubkey) && #[trigger]
        data_item_inserted(set, from, 0, value, result)
}

/// Puts a public key into a contract's data, under the key zero.
fn insert_pubkey<S: Fn(usize, Arc<Cell>, u64, Cell) -> Result<Arc<Cell>, String>>(
    data: &Option<Arc<Cell>>,
    pubkey: &[u8; 32],
    set: &S,
) -> (result: SdkResult<Arc<Cell>>)
    requires
        forall|d: Arc<Cell>, k: u64, v: Cell| #[trigger]
            call_requires(*set, (DATA_MAP_KEYLEN, d, k, v)),
    ensures
        pubkey_inserted(*set, *data, pubkey@, result),
{
    let from = data_or_empty(data);
    let value = Cell::with_bytes(vstd::slice::slice_to_vec(pubkey.as_slice()));
    insert_data_item(from, 0, value, set)
}

fn data_or_empty(data: &Option<Arc<Cell>>) -> (cell: Arc<Cell>)
    ensures
        is_data_or_empty(*data, cell),
{
    match data {
        Some(data) => share(data),
        None => Arc::new(Cell::empty()),
    }
}

/// `result` can come of reading the state in a bag of cells.
pub open spec fn state_init_read<
    D: Fn(&[u8]) -> SdkResult<Vec<Arc<Cell>>>,
    C: Fn(SliceData) -> SdkResult<StateInit>,
>(deserialize_cells_tree: D, construct_from: C, bag: &[u8], result: SdkResult<StateInit>) -> bool {
    exists|root: SdkResult<Arc<Cell>>| #[trigger]
        root_read(deserialize_cells_tree, bag, "Invalid state init's bag of cells"@, root)
            && match root {
            Ok(root) => call_ensures(construct_from, (whole_cell(root),), result),
            Err(error) => result == Err::<StateInit, SdkError>(error),
        }
}

/// `result` can come of making the image of `state_init` with a public key in its data.
pub open spec fn keyed_image_made<
    S: Fn(usize, Arc<Cell>, u64, Cell) -> Result<Arc<Cell>, String>,
    H: Fn(&StateInit) -> SdkResult<[u8; 32]>,
>(
    set: S,
    hash: H,
    state_init: StateInit,
    pubkey: Seq<u8>,
    result: SdkResult<ContractImage>,
) -> bool {
    exists|data: SdkResult<Arc<Cell>>| #[trigger]
        pubkey_inserted(set, state_init.data, pubkey, data) && match data {
            Ok(data) => image_made(hash, StateInit { data: Some(data), ..state_init }, result),
            Err(error) => result == Err::<ContractImage, SdkError>(error),
        }
}

/// `result` can come of reading the state in a bag of cells and making its image with a public key
/// in its data.
pub open spec fn keyed_image_read<
    D: Fn(&[u8]) -> SdkResult<Vec<Arc<Cell>>>,
    C: Fn(SliceData) -> SdkResult<StateInit>,
    S: Fn(usize, Arc<Cell>, u64, Cell) -> Result<Arc<Cell>, String>,
    H: Fn(&StateInit) -> SdkResult<[u8; 32]>,
>(
    deserialize_cells_tree: D,
    construct_from: C,
    set: S,
    hash: H,
    bag: &[u8],
    pubkey: Seq<u8>,
    result: SdkResult<ContractImage>,
) -> bool {
    exists|state: SdkResult<StateInit>| #[trigger]
        state_init_read(deserialize_cells_tree, construct_from, bag, state) && match state {
            Ok(state_init) => keyed_image_made(set, hash, state_init, pubkey, result),
            Err(error) => result == Err::<ContractImage, SdkError>(error),
        }
}

impl ContractImage {
    /// Creates an image from a bag of cells with a state whose data has no public key yet.
    /// Besides the functions that `new` takes, `construct_from` reads a state from a cell, and
    /// `set` puts a value into a dictionary and gives its new root.
    pub fn from_state_init_and_key<
        D: Fn(&[u8]) -> SdkResult<Vec<Arc<Cell>>>,
        C: Fn(SliceData) -> SdkResult<StateInit>,
        S: Fn(usize, Arc<Cell>, u64, Cell) -> Result<Arc<Cell>, String>,
        H: Fn(&StateInit) -> SdkResult<[u8; 32]>,
    >(
        state_init_bag: &[u8],
        pub_key: &PublicKey,
        deserialize_cells_tree: D,
        construct_from: C,
        set: S,
        hash: H,
    ) -> (result: SdkResult<Self>)
        requires
            forall|bag: &[u8]| #[trigger] call_requires(deserialize_cells_tree, (bag,)),
            forall|slice: SliceData| #[trigger] call_requires(construct_from, (slice,)),
            forall|d: Arc<Cell>, k: u64, v: Cell| #[trigger]
                call_requires(set, (DATA_MAP_KEYLEN, d, k, v)),
            forall|state: &StateInit| #[trigger] call_requires(hash, (state,)),
        ensures
            keyed_image_read(
                deserialize_cells_tree,
                construct_from,
                set,
                hash,
                state_init_bag,
                public_key_bytes(*pub_key),
                result,
            ),
    {
        let key = key_bytes(pub_key);
        Self::from_state_init_and_key_bytes(
            state_init_bag,
            &key,
            deserialize_cells_tree,
            construct_from,
            set,
            hash,
        )
    }

    /// Creates an image as `from_state_init_and_key` does, with the bytes of the public key.
    pub fn from_state_init_and_key_bytes<
        D: Fn(&[u8]) -> SdkResult<Vec<Arc<Cell>>>,
        C: Fn(SliceData) -> SdkResult<StateInit>,
        S: Fn(usize, Arc<Cell>, u64, Cell) -> Result<Arc<Cell>, String>,
        H: Fn(&StateInit) -> SdkResult<[u8; 32]>,
    >(
        state_init_bag: &[u8],
        pub_key: &[u8; 32],
        deserialize_cells_tree: D,
        construct_from: C,
        set: S,
        hash: H,
    ) -> (result: SdkResult<Self>)
        requires
            forall|bag: &[u8]| #[trigger] call_requires(deserialize_cells_tree, (bag,)),
            forall|slice: SliceData| #[trigger] call_requires(construct_from, (slice,)),
            forall|d: Arc<Cell>, k: u64, v: Cell| #[trigger]
                call_requires(set, (DATA_MAP_KEYLEN, d, k, v)),
            forall|state: &StateInit| #[trigger] call_requires(hash, (state,)),
        ensures
            keyed_image_read(
                deserialize_cells_tree,
                construct_from,
                set,
                hash,
                state_init_bag,
                pub_key@,
                result,
            ),
    {
        let root = match read_root(
            &deserialize_cells_tree,
            state_init_bag,
            "Invalid state init's bag of cells",
        ) {
            Ok(root) => root,
            Err(error) => {
                assert(state_init_read(
                    deserialize_cells_tree,
                    construct_from,
                    state_init_bag,
                    Err(error),
                ));
                return Err(error);
            },
        };
        let state = construct_from(SliceData::from_cell(root));
        assert(state_init_read(deserialize_cells_tree, construct_from, state_init_bag, state));
        let mut state_init = match state {
            Ok(state_init) => state_init,
            Err(error) => return Err(error),
        };
        let ghost before = state_init;
        let new_data = insert_pubkey(&state_init.data, pub_key, &set);
        match new_data {
            Ok(data) => {
                state_init.data = Some(data);
                let made = Self::with_state_init(state_init, &hash);
                assert(keyed_image_made(set, hash, before, pub_key@, made));
                made
            },
            Err(error) => Err(error),
        }
    }

    /// Returns what the contract's account is to start from.
    pub fn state_init(self) -> (state_init: StateInit)
        ensures
            state_init == self@.state_init,
    {
        self.state_init
    }

    /// Returns the identifier of the contract's account.
    pub fn account_id(&self) -> (id: AccountId)
        ensures
            id@ == self@.id,
    {
        self.id.clone()
    }
}

/// The key of the variable of this name: that of the first item that bears it.
pub open spec fn item_key<P>(items: Seq<DataItem<P>>, name: Seq<char>) -> Option<u64>
    decreases items.len(),
{
    if items.len() == 0 {
        None
    } else if items[0].name@ == name {
        Some(items[0].key)
    } else {
        item_key(items.drop_first(), name)
    }
}

fn find_key<P>(items: &Vec<DataItem<P>>, name: &String) -> (key: Option<u64>)
    ensures
        key == item_key(items@, name@),
{
    let mut i: usize = 0;
    assert(items@.skip(0) =~= items@);
    while i < items.len()
        invariant
            i <= items@.len(),
            item_key(items@, name@) == item_key(items@.skip(i as int), name@),
        decreases items@.len() - i,
    {
        if items[i].name == *name {
            return Some(items[i].key);
        }
        assert(items@.skip(i as int).drop_first() =~= items@.skip(i + 1));
        i = i + 1;
    }
    None
}

/// The text of the complaint about a variable that the ABI does not name.
pub open spec fn unknown_item(name: Seq<char>) -> SdkErrorView {
    SdkErrorView::InvalidArg("data item "@ + name + " not found in contract ABI"@)
}

/// `result` can come of putting one value into a contract's data: pack it, look up its key, and
/// insert it.
pub open spec fn token_inserted<
    P,
    V,
    K: Fn(&V) -> Result<Cell, String>,
    S: Fn(usize, Arc<Cell>, u64, Cell) -> Result<Arc<Cell>, String>,
>(
    pack: K,
    set: S,
    items: Seq<DataItem<P>>,
    token: Token<V>,
    data: Arc<Cell>,
    result: SdkResult<Arc<Cell>>,
) -> bool {
    exists|packed: Result<Cell, String>| #[trigger]
        call_ensures(pack, (&token.value,), packed) && match packed {
            Ok(value) => match item_key(items, token.name@) {
                Some(key) => data_item_inserted(set, data, key, value, result),
                None => result matches Err(error) && error@ == unknown_item(token.name@),
            },
            Err(text) => result == Err::<Arc<Cell>, SdkError>(SdkError::AbiError(text)),
        }
}

/// What can come of putting one value into a contract's data, as a relation.
pub open spec fn insertion<
    P,
    V,
    K: Fn(&V) -> Result<Cell, String>,
    S: Fn(usize, Arc<Cell>, u64, Cell) -> Result<Arc<Cell>, String>,
>(pack: K, set: S, items: Seq<DataItem<P>>) -> spec_fn(
    Token<V>,
    Arc<Cell>,
    SdkResult<Arc<Cell>>,
) -> bool {
    |token: Token<V>, data: Arc<Cell>, result: SdkResult<Arc<Cell>>|
        token_inserted(pack, set, items, token, data, result)
}

/// `result` can come of inserting the values one after the other, each by `insert`, up to the
/// first that fails.
pub open spec fn all_inserted<V>(
    insert: spec_fn(Token<V>, Arc<Cell>, SdkResult<Arc<Cell>>) -> bool,
    tokens: Seq<Token<V>>,
    data: Arc<Cell>,
    result: SdkResult<Arc<Cell>>,
) -> bool
    decreases tokens.len(),
{
    if tokens.len() == 0 {
        result == Ok::<Arc<Cell>, SdkError>(data)
    } else {
        exists|next: SdkResult<Arc<Cell>>| #[trigger]
            insert(tokens[0], data, next) && match next {
                Ok(next) => all_inserted(insert, tokens.drop_first(), next, result),
                Err(error) => result == Err::<Arc<Cell>, SdkError>(error),
            }
    }
}

/// Puts one value into a contract's data.
fn insert_token<
    P,
    V,
    K: Fn(&V) -> Result<Cell, String>,
    S: Fn(usize, Arc<Cell>, u64, Cell) -> Result<Arc<Cell>, String>,
>(
    pack: &K,
    set: &S,
    items: &Vec<DataItem<P>>,
    token: &Token<V>,
    data: Arc<Cell>,
) -> (result: SdkResult<Arc<Cell>>)
    requires
        forall|v: &V| #[trigger] call_requires(*pack, (v,)),
        forall|d: Arc<Cell>, k: u64, v: Cell| #[trigger]
            call_requires(*set, (DATA_MAP_KEYLEN, d, k, v)),
    ensures
        token_inserted(*pack, *set, items@, *token, data, result),
{
    let packed = pack(&token.value);
    match packed {
        Ok(value) => match find_key(items, &token.name) {
            Some(key) => insert_data_item(data, key, value, set),
            None => {
                let mut message = "data item ".to_owned();
                message.append(token.name.as_str());
                message.append(" not found in contract ABI");
                Err(SdkError::InvalidArg(message))
            },
        },
        Err(text) => Err(SdkError::AbiError(text)),
    }
}

/// Puts the values into a contract's data, one after the other.
fn insert_tokens<
    P,
    V,
    K: Fn(&V) -> Result<Cell, String>,
    S: Fn(usize, Arc<Cell>, u64, Cell) -> Result<Arc<Cell>, String>,
>(
    pack: &K,
    set: &S,
    items: &Vec<DataItem<P>>,
    tokens: &Vec<Token<V>>,
    data: Arc<Cell>,
) -> (result: SdkResult<Arc<Cell>>)
    requires
        forall|v: &V| #[trigger] call_requires(*pack, (v,)),
        forall|d: Arc<Cell>, k: u64, v: Cell| #[trigger]
            call_requires(*set, (DATA_MAP_KEYLEN, d, k, v)),
    ensures
        all_inserted(insertion(*pack, *set, items@), tokens@, data, result),
{
    let ghost insert = insertion::<P, V, K, S>(*pack, *set, items@);
    let mut current = data;
    let mut i: usize = 0;
    assert(tokens@.skip(0) =~= tokens@);
    while i < tokens.len()
        invariant
            i <= tokens@.len(),
            insert == insertion::<P, V, K, S>(*pack, *set, items@),
            forall|v: &V| #[trigger] call_requires(*pack, (v,)),
            forall|d: Arc<Cell>, k: u64, v: Cell| #[trigger]
                call_requires(*set, (DATA_MAP_KEYLEN, d, k, v)),
            forall|r: SdkResult<Arc<Cell>>| #[trigger]
                all_inserted(insert, tokens@.skip(i as int), current, r)
                    ==> all_inserted(insert, tokens@, data, r),
        decreases tokens@.len() - i,
    {
        let ghost rest = tokens@.skip(i as int);
        let ghost before = current;
        let next = insert_token(pack, set, items, &tokens[i], current);
        assert(rest[0] == tokens@[i as int]);
        assert(rest.drop_first() =~= tokens@.skip(i + 1));
        assert(insert(rest[0], before, next));
        match next {
            Ok(cell) => {
                current = cell;
                assert forall|r: SdkResult<Arc<Cell>>| #[trigger]
                    all_inserted(insert, tokens@.skip(i + 1), current, r) implies all_inserted(
                    insert,
                    tokens@,
                    data,
                    r,
                ) by {
                    assert(all_inserted(insert, rest, before, r));
                }
            },
            Err(error) => {
                assert(all_inserted(insert, rest, before, Err(error)));
                return Err(error);
            },
        }
        i = i + 1;
    }
    assert(tokens@.skip(i as int).len() == 0);
    assert(all_inserted(insert, tokens@.skip(i as int), current, Ok(current)));
    Ok(current)
}

/// `result` can come of putting the values that the tokenizer found into a contract's data.
pub open spec fn found_inserted<
    P,
    V,
    K: Fn(&V) -> Result<Cell, String>,
    S: Fn(usize, Arc<Cell>, u64, Cell) -> Result<Arc<Cell>, String>,
>(
    pack: K,
    set: S,
    items: Seq<DataItem<P>>,
    tokens: Result<Vec<Token<V>>, String>,
    data: Option<Arc<Cell>>,
    result: SdkResult<Arc<Cell>>,
) -> bool {
    match tokens {
        Ok(tokens) => exists|from: Arc<Cell>| #[trigger]
            all_inserted(insertion(pack, set, items), tokens@, from, result) && is_data_or_empty(
                data,
                from,
            ),
        Err(text) => result == Err::<Arc<Cell>, SdkError>(SdkError::AbiError(text)),
    }
}

/// `result` can come of changing a contract's data by a JSON value, once the ABI is loaded.
pub open spec fn value_inserted<
    P,
    V,
    T: Fn(&Vec<DataItem<P>>, &serde_json::Value) -> Result<Vec<Token<V>>, String>,
    K: Fn(&V) -> Result<Cell, String>,
    S: Fn(usize, Arc<Cell>, u64, Cell) -> Result<Arc<Cell>, String>,
>(
    tokenize_all: T,
    pack: K,
    set: S,
    items: Vec<DataItem<P>>,
    value: serde_json::Value,
    data: Option<Arc<Cell>>,
    result: SdkResult<Arc<Cell>>,
) -> bool {
    exists|tokens: Result<Vec<Token<V>>, String>| #[trigger]
        call_ensures(tokenize_all, (&items, &value), tokens) && found_inserted(
            pack,
            set,
            items@,
            tokens,
            data,
            result,
        )
}

/// `result` can come of changing a contract's data by JSON text, once the ABI is loaded.
pub open spec fn json_inserted<
    P,
    V,
    T: Fn(&Vec<DataItem<P>>, &serde_json::Value) -> Result<Vec<Token<V>>, String>,
    K: Fn(&V) -> Result<Cell, String>,
    S: Fn(usize, Arc<Cell>, u64, Cell) -> Result<Arc<Cell>, String>,
>(
    tokenize_all: T,
    pack: K,
    set: S,
    items: Vec<DataItem<P>>,
    data_json: Seq<char>,
    data: Option<Arc<Cell>>,
    result: SdkResult<Arc<Cell>>,
) -> bool {
    match json_value(data_json) {
        Ok(value) => value_inserted(tokenize_all, pack, set, items, value, data, result),
        Err(error) => result == Err::<Arc<Cell>, SdkError>(SdkError::SerdeJson(error)),
    }
}

/// `result` can come of changing a contract's data by JSON text and ABI.
pub open spec fn data_updated<
    P,
    V,
    L: Fn(&str) -> Result<Vec<DataItem<P>>, String>,
    T: Fn(&Vec<DataItem<P>>, &serde_json::Value) -> Result<Vec<Token<V>>, String>,
    K: Fn(&V) -> Result<Cell, String>,
    S: Fn(usize, Arc<Cell>, u64, Cell) -> Result<Arc<Cell>, String>,
>(
    load: L,
    tokenize_all: T,
    pack: K,
    set: S,
    data_json: &str,
    abi_json: &str,
    data: Option<Arc<Cell>>,
    result: SdkResult<Arc<Cell>>,
) -> bool {
    exists|items: Result<Vec<DataItem<P>>, String>| #[trigger]
        call_ensures(load, (abi_json,), items) && match items {
            Ok(items) => json_inserted(
                tokenize_all,
                pack,
                set,
                items,
                data_json@,
                data,
                result,
            ),
            Err(text) => result == Err::<Arc<Cell>, SdkError>(SdkError::AbiError(text)),
        }
}

/// What an update that came to this data makes of an image. Without data the image stays as it
/// is. With data it starts from that data, and its identifier is the new hash or, where there is
/// none, still the old one.
pub open spec fn image_updated<H: Fn(&StateInit) -> SdkResult<[u8; 32]>>(
    hash: H,
    data: SdkResult<Arc<Cell>>,
    before: ImageView,
    after: ImageView,
    result: SdkResult<()>,
) -> bool {
    match data {
        Ok(data) => {
            &&& after.state_init == (StateInit { data: Some(data), ..before.state_init })
            &&& match result {
                Ok(_) => is_hash(hash, after),
                Err(error) => after.id == before.id && call_ensures(
                    hash,
                    (&after.state_init,),
                    Err::<[u8; 32], SdkError>(error),
                ),
            }
        },
        Err(error) => result == Err::<(), SdkError>(error) && after == before,
    }
}

/// What an update by JSON text and ABI can make of an image.
pub open spec fn update_made<
    P,
    V,
    L: Fn(&str) -> Result<Vec<DataItem<P>>, String>,
    T: Fn(&Vec<DataItem<P>>, &serde_json::Value) -> Result<Vec<Token<V>>, String>,
    K: Fn(&V) -> Result<Cell, String>,
    S: Fn(usize, Arc<Cell>, u64, Cell) -> Result<Arc<Cell>, String>,
    H: Fn(&StateInit) -> SdkResult<[u8; 32]>,
>(
    load: L,
    tokenize_all: T,
    pack: K,
    set: S,
    hash: H,
    data_json: &str,
    abi_json: &str,
    before: ImageView,
    after: ImageView,
    result: SdkResult<()>,
) -> bool {
    exists|data: SdkResult<Arc<Cell>>| #[trigger]
        data_updated(
            load,
            tokenize_all,
            pack,
            set,
            data_json,
            abi_json,
            before.state_init.data,
            data,
        ) && image_updated(hash, data, before, after, result)
}

impl ContractImage {
    /// Changes initial values of the contract's public variables. `load` reads the variables out
    /// of the ABI, `tokenize_all` finds their values in JSON, `pack` packs a value into a cell,
    /// and `set` and `hash` are as in `from_state_init_and_key`.
    pub fn update_data<
        P,
        V,
        L: Fn(&str) -> Result<Vec<DataItem<P>>, String>,
        T: Fn(&Vec<DataItem<P>>, &serde_json::Value) -> Result<Vec<Token<V>>, String>,
        K: Fn(&V) -> Result<Cell, String>,
        S: Fn(usize, Arc<Cell>, u64, Cell) -> Result<Arc<Cell>, String>,
        H: Fn(&StateInit) -> SdkResult<[u8; 32]>,
    >(
        &mut self,
        data_json: &str,
        abi_json: &str,
        load: L,
        tokenize_all: T,
        pack: K,
        set: S,
        hash: H,
    ) -> (result: SdkResult<()>)
        requires
            forall|abi: &str| #[trigger] call_requires(load, (abi,)),
            forall|items: &Vec<DataItem<P>>, value: &serde_json::Value| #[trigger]
                call_requires(tokenize_all, (items, value)),
            forall|v: &V| #[trigger] call_requires(pack, (v,)),
            forall|d: Arc<Cell>, k: u64, v: Cell| #[trigger]
                call_requires(set, (DATA_MAP_KEYLEN, d, k, v)),
            forall|state: &StateInit| #[trigger] call_requires(hash, (state,)),
        ensures
            update_made(
                load,
                tokenize_all,
                pack,
                set,
                hash,
                data_json,
                abi_json,
                old(self)@,
                final(self)@,
                result,
            ),
    {
        let ghost before = self@.state_init.data;
        let loaded = load(abi_json);
        let items = match loaded {
            Ok(items) => items,
            Err(text) => {
                let error = SdkError::AbiError(text);
                assert(data_updated(
                    load,
                    tokenize_all,
                    pack,
                    set,
                    data_json,
                    abi_json,
                    before,
                    Err(error),
                ));
                return Err(error);
            },
        };
        let value = match parse_json(data_json) {
            Ok(value) => value,
            Err(error) => {
                assert(data_updated(
                    load,
                    tokenize_all,
                    pack,
                    set,
                    data_json,
                    abi_json,
                    before,
                    Err(error),
                ));
                return Err(error);
            },
        };
        let result = self.update_data_items(&items, &value, tokenize_all, pack, set, hash);
        proof {
            let data = choose|data: SdkResult<Arc<Cell>>| #[trigger]
                value_inserted(tokenize_all, pack, set, items, value, before, data)
                    && image_updated(hash, data, old(self)@, self@, result);
            assert(data_updated(
                load,
                tokenize_all,
                pack,
                set,
                data_json,
                abi_json,
                before,
                data,
            ));
        }
        result
    }

    /// Changes initial values of the contract's public variables as `update_data` does, with the
    /// variables of the ABI and the JSON value at hand.
    pub fn update_data_items<
        P,
        V,
        T: Fn(&Vec<DataItem<P>>, &serde_json::Value) -> Result<Vec<Token<V>>, String>,
        K: Fn(&V) -> Result<Cell, String>,
        S: Fn(usize, Arc<Cell>, u64, Cell) -> Result<Arc<Cell>, String>,
        H: Fn(&StateInit) -> SdkResult<[u8; 32]>,
    >(
        &mut self,
        items: &Vec<DataItem<P>>,
        value: &serde_json::Value,
        tokenize_all: T,
        pack: K,
        set: S,
        hash: H,
    ) -> (result: SdkResult<()>)
        requires
            forall|items: &Vec<DataItem<P>>, value: &serde_json::Value| #[trigger]
                call_requires(tokenize_all, (items, value)),
            forall|v: &V| #[trigger] call_requires(pack, (v,)),
            forall|d: Arc<Cell>, k: u64, v: Cell| #[trigger]
                call_requires(set, (DATA_MAP_KEYLEN, d, k, v)),
            forall|state: &StateInit| #[trigger] call_requires(hash, (state,)),
        ensures
            exists|data: SdkResult<Arc<Cell>>| #[trigger]
                value_inserted(
                    tokenize_all,
                    pack,
                    set,
                    *items,
                    *value,
                    old(self)@.state_init.data,
                    data,
                ) && image_updated(hash, data, old(self)@, final(self)@, result),
    {
        let found = tokenize_all(items, value);
        let new_data = match found {
            Ok(tokens) => {
                let from = data_or_empty(&self.state_init.data);
                insert_tokens(&pack, &set, items, &tokens, from)
            },
            Err(text) => Err(SdkError::AbiError(text)),
        };
        assert(value_inserted(
            tokenize_all,
            pack,
            set,
            *items,
            *value,
            self@.state_init.data,
            new_data,
        ));
        match new_data {
            Ok(data) => {
                self.state_init.data = Some(data);
                let h = hash(&self.state_init);
                match h {
                    Ok(h) => {
                        self.id = BitString::from_bytes(vstd::slice::slice_to_vec(h.as_slice()));
                        assert(is_hash(hash, self@));
                        Ok(())
                    },
                    Err(error) => Err(error),
                }
            },
            Err(error) => Err(error),
        }
    }
}

} // verus!
