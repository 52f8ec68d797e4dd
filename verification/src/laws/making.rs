//! Laws of how images are made and changed: what they hold afterwards, and which errors come of it.

use std::sync::Arc;
use ed25519_dalek::PublicKey;
use vstd::prelude::*;
use crate::bits::{AccountId, BitsView};
use crate::cell::{
    is_bytes_cell, is_dictionary_cell, lemma_bytes_cell, root_read, Cell, CellView, SliceData,
    StateInit,
};
use crate::error::{SdkError, SdkErrorView, SdkResult};
use crate::image::{
    all_inserted, code_read, data_item_inserted, data_read, data_updated, found_inserted,
    image_made, image_updated, insertion, is_data_or_empty, item_key, json_inserted,
    keyed_image_made, library_read, parts_read, pubkey_inserted, public_key_bytes, state_init_read,
    token_inserted, value_inserted, ContractImage, DataItem, Token,
};
use crate::json::json_value;
use crate::laws::image::{
    law_other_variables_stay, law_variables_are_set, lemma_item_has_key, lemma_item_key, names_no,
    sets_contents,
};
use crate::laws::outgoing::{has_no_root, has_root};

verus! {

/// The only root of a bag of cells, or why it has none.
pub broadcast proof fn lemma_root<D: Fn(&[u8]) -> SdkResult<Vec<Arc<Cell>>>>(
    deserialize_cells_tree: D,
    bag: &[u8],
    complaint: Seq<char>,
    result: SdkResult<Arc<Cell>>,
)
    requires
        #[trigger] root_read(deserialize_cells_tree, bag, complaint, result),
    ensures
        match result {
            Ok(root) => has_root(deserialize_cells_tree, bag, root),
            Err(error) => has_no_root(deserialize_cells_tree, bag, complaint, error),
        },
{
}

/// The identifier is, bit for bit, a hash of the state.
pub open spec fn is_hashed<H: Fn(&StateInit) -> SdkResult<[u8; 32]>>(
    hash: H,
    state: StateInit,
    id: BitsView,
) -> bool {
    exists|h: [u8; 32]| #[trigger]
        call_ensures(hash, (&state,), Ok::<[u8; 32], SdkError>(h)) && id.bytes == h@ && id.unused
            == 0
}

/// The part is the only root of its bag of cells, and missing where there is no bag.
pub open spec fn is_part<D: Fn(&[u8]) -> SdkResult<Vec<Arc<Cell>>>>(
    deserialize_cells_tree: D,
    bag: Option<&[u8]>,
    part: Option<Arc<Cell>>,
) -> bool {
    match (bag, part) {
        (Some(bag), Some(root)) => has_root(deserialize_cells_tree, bag, root),
        (None, None) => true,
        _ => false,
    }
}

/// The state has nothing but code, data and library, each the only root of its bag.
pub open spec fn is_of_parts<D: Fn(&[u8]) -> SdkResult<Vec<Arc<Cell>>>>(
    deserialize_cells_tree: D,
    code: &[u8],
    data: Option<&[u8]>,
    library: Option<&[u8]>,
    state: StateInit,
) -> bool {
    &&& is_part(deserialize_cells_tree, Some(code), state.code)
    &&& is_part(deserialize_cells_tree, data, state.data)
    &&& is_part(deserialize_cells_tree, library, state.library)
    &&& state.split_depth is None
    &&& state.special is None
}

/// A new image starts from the only root of each bag that it is given, and from nothing else; its
/// identifier is the hash of that. The only errors are those of the first bag that cannot be read
/// or does not have a single root, and those of hashing.
pub proof fn law_new_image<
    D: Fn(&[u8]) -> SdkResult<Vec<Arc<Cell>>>,
    H: Fn(&StateInit) -> SdkResult<[u8; 32]>,
>(
    code: &[u8],
    data: Option<&[u8]>,
    library: Option<&[u8]>,
    deserialize_cells_tree: D,
    hash: H,
    result: SdkResult<ContractImage>,
)
    requires
        call_ensures(
            ContractImage::new::<D, H>,
            (code, data, library, deserialize_cells_tree, hash),
            result,
        ),
    ensures
        match result {
            Ok(image) => {
                &&& is_of_parts(
                    deserialize_cells_tree,
                    code,
                    data,
                    library,
                    image@.state_init,
                )
                &&& is_hashed(hash, image@.state_init, image@.id)
            },
            Err(error) => {
                ||| has_no_root(
                    deserialize_cells_tree,
                    code,
                    "Invalid code's bag of cells"@,
                    error,
                )
                ||| exists|c: Option<Arc<Cell>>| #[trigger]
                    is_part(deserialize_cells_tree, Some(code), c) && (data matches Some(bag)
                        && has_no_root(
                        deserialize_cells_tree,
                        bag,
                        "Invalid data's bag of cells"@,
                        error,
                    ))
                ||| exists|c: Option<Arc<Cell>>, d: Option<Arc<Cell>>|
                    {
                        &&& #[trigger] is_part(deserialize_cells_tree, Some(code), c)
                        &&& #[trigger] is_part(deserialize_cells_tree, data, d)
                        &&& library matches Some(bag)
                        &&& has_no_root(
                            deserialize_cells_tree,
                            bag,
                            "Invalid library's bag of cells"@,
                            error,
                        )
                    }
                ||| exists|state: StateInit|
                    #[trigger] is_of_parts(deserialize_cells_tree, code, data, library, state)
                        && call_ensures(hash, (&state,), Err::<[u8; 32], SdkError>(error))
            },
        },
{
    broadcast use lemma_root;

    let state = choose|state: SdkResult<StateInit>| #[trigger]
        parts_read(deserialize_cells_tree, code, data, library, state) && match state {
            Ok(state_init) => image_made(hash, state_init, result),
            Err(error) => result == Err::<ContractImage, SdkError>(error),
        };
    if state is Ok {
        assert(is_of_parts(deserialize_cells_tree, code, data, library, state->Ok_0));
    } else {
        let error = state->Err_0;
        if !code_read(deserialize_cells_tree, code, Err(error)) {
            let c = choose|c: Arc<Cell>| #[trigger]
                code_read(deserialize_cells_tree, code, Ok(c)) && (data_read(
                    deserialize_cells_tree,
                    data,
                    Err(error),
                ) || exists|d: Option<Arc<Cell>>| #[trigger]
                    data_read(deserialize_cells_tree, data, Ok(d)) && library_read(
                        deserialize_cells_tree,
                        library,
                        Err(error),
                    ));
            assert(is_part(deserialize_cells_tree, Some(code), Some(c)));
            if !data_read(deserialize_cells_tree, data, Err(error)) {
                let d = choose|d: Option<Arc<Cell>>| #[trigger]
                    data_read(deserialize_cells_tree, data, Ok(d)) && library_read(
                        deserialize_cells_tree,
                        library,
                        Err(error),
                    );
                assert(is_part(deserialize_cells_tree, data, d));
            }
        }
    }
}

/// The root of the code is the only one of its bag.
pub proof fn law_code_root<
    D: Fn(&[u8]) -> SdkResult<Vec<Arc<Cell>>>,
>(
    bag: &[u8],
    deserialize_cells_tree: &D,
    result: SdkResult<Arc<Cell>>,
)
    requires
        call_ensures(ContractImage::code_root::<D>, (bag, deserialize_cells_tree), result),
    ensures
        match result {
            Ok(part) => is_part(*deserialize_cells_tree, Some(bag), Some(part)),
            Err(error) => has_no_root(
                *deserialize_cells_tree,
                bag,
                "Invalid code's bag of cells"@,
                error,
            ),
        },
{
    broadcast use lemma_root;

}

/// The root of the data is the only one of its bag, and missing where there is no bag.
pub proof fn law_data_root<
    D: Fn(&[u8]) -> SdkResult<Vec<Arc<Cell>>>,
>(
    bag: Option<&[u8]>,
    deserialize_cells_tree: &D,
    result: SdkResult<Option<Arc<Cell>>>,
)
    requires
        call_ensures(ContractImage::data_root::<D>, (bag, deserialize_cells_tree), result),
    ensures
        match result {
            Ok(part) => is_part(*deserialize_cells_tree, bag, part),
            Err(error) => bag matches Some(bag) && has_no_root(
                *deserialize_cells_tree,
                bag,
                "Invalid data's bag of cells"@,
                error,
            ),
        },
{
    broadcast use lemma_root;

}

/// The root of the library is the only one of its bag, and missing where there is no bag.
pub proof fn law_library_root<
    D: Fn(&[u8]) -> SdkResult<Vec<Arc<Cell>>>,
>(
    bag: Option<&[u8]>,
    deserialize_cells_tree: &D,
    result: SdkResult<Option<Arc<Cell>>>,
)
    requires
        call_ensures(ContractImage::library_root::<D>, (bag, deserialize_cells_tree), result),
    ensures
        match result {
            Ok(part) => is_part(*deserialize_cells_tree, bag, part),
            Err(error) => bag matches Some(bag) && has_no_root(
                *deserialize_cells_tree,
                bag,
                "Invalid library's bag of cells"@,
                error,
            ),
        },
{
    broadcast use lemma_root;

}

/// An image of roots starts from them and from nothing else, and its identifier is the hash of
/// that.
pub proof fn law_image_of_roots<
    H: Fn(&StateInit) -> SdkResult<[u8; 32]>,
>(
    code: Arc<Cell>,
    data: Option<Arc<Cell>>,
    library: Option<Arc<Cell>>,
    hash: H,
    result: SdkResult<ContractImage>,
)
    requires
        call_ensures(ContractImage::from_roots::<H>, (code, data, library, hash), result),
    ensures
        exists|state: StateInit|
            {
                &&& state.code == Some(code)
                &&& state.data == data
                &&& state.library == library
                &&& state.split_depth is None
                &&& state.special is None
                &&& #[trigger] is_image_of(hash, state, result)
            },
{
    let state = StateInit { split_depth: None, special: None, code: Some(code), data, library };
    assert(is_image_of(hash, state, result));
}

/// `result` is the image of the state with its hash as identifier, or the error of hashing it.
pub open spec fn is_image_of<H: Fn(&StateInit) -> SdkResult<[u8; 32]>>(
    hash: H,
    state: StateInit,
    result: SdkResult<ContractImage>,
) -> bool {
    match result {
        Ok(image) => image@.state_init == state && is_hashed(hash, state, image@.id),
        Err(error) => call_ensures(hash, (&state,), Err::<[u8; 32], SdkError>(error)),
    }
}

/// `result` is the image of a state with the public key in its data: the key is put under zero into
/// the dictionary in the data, or into an empty cell, and everything else in the state stays.
pub open spec fn is_keyed_image<
    S: Fn(usize, Arc<Cell>, u64, Cell) -> Result<Arc<Cell>, String>,
    H: Fn(&StateInit) -> SdkResult<[u8; 32]>,
>(
    set: S,
    hash: H,
    first: StateInit,
    key: Seq<u8>,
    result: SdkResult<ContractImage>,
) -> bool {
    exists|from: Arc<Cell>, value: Cell, root: Result<Arc<Cell>, String>|
        {
            &&& match first.data {
                Some(data) => from == data,
                None => {
                    &&& from.bits@.bytes.len() == 0
                    &&& from.bits@.unused == 0
                    &&& from.references@.len() == 0
                },
            }
            &&& value.bits@.bytes == key
            &&& value.bits@.unused == 0
            &&& value.references@.len() == 0
            &&& #[trigger] call_ensures(set, (64usize, from, 0u64, value), root)
            &&& match root {
                Err(text) => result matches Err(SdkError::InternalError(told)) && told@
                    == "failed to update data item in data map: "@ + text@,
                Ok(root) => exists|state: StateInit|
                    {
                        &&& state.code == first.code
                        &&& state.library == first.library
                        &&& state.split_depth == first.split_depth
                        &&& state.special == first.special
                        &&& state.data matches Some(data)
                        &&& data.bits@.bytes == seq![0x80u8]
                        &&& data.bits@.unused == 7
                        &&& data.references@ == seq![root]
                        &&& #[trigger] is_image_of(hash, state, result)
                    },
            }
        }
}

/// What an image with a public key is made of.
proof fn lemma_keyed_image_made<
    S: Fn(usize, Arc<Cell>, u64, Cell) -> Result<Arc<Cell>, String>,
    H: Fn(&StateInit) -> SdkResult<[u8; 32]>,
>(
    set: S,
    hash: H,
    first: StateInit,
    key: Seq<u8>,
    result: SdkResult<ContractImage>,
)
    requires
        keyed_image_made(set, hash, first, key, result),
    ensures
        is_keyed_image(set, hash, first, key, result),
{
    let data = choose|data: SdkResult<Arc<Cell>>| #[trigger]
        pubkey_inserted(set, first.data, key, data) && match data {
            Ok(data) => image_made(hash, StateInit { data: Some(data), ..first }, result),
            Err(error) => result == Err::<ContractImage, SdkError>(error),
        };
    let (from, value) = choose|from: Arc<Cell>, value: Cell|
        is_data_or_empty(first.data, from) && is_bytes_cell(value, key) && #[trigger]
        data_item_inserted(set, from, 0, value, data);
    let root = choose|root: Result<Arc<Cell>, String>| #[trigger]
        call_ensures(set, (64usize, from, 0u64, value), root) && match root {
            Ok(root) => data matches Ok(cell) && is_dictionary_cell(*cell, root),
            Err(text) => data matches Err(error) && error@ == SdkErrorView::InternalError(
                "failed to update data item in data map: "@ + text@,
            ),
        };
    if root is Ok {
        let state = StateInit { data: Some(data->Ok_0), ..first };
        assert(is_image_of(hash, state, result));
    }
}

/// An image with a public key starts from the state that the only root of the bag is read as,
/// whole: its code, its library and the rest stay, and its data get the key.
pub proof fn law_image_with_key<
    D: Fn(&[u8]) -> SdkResult<Vec<Arc<Cell>>>,
    C: Fn(SliceData) -> SdkResult<StateInit>,
    S: Fn(usize, Arc<Cell>, u64, Cell) -> Result<Arc<Cell>, String>,
    H: Fn(&StateInit) -> SdkResult<[u8; 32]>,
>(
    bag: &[u8],
    pub_key: &PublicKey,
    deserialize_cells_tree: D,
    construct_from: C,
    set: S,
    hash: H,
    result: SdkResult<ContractImage>,
)
    requires
        call_ensures(
            ContractImage::from_state_init_and_key::<D, C, S, H>,
            (bag, pub_key, deserialize_cells_tree, construct_from, set, hash),
            result,
        ),
    ensures
        ({
            ||| result matches Err(error) && has_no_root(
                deserialize_cells_tree,
                bag,
                "Invalid state init's bag of cells"@,
                error,
            )
            ||| exists|cell: Arc<Cell>, read: SdkResult<StateInit>|
                {
                    &&& #[trigger] has_root(deserialize_cells_tree, bag, cell)
                    &&& #[trigger] call_ensures(
                        construct_from,
                        (SliceData { cell, bit_start: 0, reference_start: 0 },),
                        read,
                    )
                    &&& match read {
                        Ok(first) => is_keyed_image(
                            set,
                            hash,
                            first,
                            public_key_bytes(*pub_key),
                            result,
                        ),
                        Err(e) => result matches Err(error) && error == e,
                    }
                }
        }),
{
    broadcast use lemma_root;

    let state = choose|state: SdkResult<StateInit>| #[trigger]
        state_init_read(deserialize_cells_tree, construct_from, bag, state) && match state {
            Ok(first) => keyed_image_made(set, hash, first, public_key_bytes(*pub_key), result),
            Err(error) => result == Err::<ContractImage, SdkError>(error),
        };
    if state is Ok {
        lemma_keyed_image_made(set, hash, state->Ok_0, public_key_bytes(*pub_key), result);
    }
    let root = choose|root: SdkResult<Arc<Cell>>| #[trigger]
        root_read(
            deserialize_cells_tree,
            bag,
            "Invalid state init's bag of cells"@,
            root,
        ) && match root {
            Ok(root) => call_ensures(
                construct_from,
                (SliceData { cell: root, bit_start: 0, reference_start: 0 },),
                state,
            ),
            Err(error) => state == Err::<StateInit, SdkError>(error),
        };
    if root is Ok {
        assert(has_root(deserialize_cells_tree, bag, root->Ok_0));
    }
}

/// An image with the bytes of a public key starts from the state that the only root of the bag is
/// read as, whole: its code, its library and the rest stay, and its data get the bytes.
pub proof fn law_image_with_key_bytes<
    D: Fn(&[u8]) -> SdkResult<Vec<Arc<Cell>>>,
    C: Fn(SliceData) -> SdkResult<StateInit>,
    S: Fn(usize, Arc<Cell>, u64, Cell) -> Result<Arc<Cell>, String>,
    H: Fn(&StateInit) -> SdkResult<[u8; 32]>,
>(
    bag: &[u8],
    pub_key: &[u8; 32],
    deserialize_cells_tree: D,
    construct_from: C,
    set: S,
    hash: H,
    result: SdkResult<ContractImage>,
)
    requires
        call_ensures(
            ContractImage::from_state_init_and_key_bytes::<D, C, S, H>,
            (bag, pub_key, deserialize_cells_tree, construct_from, set, hash),
            result,
        ),
    ensures
        ({
            ||| result matches Err(error) && has_no_root(
                deserialize_cells_tree,
                bag,
                "Invalid state init's bag of cells"@,
                error,
            )
            ||| exists|cell: Arc<Cell>, read: SdkResult<StateInit>|
                {
                    &&& #[trigger] has_root(deserialize_cells_tree, bag, cell)
                    &&& #[trigger] call_ensures(
                        construct_from,
                        (SliceData { cell, bit_start: 0, reference_start: 0 },),
                        read,
                    )
                    &&& match read {
                        Ok(first) => is_keyed_image(set, hash, first, pub_key@, result),
                        Err(e) => result matches Err(error) && error == e,
                    }
                }
        }),
{
    broadcast use lemma_root;

    let state = choose|state: SdkResult<StateInit>| #[trigger]
        state_init_read(deserialize_cells_tree, construct_from, bag, state) && match state {
            Ok(first) => keyed_image_made(set, hash, first, pub_key@, result),
            Err(error) => result == Err::<ContractImage, SdkError>(error),
        };
    if state is Ok {
        lemma_keyed_image_made(set, hash, state->Ok_0, pub_key@, result);
    }
    let root = choose|root: SdkResult<Arc<Cell>>| #[trigger]
        root_read(
            deserialize_cells_tree,
            bag,
            "Invalid state init's bag of cells"@,
            root,
        ) && match root {
            Ok(root) => call_ensures(
                construct_from,
                (SliceData { cell: root, bit_start: 0, reference_start: 0 },),
                state,
            ),
            Err(error) => state == Err::<StateInit, SdkError>(error),
        };
    if root is Ok {
        assert(has_root(deserialize_cells_tree, bag, root->Ok_0));
    }
}

/// What an image starts from is handed out whole.
pub proof fn law_state_init(image: ContractImage, result: StateInit)
    requires
        call_ensures(ContractImage::state_init, (image,), result),
    ensures
        result.code == image@.state_init.code,
        result.data == image@.state_init.data,
        result.library == image@.state_init.library,
        result.split_depth == image@.state_init.split_depth,
        result.special == image@.state_init.special,
{
}

/// The identifier of an image is handed out bit for bit.
pub proof fn law_account_id_of_image(image: &ContractImage, result: AccountId)
    requires
        call_ensures(ContractImage::account_id, (image,), result),
    ensures
        result@.bytes == image@.id.bytes,
        result@.unused == image@.id.unused,
{
}

/// The cell that holds a dictionary with this root: the single bit one and the root.
pub open spec fn with_root(root: CellView) -> CellView {
    CellView { bits: BitsView { bytes: seq![0x80u8], unused: 7 }, references: seq![root] }
}

/// What a contract's data hold; missing data hold what an empty cell does.
pub open spec fn held(
    contents: spec_fn(CellView) -> Map<u64, CellView>,
    data: Option<Arc<Cell>>,
) -> Map<u64, CellView> {
    match data {
        Some(data) => contents(data@),
        None => contents(
            CellView {
                bits: BitsView { bytes: Seq::empty(), unused: 0 },
                references: Seq::empty(),
            },
        ),
    }
}

/// The variable of this name has this key.
pub open spec fn is_key_of<P>(items: Seq<DataItem<P>>, name: Seq<char>, key: u64) -> bool {
    exists|k: int|
        0 <= k < items.len() && (#[trigger] items[k]).name@ == name && items[k].key == key
}

/// The contents have the packed value under the key of its variable.
pub open spec fn is_held<P, V, K: Fn(&V) -> Result<Cell, String>>(
    pack: K,
    items: Seq<DataItem<P>>,
    token: Token<V>,
    contents: Map<u64, CellView>,
) -> bool {
    exists|key: u64, packed: Result<Cell, String>|
        {
            &&& #[trigger] is_key_of(items, token.name@, key)
            &&& #[trigger] call_ensures(pack, (&token.value,), packed)
            &&& packed matches Ok(cell)
            &&& contents.dom().contains(key)
            &&& contents[key] == cell@
        }
}

/// No two variables have the same name.
pub open spec fn are_named_apart<P>(items: Seq<DataItem<P>>) -> bool {
    forall|i: int, j: int|
        0 <= i < items.len() && 0 <= j < items.len() && i != j ==> (#[trigger] items[i]).name@ != (
        #[trigger] items[j]).name@
}

/// No value behind the one at `i` is for the same key.
pub open spec fn is_last_for_its_key<P, V>(
    items: Seq<DataItem<P>>,
    tokens: Seq<Token<V>>,
    i: int,
) -> bool {
    forall|j: int, key: u64|
        i < j < tokens.len() && #[trigger] is_key_of(items, tokens[i].name@, key)
            ==> !is_key_of(items, (#[trigger] tokens[j]).name@, key)
}

/// Every value is held under the key of its variable, of several for one key the last one, and
/// every other key has what it had.
pub open spec fn is_changed<P, V, K: Fn(&V) -> Result<Cell, String>>(
    pack: K,
    items: Seq<DataItem<P>>,
    tokens: Seq<Token<V>>,
    before: Map<u64, CellView>,
    after: Map<u64, CellView>,
) -> bool {
    &&& forall|i: int|
        0 <= i < tokens.len() && is_last_for_its_key(items, tokens, i) ==> is_held(
            pack,
            items,
            #[trigger] tokens[i],
            after,
        )
    &&& forall|key: u64|
        (forall|i: int|
            0 <= i < tokens.len() ==> !is_key_of(items, (#[trigger] tokens[i]).name@, key)) ==> {
            &&& #[trigger] after.dom().contains(key) == before.dom().contains(key)
            &&& after[key] == before[key]
        }
}

/// Inserting values changes the contents accordingly.
proof fn lemma_inserted<
    P,
    V,
    K: Fn(&V) -> Result<Cell, String>,
    S: Fn(usize, Arc<Cell>, u64, Cell) -> Result<Arc<Cell>, String>,
>(
    pack: K,
    set: S,
    contents: spec_fn(CellView) -> Map<u64, CellView>,
    items: Seq<DataItem<P>>,
    tokens: Seq<Token<V>>,
    before: Arc<Cell>,
    after: Arc<Cell>,
)
    requires
        sets_contents(set, contents),
        are_named_apart(items),
        all_inserted(insertion(pack, set, items), tokens, before, Ok(after)),
    ensures
        is_changed(pack, items, tokens, contents(before@), contents(after@)),
{
    assert forall|i: int|
        0 <= i < tokens.len() && is_last_for_its_key(items, tokens, i) implies is_held(
        pack,
        items,
        #[trigger] tokens[i],
        contents(after@),
    ) by {
        let rest = tokens.skip(i + 1);
        if item_key(items, tokens[i].name@) is Some {
            let a = lemma_item_key(items, tokens[i].name@);
            let known = items[a].key;
            assert(is_key_of(items, tokens[i].name@, known));
            assert forall|j: int| 0 <= j < rest.len() implies item_key(
                items,
                (#[trigger] rest[j]).name@,
            ) != Some(known) by {
                assert(rest[j] == tokens[i + 1 + j]);
                if item_key(items, rest[j].name@) is Some {
                    let b = lemma_item_key(items, rest[j].name@);
                    assert(is_key_of(items, tokens[i + 1 + j].name@, items[b].key));
                }
            }
            assert(names_no(items, rest, known));
        }
        law_variables_are_set(pack, set, contents, items, tokens, before, after, i);
        let key = item_key(items, tokens[i].name@)->0;
        let k = lemma_item_key(items, tokens[i].name@);
        assert(items[k].key == key);
        assert(is_key_of(items, tokens[i].name@, key));
        let value = choose|value: Cell| #[trigger]
            call_ensures(pack, (&tokens[i].value,), Ok::<Cell, String>(value)) && contents(
                after@,
            )[key] == value@;
        assert(call_ensures(pack, (&tokens[i].value,), Ok::<Cell, String>(value)));
    }
    assert forall|key: u64|
        (forall|i: int|
            0 <= i < tokens.len() ==> !is_key_of(
                items,
                (#[trigger] tokens[i]).name@,
                key,
            )) implies #[trigger] contents(after@).dom().contains(key) == contents(
        before@,
    ).dom().contains(key) && contents(after@)[key] == contents(before@)[key] by {
        assert forall|i: int| 0 <= i < tokens.len() implies item_key(
            items,
            (#[trigger] tokens[i]).name@,
        ) != Some(key) by {
            if item_key(items, tokens[i].name@) is Some {
                let k = lemma_item_key(items, tokens[i].name@);
                assert(is_key_of(items, tokens[i].name@, items[k].key));
            }
        }
        assert(names_no(items, tokens, key));
        law_other_variables_stay(pack, set, contents, items, tokens, before, after, key);
    }
}

/// What an update by the tokens that were found holds.
proof fn lemma_found<
    P,
    V,
    K: Fn(&V) -> Result<Cell, String>,
    S: Fn(usize, Arc<Cell>, u64, Cell) -> Result<Arc<Cell>, String>,
>(
    pack: K,
    set: S,
    contents: spec_fn(CellView) -> Map<u64, CellView>,
    items: Seq<DataItem<P>>,
    tokens: Seq<Token<V>>,
    found: Result<Vec<Token<V>>, String>,
    data: Option<Arc<Cell>>,
    after: Arc<Cell>,
)
    requires
        forall|data: Arc<Cell>, key: u64, value: Cell, root: Arc<Cell>| #[trigger]
            call_ensures(set, (64usize, data, key, value), Ok::<Arc<Cell>, String>(root))
                ==> contents(with_root(root@)) == contents(data@).insert(key, value@),
        are_named_apart(items),
        found matches Ok(known) && known@ == tokens,
        found_inserted(pack, set, items, found, data, Ok(after)),
    ensures
        is_changed(pack, items, tokens, held(contents, data), contents(after@)),
{
    let from = choose|from: Arc<Cell>| #[trigger]
        all_inserted(insertion(pack, set, items), tokens, from, Ok(after)) && is_data_or_empty(
            data,
            from,
        );
    if data is None {
        lemma_bytes_cell(&*from, Seq::empty());
    }
    assert(sets_contents(set, contents));
    lemma_inserted(pack, set, contents, items, tokens, from, after);
}

/// After an update by JSON value that succeeds, the data hold every value that was found, packed,
/// under the key of its variable, and under every other key what they held before, whatever that
/// was. The rest of the state stays, and the identifier is the hash of the new state.
pub proof fn law_update_by_items<
    P,
    V,
    T: Fn(&Vec<DataItem<P>>, &serde_json::Value) -> Result<Vec<Token<V>>, String>,
    K: Fn(&V) -> Result<Cell, String>,
    S: Fn(usize, Arc<Cell>, u64, Cell) -> Result<Arc<Cell>, String>,
    H: Fn(&StateInit) -> SdkResult<[u8; 32]>,
>(
    image: &mut ContractImage,
    items: &Vec<DataItem<P>>,
    value: &serde_json::Value,
    tokenize_all: T,
    pack: K,
    set: S,
    hash: H,
    contents: spec_fn(CellView) -> Map<u64, CellView>,
)
    requires
        call_ensures(
            ContractImage::update_data_items::<P, V, T, K, S, H>,
            (image, items, value, tokenize_all, pack, set, hash),
            Ok::<(), SdkError>(()),
        ),
        forall|data: Arc<Cell>, key: u64, value: Cell, root: Arc<Cell>| #[trigger]
            call_ensures(set, (64usize, data, key, value), Ok::<Arc<Cell>, String>(root))
                ==> contents(with_root(root@)) == contents(data@).insert(key, value@),
        are_named_apart(items@),
    ensures
        exists|found: Result<Vec<Token<V>>, String>| #[trigger]
            call_ensures(tokenize_all, (items, value), found) && (found matches Ok(tokens)
                && final(image)@.state_init.data matches Some(after) && is_changed(
                pack,
                items@,
                tokens@,
                held(contents, old(image)@.state_init.data),
                contents(after@),
            )),
        final(image)@.state_init.code == old(image)@.state_init.code,
        final(image)@.state_init.library == old(image)@.state_init.library,
        final(image)@.state_init.split_depth == old(image)@.state_init.split_depth,
        final(image)@.state_init.special == old(image)@.state_init.special,
        is_hashed(hash, final(image)@.state_init, final(image)@.id),
{
    let before = old(image)@;
    let after = final(image)@;
    let data = choose|data: SdkResult<Arc<Cell>>| #[trigger]
        value_inserted(
            tokenize_all,
            pack,
            set,
            *items,
            *value,
            before.state_init.data,
            data,
        ) && image_updated(hash, data, before, after, Ok(()));
    let found = choose|found: Result<Vec<Token<V>>, String>| #[trigger]
        call_ensures(tokenize_all, (items, value), found) && found_inserted(
            pack,
            set,
            items@,
            found,
            before.state_init.data,
            data,
        );
    assert(found == Ok::<Vec<Token<V>>, String>(found->Ok_0));
    lemma_found(
        pack,
        set,
        contents,
        items@,
        found->Ok_0@,
        found,
        before.state_init.data,
        data->Ok_0,
    );
}

/// After an update by JSON text and ABI that succeeds, the data hold every value that was found,
/// packed, under the key of its variable, and under every other key what they held before,
/// whatever that was. The rest of the state stays, and the identifier is the hash of the new state.
pub proof fn law_update<
    P,
    V,
    L: Fn(&str) -> Result<Vec<DataItem<P>>, String>,
    T: Fn(&Vec<DataItem<P>>, &serde_json::Value) -> Result<Vec<Token<V>>, String>,
    K: Fn(&V) -> Result<Cell, String>,
    S: Fn(usize, Arc<Cell>, u64, Cell) -> Result<Arc<Cell>, String>,
    H: Fn(&StateInit) -> SdkResult<[u8; 32]>,
>(
    image: &mut ContractImage,
    data_json: &str,
    abi_json: &str,
    load: L,
    tokenize_all: T,
    pack: K,
    set: S,
    hash: H,
    contents: spec_fn(CellView) -> Map<u64, CellView>,
)
    requires
        call_ensures(
            ContractImage::update_data::<P, V, L, T, K, S, H>,
            (image, data_json, abi_json, load, tokenize_all, pack, set, hash),
            Ok::<(), SdkError>(()),
        ),
        forall|data: Arc<Cell>, key: u64, value: Cell, root: Arc<Cell>| #[trigger]
            call_ensures(set, (64usize, data, key, value), Ok::<Arc<Cell>, String>(root))
                ==> contents(with_root(root@)) == contents(data@).insert(key, value@),
        forall|items: Vec<DataItem<P>>| #[trigger]
            call_ensures(load, (abi_json,), Ok::<Vec<DataItem<P>>, String>(items))
                ==> are_named_apart(items@),
    ensures
        exists|loaded: Result<Vec<DataItem<P>>, String>| #[trigger]
            call_ensures(load, (abi_json,), loaded) && (loaded matches Ok(items) && json_value(
                data_json@,
            ) matches Ok(value) && exists|found: Result<Vec<Token<V>>, String>| #[trigger]
                call_ensures(tokenize_all, (&items, &value), found) && (found matches Ok(tokens)
                    && final(image)@.state_init.data matches Some(after) && is_changed(
                    pack,
                    items@,
                    tokens@,
                    held(contents, old(image)@.state_init.data),
                    contents(after@),
                ))),
        final(image)@.state_init.code == old(image)@.state_init.code,
        final(image)@.state_init.library == old(image)@.state_init.library,
        final(image)@.state_init.split_depth == old(image)@.state_init.split_depth,
        final(image)@.state_init.special == old(image)@.state_init.special,
        is_hashed(hash, final(image)@.state_init, final(image)@.id),
{
    let before = old(image)@;
    let after = final(image)@;
    let data = choose|data: SdkResult<Arc<Cell>>| #[trigger]
        data_updated(
            load,
            tokenize_all,
            pack,
            set,
            data_json,
            abi_json,
            before.state_init.data,
            data,
        ) && image_updated(hash, data, before, after, Ok(()));
    let loaded = choose|items: Result<Vec<DataItem<P>>, String>| #[trigger]
        call_ensures(load, (abi_json,), items) && match items {
            Ok(items) => json_inserted(
                tokenize_all,
                pack,
                set,
                items,
                data_json@,
                before.state_init.data,
                data,
            ),
            Err(text) => data == Err::<Arc<Cell>, SdkError>(SdkError::AbiError(text)),
        };
    let items = loaded->Ok_0;
    assert(loaded == Ok::<Vec<DataItem<P>>, String>(items));
    let value = json_value(data_json@)->Ok_0;
    let found = choose|found: Result<Vec<Token<V>>, String>| #[trigger]
        call_ensures(tokenize_all, (&items, &value), found) && found_inserted(
            pack,
            set,
            items@,
            found,
            before.state_init.data,
            data,
        );
    assert(found == Ok::<Vec<Token<V>>, String>(found->Ok_0));
    lemma_found(
        pack,
        set,
        contents,
        items@,
        found->Ok_0@,
        found,
        before.state_init.data,
        data->Ok_0,
    );
}

/// The value cannot be inserted, and the error says why: it cannot be packed, no variable has its
/// name, or the dictionary refuses it under the key of the variable.
pub open spec fn is_refused<
    P,
    V,
    K: Fn(&V) -> Result<Cell, String>,
    S: Fn(usize, Arc<Cell>, u64, Cell) -> Result<Arc<Cell>, String>,
>(
    pack: K,
    set: S,
    items: Seq<DataItem<P>>,
    token: Token<V>,
    error: SdkError,
) -> bool {
    exists|packed: Result<Cell, String>| #[trigger]
        call_ensures(pack, (&token.value,), packed) && match packed {
            Err(text) => error == SdkError::AbiError(text),
            Ok(value) => {
                ||| (forall|k: int|
                    0 <= k < items.len() ==> (#[trigger] items[k]).name@ != token.name@) && (
                error matches SdkError::InvalidArg(told) && told@ == "data item "@ + token.name@
                    + " not found in contract ABI"@)
                ||| exists|data: Arc<Cell>, key: u64, refused: Result<Arc<Cell>, String>|
                    {
                        &&& is_key_of(items, token.name@, key)
                        &&& #[trigger] call_ensures(set, (64usize, data, key, value), refused)
                        &&& refused matches Err(text)
                        &&& error matches SdkError::InternalError(told)
                        &&& told@ == "failed to update data item in data map: "@ + text@
                    }
            },
        }
}

/// The value can be inserted: it is packed, and the dictionary takes it under the key of its
/// variable.
pub open spec fn is_accepted<
    P,
    V,
    K: Fn(&V) -> Result<Cell, String>,
    S: Fn(usize, Arc<Cell>, u64, Cell) -> Result<Arc<Cell>, String>,
>(pack: K, set: S, items: Seq<DataItem<P>>, token: Token<V>) -> bool {
    exists|packed: Result<Cell, String>, data: Arc<Cell>, key: u64, root: Result<Arc<Cell>, String>|
        {
            &&& #[trigger] call_ensures(pack, (&token.value,), packed)
            &&& is_key_of(items, token.name@, key)
            &&& packed is Ok
            &&& #[trigger] call_ensures(set, (64usize, data, key, packed->Ok_0), root)
            &&& root is Ok
        }
}

/// The value at `i` is the first that cannot be inserted, and the error says why.
pub open spec fn is_first_refused<
    P,
    V,
    K: Fn(&V) -> Result<Cell, String>,
    S: Fn(usize, Arc<Cell>, u64, Cell) -> Result<Arc<Cell>, String>,
>(
    pack: K,
    set: S,
    items: Seq<DataItem<P>>,
    tokens: Seq<Token<V>>,
    i: int,
    error: SdkError,
) -> bool {
    &&& 0 <= i < tokens.len()
    &&& is_refused(pack, set, items, tokens[i], error)
    &&& forall|j: int| 0 <= j < i ==> is_accepted(pack, set, items, #[trigger] tokens[j])
}

/// An insertion fails at the first value that cannot be inserted.
proof fn lemma_refused<
    P,
    V,
    K: Fn(&V) -> Result<Cell, String>,
    S: Fn(usize, Arc<Cell>, u64, Cell) -> Result<Arc<Cell>, String>,
>(
    pack: K,
    set: S,
    items: Seq<DataItem<P>>,
    tokens: Seq<Token<V>>,
    data: Arc<Cell>,
    error: SdkError,
) -> (i: int)
    requires
        all_inserted(insertion(pack, set, items), tokens, data, Err(error)),
    ensures
        is_first_refused(pack, set, items, tokens, i, error),
    decreases tokens.len(),
{
    let insert = insertion::<P, V, K, S>(pack, set, items);
    let next = choose|next: SdkResult<Arc<Cell>>| #[trigger]
        insert(tokens[0], data, next) && match next {
            Ok(next) => all_inserted(insert, tokens.drop_first(), next, Err(error)),
            Err(e) => e == error,
        };
    if next is Ok {
        let rest = tokens.drop_first();
        let i = 1 + lemma_refused(pack, set, items, rest, next->Ok_0, error);
        lemma_token_accepted(pack, set, items, tokens[0], data, next->Ok_0);
        assert forall|j: int| 0 <= j < i implies is_accepted(
            pack,
            set,
            items,
            #[trigger] tokens[j],
        ) by {
            if j > 0 {
                assert(rest[j - 1] == tokens[j]);
            }
        }
        i
    } else {
        lemma_token_refused(pack, set, items, tokens[0], data, error);
        0
    }
}

proof fn lemma_token_accepted<
    P,
    V,
    K: Fn(&V) -> Result<Cell, String>,
    S: Fn(usize, Arc<Cell>, u64, Cell) -> Result<Arc<Cell>, String>,
>(
    pack: K,
    set: S,
    items: Seq<DataItem<P>>,
    token: Token<V>,
    data: Arc<Cell>,
    next: Arc<Cell>,
)
    requires
        token_inserted(pack, set, items, token, data, Ok(next)),
    ensures
        is_accepted(pack, set, items, token),
{
    let packed = choose|packed: Result<Cell, String>| #[trigger]
        call_ensures(pack, (&token.value,), packed) && match packed {
            Ok(value) => match item_key(items, token.name@) {
                Some(key) => data_item_inserted(set, data, key, value, Ok(next)),
                None => false,
            },
            Err(text) => false,
        };
    let k = lemma_item_key(items, token.name@);
    assert(is_key_of(items, token.name@, items[k].key));
}

proof fn lemma_token_refused<
    P,
    V,
    K: Fn(&V) -> Result<Cell, String>,
    S: Fn(usize, Arc<Cell>, u64, Cell) -> Result<Arc<Cell>, String>,
>(
    pack: K,
    set: S,
    items: Seq<DataItem<P>>,
    token: Token<V>,
    data: Arc<Cell>,
    error: SdkError,
)
    requires
        token_inserted(pack, set, items, token, data, Err(error)),
    ensures
        is_refused(pack, set, items, token, error),
{
    let packed = choose|packed: Result<Cell, String>| #[trigger]
        call_ensures(pack, (&token.value,), packed) && match packed {
            Ok(value) => match item_key(items, token.name@) {
                Some(key) => data_item_inserted(set, data, key, value, Err(error)),
                None => error@ == SdkErrorView::InvalidArg(
                    "data item "@ + token.name@ + " not found in contract ABI"@,
                ),
            },
            Err(text) => error == SdkError::AbiError(text),
        };
    if packed is Ok {
        if item_key(items, token.name@) is None {
            assert forall|k: int| 0 <= k < items.len() implies (#[trigger] items[k]).name@
                != token.name@ by {
                if items[k].name@ == token.name@ {
                    lemma_item_has_key(items, k);
                }
            }
        } else {
            let k = lemma_item_key(items, token.name@);
            assert(is_key_of(items, token.name@, items[k].key));
        }
    }
}

/// An update that fails has a cause, and the error tells it. Where the state cannot be hashed, the
/// image has its new data and its old identifier; else it stays as it was.
pub proof fn law_failed_update_by_items<
    P,
    V,
    T: Fn(&Vec<DataItem<P>>, &serde_json::Value) -> Result<Vec<Token<V>>, String>,
    K: Fn(&V) -> Result<Cell, String>,
    S: Fn(usize, Arc<Cell>, u64, Cell) -> Result<Arc<Cell>, String>,
    H: Fn(&StateInit) -> SdkResult<[u8; 32]>,
>(
    image: &mut ContractImage,
    items: &Vec<DataItem<P>>,
    value: &serde_json::Value,
    tokenize_all: T,
    pack: K,
    set: S,
    hash: H,
    error: SdkError,
)
    requires
        call_ensures(
            ContractImage::update_data_items::<P, V, T, K, S, H>,
            (image, items, value, tokenize_all, pack, set, hash),
            Err::<(), SdkError>(error),
        ),
    ensures
        final(image)@.id == old(image)@.id,
        final(image)@.state_init.code == old(image)@.state_init.code,
        final(image)@.state_init.library == old(image)@.state_init.library,
        final(image)@.state_init.split_depth == old(image)@.state_init.split_depth,
        final(image)@.state_init.special == old(image)@.state_init.special,
        ({
            ||| call_ensures(
                hash,
                (&final(image)@.state_init,),
                Err::<[u8; 32], SdkError>(error),
            )
            ||| final(image)@ == old(image)@ && exists|found: Result<Vec<Token<V>>, String>|
                #[trigger] call_ensures(tokenize_all, (items, value), found) && match found {
                    Err(text) => error == SdkError::AbiError(text),
                    Ok(tokens) => exists|i: int| #[trigger]
                        is_first_refused(pack, set, items@, tokens@, i, error),
                }
        }),
{
    let before = old(image)@;
    let after = final(image)@;
    let data = choose|data: SdkResult<Arc<Cell>>| #[trigger]
        value_inserted(
            tokenize_all,
            pack,
            set,
            *items,
            *value,
            before.state_init.data,
            data,
        ) && image_updated(hash, data, before, after, Err(error));
    if data is Err {
        lemma_value_refused(tokenize_all, pack, set, *items, *value, before.state_init.data, error);
    }
}

proof fn lemma_value_refused<
    P,
    V,
    T: Fn(&Vec<DataItem<P>>, &serde_json::Value) -> Result<Vec<Token<V>>, String>,
    K: Fn(&V) -> Result<Cell, String>,
    S: Fn(usize, Arc<Cell>, u64, Cell) -> Result<Arc<Cell>, String>,
>(
    tokenize_all: T,
    pack: K,
    set: S,
    items: Vec<DataItem<P>>,
    value: serde_json::Value,
    data: Option<Arc<Cell>>,
    error: SdkError,
)
    requires
        value_inserted(tokenize_all, pack, set, items, value, data, Err(error)),
    ensures
        exists|found: Result<Vec<Token<V>>, String>| #[trigger]
            call_ensures(tokenize_all, (&items, &value), found) && match found {
                Err(text) => error == SdkError::AbiError(text),
                Ok(tokens) => exists|i: int| #[trigger]
                    is_first_refused(pack, set, items@, tokens@, i, error),
            },
{
    let found = choose|found: Result<Vec<Token<V>>, String>| #[trigger]
        call_ensures(tokenize_all, (&items, &value), found) && found_inserted(
            pack,
            set,
            items@,
            found,
            data,
            Err(error),
        );
    if found is Ok {
        let tokens = found->Ok_0@;
        let from = choose|from: Arc<Cell>| #[trigger]
            all_inserted(insertion(pack, set, items@), tokens, from, Err(error))
                && is_data_or_empty(data, from);
        let i = lemma_refused(pack, set, items@, tokens, from, error);
        assert(is_first_refused(pack, set, items@, tokens, i, error));
    }
}

/// An update by JSON text and ABI that fails has a cause, and the error tells it: the ABI cannot be
/// read, the text is no JSON, its values cannot be found or inserted, or the new state cannot be
/// hashed. In the last case the image has its new data and its old identifier; else it stays as it
/// was.
pub proof fn law_failed_update<
    P,
    V,
    L: Fn(&str) -> Result<Vec<DataItem<P>>, String>,
    T: Fn(&Vec<DataItem<P>>, &serde_json::Value) -> Result<Vec<Token<V>>, String>,
    K: Fn(&V) -> Result<Cell, String>,
    S: Fn(usize, Arc<Cell>, u64, Cell) -> Result<Arc<Cell>, String>,
    H: Fn(&StateInit) -> SdkResult<[u8; 32]>,
>(
    image: &mut ContractImage,
    data_json: &str,
    abi_json: &str,
    load: L,
    tokenize_all: T,
    pack: K,
    set: S,
    hash: H,
    error: SdkError,
)
    requires
        call_ensures(
            ContractImage::update_data::<P, V, L, T, K, S, H>,
            (image, data_json, abi_json, load, tokenize_all, pack, set, hash),
            Err::<(), SdkError>(error),
        ),
    ensures
        final(image)@.id == old(image)@.id,
        final(image)@.state_init.code == old(image)@.state_init.code,
        final(image)@.state_init.library == old(image)@.state_init.library,
        final(image)@.state_init.split_depth == old(image)@.state_init.split_depth,
        final(image)@.state_init.special == old(image)@.state_init.special,
        ({
            ||| call_ensures(
                hash,
                (&final(image)@.state_init,),
                Err::<[u8; 32], SdkError>(error),
            )
            ||| final(image)@ == old(image)@ && exists|loaded: Result<Vec<DataItem<P>>, String>|
                #[trigger] call_ensures(load, (abi_json,), loaded) && match loaded {
                    Err(text) => error == SdkError::AbiError(text),
                    Ok(items) => match json_value(data_json@) {
                        Err(e) => error == SdkError::SerdeJson(e),
                        Ok(value) => exists|found: Result<Vec<Token<V>>, String>| #[trigger]
                            call_ensures(tokenize_all, (&items, &value), found) && match found {
                                Err(text) => error == SdkError::AbiError(text),
                                Ok(tokens) => exists|i: int| #[trigger]
                                    is_first_refused(pack, set, items@, tokens@, i, error),
                            },
                    },
                }
        }),
{
    let before = old(image)@;
    let after = final(image)@;
    let data = choose|data: SdkResult<Arc<Cell>>| #[trigger]
        data_updated(
            load,
            tokenize_all,
            pack,
            set,
            data_json,
            abi_json,
            before.state_init.data,
            data,
        ) && image_updated(hash, data, before, after, Err(error));
    if data is Err {
        let loaded = choose|items: Result<Vec<DataItem<P>>, String>| #[trigger]
            call_ensures(load, (abi_json,), items) && match items {
                Ok(items) => json_inserted(
                    tokenize_all,
                    pack,
                    set,
                    items,
                    data_json@,
                    before.state_init.data,
                    data,
                ),
                Err(text) => data == Err::<Arc<Cell>, SdkError>(SdkError::AbiError(text)),
            };
        if loaded is Ok && json_value(data_json@) is Ok {
            lemma_value_refused(
                tokenize_all,
                pack,
                set,
                loaded->Ok_0,
                json_value(data_json@)->Ok_0,
                before.state_init.data,
                error,
            );
        }
    }
}

} // verus!
