//! Laws of images.

use std::sync::Arc;
use vstd::prelude::*;
use crate::bits::{whole_bytes, BitsView};
use crate::cell::{
    bytes_cell, dictionary_cell, is_bytes_cell, is_dictionary_cell, lemma_bytes_cell,
    lemma_dictionary_cell, Cell, CellView, SliceData, StateInit,
};
use crate::error::{alike, SdkError, SdkResult};
use crate::image::{
    all_inserted, data_item_inserted, data_updated, found_inserted, image_made, image_updated,
    insertion, is_data_or_empty, is_hash, item_key, json_inserted, keyed_image_made,
    keyed_image_read, pubkey_inserted, state_init_read, token_inserted, update_made, ContractImage,
    DataItem, ImageView, Token, DATA_MAP_KEYLEN,
};
use crate::json::json_value;

verus! {

/// The identifier of a new image is a hash of what the image starts from.
pub proof fn law_new_image_is_hashed<H: Fn(&StateInit) -> SdkResult<[u8; 32]>>(
    hash: H,
    state_init: StateInit,
    image: ContractImage,
)
    requires
        image_made(hash, state_init, Ok(image)),
    ensures
        is_hash(hash, image@),
{
}

/// After an update that succeeds, the identifier of the image is a hash of what the image starts
/// from.
pub proof fn law_updated_image_is_hashed<H: Fn(&StateInit) -> SdkResult<[u8; 32]>>(
    hash: H,
    data: SdkResult<Arc<Cell>>,
    before: ImageView,
    after: ImageView,
)
    requires
        image_updated(hash, data, before, after, Ok(())),
    ensures
        is_hash(hash, after),
{
}

/// An update never touches anything but the data and the identifier of an image.
pub proof fn law_update_changes_only_data<H: Fn(&StateInit) -> SdkResult<[u8; 32]>>(
    hash: H,
    data: SdkResult<Arc<Cell>>,
    before: ImageView,
    after: ImageView,
    result: SdkResult<()>,
)
    requires
        image_updated(hash, data, before, after, result),
    ensures
        after.state_init.code == before.state_init.code,
        after.state_init.library == before.state_init.library,
        after.state_init.split_depth == before.state_init.split_depth,
        after.state_init.special == before.state_init.special,
{
}

/// An update that does not come to new data leaves the image as it was.
pub proof fn law_refused_update_keeps_image<H: Fn(&StateInit) -> SdkResult<[u8; 32]>>(
    hash: H,
    data: SdkResult<Arc<Cell>>,
    before: ImageView,
    after: ImageView,
    result: SdkResult<()>,
)
    requires
        image_updated(hash, data, before, after, result),
        data is Err,
    ensures
        after == before,
        result is Err,
{
}

/// `contents` says what the dictionaries in cells hold, and `set` changes them accordingly.
pub open spec fn sets_contents<S: Fn(usize, Arc<Cell>, u64, Cell) -> Result<Arc<Cell>, String>>(
    set: S,
    contents: spec_fn(CellView) -> Map<u64, CellView>,
) -> bool {
    forall|data: Arc<Cell>, key: u64, value: Cell, root: Arc<Cell>| #[trigger]
        call_ensures(set, (DATA_MAP_KEYLEN, data, key, value), Ok::<Arc<Cell>, String>(root))
            ==> contents(dictionary_cell(root@)) == contents(data@).insert(key, value@)
}

/// `set` changes the contents of dictionaries, and what comes of it is `dictionary` of the
/// contents: it does not depend on how a dictionary came to hold them.
pub open spec fn is_canonical<S: Fn(usize, Arc<Cell>, u64, Cell) -> Result<Arc<Cell>, String>>(
    set: S,
    contents: spec_fn(CellView) -> Map<u64, CellView>,
    dictionary: spec_fn(Map<u64, CellView>) -> Option<CellView>,
) -> bool {
    &&& sets_contents(set, contents)
    &&& forall|data: Arc<Cell>, key: u64, value: Cell, result: Result<Arc<Cell>, String>| #[trigger]
        call_ensures(set, (DATA_MAP_KEYLEN, data, key, value), result) ==> match result {
            Ok(root) => dictionary(contents(data@).insert(key, value@)) == Some(root@),
            Err(_) => dictionary(contents(data@).insert(key, value@)) is None,
        }
}

/// `cell` holds a dictionary as `dictionary` makes it.
pub open spec fn is_canonical_cell(
    contents: spec_fn(CellView) -> Map<u64, CellView>,
    dictionary: spec_fn(Map<u64, CellView>) -> Option<CellView>,
    cell: CellView,
) -> bool {
    exists|root: CellView|
        cell == #[trigger] dictionary_cell(root) && dictionary(contents(cell)) == Some(root)
}

/// States that look the same have the same hash.
pub open spec fn hashes_alike<H: Fn(&StateInit) -> SdkResult<[u8; 32]>>(hash: H) -> bool {
    forall|a: StateInit, b: StateInit, c: SdkResult<[u8; 32]>, d: SdkResult<[u8; 32]>|
        #[trigger] call_ensures(hash, (&a,), c) && #[trigger] call_ensures(hash, (&b,), d) && a@
            == b@ ==> alike(c, d)
}

/// Values that look the same are packed into cells that look the same, or are both refused.
pub open spec fn packs_alike<V: View, K: Fn(&V) -> Result<Cell, String>>(pack: K) -> bool {
    forall|a: V, b: V, c: Result<Cell, String>, d: Result<Cell, String>|
        #[trigger] call_ensures(pack, (&a,), c) && #[trigger] call_ensures(pack, (&b,), d) && a@
            == b@ ==> match (c, d) {
            (Ok(c), Ok(d)) => c@ == d@,
            (Err(_), Err(_)) => true,
            _ => false,
        }
}

/// The variables look the same.
pub open spec fn item_alike<P: View>(a: DataItem<P>, b: DataItem<P>) -> bool {
    a.name@ == b.name@ && a.key == b.key && a.value@ == b.value@
}

/// The values look the same.
pub open spec fn token_alike<V: View>(a: Token<V>, b: Token<V>) -> bool {
    a.name@ == b.name@ && a.value@ == b.value@
}

/// Every one of the variables is among the other ones.
pub open spec fn items_among<P: View>(items: Seq<DataItem<P>>, others: Seq<DataItem<P>>) -> bool {
    forall|i: int|
        0 <= i < items.len() ==> exists|j: int|
            0 <= j < others.len() && item_alike(#[trigger] items[i], #[trigger] others[j])
}

/// Every one of the values is among the other ones.
pub open spec fn tokens_among<V: View>(tokens: Seq<Token<V>>, others: Seq<Token<V>>) -> bool {
    forall|i: int|
        0 <= i < tokens.len() ==> exists|j: int|
            0 <= j < others.len() && token_alike(#[trigger] tokens[i], #[trigger] others[j])
}

/// No two variables have the same name or the same key.
pub open spec fn items_are_distinct<P>(items: Seq<DataItem<P>>) -> bool {
    forall|i: int, j: int|
        0 <= i < items.len() && 0 <= j < items.len() && i != j ==> (#[trigger] items[i]).name@ != (
        #[trigger] items[j]).name@ && items[i].key != items[j].key
}

/// The same ABI is always read as the same variables, in whatever order, whose names and keys are
/// distinct.
pub open spec fn loads_alike<P: View, L: Fn(&str) -> Result<Vec<DataItem<P>>, String>>(
    load: L,
) -> bool {
    &&& forall|
        abi1: &str,
        abi2: &str,
        a: Result<Vec<DataItem<P>>, String>,
        b: Result<Vec<DataItem<P>>, String>,
    |
        #[trigger] call_ensures(load, (abi1,), a) && #[trigger] call_ensures(load, (abi2,), b)
            && abi1@ == abi2@ ==> match (a, b) {
            (Ok(a), Ok(b)) => items_among(a@, b@) && items_among(b@, a@),
            (Err(_), Err(_)) => true,
            _ => false,
        }
    &&& forall|abi: &str, items: Vec<DataItem<P>>| #[trigger]
        call_ensures(load, (abi,), Ok::<Vec<DataItem<P>>, String>(items)) ==> items_are_distinct(
            items@,
        )
}

/// For the same variables the same values are always found, in whatever order, at most one for
/// each name.
pub open spec fn tokenizes_alike<
    P: View,
    V: View,
    T: Fn(&Vec<DataItem<P>>, &serde_json::Value) -> Result<Vec<Token<V>>, String>,
>(tokenize_all: T) -> bool {
    &&& forall|
        items1: Vec<DataItem<P>>,
        items2: Vec<DataItem<P>>,
        value: serde_json::Value,
        a: Result<Vec<Token<V>>, String>,
        b: Result<Vec<Token<V>>, String>,
    |
        #[trigger] call_ensures(tokenize_all, (&items1, &value), a) && #[trigger] call_ensures(
            tokenize_all,
            (&items2, &value),
            b,
        ) && items_among(items1@, items2@) && items_among(items2@, items1@) ==> match (a, b) {
            (Ok(a), Ok(b)) => tokens_among(a@, b@) && tokens_among(b@, a@),
            (Err(_), Err(_)) => true,
            _ => false,
        }
    &&& forall|items: Vec<DataItem<P>>, value: serde_json::Value, tokens: Vec<Token<V>>| #[trigger]
        call_ensures(tokenize_all, (&items, &value), Ok::<Vec<Token<V>>, String>(tokens))
            ==> names_are_distinct(tokens@)
}

/// No two values are for the same name.
pub open spec fn names_are_distinct<V>(tokens: Seq<Token<V>>) -> bool {
    forall|i: int, j: int|
        0 <= i < tokens.len() && 0 <= j < tokens.len() && i != j ==> #[trigger] tokens[i].name@
            != #[trigger] tokens[j].name@
}

/// No value is for the variable that is kept under `key`.
pub open spec fn names_no<P, V>(
    items: Seq<DataItem<P>>,
    tokens: Seq<Token<V>>,
    key: u64,
) -> bool {
    forall|i: int| 0 <= i < tokens.len() ==> item_key(items, (#[trigger] tokens[i]).name@) != Some(
        key,
    )
}

/// The contents have the value, packed, under the key of its variable.
pub open spec fn is_set<P, V, K: Fn(&V) -> Result<Cell, String>>(
    pack: K,
    items: Seq<DataItem<P>>,
    token: Token<V>,
    contents: Map<u64, CellView>,
) -> bool {
    &&& item_key(items, token.name@) matches Some(key)
    &&& contents.dom().contains(key)
    &&& exists|value: Cell| #[trigger]
        call_ensures(pack, (&token.value,), Ok::<Cell, String>(value)) && contents[key] == value@
}

/// What inserting under a key makes of the contents, and of the cell where dictionaries are
/// canonical.
proof fn lemma_item_inserted<S: Fn(usize, Arc<Cell>, u64, Cell) -> Result<Arc<Cell>, String>>(
    set: S,
    contents: spec_fn(CellView) -> Map<u64, CellView>,
    data: Arc<Cell>,
    key: u64,
    value: Cell,
    after: Arc<Cell>,
)
    requires
        sets_contents(set, contents),
        data_item_inserted(set, data, key, value, Ok(after)),
    ensures
        contents(after@) == contents(data@).insert(key, value@),
        forall|dictionary: spec_fn(Map<u64, CellView>) -> Option<CellView>| #[trigger]
            is_canonical(set, contents, dictionary) ==> is_canonical_cell(
                contents,
                dictionary,
                after@,
            ),
{
    let root = choose|root: Result<Arc<Cell>, String>| #[trigger]
        call_ensures(set, (DATA_MAP_KEYLEN, data, key, value), root) && match root {
            Ok(root) => is_dictionary_cell(*after, root),
            Err(text) => false,
        };
    let made = root->Ok_0;
    assert(root == Ok::<Arc<Cell>, String>(made));
    lemma_dictionary_cell(&*after, made);
    assert forall|dictionary: spec_fn(Map<u64, CellView>) -> Option<CellView>| #[trigger]
        is_canonical(set, contents, dictionary) implies is_canonical_cell(
        contents,
        dictionary,
        after@,
    ) by {
        assert(after@ == dictionary_cell(made@));
    }
}

/// Canonical dictionaries with the same contents are the same.
proof fn lemma_same_contents(
    contents: spec_fn(CellView) -> Map<u64, CellView>,
    dictionary: spec_fn(Map<u64, CellView>) -> Option<CellView>,
    a: CellView,
    b: CellView,
)
    requires
        is_canonical_cell(contents, dictionary, a),
        is_canonical_cell(contents, dictionary, b),
        contents(a) == contents(b),
    ensures
        a == b,
{
}

/// Insertions under different keys come to the same in either order: to the same contents and,
/// where dictionaries are canonical, to the same cell.
pub proof fn law_insertions_commute<
    S: Fn(usize, Arc<Cell>, u64, Cell) -> Result<Arc<Cell>, String>,
>(
    set: S,
    contents: spec_fn(CellView) -> Map<u64, CellView>,
    dictionary: spec_fn(Map<u64, CellView>) -> Option<CellView>,
    data: Arc<Cell>,
    key1: u64,
    value1: Cell,
    key2: u64,
    value2: Cell,
    with1: Arc<Cell>,
    with12: Arc<Cell>,
    with2: Arc<Cell>,
    with21: Arc<Cell>,
)
    requires
        sets_contents(set, contents),
        key1 != key2,
        data_item_inserted(set, data, key1, value1, Ok(with1)),
        data_item_inserted(set, with1, key2, value2, Ok(with12)),
        data_item_inserted(set, data, key2, value2, Ok(with2)),
        data_item_inserted(set, with2, key1, value1, Ok(with21)),
    ensures
        contents(with12@) == contents(with21@),
        is_canonical(set, contents, dictionary) ==> with12@ == with21@,
{
    lemma_item_inserted(set, contents, data, key1, value1, with1);
    lemma_item_inserted(set, contents, with1, key2, value2, with12);
    lemma_item_inserted(set, contents, data, key2, value2, with2);
    lemma_item_inserted(set, contents, with2, key1, value1, with21);
    assert(contents(with12@) =~= contents(with21@));
    if is_canonical(set, contents, dictionary) {
        lemma_same_contents(contents, dictionary, with12@, with21@);
    }
}

/// Of two insertions under one key the last one wins: it comes to the same contents and, where
/// dictionaries are canonical, to the same cell as alone.
pub proof fn law_last_insertion_wins<
    S: Fn(usize, Arc<Cell>, u64, Cell) -> Result<Arc<Cell>, String>,
>(
    set: S,
    contents: spec_fn(CellView) -> Map<u64, CellView>,
    dictionary: spec_fn(Map<u64, CellView>) -> Option<CellView>,
    data: Arc<Cell>,
    key: u64,
    value1: Cell,
    value2: Cell,
    with1: Arc<Cell>,
    with12: Arc<Cell>,
    with2: Arc<Cell>,
)
    requires
        sets_contents(set, contents),
        data_item_inserted(set, data, key, value1, Ok(with1)),
        data_item_inserted(set, with1, key, value2, Ok(with12)),
        data_item_inserted(set, data, key, value2, Ok(with2)),
    ensures
        contents(with12@) == contents(with2@),
        is_canonical(set, contents, dictionary) ==> with12@ == with2@,
{
    lemma_item_inserted(set, contents, data, key, value1, with1);
    lemma_item_inserted(set, contents, with1, key, value2, with12);
    lemma_item_inserted(set, contents, data, key, value2, with2);
    assert(contents(with12@) =~= contents(with2@));
    if is_canonical(set, contents, dictionary) {
        lemma_same_contents(contents, dictionary, with12@, with2@);
    }
}

/// Inserting a value puts it under its key and changes nothing else.
proof fn lemma_token_inserted<
    P,
    V,
    K: Fn(&V) -> Result<Cell, String>,
    S: Fn(usize, Arc<Cell>, u64, Cell) -> Result<Arc<Cell>, String>,
>(
    pack: K,
    set: S,
    contents: spec_fn(CellView) -> Map<u64, CellView>,
    items: Seq<DataItem<P>>,
    token: Token<V>,
    data: Arc<Cell>,
    next: Arc<Cell>,
) -> (value: Cell)
    requires
        sets_contents(set, contents),
        token_inserted(pack, set, items, token, data, Ok(next)),
    ensures
        item_key(items, token.name@) is Some,
        call_ensures(pack, (&token.value,), Ok::<Cell, String>(value)),
        contents(next@) == contents(data@).insert(item_key(items, token.name@)->0, value@),
        forall|dictionary: spec_fn(Map<u64, CellView>) -> Option<CellView>| #[trigger]
            is_canonical(set, contents, dictionary) ==> is_canonical_cell(
                contents,
                dictionary,
                next@,
            ),
{
    let packed = choose|packed: Result<Cell, String>| #[trigger]
        call_ensures(pack, (&token.value,), packed) && match packed {
            Ok(value) => match item_key(items, token.name@) {
                Some(key) => data_item_inserted(set, data, key, value, Ok(next)),
                None => false,
            },
            Err(text) => false,
        };
    let value = packed->Ok_0;
    let key = item_key(items, token.name@)->0;
    assert(packed == Ok::<Cell, String>(value));
    lemma_item_inserted(set, contents, data, key, value, next);
    value
}

/// Changing a contract's data leaves every variable as it was that no value is for.
pub proof fn law_other_variables_stay<
    P,
    V,
    K: Fn(&V) -> Result<Cell, String>,
    S: Fn(usize, Arc<Cell>, u64, Cell) -> Result<Arc<Cell>, String>,
>(
    pack: K,
    set: S,
    contents: spec_fn(CellView) -> Map<u64, CellView>,
    items: Seq<DataItem<P>>,
    tokens: Seq<Token<V>>,
    before: Arc<Cell>,
    after: Arc<Cell>,
    key: u64,
)
    requires
        sets_contents(set, contents),
        all_inserted(insertion(pack, set, items), tokens, before, Ok(after)),
        names_no(items, tokens, key),
    ensures
        contents(after@).dom().contains(key) == contents(before@).dom().contains(key),
        contents(after@)[key] == contents(before@)[key],
    decreases tokens.len(),
{
    let insert = insertion::<P, V, K, S>(pack, set, items);
    if tokens.len() > 0 {
        let next = choose|next: SdkResult<Arc<Cell>>| #[trigger]
            insert(tokens[0], before, next) && match next {
                Ok(next) => all_inserted(insert, tokens.drop_first(), next, Ok(after)),
                Err(error) => false,
            };
        let cell = next->Ok_0;
        assert(token_inserted(pack, set, items, tokens[0], before, Ok(cell)));
        let value = lemma_token_inserted(pack, set, contents, items, tokens[0], before, cell);
        assert(names_no(items, tokens.drop_first(), key)) by {
            assert forall|i: int| 0 <= i < tokens.drop_first().len() implies item_key(
                items,
                (#[trigger] tokens.drop_first()[i]).name@,
            ) != Some(key) by {
                assert(tokens.drop_first()[i] == tokens[i + 1]);
            }
        }
        law_other_variables_stay(
            pack,
            set,
            contents,
            items,
            tokens.drop_first(),
            cell,
            after,
            key,
        );
    }
}

/// Changing a contract's data gives a variable the value that is for it, packed; of several, the
/// last one.
pub proof fn law_variables_are_set<
    P,
    V,
    K: Fn(&V) -> Result<Cell, String>,
    S: Fn(usize, Arc<Cell>, u64, Cell) -> Result<Arc<Cell>, String>,
>(
    pack: K,
    set: S,
    contents: spec_fn(CellView) -> Map<u64, CellView>,
    items: Seq<DataItem<P>>,
    tokens: Seq<Token<V>>,
    before: Arc<Cell>,
    after: Arc<Cell>,
    i: int,
)
    requires
        sets_contents(set, contents),
        all_inserted(insertion(pack, set, items), tokens, before, Ok(after)),
        0 <= i < tokens.len(),
        item_key(items, tokens[i].name@) matches Some(key) ==> names_no(
            items,
            tokens.skip(i + 1),
            key,
        ),
    ensures
        is_set(pack, items, tokens[i], contents(after@)),
    decreases tokens.len(),
{
    let insert = insertion::<P, V, K, S>(pack, set, items);
    let next = choose|next: SdkResult<Arc<Cell>>| #[trigger]
        insert(tokens[0], before, next) && match next {
            Ok(next) => all_inserted(insert, tokens.drop_first(), next, Ok(after)),
            Err(error) => false,
        };
    let cell = next->Ok_0;
    let rest = tokens.drop_first();
    assert(token_inserted(pack, set, items, tokens[0], before, Ok(cell)));
    let value = lemma_token_inserted(pack, set, contents, items, tokens[0], before, cell);
    if i == 0 {
        assert(tokens.skip(1) =~= rest);
        law_other_variables_stay(
            pack,
            set,
            contents,
            items,
            rest,
            cell,
            after,
            item_key(items, tokens[0].name@)->0,
        );
    } else {
        assert(rest[i - 1] == tokens[i]);
        assert(rest.skip(i) =~= tokens.skip(i + 1));
        law_variables_are_set(pack, set, contents, items, rest, cell, after, i - 1);
    }
}

/// Putting a public key into a contract's data keeps its bytes under the key zero and leaves
/// everything else as it was.
pub proof fn law_public_key_is_under_zero<
    S: Fn(usize, Arc<Cell>, u64, Cell) -> Result<Arc<Cell>, String>,
>(
    set: S,
    contents: spec_fn(CellView) -> Map<u64, CellView>,
    data: Arc<Cell>,
    pubkey: Seq<u8>,
    after: Arc<Cell>,
)
    requires
        sets_contents(set, contents),
        pubkey_inserted(set, Some(data), pubkey, Ok(after)),
    ensures
        contents(after@) == contents(data@).insert(0, bytes_cell(pubkey)),
{
    lemma_pubkey_inserted(set, contents, Some(data), pubkey, after);
}

/// Where an empty cell holds nothing, putting a public key into missing data makes data that hold
/// the key and nothing else.
pub proof fn law_public_key_is_alone<
    S: Fn(usize, Arc<Cell>, u64, Cell) -> Result<Arc<Cell>, String>,
>(
    set: S,
    contents: spec_fn(CellView) -> Map<u64, CellView>,
    pubkey: Seq<u8>,
    after: Arc<Cell>,
)
    requires
        sets_contents(set, contents),
        contents(bytes_cell(Seq::empty())) == Map::<u64, CellView>::empty(),
        pubkey_inserted(set, None, pubkey, Ok(after)),
    ensures
        contents(after@) == Map::<u64, CellView>::empty().insert(0, bytes_cell(pubkey)),
{
    lemma_pubkey_inserted(set, contents, None, pubkey, after);
}

/// The data as a cell: an empty one where there is none.
pub open spec fn data_cell(data: Option<Arc<Cell>>) -> CellView {
    match data {
        Some(data) => data@,
        None => bytes_cell(Seq::empty()),
    }
}

proof fn lemma_pubkey_inserted<S: Fn(usize, Arc<Cell>, u64, Cell) -> Result<Arc<Cell>, String>>(
    set: S,
    contents: spec_fn(CellView) -> Map<u64, CellView>,
    data: Option<Arc<Cell>>,
    pubkey: Seq<u8>,
    after: Arc<Cell>,
)
    requires
        sets_contents(set, contents),
        pubkey_inserted(set, data, pubkey, Ok(after)),
    ensures
        contents(after@) == contents(data_cell(data)).insert(0, bytes_cell(pubkey)),
        forall|dictionary: spec_fn(Map<u64, CellView>) -> Option<CellView>| #[trigger]
            is_canonical(set, contents, dictionary) ==> is_canonical_cell(
                contents,
                dictionary,
                after@,
            ),
{
    let (from, value) = choose|from: Arc<Cell>, value: Cell|
        is_data_or_empty(data, from) && is_bytes_cell(value, pubkey) && #[trigger]
        data_item_inserted(set, from, 0, value, Ok(after));
    lemma_bytes_cell(&value, pubkey);
    if data is None {
        lemma_bytes_cell(&*from, Seq::empty());
    }
    lemma_item_inserted(set, contents, from, 0, value, after);
}

/// The data of an image with a public key.
proof fn lemma_keyed_image<
    S: Fn(usize, Arc<Cell>, u64, Cell) -> Result<Arc<Cell>, String>,
    H: Fn(&StateInit) -> SdkResult<[u8; 32]>,
>(
    set: S,
    hash: H,
    contents: spec_fn(CellView) -> Map<u64, CellView>,
    state_init: StateInit,
    pubkey: Seq<u8>,
    image: ContractImage,
) -> (data: Arc<Cell>)
    requires
        sets_contents(set, contents),
        keyed_image_made(set, hash, state_init, pubkey, Ok(image)),
    ensures
        image@.state_init == (StateInit { data: Some(data), ..state_init }),
        is_hash(hash, image@),
        contents(data@) == contents(data_cell(state_init.data)).insert(0, bytes_cell(pubkey)),
        forall|dictionary: spec_fn(Map<u64, CellView>) -> Option<CellView>| #[trigger]
            is_canonical(set, contents, dictionary) ==> is_canonical_cell(
                contents,
                dictionary,
                data@,
            ),
{
    let made = choose|made: SdkResult<Arc<Cell>>| #[trigger]
        pubkey_inserted(set, state_init.data, pubkey, made) && match made {
            Ok(data) => image_made(hash, StateInit { data: Some(data), ..state_init }, Ok(image)),
            Err(error) => false,
        };
    let data = made->Ok_0;
    lemma_pubkey_inserted(set, contents, state_init.data, pubkey, data);
    data
}

/// Bags of cells with the same bytes are read as states that look the same.
pub open spec fn states_read_alike<
    D: Fn(&[u8]) -> SdkResult<Vec<Arc<Cell>>>,
    C: Fn(SliceData) -> SdkResult<StateInit>,
>(deserialize_cells_tree: D, construct_from: C) -> bool {
    forall|bag1: &[u8], bag2: &[u8], a: SdkResult<StateInit>, b: SdkResult<StateInit>|
        #[trigger] state_init_read(deserialize_cells_tree, construct_from, bag1, a)
            && #[trigger] state_init_read(deserialize_cells_tree, construct_from, bag2, b) && bag1@
            == bag2@ ==> alike(a, b)
}

/// Images of one state with different public keys agree in everything but the value under the key
/// zero, and their identifiers.
pub proof fn law_images_differ_in_key_only<
    D: Fn(&[u8]) -> SdkResult<Vec<Arc<Cell>>>,
    C: Fn(SliceData) -> SdkResult<StateInit>,
    S: Fn(usize, Arc<Cell>, u64, Cell) -> Result<Arc<Cell>, String>,
    H: Fn(&StateInit) -> SdkResult<[u8; 32]>,
>(
    deserialize_cells_tree: D,
    construct_from: C,
    set: S,
    hash: H,
    contents: spec_fn(CellView) -> Map<u64, CellView>,
    bag1: &[u8],
    bag2: &[u8],
    key1: Seq<u8>,
    key2: Seq<u8>,
    image1: ContractImage,
    image2: ContractImage,
)
    requires
        sets_contents(set, contents),
        states_read_alike(deserialize_cells_tree, construct_from),
        bag1@ == bag2@,
        keyed_image_read(
            deserialize_cells_tree,
            construct_from,
            set,
            hash,
            bag1,
            key1,
            Ok(image1),
        ),
        keyed_image_read(
            deserialize_cells_tree,
            construct_from,
            set,
            hash,
            bag2,
            key2,
            Ok(image2),
        ),
    ensures
        image1@.state_init@.code == image2@.state_init@.code,
        image1@.state_init@.library == image2@.state_init@.library,
        image1@.state_init@.split_depth == image2@.state_init@.split_depth,
        image1@.state_init@.special == image2@.state_init@.special,
        image1@.state_init@.data matches Some(data1) && image2@.state_init@.data matches Some(data2)
            && contents(data1).remove(0) == contents(data2).remove(0),
        image1@.state_init@.data matches Some(data1) && contents(data1).dom().contains(0)
            && contents(data1)[0] == bytes_cell(key1),
        image2@.state_init@.data matches Some(data2) && contents(data2).dom().contains(0)
            && contents(data2)[0] == bytes_cell(key2),
{
    let state1 = choose|state: SdkResult<StateInit>| #[trigger]
        state_init_read(deserialize_cells_tree, construct_from, bag1, state) && match state {
            Ok(state_init) => keyed_image_made(set, hash, state_init, key1, Ok(image1)),
            Err(error) => false,
        };
    let state2 = choose|state: SdkResult<StateInit>| #[trigger]
        state_init_read(deserialize_cells_tree, construct_from, bag2, state) && match state {
            Ok(state_init) => keyed_image_made(set, hash, state_init, key2, Ok(image2)),
            Err(error) => false,
        };
    assert(alike(state1, state2));
    let data1 = lemma_keyed_image(set, hash, contents, state1->Ok_0, key1, image1);
    let data2 = lemma_keyed_image(set, hash, contents, state2->Ok_0, key2, image2);
    assert(contents(data1@).remove(0) =~= contents(data2@).remove(0));
}

/// A new public key replaces the old one without a trace. Where dictionaries are canonical, the
/// state of an image with another key gives, with the new key, the image that the first state
/// gives with the new key.
pub proof fn law_new_key_replaces_old<
    D: Fn(&[u8]) -> SdkResult<Vec<Arc<Cell>>>,
    C: Fn(SliceData) -> SdkResult<StateInit>,
    S: Fn(usize, Arc<Cell>, u64, Cell) -> Result<Arc<Cell>, String>,
    H: Fn(&StateInit) -> SdkResult<[u8; 32]>,
>(
    deserialize_cells_tree: D,
    construct_from: C,
    set: S,
    hash: H,
    contents: spec_fn(CellView) -> Map<u64, CellView>,
    dictionary: spec_fn(Map<u64, CellView>) -> Option<CellView>,
    bag1: &[u8],
    bag2: &[u8],
    old_key: Seq<u8>,
    new_key: Seq<u8>,
    with_old: ContractImage,
    with_new: ContractImage,
    bag_with_old: &[u8],
    replaced: SdkResult<ContractImage>,
)
    requires
        is_canonical(set, contents, dictionary),
        hashes_alike(hash),
        states_read_alike(deserialize_cells_tree, construct_from),
        bag1@ == bag2@,
        keyed_image_read(
            deserialize_cells_tree,
            construct_from,
            set,
            hash,
            bag1,
            old_key,
            Ok(with_old),
        ),
        keyed_image_read(
            deserialize_cells_tree,
            construct_from,
            set,
            hash,
            bag2,
            new_key,
            Ok(with_new),
        ),
        forall|state: SdkResult<StateInit>| #[trigger]
            state_init_read(deserialize_cells_tree, construct_from, bag_with_old, state) ==> (
            state matches Ok(state_init) && state_init@ == with_old@.state_init@),
        keyed_image_read(
            deserialize_cells_tree,
            construct_from,
            set,
            hash,
            bag_with_old,
            new_key,
            replaced,
        ),
    ensures
        replaced matches Ok(image) && image@.state_init@ == with_new@.state_init@ && image@.id
            == with_new@.id,
{
    let state1 = choose|state: SdkResult<StateInit>| #[trigger]
        state_init_read(deserialize_cells_tree, construct_from, bag1, state) && match state {
            Ok(state_init) => keyed_image_made(set, hash, state_init, old_key, Ok(with_old)),
            Err(error) => false,
        };
    let state2 = choose|state: SdkResult<StateInit>| #[trigger]
        state_init_read(deserialize_cells_tree, construct_from, bag2, state) && match state {
            Ok(state_init) => keyed_image_made(set, hash, state_init, new_key, Ok(with_new)),
            Err(error) => false,
        };
    assert(alike(state1, state2));
    let old_data = lemma_keyed_image(set, hash, contents, state1->Ok_0, old_key, with_old);
    let new_data = lemma_keyed_image(set, hash, contents, state2->Ok_0, new_key, with_new);
    let state3 = choose|state: SdkResult<StateInit>| #[trigger]
        state_init_read(deserialize_cells_tree, construct_from, bag_with_old, state)
            && match state {
            Ok(state_init) => keyed_image_made(set, hash, state_init, new_key, replaced),
            Err(error) => replaced == Err::<ContractImage, SdkError>(error),
        };
    let state = state3->Ok_0;
    assert(state@ == with_old@.state_init@);
    assert(data_cell(state.data) == old_data@);
    assert(contents(old_data@).insert(0, bytes_cell(new_key)) =~= contents(new_data@));
    let made = choose|made: SdkResult<Arc<Cell>>| #[trigger]
        pubkey_inserted(set, state.data, new_key, made) && match made {
            Ok(data) => image_made(hash, StateInit { data: Some(data), ..state }, replaced),
            Err(error) => replaced == Err::<ContractImage, SdkError>(error),
        };
    let (from, value) = choose|from: Arc<Cell>, value: Cell|
        is_data_or_empty(state.data, from) && is_bytes_cell(value, new_key) && #[trigger]
        data_item_inserted(set, from, 0, value, made);
    lemma_bytes_cell(&value, new_key);
    lemma_canonical_insertion(set, contents, dictionary, from, 0, value, new_data@, made);
    let keyed = StateInit { data: Some(made->Ok_0), ..state };
    assert(keyed@ == with_new@.state_init@);
    lemma_alike(hash, keyed, with_new@);
}

/// Insertion into a dictionary succeeds where the contents that come of it are already those of a
/// canonical dictionary, and gives that dictionary.
proof fn lemma_canonical_insertion<S: Fn(usize, Arc<Cell>, u64, Cell) -> Result<Arc<Cell>, String>>(
    set: S,
    contents: spec_fn(CellView) -> Map<u64, CellView>,
    dictionary: spec_fn(Map<u64, CellView>) -> Option<CellView>,
    data: Arc<Cell>,
    key: u64,
    value: Cell,
    goal: CellView,
    result: SdkResult<Arc<Cell>>,
)
    requires
        is_canonical(set, contents, dictionary),
        is_canonical_cell(contents, dictionary, goal),
        contents(goal) == contents(data@).insert(key, value@),
        data_item_inserted(set, data, key, value, result),
    ensures
        result matches Ok(cell) && cell@ == goal,
{
    let root = choose|root: CellView|
        goal == #[trigger] dictionary_cell(root) && dictionary(contents(goal)) == Some(root);
    let made = choose|made: Result<Arc<Cell>, String>| #[trigger]
        call_ensures(set, (DATA_MAP_KEYLEN, data, key, value), made) && match made {
            Ok(root) => result matches Ok(cell) && is_dictionary_cell(*cell, root),
            Err(text) => result is Err,
        };
    assert(made matches Ok(made) && made@ == root);
    lemma_dictionary_cell(&*result->Ok_0, made->Ok_0);
}

/// States that look the same are hashed to the same identifier.
proof fn lemma_alike<H: Fn(&StateInit) -> SdkResult<[u8; 32]>>(
    hash: H,
    state: StateInit,
    image: ImageView,
)
    requires
        hashes_alike(hash),
        is_hash(hash, image),
        state@ == image.state_init@,
    ensures
        forall|error: SdkError|
            !#[trigger] call_ensures(hash, (&state,), Err::<[u8; 32], SdkError>(error)),
        forall|id: BitsView|
            #[trigger] is_hash(hash, (ImageView { state_init: state, id })) ==> id == image.id,
{
    let h = choose|h: [u8; 32]| #[trigger]
        call_ensures(hash, (&image.state_init,), Ok::<[u8; 32], SdkError>(h)) && image.id
            == whole_bytes(h@);
    assert forall|error: SdkError|
        !#[trigger] call_ensures(hash, (&state,), Err::<[u8; 32], SdkError>(error)) by {
        if call_ensures(hash, (&state,), Err::<[u8; 32], SdkError>(error)) {
            assert(alike(Ok::<[u8; 32], SdkError>(h), Err::<[u8; 32], SdkError>(error)));
        }
    }
    assert forall|id: BitsView| #[trigger]
        is_hash(hash, (ImageView { state_init: state, id })) implies id == image.id by {
        let g = choose|g: [u8; 32]| #[trigger]
            call_ensures(hash, (&state,), Ok::<[u8; 32], SdkError>(g)) && id == whole_bytes(g@);
        assert(alike(Ok::<[u8; 32], SdkError>(h), Ok::<[u8; 32], SdkError>(g)));
    }
}

/// The key of a name is that of an item with the name.
pub proof fn lemma_item_key<P>(items: Seq<DataItem<P>>, name: Seq<char>) -> (i: int)
    requires
        item_key(items, name) is Some,
    ensures
        0 <= i < items.len(),
        items[i].name@ == name,
        item_key(items, name) == Some(items[i].key),
    decreases items.len(),
{
    if items[0].name@ == name {
        0
    } else {
        1 + lemma_item_key(items.drop_first(), name)
    }
}

/// Different names have different keys.
proof fn lemma_names_no<P, V>(items: Seq<DataItem<P>>, tokens: Seq<Token<V>>, i: int)
    requires
        items_are_distinct(items),
        names_are_distinct(tokens),
        0 <= i < tokens.len(),
    ensures
        item_key(items, tokens[i].name@) matches Some(key) ==> names_no(
            items,
            tokens.skip(i + 1),
            key,
        ),
{
    if item_key(items, tokens[i].name@) is Some {
        let key = item_key(items, tokens[i].name@)->0;
        let rest = tokens.skip(i + 1);
        let a = lemma_item_key(items, tokens[i].name@);
        assert forall|j: int| 0 <= j < rest.len() implies item_key(
            items,
            (#[trigger] rest[j]).name@,
        ) != Some(key) by {
            assert(rest[j] == tokens[i + 1 + j]);
            assert(tokens[i].name@ != tokens[i + 1 + j].name@);
            if item_key(items, rest[j].name@) is Some {
                let b = lemma_item_key(items, rest[j].name@);
                assert(items[a].key != items[b].key);
            }
        }
    }
}

/// A name that an item bears has a key.
pub proof fn lemma_item_has_key<P>(items: Seq<DataItem<P>>, i: int)
    requires
        0 <= i < items.len(),
    ensures
        item_key(items, items[i].name@) is Some,
    decreases items.len(),
{
    if items[0].name@ != items[i].name@ {
        lemma_item_has_key(items.drop_first(), i - 1);
    }
}

/// A name has the same key among the same variables.
proof fn lemma_key_among<P: View>(
    items: Seq<DataItem<P>>,
    others: Seq<DataItem<P>>,
    name: Seq<char>,
)
    requires
        items_are_distinct(others),
        items_among(items, others),
        item_key(items, name) is Some,
    ensures
        item_key(others, name) == item_key(items, name),
{
    let i = lemma_item_key(items, name);
    let j = choose|j: int| 0 <= j < others.len() && item_alike(items[i], #[trigger] others[j]);
    lemma_item_has_key(others, j);
    let k = lemma_item_key(others, name);
    assert(j == k);
}

/// What values have been inserted into is a canonical dictionary.
proof fn lemma_all_canonical<
    P,
    V,
    K: Fn(&V) -> Result<Cell, String>,
    S: Fn(usize, Arc<Cell>, u64, Cell) -> Result<Arc<Cell>, String>,
>(
    pack: K,
    set: S,
    contents: spec_fn(CellView) -> Map<u64, CellView>,
    dictionary: spec_fn(Map<u64, CellView>) -> Option<CellView>,
    items: Seq<DataItem<P>>,
    tokens: Seq<Token<V>>,
    before: Arc<Cell>,
    after: Arc<Cell>,
)
    requires
        is_canonical(set, contents, dictionary),
        all_inserted(insertion(pack, set, items), tokens, before, Ok(after)),
        tokens.len() > 0,
    ensures
        is_canonical_cell(contents, dictionary, after@),
    decreases tokens.len(),
{
    let insert = insertion::<P, V, K, S>(pack, set, items);
    let next = choose|next: SdkResult<Arc<Cell>>| #[trigger]
        insert(tokens[0], before, next) && match next {
            Ok(next) => all_inserted(insert, tokens.drop_first(), next, Ok(after)),
            Err(error) => false,
        };
    let cell = next->Ok_0;
    if tokens.len() == 1 {
        reveal_with_fuel(all_inserted, 2);
        assert(token_inserted(pack, set, items, tokens[0], before, Ok(cell)));
        let value = lemma_token_inserted(pack, set, contents, items, tokens[0], before, cell);
    } else {
        lemma_all_canonical(
            pack,
            set,
            contents,
            dictionary,
            items,
            tokens.drop_first(),
            cell,
            after,
        );
    }
}

/// Inserting a value that is already set leaves a canonical dictionary as it is.
proof fn lemma_token_again<
    P: View,
    V: View,
    K: Fn(&V) -> Result<Cell, String>,
    S: Fn(usize, Arc<Cell>, u64, Cell) -> Result<Arc<Cell>, String>,
>(
    pack: K,
    set: S,
    contents: spec_fn(CellView) -> Map<u64, CellView>,
    dictionary: spec_fn(Map<u64, CellView>) -> Option<CellView>,
    known_items: Seq<DataItem<P>>,
    known: Token<V>,
    items: Seq<DataItem<P>>,
    token: Token<V>,
    data: Arc<Cell>,
    next: SdkResult<Arc<Cell>>,
)
    requires
        is_canonical(set, contents, dictionary),
        packs_alike(pack),
        is_canonical_cell(contents, dictionary, data@),
        is_set(pack, known_items, known, contents(data@)),
        token_alike(token, known),
        item_key(items, token.name@) == item_key(known_items, known.name@),
        token_inserted(pack, set, items, token, data, next),
    ensures
        next matches Ok(cell) && cell@ == data@,
{
    let key = item_key(items, token.name@)->0;
    let known_value = choose|value: Cell| #[trigger]
        call_ensures(pack, (&known.value,), Ok::<Cell, String>(value)) && contents(data@)[key]
            == value@;
    let packed = choose|packed: Result<Cell, String>| #[trigger]
        call_ensures(pack, (&token.value,), packed) && match packed {
            Ok(value) => match item_key(items, token.name@) {
                Some(key) => data_item_inserted(set, data, key, value, next),
                None => false,
            },
            Err(text) => next == Err::<Arc<Cell>, SdkError>(SdkError::AbiError(text)),
        };
    assert(packed matches Ok(value) && value@ == known_value@);
    let value = packed->Ok_0;
    assert(contents(data@).insert(key, value@) =~= contents(data@));
    lemma_canonical_insertion(set, contents, dictionary, data, key, value, data@, next);
}

/// Inserting values that are already set leaves a canonical dictionary as it is.
proof fn lemma_inserted_again<
    P: View,
    V: View,
    K: Fn(&V) -> Result<Cell, String>,
    S: Fn(usize, Arc<Cell>, u64, Cell) -> Result<Arc<Cell>, String>,
>(
    pack: K,
    set: S,
    contents: spec_fn(CellView) -> Map<u64, CellView>,
    dictionary: spec_fn(Map<u64, CellView>) -> Option<CellView>,
    known_items: Seq<DataItem<P>>,
    known: Seq<Token<V>>,
    items: Seq<DataItem<P>>,
    tokens: Seq<Token<V>>,
    data: Arc<Cell>,
    result: SdkResult<Arc<Cell>>,
)
    requires
        is_canonical(set, contents, dictionary),
        packs_alike(pack),
        is_canonical_cell(contents, dictionary, data@),
        items_are_distinct(items),
        items_among(known_items, items),
        tokens_among(tokens, known),
        forall|i: int|
            0 <= i < known.len() ==> is_set(
                pack,
                known_items,
                #[trigger] known[i],
                contents(data@),
            ),
        all_inserted(insertion(pack, set, items), tokens, data, result),
    ensures
        result matches Ok(after) && after@ == data@,
    decreases tokens.len(),
{
    let insert = insertion::<P, V, K, S>(pack, set, items);
    if tokens.len() > 0 {
        let token = tokens[0];
        let next = choose|next: SdkResult<Arc<Cell>>| #[trigger]
            insert(token, data, next) && match next {
                Ok(next) => all_inserted(insert, tokens.drop_first(), next, result),
                Err(error) => result == Err::<Arc<Cell>, SdkError>(error),
            };
        assert(token_inserted(pack, set, items, token, data, next));
        let j = choose|j: int| 0 <= j < known.len() && token_alike(tokens[0], #[trigger] known[j]);
        assert(is_set(pack, known_items, known[j], contents(data@)));
        lemma_key_among(known_items, items, known[j].name@);
        lemma_token_again(
            pack,
            set,
            contents,
            dictionary,
            known_items,
            known[j],
            items,
            token,
            data,
            next,
        );
        let cell = next->Ok_0;
        let rest = tokens.drop_first();
        assert forall|i: int| 0 <= i < rest.len() implies exists|j: int|
            0 <= j < known.len() && token_alike(#[trigger] rest[i], #[trigger] known[j]) by {
            assert(rest[i] == tokens[i + 1]);
            let j = choose|j: int|
                0 <= j < known.len() && token_alike(tokens[i + 1], #[trigger] known[j]);
            assert(token_alike(rest[i], known[j]));
        }
        lemma_inserted_again(
            pack,
            set,
            contents,
            dictionary,
            known_items,
            known,
            items,
            rest,
            cell,
            result,
        );
    }
}

/// The same values lead from the data that they led to, to the same data again.
proof fn lemma_found_again<
    P: View,
    V: View,
    K: Fn(&V) -> Result<Cell, String>,
    S: Fn(usize, Arc<Cell>, u64, Cell) -> Result<Arc<Cell>, String>,
>(
    pack: K,
    set: S,
    contents: spec_fn(CellView) -> Map<u64, CellView>,
    dictionary: spec_fn(Map<u64, CellView>) -> Option<CellView>,
    items1: Seq<DataItem<P>>,
    items2: Seq<DataItem<P>>,
    tokens1: Result<Vec<Token<V>>, String>,
    tokens2: Result<Vec<Token<V>>, String>,
    before: Option<Arc<Cell>>,
    between: Arc<Cell>,
    result: SdkResult<Arc<Cell>>,
)
    requires
        is_canonical(set, contents, dictionary),
        packs_alike(pack),
        items_are_distinct(items1),
        items_are_distinct(items2),
        items_among(items1, items2),
        tokens1 matches Ok(known) ==> names_are_distinct(known@) && (tokens2 matches Ok(tokens)
            && tokens_among(tokens@, known@)),
        found_inserted(pack, set, items1, tokens1, before, Ok(between)),
        found_inserted(pack, set, items2, tokens2, Some(between), result),
    ensures
        result matches Ok(after) && after@ == between@,
{
    let known = tokens1->Ok_0@;
    let tokens = tokens2->Ok_0@;
    let from = choose|from: Arc<Cell>| #[trigger]
        all_inserted(insertion(pack, set, items1), known, from, Ok(between)) && is_data_or_empty(
            before,
            from,
        );
    if tokens.len() > 0 {
        assert(token_alike(tokens[0], known[choose|j: int|
            0 <= j < known.len() && token_alike(tokens[0], #[trigger] known[j])]));
        assert forall|i: int| 0 <= i < known.len() implies is_set(
            pack,
            items1,
            #[trigger] known[i],
            contents(between@),
        ) by {
            lemma_names_no(items1, known, i);
            law_variables_are_set(pack, set, contents, items1, known, from, between, i);
        }
        lemma_all_canonical(pack, set, contents, dictionary, items1, known, from, between);
        lemma_inserted_again(
            pack,
            set,
            contents,
            dictionary,
            items1,
            known,
            items2,
            tokens,
            between,
            result,
        );
    }
}

/// A second update with the same text and ABI changes nothing, where the functions that it goes
/// through are deterministic, dictionaries are canonical, and names and keys of the variables are
/// distinct.
pub proof fn law_second_update_changes_nothing<
    P: View,
    V: View,
    L: Fn(&str) -> Result<Vec<DataItem<P>>, String>,
    T: Fn(&Vec<DataItem<P>>, &serde_json::Value) -> Result<Vec<Token<V>>, String>,
    K: Fn(&V) -> Result<Cell, String>,
    S: Fn(usize, Arc<Cell>, u64, Cell) -> Result<Arc<Cell>, String>,
    H: Fn(&StateInit) -> SdkResult<[u8; 32]>,
>(
    load: L,
    tokenize_all: T,
    pack: K,
    set: S,
    hash: H,
    contents: spec_fn(CellView) -> Map<u64, CellView>,
    dictionary: spec_fn(Map<u64, CellView>) -> Option<CellView>,
    json1: &str,
    json2: &str,
    abi1: &str,
    abi2: &str,
    before: ImageView,
    between: ImageView,
    after: ImageView,
    result: SdkResult<()>,
)
    requires
        loads_alike(load),
        tokenizes_alike(tokenize_all),
        packs_alike(pack),
        is_canonical(set, contents, dictionary),
        hashes_alike(hash),
        json1@ == json2@,
        abi1@ == abi2@,
        update_made(
            load,
            tokenize_all,
            pack,
            set,
            hash,
            json1,
            abi1,
            before,
            between,
            Ok(()),
        ),
        update_made(
            load,
            tokenize_all,
            pack,
            set,
            hash,
            json2,
            abi2,
            between,
            after,
            result,
        ),
    ensures
        result is Ok,
        after.state_init@ == between.state_init@,
        after.id == between.id,
{
    let first = choose|data: SdkResult<Arc<Cell>>| #[trigger]
        data_updated(
            load,
            tokenize_all,
            pack,
            set,
            json1,
            abi1,
            before.state_init.data,
            data,
        ) && image_updated(hash, data, before, between, Ok(()));
    let second = choose|data: SdkResult<Arc<Cell>>| #[trigger]
        data_updated(
            load,
            tokenize_all,
            pack,
            set,
            json2,
            abi2,
            between.state_init.data,
            data,
        ) && image_updated(hash, data, between, after, result);
    let loaded1 = choose|items: Result<Vec<DataItem<P>>, String>| #[trigger]
        call_ensures(load, (abi1,), items) && match items {
            Ok(items) => json_inserted(
                tokenize_all,
                pack,
                set,
                items,
                json1@,
                before.state_init.data,
                first,
            ),
            Err(text) => first == Err::<Arc<Cell>, SdkError>(SdkError::AbiError(text)),
        };
    let loaded2 = choose|items: Result<Vec<DataItem<P>>, String>| #[trigger]
        call_ensures(load, (abi2,), items) && match items {
            Ok(items) => json_inserted(
                tokenize_all,
                pack,
                set,
                items,
                json2@,
                between.state_init.data,
                second,
            ),
            Err(text) => second == Err::<Arc<Cell>, SdkError>(SdkError::AbiError(text)),
        };
    let items1 = loaded1->Ok_0;
    let items2 = loaded2->Ok_0;
    assert(loaded1 == Ok::<Vec<DataItem<P>>, String>(items1));
    assert(loaded2 == Ok::<Vec<DataItem<P>>, String>(items2));
    let value = json_value(json1@)->Ok_0;
    let tokens1 = choose|tokens: Result<Vec<Token<V>>, String>| #[trigger]
        call_ensures(tokenize_all, (&items1, &value), tokens) && found_inserted(
            pack,
            set,
            items1@,
            tokens,
            before.state_init.data,
            first,
        );
    let tokens2 = choose|tokens: Result<Vec<Token<V>>, String>| #[trigger]
        call_ensures(tokenize_all, (&items2, &value), tokens) && found_inserted(
            pack,
            set,
            items2@,
            tokens,
            between.state_init.data,
            second,
        );
    assert(tokens1 == Ok::<Vec<Token<V>>, String>(tokens1->Ok_0));
    lemma_found_again(
        pack,
        set,
        contents,
        dictionary,
        items1@,
        items2@,
        tokens1,
        tokens2,
        before.state_init.data,
        first->Ok_0,
        second,
    );
    assert(after.state_init@ == between.state_init@);
    lemma_alike(hash, after.state_init, between);
}

} // verus!
