use std::cell::RefCell;
use std::sync::Arc;
use ed25519_dalek::PublicKey;
use ton_sdk::bits::BitString;
use ton_sdk::cell::{Cell, SliceData, StateInit};
use ton_sdk::error::{SdkError, SdkResult};
use ton_sdk::image::{ContractImage, DataItem, Token};

/// A bag of cells for these tests: one root for each byte, with the byte as its bits.
fn roots(bag: &[u8]) -> SdkResult<Vec<Arc<Cell>>> {
    if bag.is_empty() {
        return Err(SdkError::Other("empty bag".to_owned()));
    }
    Ok(bag.iter().map(|byte| Arc::new(Cell::with_bytes(vec![*byte]))).collect())
}

/// A hash for these tests: the first bytes of code and data, and how many parts there are.
fn hash(state: &StateInit) -> SdkResult<[u8; 32]> {
    let mut h = [0u8; 32];
    for (i, part) in [&state.code, &state.data, &state.library].iter().enumerate() {
        if let Some(cell) = part {
            h[i] = cell.bits.bytes().first().copied().unwrap_or(0);
            h[31] += 1;
        }
    }
    Ok(h)
}

fn no_hash(_: &StateInit) -> SdkResult<[u8; 32]> {
    Err(SdkError::Other("no hash".to_owned()))
}

fn byte(cell: &Option<Arc<Cell>>) -> Option<u8> {
    cell.as_ref().map(|cell| cell.bits.bytes()[0])
}

fn complaint<T>(result: SdkResult<T>) -> String {
    match result {
        Err(SdkError::InvalidData(text)) => text,
        _ => panic!("no complaint about data"),
    }
}

#[test]
fn makes_image_of_its_parts() {
    let image = ContractImage::new(&[1], Some(&[2][..]), Some(&[3][..]), roots, hash).unwrap();
    let mut id = [0u8; 32];
    id[0] = 1;
    id[1] = 2;
    id[2] = 3;
    id[31] = 3;
    assert_eq!(image.account_id().bytes(), &id);
    assert!(image.account_id().has_256_bits());
    let state = image.state_init();
    assert_eq!(byte(&state.code), Some(1));
    assert_eq!(byte(&state.data), Some(2));
    assert_eq!(byte(&state.library), Some(3));
    assert!(state.split_depth.is_none() && state.special.is_none());
}

#[test]
fn makes_image_of_code_alone() {
    let image = ContractImage::new(&[9], None, None, roots, hash).unwrap();
    assert_eq!(image.account_id().bytes()[0], 9);
    let state = image.state_init();
    assert!(state.data.is_none() && state.library.is_none());
}

#[test]
fn every_part_has_a_single_root() {
    let two = &[1, 2][..];
    assert_eq!(
        complaint(ContractImage::new(two, Some(two), Some(two), roots, hash)),
        "Invalid code's bag of cells"
    );
    assert_eq!(
        complaint(ContractImage::new(&[1], Some(two), Some(two), roots, hash)),
        "Invalid data's bag of cells"
    );
    assert_eq!(
        complaint(ContractImage::new(&[1], None, Some(two), roots, hash)),
        "Invalid library's bag of cells"
    );
}

#[test]
fn errors_of_reading_and_hashing_are_handed_on() {
    let result = ContractImage::new(&[1], Some(&[][..]), Some(&[1, 2][..]), roots, hash);
    assert!(matches!(result, Err(SdkError::Other(text)) if text == "empty bag"));
    let result = ContractImage::new(&[1], None, None, roots, no_hash);
    assert!(matches!(result, Err(SdkError::Other(text)) if text == "no hash"));
}

/// A dictionary for these tests: the new root has the old data and the value as its references
/// and the key as its bits.
fn set(bit_len: usize, data: Arc<Cell>, key: u64, value: Cell) -> Result<Arc<Cell>, String> {
    assert_eq!(bit_len, 64);
    if key == 666 {
        return Err("bad dictionary".to_owned());
    }
    let bits = BitString::from_bytes(key.to_be_bytes().to_vec());
    Ok(Arc::new(Cell { bits, references: vec![data, Arc::new(value)] }))
}

/// The entries of such a dictionary, the latest first.
fn entries(data: &Arc<Cell>) -> Vec<(u64, Vec<u8>)> {
    let mut found = vec![];
    let mut cell = data.clone();
    while cell.references.len() == 1 {
        assert_eq!(cell.bits.bytes(), &[0x80]);
        assert_eq!(cell.bits.unused(), 7);
        let root = cell.references[0].clone();
        let mut key = [0u8; 8];
        key.copy_from_slice(root.bits.bytes());
        found.push((u64::from_be_bytes(key), root.references[1].bits.bytes().to_vec()));
        cell = root.references[0].clone();
    }
    found
}

fn state_of(slice: SliceData) -> SdkResult<StateInit> {
    assert_eq!((slice.bit_start, slice.reference_start), (0, 0));
    let mut state = StateInit::empty();
    state.split_depth = Some(5);
    if slice.cell.bits.bytes()[0] != 0 {
        state.data = Some(slice.cell);
    }
    Ok(state)
}

fn public_key() -> PublicKey {
    let mut bytes = [0x66u8; 32];
    bytes[0] = 0x58;
    PublicKey::from_bytes(&bytes).unwrap()
}

#[test]
fn puts_public_key_under_zero() {
    let image = ContractImage::from_state_init_and_key(
        &[7], &public_key(), roots, state_of, set, hash,
    )
    .unwrap();
    assert_eq!(image.account_id().bytes()[1], 0x80);
    let state = image.state_init();
    assert_eq!(state.split_depth, Some(5));
    let data = state.data.unwrap();
    assert_eq!(entries(&data), vec![(0, public_key().as_bytes().to_vec())]);
    // The dictionary was that of the state.
    assert_eq!(data.references[0].references[0].bits.bytes(), &[7]);
}

#[test]
fn puts_public_key_into_no_data() {
    let image = ContractImage::from_state_init_and_key_bytes(
        &[0], &[3; 32], roots, state_of, set, hash,
    )
    .unwrap();
    let data = image.state_init().data.unwrap();
    assert_eq!(entries(&data), vec![(0, vec![3; 32])]);
    assert_eq!(data.references[0].references[0].bits.bytes(), &[0u8; 0]);
}

#[test]
fn state_has_a_single_root() {
    let result = ContractImage::from_state_init_and_key(
        &[7, 8], &public_key(), roots, state_of, set, hash,
    );
    assert_eq!(complaint(result), "Invalid state init's bag of cells");
    let unreadable = |_: SliceData| -> SdkResult<StateInit> {
        Err(SdkError::Other("no state".to_owned()))
    };
    let result = ContractImage::from_state_init_and_key_bytes(
        &[7], &[0; 32], roots, unreadable, set, hash,
    );
    assert!(matches!(result, Err(SdkError::Other(text)) if text == "no state"));
    let refused = |_: usize, _: Arc<Cell>, _: u64, _: Cell| -> Result<Arc<Cell>, String> {
        Err("full".to_owned())
    };
    let result = ContractImage::from_state_init_and_key_bytes(
        &[7], &[0; 32], roots, state_of, refused, hash,
    );
    match result {
        Err(SdkError::InternalError(text)) => {
            assert_eq!(text, "failed to update data item in data map: full")
        }
        _ => panic!("accepted"),
    }
}

/// An ABI for these tests: names and keys, as in `a=1,b=2`.
fn load(abi: &str) -> Result<Vec<DataItem<()>>, String> {
    if abi.is_empty() {
        return Err("no ABI".to_owned());
    }
    Ok(abi
        .split(',')
        .map(|item| {
            let parts: Vec<&str> = item.split('=').collect();
            DataItem { name: parts[0].to_owned(), key: parts[1].parse().unwrap(), value: () }
        })
        .collect())
}

/// Finds values in a JSON array of pairs of name and number.
fn tokenize(_: &Vec<DataItem<()>>, value: &serde_json::Value) -> Result<Vec<Token<u64>>, String> {
    let pairs = value.as_array().ok_or("no array".to_owned())?;
    Ok(pairs
        .iter()
        .map(|pair| Token {
            name: pair[0].as_str().unwrap().to_owned(),
            value: pair[1].as_u64().unwrap(),
        })
        .collect())
}

fn pack(value: &u64) -> Result<Cell, String> {
    if *value > 255 {
        return Err("too large".to_owned());
    }
    Ok(Cell::with_bytes(vec![*value as u8]))
}

fn update(image: &mut ContractImage, json: &str, abi: &str) -> SdkResult<()> {
    image.update_data(json, abi, load, tokenize, pack, set, hash)
}

#[test]
fn update_sets_variables_in_order() {
    let mut image = ContractImage::new(&[1], Some(&[2][..]), None, roots, hash).unwrap();
    update(&mut image, "[[\"b\", 20], [\"a\", 10], [\"b\", 30]]", "a=100,b=200,c=300").unwrap();
    assert_eq!(image.account_id().bytes()[1], 0x80);
    let state = image.state_init();
    assert_eq!(byte(&state.code), Some(1));
    let data = state.data.unwrap();
    assert_eq!(entries(&data), vec![(200, vec![30]), (100, vec![10]), (200, vec![20])]);
}

#[test]
fn update_starts_from_empty_data() {
    let mut image = ContractImage::new(&[1], None, None, roots, hash).unwrap();
    update(&mut image, "[]", "a=1").unwrap();
    assert_eq!(image.account_id().bytes()[31], 2);
    let data = image.state_init().data.unwrap();
    assert_eq!(data.bits.bytes(), &[0u8; 0]);
    assert!(data.references.is_empty());
}

#[test]
fn refused_update_keeps_image() {
    let mut image = ContractImage::new(&[1], Some(&[2][..]), None, roots, hash).unwrap();
    let id = image.account_id();
    assert!(matches!(update(&mut image, "[]", ""), Err(SdkError::AbiError(t)) if t == "no ABI"));
    assert!(matches!(update(&mut image, "[", "a=1"), Err(SdkError::SerdeJson(_))));
    assert!(matches!(update(&mut image, "{}", "a=1"), Err(SdkError::AbiError(t)) if t == "no array"));
    assert!(matches!(
        update(&mut image, "[[\"a\", 1], [\"a\", 300]]", "a=1"),
        Err(SdkError::AbiError(t)) if t == "too large"
    ));
    assert!(matches!(
        update(&mut image, "[[\"a\", 1], [\"z\", 2]]", "a=1"),
        Err(SdkError::InvalidArg(t)) if t == "data item z not found in contract ABI"
    ));
    assert!(matches!(
        update(&mut image, "[[\"a\", 1], [\"b\", 2]]", "a=1,b=666"),
        Err(SdkError::InternalError(t)) if t == "failed to update data item in data map: bad dictionary"
    ));
    // A value that cannot be packed is complained about before its name.
    assert!(matches!(
        update(&mut image, "[[\"z\", 300]]", "a=1"),
        Err(SdkError::AbiError(_))
    ));
    assert_eq!(image.account_id().bytes(), id.bytes());
    assert_eq!(byte(&image.state_init().data), Some(2));
}

#[test]
fn update_without_hash_has_new_data_and_old_id() {
    let mut image = ContractImage::new(&[1], Some(&[2][..]), None, roots, hash).unwrap();
    let id = image.account_id();
    let result =
        image.update_data("[[\"a\", 5]]", "a=1", load, tokenize, pack, set, no_hash);
    assert!(matches!(result, Err(SdkError::Other(_))));
    assert_eq!(image.account_id().bytes(), id.bytes());
    assert_eq!(entries(&image.state_init().data.unwrap()), vec![(1, vec![5])]);
}

#[test]
fn nothing_is_inserted_after_a_failure() {
    let calls = RefCell::new(vec![]);
    let counting = |n: usize, data: Arc<Cell>, key: u64, value: Cell| -> Result<Arc<Cell>, String> {
        calls.borrow_mut().push(key);
        set(n, data, key, value)
    };
    let mut image = ContractImage::new(&[1], None, None, roots, hash).unwrap();
    let json = "[[\"a\", 1], [\"z\", 1], [\"b\", 1]]";
    assert!(image.update_data(json, "a=1,b=2", load, tokenize, pack, counting, hash).is_err());
    assert_eq!(*calls.borrow(), vec![1]);
}

#[test]
fn updates_by_variables_and_value() {
    let items = load("a=100,b=200").unwrap();
    let value = serde_json::from_str("[[\"b\", 20], [\"a\", 10]]").unwrap();
    let mut image = ContractImage::new(&[1], None, None, roots, hash).unwrap();
    image.update_data_items(&items, &value, tokenize, pack, set, hash).unwrap();
    assert_eq!(
        entries(&image.state_init().data.unwrap()),
        vec![(100, vec![10]), (200, vec![20])]
    );
}

/// The entries of a sorted dictionary; data without a reference hold none.
fn sorted_entries(data: &Cell) -> Vec<(u64, Arc<Cell>)> {
    if data.references.is_empty() {
        return vec![];
    }
    assert_eq!(data.bits.bytes(), &[0x80]);
    data.references[0]
        .references
        .iter()
        .map(|entry| {
            let mut key = [0u8; 8];
            key.copy_from_slice(entry.bits.bytes());
            (u64::from_be_bytes(key), entry.references[0].clone())
        })
        .collect()
}

/// A canonical dictionary: its root refers to the entries, sorted by key.
fn sorted_set(_: usize, data: Arc<Cell>, key: u64, value: Cell) -> Result<Arc<Cell>, String> {
    let mut entries = sorted_entries(&data);
    entries.retain(|entry| entry.0 != key);
    entries.push((key, Arc::new(value)));
    entries.sort_by_key(|entry| entry.0);
    let references = entries
        .into_iter()
        .map(|(key, value)| {
            let bits = BitString::from_bytes(key.to_be_bytes().to_vec());
            Arc::new(Cell { bits, references: vec![value] })
        })
        .collect();
    Ok(Arc::new(Cell { bits: BitString::empty(), references }))
}

/// A hash that depends on every variable.
fn data_hash(state: &StateInit) -> SdkResult<[u8; 32]> {
    let mut h = [0u8; 32];
    if let Some(data) = &state.data {
        for (key, value) in sorted_entries(data) {
            h[(key % 32) as usize] = value.bits.bytes()[0].wrapping_add(1);
        }
    }
    Ok(h)
}

fn sorted_update(image: &mut ContractImage, json: &str) -> SdkResult<()> {
    image.update_data(json, "a=1,b=2", load, tokenize, pack, sorted_set, data_hash)
}

fn shown(image: ContractImage) -> String {
    format!("{:?} {:?}", image.account_id(), image.state_init())
}

#[test]
fn second_update_changes_nothing() {
    let json = "[[\"b\", 20], [\"a\", 10]]";
    let mut once = ContractImage::new(&[1], None, None, roots, data_hash).unwrap();
    let mut twice = ContractImage::new(&[1], None, None, roots, data_hash).unwrap();
    sorted_update(&mut once, json).unwrap();
    sorted_update(&mut twice, json).unwrap();
    sorted_update(&mut twice, json).unwrap();
    assert_eq!(shown(once), shown(twice));
}

#[test]
fn insertions_commute_and_the_last_one_wins() {
    let make = |json: &str| {
        let mut image = ContractImage::new(&[1], None, None, roots, data_hash).unwrap();
        sorted_update(&mut image, json).unwrap();
        shown(image)
    };
    let both = make("[[\"a\", 10], [\"b\", 20]]");
    assert_eq!(both, make("[[\"b\", 20], [\"a\", 10]]"));
    assert_eq!(both, make("[[\"a\", 5], [\"b\", 20], [\"a\", 10]]"));
    assert_ne!(both, make("[[\"a\", 5], [\"b\", 20]]"));
}

#[test]
fn new_key_replaces_the_old_one() {
    let with_key = |data: Option<Arc<Cell>>, key: u8| {
        let construct = move |_: SliceData| -> SdkResult<StateInit> {
            let mut state = StateInit::empty();
            state.data = data.clone();
            Ok(state)
        };
        ContractImage::from_state_init_and_key_bytes(
            &[1], &[key; 32], roots, construct, sorted_set, data_hash,
        )
        .unwrap()
    };
    let first = sorted_set(64, Arc::new(Cell::empty()), 7, Cell::with_bytes(vec![70])).unwrap();
    let data = Some(Arc::new(Cell::with_dictionary(first)));
    let old = with_key(data.clone(), 3);
    let new = with_key(data, 4);
    assert_ne!(old.account_id().bytes(), new.account_id().bytes());
    let old_data = old.state_init().data;
    let entries = sorted_entries(old_data.as_ref().unwrap());
    assert_eq!(entries.len(), 2);
    assert_eq!((entries[0].0, entries[0].1.bits.bytes()), (0, &[3u8; 32][..]));
    assert_eq!((entries[1].0, entries[1].1.bits.bytes()), (7, &[70u8][..]));
    let replaced = with_key(old_data, 4);
    assert_eq!(shown(replaced), shown(new));
    // Without data the key is alone.
    let alone = with_key(None, 5).state_init().data.unwrap();
    assert_eq!(sorted_entries(&alone).len(), 1);
}

#[test]
fn makes_image_of_roots() {
    let code = ContractImage::code_root(&[1], &roots).unwrap();
    let data = ContractImage::data_root(Some(&[2][..]), &roots).unwrap();
    let library = ContractImage::library_root(None, &roots).unwrap();
    assert!(library.is_none());
    let image = ContractImage::from_roots(code, data, library, hash).unwrap();
    let whole = ContractImage::new(&[1], Some(&[2][..]), None, roots, hash).unwrap();
    assert_eq!(shown(image), shown(whole));
    let two = &[1, 2][..];
    assert_eq!(
        complaint(ContractImage::code_root(two, &roots)),
        "Invalid code's bag of cells"
    );
    assert_eq!(
        complaint(ContractImage::data_root(Some(two), &roots)),
        "Invalid data's bag of cells"
    );
    assert_eq!(
        complaint(ContractImage::library_root(Some(two), &roots)),
        "Invalid library's bag of cells"
    );
}
