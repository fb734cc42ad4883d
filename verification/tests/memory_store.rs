use todo_api::ident::TodoId;
use todo_api::item::{TodoItem, TodoItemInput};
use todo_api::memory::MemoryStore;
use todo_api::store::{StoreCall, StoreError, StoreReply};

const ABSENT: &str = "507f1f77bcf86cd799439011";

fn input(title: &str, completed: bool) -> TodoItemInput {
    TodoItemInput { title: title.to_string(), completed }
}

fn saved(id: TodoId, title: &str, completed: bool) -> TodoItem {
    TodoItem { id: Some(id), title: title.to_string(), completed }
}

fn insert(store: &mut MemoryStore, title: &str, completed: bool) -> TodoId {
    store.insert(title.to_string(), completed).unwrap()
}

#[test]
fn new_store_is_empty() {
    let store = MemoryStore::new();
    assert_eq!(store.list(), vec![]);
}

#[test]
fn insert_names_items_by_serial_number() {
    let mut store = MemoryStore::new();
    let first = insert(&mut store, "a", false);
    let second = insert(&mut store, "b", true);
    assert_eq!(first.to_hex(), "000000000000000000000000");
    assert_eq!(second.to_hex(), "000000000000000000000001");
    assert_eq!(first.bytes(), [0u8; 12]);
    assert_eq!(second.bytes(), [0, 0, 0, 0, 0, 0, 0, 0, 0, 0, 0, 1]);
}

#[test]
fn serial_numbers_carry_into_the_higher_bytes() {
    let mut store = MemoryStore::new();
    let mut last = None;
    for _ in 0..=0x1_02 {
        last = Some(insert(&mut store, "", false));
    }
    let last = last.unwrap();
    assert_eq!(last.bytes(), [0, 0, 0, 0, 0, 0, 0, 0, 0, 0, 1, 2]);
    assert_eq!(last.to_hex(), "000000000000000000000102");
}

#[test]
fn serial_numbers_fill_the_last_eight_bytes_highest_first() {
    let mut store = MemoryStore::starting_at(0x0102_0304_0506_0708);
    let id = insert(&mut store, "a", false);
    assert_eq!(id.bytes(), [0, 0, 0, 0, 1, 2, 3, 4, 5, 6, 7, 8]);
    assert_eq!(id.to_hex(), "000000000102030405060708");
    let id = insert(&mut store, "b", false);
    assert_eq!(id.to_hex(), "000000000102030405060709");
    let mut store = MemoryStore::starting_at(0xfedc_ba98_7654_32ff);
    let id = insert(&mut store, "c", false);
    assert_eq!(id.to_hex(), "00000000fedcba98765432ff");
    let id = insert(&mut store, "d", false);
    assert_eq!(id.to_hex(), "00000000fedcba9876543300");
}

#[test]
fn starting_at_gives_an_empty_store() {
    assert_eq!(MemoryStore::starting_at(0).list(), vec![]);
    assert_eq!(MemoryStore::starting_at(77).list(), vec![]);
    assert_eq!(MemoryStore::starting_at(u64::MAX).list(), vec![]);
}

#[test]
fn last_name_is_given_and_then_none() {
    let mut store = MemoryStore::starting_at(u64::MAX - 1);
    let id = insert(&mut store, "last", true);
    assert_eq!(id.to_hex(), "00000000fffffffffffffffe");
    assert_eq!(
        store.insert("one too many".to_string(), false),
        Err(StoreError::Unavailable)
    );
    assert_eq!(
        store.insert("and again".to_string(), false),
        Err(StoreError::Unavailable)
    );
    assert_eq!(store.list(), vec![saved(id, "last", true)]);
    assert_eq!(
        store.update_by_id(&id.to_hex(), "still there".to_string(), false),
        Ok(true)
    );
    assert_eq!(store.list(), vec![saved(id, "still there", false)]);
    assert_eq!(store.delete_by_id(&id.to_hex()), Ok(true));
    assert_eq!(store.list(), vec![]);
    assert_eq!(
        store.insert("no name comes back".to_string(), false),
        Err(StoreError::Unavailable)
    );
}

#[test]
fn insert_appends_the_item() {
    let mut store = MemoryStore::new();
    let a = insert(&mut store, "a", false);
    let b = insert(&mut store, "b", true);
    assert_eq!(store.list(), vec![saved(a, "a", false), saved(b, "b", true)]);
}

#[test]
fn insert_accepts_equal_fields_twice() {
    let mut store = MemoryStore::new();
    let a = insert(&mut store, "same", false);
    let b = insert(&mut store, "same", false);
    assert_ne!(a, b);
    assert_eq!(store.list(), vec![saved(a, "same", false), saved(b, "same", false)]);
}

#[test]
fn update_by_id_overwrites_the_named_item_only() {
    let mut store = MemoryStore::new();
    let a = insert(&mut store, "a", false);
    let b = insert(&mut store, "b", false);
    let c = insert(&mut store, "c", false);
    assert_eq!(store.update_by_id(&b.to_hex(), "x".to_string(), true), Ok(true));
    assert_eq!(
        store.list(),
        vec![saved(a, "a", false), saved(b, "x", true), saved(c, "c", false)]
    );
}

#[test]
fn update_by_id_takes_upper_case_text() {
    let mut store = MemoryStore::starting_at(0xabcdef);
    let a = insert(&mut store, "a", false);
    assert_eq!(
        store.update_by_id("000000000000000000ABCDEF", "x".to_string(), true),
        Ok(true)
    );
    assert_eq!(store.list(), vec![saved(a, "x", true)]);
}

#[test]
fn update_by_id_of_an_absent_item_changes_nothing() {
    let mut store = MemoryStore::new();
    let a = insert(&mut store, "a", false);
    assert_eq!(store.update_by_id(ABSENT, "x".to_string(), true), Ok(false));
    assert_eq!(store.list(), vec![saved(a, "a", false)]);
}

#[test]
fn update_by_id_refuses_a_malformed_identifier() {
    let mut store = MemoryStore::new();
    let a = insert(&mut store, "a", false);
    for malformed in ["", "0", "00000000000000000000000", "00000000000000000000000g"] {
        assert_eq!(
            store.update_by_id(malformed, "x".to_string(), true),
            Err(StoreError::MalformedId)
        );
    }
    assert_eq!(store.list(), vec![saved(a, "a", false)]);
}

#[test]
fn delete_by_id_removes_the_named_item_only() {
    let mut store = MemoryStore::new();
    let a = insert(&mut store, "a", false);
    let b = insert(&mut store, "b", true);
    let c = insert(&mut store, "c", false);
    assert_eq!(store.delete_by_id(&b.to_hex()), Ok(true));
    assert_eq!(store.list(), vec![saved(a, "a", false), saved(c, "c", false)]);
    assert_eq!(store.delete_by_id(&a.to_hex()), Ok(true));
    assert_eq!(store.list(), vec![saved(c, "c", false)]);
    assert_eq!(store.delete_by_id(&c.to_hex()), Ok(true));
    assert_eq!(store.list(), vec![]);
}

#[test]
fn delete_by_id_of_an_absent_item_changes_nothing() {
    let mut store = MemoryStore::new();
    let a = insert(&mut store, "a", false);
    assert_eq!(store.delete_by_id(ABSENT), Ok(false));
    assert_eq!(store.list(), vec![saved(a, "a", false)]);
    assert_eq!(MemoryStore::new().delete_by_id(&a.to_hex()), Ok(false));
}

#[test]
fn delete_by_id_refuses_a_malformed_identifier() {
    let mut store = MemoryStore::new();
    let a = insert(&mut store, "a", false);
    for malformed in ["", "0", "0000000000000000000000000", "0000000000000000000000-0"] {
        assert_eq!(store.delete_by_id(malformed), Err(StoreError::MalformedId));
    }
    assert_eq!(store.list(), vec![saved(a, "a", false)]);
}

#[test]
fn names_are_not_given_twice_after_a_removal() {
    let mut store = MemoryStore::new();
    let a = insert(&mut store, "a", false);
    assert_eq!(store.delete_by_id(&a.to_hex()), Ok(true));
    let b = insert(&mut store, "b", false);
    assert_ne!(a, b);
    assert_eq!(b.to_hex(), "000000000000000000000001");
    assert_eq!(store.delete_by_id(&a.to_hex()), Ok(false));
    assert_eq!(store.list(), vec![saved(b, "b", false)]);
}

#[test]
fn execute_replies_to_each_call() {
    let mut store = MemoryStore::new();
    assert_eq!(store.execute(&StoreCall::List), StoreReply::Listed(vec![]));
    let reply = store.execute(&StoreCall::Insert { fields: input("a", false) });
    let id = TodoId::from_bytes([0u8; 12]);
    assert_eq!(reply, StoreReply::Inserted(Some(id)));
    assert_eq!(
        store.execute(&StoreCall::List),
        StoreReply::Listed(vec![saved(id, "a", false)])
    );
    assert_eq!(
        store.execute(&StoreCall::Update { id, fields: input("b", true) }),
        StoreReply::Updated(1)
    );
    assert_eq!(
        store.execute(&StoreCall::Update {
            id: TodoId::from_bytes([1u8; 12]),
            fields: input("c", true)
        }),
        StoreReply::Updated(0)
    );
    assert_eq!(
        store.execute(&StoreCall::List),
        StoreReply::Listed(vec![saved(id, "b", true)])
    );
    assert_eq!(store.execute(&StoreCall::Delete { id }), StoreReply::Deleted(1));
    assert_eq!(store.execute(&StoreCall::Delete { id }), StoreReply::Deleted(0));
    assert_eq!(store.execute(&StoreCall::List), StoreReply::Listed(vec![]));
}

#[test]
fn execute_fails_only_on_an_insertion_without_a_name() {
    let mut store = MemoryStore::starting_at(u64::MAX);
    assert_eq!(
        store.execute(&StoreCall::Insert { fields: input("a", false) }),
        StoreReply::Failed(StoreError::Unavailable)
    );
    assert_eq!(store.execute(&StoreCall::List), StoreReply::Listed(vec![]));
    let id = TodoId::from_bytes([0u8; 12]);
    assert_eq!(
        store.execute(&StoreCall::Update { id, fields: input("a", false) }),
        StoreReply::Updated(0)
    );
    assert_eq!(store.execute(&StoreCall::Delete { id }), StoreReply::Deleted(0));
}

#[test]
fn execute_and_the_operations_act_on_the_same_collection() {
    let mut store = MemoryStore::new();
    let a = insert(&mut store, "a", false);
    let reply = store.execute(&StoreCall::Insert { fields: input("b", true) });
    let b = match reply {
        StoreReply::Inserted(Some(id)) => id,
        other => panic!("an identifier was expected, not {:?}", other),
    };
    assert_eq!(b.to_hex(), "000000000000000000000001");
    assert_eq!(store.delete_by_id(&b.to_hex()), Ok(true));
    assert_eq!(store.execute(&StoreCall::Delete { id: a }), StoreReply::Deleted(1));
    assert_eq!(store.list(), vec![]);
}

#[test]
fn recall_changes_nothing() {
    let mut store = MemoryStore::new();
    let a = insert(&mut store, "a", false);
    store.recall();
    assert_eq!(store.list(), vec![saved(a, "a", false)]);
}
