use rust_configfs::error::ConfigError;
use rust_configfs::registry::Schema;
use rust_configfs::sample::{child_type, configuration_type, grand_child_type, rust_configfs};
use rust_configfs::schema::{AttributeSlot, DataKind, ItemType, Mode, NodeData, Source};
use rust_configfs::storage::{Storage, PAGE_SIZE};
use rust_configfs::tree::{Handle, Tree};

fn page() -> Vec<u8> {
    vec![0u8; PAGE_SIZE]
}

fn shown(t: &Tree, h: Handle, idx: usize) -> Vec<u8> {
    let mut p = page();
    let n = t.show(h, idx, &mut p).unwrap();
    p[..n].to_vec()
}

#[test]
fn store_then_show_hello() {
    let mut t = rust_configfs();
    let root = t.root();
    assert_eq!(t.store(root, 1, b"hello"), Ok(()));
    let mut buf = page();
    assert_eq!(t.show(root, 1, &mut buf), Ok(5));
    assert_eq!(&buf[0..5], b"hello");
}

#[test]
fn message_shows_greeting() {
    let t = rust_configfs();
    assert_eq!(shown(&t, t.root(), 0), b"Hello World\n".to_vec());
}

#[test]
fn fresh_store_shows_empty() {
    let t = rust_configfs();
    let mut buf = vec![7u8; 8];
    assert_eq!(t.show(t.root(), 1, &mut buf), Ok(0));
    assert_eq!(buf, vec![7u8; 8]);
}

#[test]
fn child_shows_fixed_text() {
    let mut t = rust_configfs();
    let root = t.root();
    t.store(root, 1, b"something else").unwrap();
    let x = t.create_child(root, b"x".to_vec()).unwrap();
    assert_eq!(shown(&t, x, 0), b"Hello Baz\n".to_vec());
    let y = t.create_child(x, b"y".to_vec()).unwrap();
    assert_eq!(shown(&t, y, 0), b"Hello GC\n".to_vec());
}

#[test]
fn round_trip_keeps_value() {
    let mut t = rust_configfs();
    let root = t.root();
    t.store(root, 1, b"abc\x00def").unwrap();
    let first = shown(&t, root, 1);
    assert_eq!(t.store(root, 1, &first), Ok(()));
    assert_eq!(shown(&t, root, 1), first);
    assert_eq!(first, b"abc\x00def".to_vec());
}

#[test]
fn oversized_store_is_refused() {
    let mut t = rust_configfs();
    let root = t.root();
    t.store(root, 1, b"keep").unwrap();
    let big = vec![1u8; PAGE_SIZE + 1];
    assert_eq!(t.store(root, 1, &big), Err(ConfigError::CapacityExceeded));
    assert_eq!(shown(&t, root, 1), b"keep".to_vec());
    let full = vec![2u8; PAGE_SIZE];
    assert_eq!(t.store(root, 1, &full), Ok(()));
    assert_eq!(shown(&t, root, 1), full);
}

#[test]
fn duplicate_child_name_conflicts() {
    let mut t = rust_configfs();
    let root = t.root();
    let x = t.create_child(root, b"x".to_vec()).unwrap();
    let gc = t.create_child(x, b"g".to_vec()).unwrap();
    assert_eq!(t.create_child(root, b"x".to_vec()), Err(ConfigError::NameConflict));
    assert!(t.is_live(x));
    assert!(t.is_live(gc));
    assert_eq!(t.create_child(x, b"g".to_vec()), Err(ConfigError::NameConflict));
    assert_eq!(shown(&t, gc, 0), b"Hello GC\n".to_vec());
}

#[test]
fn leaf_refuses_children() {
    let mut t = rust_configfs();
    let root = t.root();
    let x = t.create_child(root, b"x".to_vec()).unwrap();
    let g = t.create_child(x, b"g".to_vec()).unwrap();
    assert_eq!(t.create_child(g, b"a".to_vec()), Err(ConfigError::UnsupportedOperation));
    assert_eq!(t.create_child(g, Vec::new()), Err(ConfigError::UnsupportedOperation));
}

#[test]
fn removed_subtree_goes_stale() {
    let mut t = rust_configfs();
    let root = t.root();
    let x = t.create_child(root, b"x".to_vec()).unwrap();
    let g = t.create_child(x, b"g".to_vec()).unwrap();
    let other = t.create_child(root, b"other".to_vec()).unwrap();
    assert_eq!(t.remove_child(root, &b"x".to_vec()), Ok(()));
    let mut buf = page();
    assert_eq!(t.show(x, 0, &mut buf), Err(ConfigError::StaleReference));
    assert_eq!(t.show(g, 0, &mut buf), Err(ConfigError::StaleReference));
    assert_eq!(t.store(g, 0, b"a"), Err(ConfigError::StaleReference));
    assert_eq!(t.create_child(x, b"z".to_vec()), Err(ConfigError::StaleReference));
    assert_eq!(t.remove_child(x, &b"g".to_vec()), Err(ConfigError::StaleReference));
    assert!(t.is_live(other));
    assert!(t.is_live(root));
    // the name is free again, and the new node does not revive old handles
    let x2 = t.create_child(root, b"x".to_vec()).unwrap();
    assert_ne!(x2, x);
    assert_eq!(t.show(x, 0, &mut buf), Err(ConfigError::StaleReference));
    assert_eq!(shown(&t, x2, 0), b"Hello Baz\n".to_vec());
}

#[test]
fn two_stores_leave_the_last() {
    let mut t = rust_configfs();
    let root = t.root();
    let a = vec![b'a'; 100];
    let b = vec![b'b'; 10];
    t.store(root, 1, &a).unwrap();
    t.store(root, 1, &b).unwrap();
    assert_eq!(shown(&t, root, 1), b);
    t.store(root, 1, &a).unwrap();
    assert_eq!(shown(&t, root, 1), a);
}

#[test]
fn invalid_attribute_index() {
    let mut t = rust_configfs();
    let root = t.root();
    let mut buf = page();
    assert_eq!(t.show(root, 2, &mut buf), Err(ConfigError::InvalidAttribute));
    assert_eq!(t.store(root, 7, b"x"), Err(ConfigError::InvalidAttribute));
}

#[test]
fn read_only_attribute_refuses_store() {
    let mut t = rust_configfs();
    let root = t.root();
    assert_eq!(t.store(root, 0, b"x"), Err(ConfigError::PermissionDenied));
    assert_eq!(shown(&t, root, 0), b"Hello World\n".to_vec());
}

#[test]
fn write_only_attribute_refuses_show() {
    let mut schema = Schema::new();
    let ty = ItemType {
        kind: DataKind::Configuration,
        attributes: vec![AttributeSlot { name: b"w".to_vec(), mode: Mode::WriteOnly, source: Source::Stored }],
        child: None,
    };
    assert!(schema.accepts(&ty));
    let id = schema.register(ty);
    let mut t = Tree::create_root(schema, id, NodeData::configuration());
    let root = t.root();
    assert_eq!(t.store(root, 0, b"secret"), Ok(()));
    let mut buf = page();
    assert_eq!(t.show(root, 0, &mut buf), Err(ConfigError::PermissionDenied));
    assert_eq!(t.create_child(root, b"c".to_vec()), Err(ConfigError::UnsupportedOperation));
}

#[test]
fn show_into_short_page_overflows() {
    let t = rust_configfs();
    let mut buf = vec![9u8; 3];
    assert_eq!(t.show(t.root(), 0, &mut buf), Err(ConfigError::Overflow));
    assert_eq!(buf, vec![9u8; 3]);
}

#[test]
fn remove_unknown_child_not_found() {
    let mut t = rust_configfs();
    let root = t.root();
    t.create_child(root, b"x".to_vec()).unwrap();
    assert_eq!(t.remove_child(root, &b"y".to_vec()), Err(ConfigError::NotFound));
    assert_eq!(t.remove_child(root, &b"x".to_vec()), Ok(()));
    assert_eq!(t.remove_child(root, &b"x".to_vec()), Err(ConfigError::NotFound));
}

#[test]
fn stale_handle_never_issued() {
    let t = rust_configfs();
    let mut buf = page();
    assert_eq!(t.show(Handle { index: 99 }, 0, &mut buf), Err(ConfigError::StaleReference));
}

#[test]
fn registration_rules() {
    let mut schema = Schema::new();
    let gc = schema.register(grand_child_type());
    let c = schema.register(child_type(gc));
    assert!(schema.accepts(&configuration_type(c)));
    // the child type must hold the data kind that the parent's data makes
    assert!(!schema.accepts(&configuration_type(gc)));
    assert!(!schema.accepts(&child_type(5)));
    let dup = ItemType {
        kind: DataKind::Configuration,
        attributes: vec![
            AttributeSlot { name: b"a".to_vec(), mode: Mode::ReadOnly, source: Source::Message },
            AttributeSlot { name: b"a".to_vec(), mode: Mode::ReadWrite, source: Source::Stored },
        ],
        child: None,
    };
    assert!(!schema.accepts(&dup));
    let writable_text = ItemType {
        kind: DataKind::Child,
        attributes: vec![AttributeSlot { name: b"t".to_vec(), mode: Mode::ReadWrite, source: Source::Text(b"t".to_vec()) }],
        child: None,
    };
    assert!(!schema.accepts(&writable_text));
    let stored_on_child = ItemType {
        kind: DataKind::Child,
        attributes: vec![AttributeSlot { name: b"s".to_vec(), mode: Mode::ReadOnly, source: Source::Stored }],
        child: None,
    };
    assert!(!schema.accepts(&stored_on_child));
    assert_eq!(schema.len(), 2);
}

#[test]
fn storage_store_and_show() {
    let mut s = Storage::new(4);
    assert_eq!(s.capacity_of(), 4);
    assert_eq!(s.len(), 0);
    assert_eq!(s.store(b"abcde"), Err(ConfigError::CapacityExceeded));
    assert_eq!(s.len(), 0);
    assert_eq!(s.store(b"abcd"), Ok(()));
    assert_eq!(s.store(b"xy"), Ok(()));
    let mut p = vec![0u8; 5];
    assert_eq!(s.show(&mut p), Ok(2));
    assert_eq!(p, vec![b'x', b'y', 0, 0, 0]);
    let mut short = vec![0u8; 1];
    assert_eq!(s.show(&mut short), Err(ConfigError::Overflow));
}

#[test]
fn node_data_makes_children() {
    let d = NodeData::configuration();
    assert_eq!(d.kind(), DataKind::Configuration);
    let c = d.make_child().unwrap();
    assert_eq!(c.kind(), DataKind::Child);
    let g = c.make_child().unwrap();
    assert_eq!(g.kind(), DataKind::GrandChild);
    assert!(g.make_child().is_none());
}
