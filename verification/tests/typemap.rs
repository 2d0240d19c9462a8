use mcpox_jsonrpc::transport::{received_message, TransportMetadata};
use mcpox_jsonrpc::typemap::TypeMap;
use std::sync::{Arc, Mutex};

#[test]
fn test_typemap() {
    let mut map = TypeMap::new();

    assert!(map.is_empty());

    map.insert(42);
    assert_eq!(map.len(), 1);
    assert_eq!(map.get::<i32>(), Some(&42));

    map.insert("Hello".to_string());
    assert_eq!(map.len(), 2);
    assert_eq!(map.get::<String>(), Some(&"Hello".to_string()));

    map.remove::<i32>();
    assert_eq!(map.len(), 1);
    assert_eq!(map.get::<i32>(), None);

    map.clear();
    assert_eq!(map.len(), 0);
}

#[derive(Clone, Debug)]
struct Type1 {
    foo: String,
}

#[derive(Debug)]
struct Type2 {
    bar: i32,
}

#[test]
fn test_arc_mutex_typemap() {
    let map = Arc::new(Mutex::new(TypeMap::new()));

    assert_eq!(None, map.lock().unwrap().get::<String>());
    map.lock().unwrap().insert("foo".to_string());
    assert_eq!(Some(&"foo".to_string()), map.lock().unwrap().get::<String>());

    assert!(map.lock().unwrap().get::<Type1>().is_none());

    let type1 = Type1 {
        foo: "foo".to_string(),
    };
    map.lock().unwrap().insert(type1.clone());
    assert_eq!("foo", map.lock().unwrap().get::<Type1>().unwrap().foo);
    assert_eq!(
        "foo",
        map.lock()
            .unwrap()
            .get_or_insert::<Type1>(Type1 {
                foo: "baz".to_string()
            })
            .foo
    );

    assert_eq!(42, map.lock().unwrap().get_or_insert(Type2 { bar: 42 }).bar);
    assert_eq!(42, map.lock().unwrap().get_or_insert(Type2 { bar: 24 }).bar);
    assert_eq!(42, map.lock().unwrap().remove::<Type2>().unwrap().bar);
    assert_eq!(None, map.lock().unwrap().get::<Type2>().map(|t2| t2.bar));
}

#[test]
fn insert_replaces_the_value_of_the_same_type_only() {
    let mut map = TypeMap::new();
    map.insert(1u8);
    map.insert(2u16);
    map.insert(3u8);
    assert_eq!(map.len(), 2);
    assert_eq!(map.get::<u8>(), Some(&3));
    assert_eq!(map.get::<u16>(), Some(&2));
    assert!(map.contains::<u8>());
    assert!(!map.contains::<u32>());
    assert!(map.remove::<u32>().is_none());
    assert_eq!(map.len(), 2);
}

#[test]
fn values_can_be_changed_in_place() {
    let mut map = TypeMap::default();
    map.insert(vec![1, 2]);
    map.insert(7u64);
    map.get_mut::<Vec<i32>>().unwrap().push(3);
    assert_eq!(map.get_clone::<Vec<i32>>(), Some(vec![1, 2, 3]));
    assert_eq!(map.get_clone::<u64>(), Some(7));
    assert!(map.get_mut::<String>().is_none());
    assert_eq!(map.get_clone::<String>(), None);
}

#[test]
fn transport_metadata_tells_what_is_in_the_map() {
    let nothing = TransportMetadata::new();
    assert!(!nothing.contains::<String>());
    assert_eq!(TransportMetadata::default().get::<String>(), None);

    let mut map = TypeMap::new();
    map.insert("peer".to_string());
    let metadata = TransportMetadata::from_map(map);
    assert!(metadata.contains::<String>());
    assert_eq!(metadata.get::<String>(), Some(&"peer".to_string()));
    assert_eq!(metadata.get_clone::<String>(), Some("peer".to_string()));
    assert_eq!(metadata.get_clone::<u8>(), None);
}

#[test]
fn a_received_text_comes_with_what_the_transport_tells() {
    let mut map = TypeMap::new();
    map.insert(7u16);
    let metadata = Arc::new(TransportMetadata::from_map(map));
    let received = received_message(&metadata, Some("hello".to_string())).unwrap();
    assert_eq!(received.message, "hello");
    assert_eq!(received.metadata.get::<u16>(), Some(&7));
    assert!(Arc::ptr_eq(&received.metadata, &metadata));
    assert!(received_message(&metadata, None).is_none());
}
