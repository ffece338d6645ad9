use junction_rs::graph::start;
use junction_rs::id::SimpleId;
use junction_rs::traits::{Edge, HasTableName, Node};

struct Person;

impl HasTableName for Person {
    fn table_name() -> &'static str {
        "person"
    }
}

impl Node for Person {
    const TABLE: &'static str = "person";
    type Schema = ();
    fn schema() -> Self::Schema {}
}

struct Knows;

impl HasTableName for Knows {
    fn table_name() -> &'static str {
        "knows"
    }
}

impl Edge for Knows {
    const TABLE: &'static str = "knows";
    type Schema = ();
    type From = Person;
    type To = Person;
    fn schema() -> Self::Schema {}
}

#[test]
fn build_simple_forward_traversal() {
    let p = start::<Person>().forward::<Knows>().into_traversal();
    assert_eq!(p.steps.len(), 1);
    assert_eq!(p.start.table, "person");
    assert_eq!(p.steps[0].edge_set.edges[0].table, "knows");
}

#[derive(Debug, Clone, PartialEq)]
struct Dummy;

impl HasTableName for Dummy {
    fn table_name() -> &'static str {
        "dummy"
    }
}

#[test]
fn roundtrip_uuid_default() {
    let id = SimpleId::<Dummy>::from_uuid(0);
    let s = id.to_record_string(Dummy::table_name());
    let id2: SimpleId<Dummy> = SimpleId::parse(&s).unwrap();
    assert_eq!(id, id2);
}

#[test]
fn record_string_format_and_tokens() {
    let id = SimpleId::<Dummy>::from_uuid(0x0123_4567_89ab_cdef_0011_2233_4455_6677);
    assert_eq!(id.to_record_string("dummy"), "dummy:01234567-89ab-cdef-0011-223344556677");
    assert_eq!(id.as_uuid_str(), "01234567-89ab-cdef-0011-223344556677");
    assert_eq!(id.token_part(), "u0123456789abcdef0011223344556677");
    let bare = SimpleId::<Dummy>::parse("01234567-89ab-cdef-0011-223344556677").unwrap();
    assert_eq!(bare.value, id.value);
    assert!(SimpleId::<Dummy>::parse("a:b:01234567-89ab-cdef-0011-223344556677").is_none());
    assert!(SimpleId::<Dummy>::parse("not a uuid").is_none());
}

#[test]
fn fresh_ids_differ() {
    let a = SimpleId::<Dummy>::new();
    let b = SimpleId::<Dummy>::new();
    assert_ne!(a.value, b.value);
}

#[test]
fn fresh_id_is_version_4() {
    let id = SimpleId::<Dummy>::new();
    let text: Vec<char> = id.as_uuid_str().chars().collect();
    assert_eq!(text[14], '4');
    assert!(matches!(text[19], '8' | '9' | 'a' | 'b'));
    assert_eq!((id.value >> 76) & 0xf, 4);
}

#[test]
fn record_object_id_is_a_bare_uuid() {
    let id = SimpleId::<Dummy>::from_record_id("01234567-89ab-cdef-0011-223344556677").unwrap();
    assert_eq!(id.value, 0x0123_4567_89ab_cdef_0011_2233_4455_6677);
    assert!(SimpleId::<Dummy>::from_record_id("dummy:01234567-89ab-cdef-0011-223344556677").is_none());
    assert!(SimpleId::<Dummy>::from_record_id("nope").is_none());
}

#[test]
fn uuid_part_of_record_strings() {
    assert_eq!(junction_rs::id::uuid_part("dummy:abc").as_deref(), Some("abc"));
    assert_eq!(junction_rs::id::uuid_part("dummy:"), Some(String::new()));
    assert!(junction_rs::id::uuid_part("a:b:c").is_none());
    assert!(junction_rs::id::uuid_part("plain").is_none());
}
