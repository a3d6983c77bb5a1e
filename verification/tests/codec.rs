use kroeg_cellar::cellarentitystore::{Param, Request, Target};
use kroeg_cellar::codec::{Deserializable, HasOid, IsNull, Row, Serializable};
use kroeg_cellar::error::AnyError;
use kroeg_cellar::statements::{StatementId, Statements, STATEMENT_COUNT};
use kroeg_cellar::statement::Statement;

fn wire<T: Serializable>(value: &T) -> (bool, Vec<u8>) {
    let mut buf: Vec<u8> = vec![0xaa];
    let null = matches!(value.serialize(&mut buf), IsNull::Yes);
    assert_eq!(buf[0], 0xaa);
    (null, buf[1..].to_vec())
}

#[test]
fn scalars_are_written_most_significant_byte_first() {
    assert_eq!(wire(&true), (false, vec![1]));
    assert_eq!(wire(&false), (false, vec![0]));
    assert_eq!(wire(&(-2i8)), (false, vec![0xfe]));
    assert_eq!(wire(&(0x0102i16)), (false, vec![1, 2]));
    assert_eq!(wire(&(-1i16)), (false, vec![0xff, 0xff]));
    assert_eq!(wire(&(0x01020304i32)), (false, vec![1, 2, 3, 4]));
    assert_eq!(wire(&(-2i32)), (false, vec![0xff, 0xff, 0xff, 0xfe]));
    assert_eq!(wire(&(i32::MIN)), (false, vec![0x80, 0, 0, 0]));
    assert_eq!(wire(&(0x0102030405060708i64)), (false, vec![1, 2, 3, 4, 5, 6, 7, 8]));
    assert_eq!(wire(&(-1i64)), (false, vec![0xff; 8]));
}

#[test]
fn text_is_written_as_utf8() {
    assert_eq!(wire(&"h\u{e9}".to_string()), (false, vec![b'h', 0xc3, 0xa9]));
    assert_eq!(wire(&String::new()), (false, Vec::new()));
}

#[test]
fn none_is_null_and_writes_nothing() {
    let missing: Option<i32> = None;
    assert_eq!(wire(&missing), (true, Vec::new()));
    assert_eq!(wire(&Some(5i32)), (false, vec![0, 0, 0, 5]));
    let reference = &7i16;
    assert_eq!(wire(&reference), (false, vec![0, 7]));
}

#[test]
fn arrays_have_one_dimension_from_zero() {
    let (null, bytes) = wire(&vec![1i32, -1i32]);
    assert!(!null);
    assert_eq!(
        bytes,
        vec![
            0, 0, 0, 1, 0, 0, 0, 0, 0, 0, 0, 23, 0, 0, 0, 2, 0, 0, 0, 0, 0, 0, 0, 4, 0, 0, 0, 1,
            0, 0, 0, 4, 0xff, 0xff, 0xff, 0xff,
        ]
    );
    let (_, bytes) = wire(&vec![Some("a".to_string()), None]);
    assert_eq!(
        bytes,
        vec![
            0, 0, 0, 1, 0, 0, 0, 1, 0, 0, 0, 25, 0, 0, 0, 2, 0, 0, 0, 0, 0, 0, 0, 1, b'a', 0xff,
            0xff, 0xff, 0xff,
        ]
    );
    let (_, bytes) = wire(&Vec::<bool>::new());
    assert_eq!(bytes, vec![0, 0, 0, 1, 0, 0, 0, 0, 0, 0, 0, 16, 0, 0, 0, 0, 0, 0, 0, 0]);
}

#[test]
fn object_ids_follow_the_catalogue() {
    assert_eq!((bool::oid(), bool::array_oid()), (16, 1000));
    assert_eq!((i8::oid(), i8::array_oid()), (18, 1002));
    assert_eq!((i16::oid(), i16::array_oid()), (21, 1005));
    assert_eq!((i32::oid(), i32::array_oid()), (23, 1007));
    assert_eq!((i64::oid(), i64::array_oid()), (20, 1016));
    assert_eq!((String::oid(), String::array_oid()), (25, 1009));
    assert_eq!((<Option<i32>>::oid(), <Option<i32>>::array_oid()), (23, 1007));
    assert_eq!((<&String>::oid(), <&String>::array_oid()), (25, 1009));
}

#[test]
fn scalars_are_read_from_fields_of_their_size() {
    assert!(matches!(bool::deserialize(&[0]), Ok(false)));
    assert!(matches!(bool::deserialize(&[2]), Ok(true)));
    assert!(matches!(bool::deserialize(&[]), Err(AnyError::Decode)));
    assert!(matches!(i8::deserialize(&[0x80]), Ok(-128)));
    assert!(matches!(i16::deserialize(&[0xff, 0xfe]), Ok(-2)));
    assert!(matches!(i16::deserialize(&[1]), Err(AnyError::Decode)));
    assert!(matches!(i32::deserialize(&[0, 0, 1, 2]), Ok(258)));
    assert!(matches!(i32::deserialize(&[0x80, 0, 0, 0]), Ok(i32::MIN)));
    assert!(matches!(i32::deserialize(&[0, 0, 1, 2, 3]), Err(AnyError::Decode)));
    assert!(matches!(i32::deserialize(&[0, 0, 1]), Err(AnyError::Decode)));
    assert!(matches!(i64::deserialize(&[0xff; 8]), Ok(-1)));
    assert!(matches!(i64::deserialize(&[0xff; 4]), Err(AnyError::Decode)));
}

#[test]
fn text_is_read_from_valid_utf8() {
    match String::deserialize(&[b'h', 0xc3, 0xa9]) {
        Ok(text) => assert_eq!(text, "h\u{e9}"),
        Err(_) => panic!("valid text was refused"),
    }
    assert!(matches!(String::deserialize(&[0xc3]), Err(AnyError::Decode)));
    assert!(matches!(String::deserialize(&[0xff]), Err(AnyError::Decode)));
}

#[test]
fn rows_give_null_values_and_errors() {
    let row = Row { fields: vec![Some(vec![0, 0, 0, 9]), None, Some(vec![b'x'])] };
    assert!(matches!(row.get::<i32>(0), Ok(Some(9))));
    assert!(matches!(row.get::<i32>(1), Ok(None)));
    assert!(matches!(row.get::<String>(1), Ok(None)));
    assert!(matches!(row.get::<i32>(2), Err(AnyError::Decode)));
    assert!(matches!(row.get::<i32>(3), Err(AnyError::Decode)));
    match row.get::<String>(2) {
        Ok(Some(text)) => assert_eq!(text, "x"),
        _ => panic!("expected a text"),
    }
}

#[test]
fn parameters_are_written_as_what_they_hold() {
    assert_eq!(wire(&Param::Int4(3)), (false, vec![0, 0, 0, 3]));
    assert_eq!(wire(&Param::Int8(3)), (false, vec![0, 0, 0, 0, 0, 0, 0, 3]));
    assert_eq!(wire(&Param::Text("ab".to_string())), (false, vec![b'a', b'b']));
    assert_eq!(wire(&Param::Int4Array(vec![5])), wire(&vec![5i32]));
    assert_eq!(wire(&Param::TextArray(vec!["a".to_string()])), wire(&vec!["a".to_string()]));
    assert_eq!(wire(&Param::NullableInt4Array(vec![None, Some(1)])), wire(&vec![None, Some(1i32)]));
    assert_eq!(
        wire(&Param::NullableTextArray(vec![None, Some("a".to_string())])),
        wire(&vec![None, Some("a".to_string())])
    );
}

#[test]
fn short_parameters_can_be_sent() {
    assert!(Param::Int4(1).is_sendable());
    assert!(Param::Int4Array(vec![1, 2, 3]).is_sendable());
    assert!(Param::TextArray(vec!["a".to_string()]).is_sendable());
    assert!(Param::NullableTextArray(vec![None, Some("a".to_string())]).is_sendable());
    assert!(Param::NullableInt4Array(vec![None]).is_sendable());
    let request = Request {
        target: Target::Prepared(StatementId::SelectQuad),
        params: vec![Param::Int4(1), Param::Text("x".to_string())],
    };
    assert!(request.is_sendable());
}

#[test]
fn statements_are_thirteen_in_a_fixed_order() {
    assert_eq!(STATEMENT_COUNT, 13);
    let mut parsed: Vec<Statement> = Vec::new();
    for index in 0..STATEMENT_COUNT {
        let id = match StatementId::at(index) {
            Some(id) => id,
            None => panic!("no statement at a place below the count"),
        };
        assert_eq!(id.index(), index);
        assert!(!id.sql().is_empty());
        parsed.push(Statement { name: format!("s{}s", index + 1) });
    }
    assert!(StatementId::at(13).is_none());
    assert_eq!(
        StatementId::DeleteQuads.sql(),
        "delete from quad where quad_id = $1"
    );
    assert_eq!(
        StatementId::QueueItemPop.sql(),
        "delete from queue_item where id = (select id from queue_item order by id limit 1) returning event, data"
    );
    assert_eq!(StatementId::UpsertAttributes.index(), 0);
    assert_eq!(StatementId::QueueItemPut.index(), 12);
    let statements = match Statements::make(parsed) {
        Some(s) => s,
        None => panic!("thirteen statements make a registry"),
    };
    assert_eq!(statements.upsert_attributes.name, "s1s");
    assert_eq!(statements.select_collection_reverse.name, "s9s");
    assert_eq!(statements.queue_item_put.name, "s13s");
    assert_eq!(statements.get(StatementId::FindCollection).name, "s11s");
    assert!(Statements::make(vec![Statement { name: "s1s".to_string() }]).is_none());
}

#[test]
fn slices_are_written_as_the_values_that_own_them() {
    let mut buf: Vec<u8> = Vec::new();
    assert!(matches!("h\u{e9}".serialize(&mut buf), IsNull::No));
    assert_eq!(buf, vec![b'h', 0xc3, 0xa9]);
    assert_eq!(<str as HasOid>::oid(), 25);
    assert_eq!(<str as HasOid>::array_oid(), 1009);

    let items = [7i16, -2i16];
    let mut buf: Vec<u8> = Vec::new();
    assert!(matches!(items[..].serialize(&mut buf), IsNull::No));
    assert_eq!(buf, wire(&vec![7i16, -2i16]).1);
    assert_eq!(
        buf,
        vec![
            0, 0, 0, 1, 0, 0, 0, 0, 0, 0, 0, 21, 0, 0, 0, 2, 0, 0, 0, 0, 0, 0, 0, 2, 0, 7, 0, 0,
            0, 2, 0xff, 0xfe,
        ]
    );
}
