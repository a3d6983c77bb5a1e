use kroeg_cellar::bindings::{BoundQuery, BoundStatement, Phase, Step};
use kroeg_cellar::codec::{Row, Serializable};
use kroeg_cellar::connect::{connect, Authentication, Initialization, InitializationState};
use kroeg_cellar::error::AnyError;
use kroeg_cellar::frontend::{Frontend, ReadStep};
use kroeg_cellar::message::{make_err, BackendMessage, ErrorField};
use kroeg_cellar::statement::{Pending, Statement};

fn field(code: u8, value: &str) -> ErrorField {
    ErrorField { code, value: value.to_string() }
}

#[test]
fn startup_message_names_user_and_database() {
    let (state, wire) =
        match connect("db".to_string(), "u".to_string(), "p".to_string()) {
            Ok(start) => start,
            Err(_) => panic!("startup message could not be written"),
        };
    assert!(matches!(state, InitializationState::Authenticating(_)));
    let mut expected: Vec<u8> = vec![0, 0, 0, 28, 0, 3, 0, 0];
    expected.extend_from_slice(b"user\0u\0database\0db\0\0");
    assert_eq!(wire, expected);
}

#[test]
fn startup_fails_on_a_zero_byte_in_a_name() {
    let r = connect("d\0b".to_string(), "u".to_string(), "p".to_string());
    assert!(matches!(r, Err(AnyError::Encode)));
}

#[test]
fn md5_authentication_answers_with_the_salted_digest() {
    let mut auth = Authentication { username: "u".to_string(), password: "p".to_string() };
    let mut buf: Vec<u8> = Vec::new();
    let r = auth.on_message(
        BackendMessage::AuthenticationMd5Password { salt: [0x01, 0x02, 0x03, 0x04] },
        &mut buf,
    );
    assert!(matches!(r, Ok(false)));
    let mut expected: Vec<u8> = vec![b'p', 0, 0, 0, 40];
    expected.extend_from_slice(b"md5facdc455923b0a58efea84a6d9ee0e76");
    expected.push(0);
    assert_eq!(buf, expected);
}

#[test]
fn md5_digest_depends_on_user_password_and_salt() {
    let mut auth =
        Authentication { username: "md5_user".to_string(), password: "password".to_string() };
    let mut buf: Vec<u8> = Vec::new();
    let r = auth.on_message(
        BackendMessage::AuthenticationMd5Password { salt: [0x2a, 0x3d, 0x8f, 0xe0] },
        &mut buf,
    );
    assert!(matches!(r, Ok(false)));
    assert_eq!(&buf[5..40], b"md562af4dd09bbb41884907a838a3233294");
}

#[test]
fn cleartext_authentication_answers_with_the_password() {
    let mut auth = Authentication { username: "u".to_string(), password: "secret".to_string() };
    let mut buf: Vec<u8> = vec![9];
    let r = auth.on_message(BackendMessage::AuthenticationCleartextPassword, &mut buf);
    assert!(matches!(r, Ok(false)));
    assert_eq!(buf, b"\x09p\x00\x00\x00\x0bsecret\x00".to_vec());
}

#[test]
fn cleartext_password_with_a_zero_byte_fails_and_leaves_the_buffer() {
    let mut auth = Authentication { username: "u".to_string(), password: "a\0b".to_string() };
    let mut buf: Vec<u8> = vec![9];
    let r = auth.on_message(BackendMessage::AuthenticationCleartextPassword, &mut buf);
    assert!(matches!(r, Err(AnyError::Encode)));
    assert_eq!(buf, vec![9]);
}

#[test]
fn authentication_ok_is_accepted() {
    let mut auth = Authentication { username: "u".to_string(), password: "p".to_string() };
    let mut buf: Vec<u8> = Vec::new();
    assert!(matches!(auth.on_message(BackendMessage::AuthenticationOk, &mut buf), Ok(true)));
    assert!(buf.is_empty());
}

#[test]
fn other_authentication_methods_are_unsupported() {
    let requests = vec![
        BackendMessage::AuthenticationKerberosV5,
        BackendMessage::AuthenticationScmCredential,
        BackendMessage::AuthenticationGss,
        BackendMessage::AuthenticationGssContinue,
        BackendMessage::AuthenticationSspi,
        BackendMessage::AuthenticationSasl,
        BackendMessage::AuthenticationSaslContinue,
        BackendMessage::AuthenticationSaslFinal,
    ];
    for request in requests {
        let mut auth = Authentication { username: "u".to_string(), password: "p".to_string() };
        let mut buf: Vec<u8> = Vec::new();
        let r = auth.on_message(request, &mut buf);
        match r {
            Err(e) => {
                assert!(matches!(e, AnyError::UnsupportedAuthentication));
                assert_eq!(e.message(), "unsupported authentication method");
            }
            Ok(_) => panic!("accepted an unsupported method"),
        }
    }
}

#[test]
fn authentication_reports_server_errors_and_strays() {
    let mut auth = Authentication { username: "u".to_string(), password: "p".to_string() };
    let mut buf: Vec<u8> = Vec::new();
    let r = auth.on_message(BackendMessage::ErrorResponse(vec![field(b'M', "no")]), &mut buf);
    match r {
        Err(AnyError::Server(text)) => assert_eq!(text, "M\"no\" "),
        _ => panic!("expected the server's error"),
    }
    let r = auth.on_message(BackendMessage::ReadyForQuery, &mut buf);
    match r {
        Err(e) => assert_eq!(e.message(), "unexpected message at this time"),
        Ok(_) => panic!("accepted a stray message"),
    }
}

#[test]
fn initialization_collects_key_data_and_parameters() {
    let mut init = Initialization { key_data: None, parameters: Vec::new() };
    let mut buf: Vec<u8> = Vec::new();
    let r = init.on_message(
        BackendMessage::BackendKeyData { process_id: 7, secret_key: -3 },
        &mut buf,
    );
    assert!(matches!(r, Ok(false)));
    assert_eq!(init.key_data, Some((7, -3)));
    let r = init.on_message(
        BackendMessage::ParameterStatus {
            name: "client_encoding".to_string(),
            value: "UTF8".to_string(),
        },
        &mut buf,
    );
    assert!(matches!(r, Ok(false)));
    assert_eq!(init.parameters, vec![("client_encoding".to_string(), "UTF8".to_string())]);
    assert!(matches!(init.on_message(BackendMessage::NoticeResponse, &mut buf), Ok(false)));
    assert!(matches!(init.on_message(BackendMessage::ReadyForQuery, &mut buf), Ok(true)));
    assert!(matches!(
        init.on_message(BackendMessage::DataRow(Row { fields: Vec::new() }), &mut buf),
        Err(AnyError::UnexpectedMessage)
    ));
    assert!(buf.is_empty());
}

#[test]
fn startup_moves_from_authentication_to_initialization() {
    let mut state = InitializationState::Authenticating(Authentication {
        username: "u".to_string(),
        password: "p".to_string(),
    });
    let mut buf: Vec<u8> = Vec::new();
    let r = state.on_message(BackendMessage::AuthenticationCleartextPassword, &mut buf);
    assert!(matches!(r, Ok(false)));
    assert!(matches!(state, InitializationState::Authenticating(_)));
    assert_eq!(buf, b"p\x00\x00\x00\x06p\x00".to_vec());
    let r = state.on_message(BackendMessage::AuthenticationOk, &mut buf);
    assert!(matches!(r, Ok(false)));
    assert!(matches!(state, InitializationState::Initializing(_)));
    let r = state.on_message(BackendMessage::ReadyForQuery, &mut buf);
    assert!(matches!(r, Ok(true)));
}

#[test]
fn names_count_up() {
    let mut conn = Frontend::new(false);
    assert_eq!(conn.generate_name(), "s1s");
    assert_eq!(conn.generate_name(), "s2s");
    assert_eq!(conn.counter, 2);
}

#[test]
fn registered_bytes_go_out_first_and_once() {
    let mut conn = Frontend::new(false);
    conn.register_next(&[1, 2]);
    conn.register_next(&[3]);
    assert_eq!(conn.write_data(&[4, 5]), vec![1, 2, 3, 4, 5]);
    assert_eq!(conn.write_data(&[6]), vec![6]);
}

#[test]
fn notifications_go_to_the_sink_if_there_is_one() {
    let with_sink = Frontend::new(true);
    let without = Frontend::new(false);
    assert!(matches!(with_sink.read_message(None), ReadStep::Fill));
    assert!(matches!(
        with_sink.read_message(Some(BackendMessage::NotificationResponse)),
        ReadStep::Forward(BackendMessage::NotificationResponse)
    ));
    assert!(matches!(
        without.read_message(Some(BackendMessage::NotificationResponse)),
        ReadStep::Deliver(BackendMessage::NotificationResponse)
    ));
    assert!(matches!(
        with_sink.read_message(Some(BackendMessage::ParseComplete)),
        ReadStep::Deliver(BackendMessage::ParseComplete)
    ));
}

#[test]
fn parse_sends_parse_and_flush() {
    let mut conn = Frontend::new(false);
    conn.register_next(&[0xff]);
    let pending = match Statement::parse(&mut conn, "select 1") {
        Ok(p) => p,
        Err(_) => panic!("parse could not be written"),
    };
    assert_eq!(pending.name, "s1s");
    let mut expected: Vec<u8> = vec![0xff, b'P', 0, 0, 0, 19];
    expected.extend_from_slice(b"s1s\0select 1\0\0\0");
    expected.extend_from_slice(b"H\x00\x00\x00\x04");
    assert_eq!(pending.wire, expected);
    assert!(conn.to_send.is_empty());
}

#[test]
fn parse_fails_on_a_zero_byte_in_the_query() {
    let mut conn = Frontend::new(false);
    conn.register_next(&[0xff]);
    let r = Statement::parse(&mut conn, "select\0");
    assert!(matches!(r, Err(AnyError::Encode)));
    assert_eq!(conn.to_send, vec![0xff]);
    assert_eq!(conn.counter, 1);
}

#[test]
fn parse_completes_or_fails() {
    let pending = Pending { name: "s1s".to_string(), wire: Vec::new() };
    match Statement::parse_complete(pending, BackendMessage::ParseComplete) {
        Ok(statement) => assert_eq!(statement.name, "s1s"),
        Err(_) => panic!("parse did not complete"),
    }
    let pending = Pending { name: "s2s".to_string(), wire: Vec::new() };
    let r = Statement::parse_complete(
        pending,
        BackendMessage::ErrorResponse(vec![field(b'S', "ERROR"), field(b'C', "42601")]),
    );
    match r {
        Err(AnyError::Server(text)) => assert_eq!(text, "S\"ERROR\" C\"42601\" "),
        _ => panic!("expected the server's error"),
    }
    let pending = Pending { name: "s3s".to_string(), wire: Vec::new() };
    let r = Statement::parse_complete(pending, BackendMessage::BindComplete);
    match r {
        Err(e) => assert_eq!(e.message(), "should not occur here"),
        Ok(_) => panic!("accepted a stray message"),
    }
}

#[test]
fn bind_sends_binary_parameters_and_flush() {
    let mut conn = Frontend::new(false);
    let statement = Statement { name: "s1s".to_string() };
    conn.counter = 1;
    let id: i32 = 258;
    let text = "hi".to_string();
    let missing: Option<i32> = None;
    let params: Vec<&dyn Serializable> = vec![&id, &text, &missing];
    let pending = match statement.bind(&mut conn, &params) {
        Ok(p) => p,
        Err(_) => panic!("bind could not be written"),
    };
    assert_eq!(pending.name, "s2s");
    let mut expected: Vec<u8> = vec![b'B', 0, 0, 0, 44];
    expected.extend_from_slice(b"s2s\0s1s\0");
    expected.extend_from_slice(&[0, 3, 0, 1, 0, 1, 0, 1]);
    expected.extend_from_slice(&[0, 3]);
    expected.extend_from_slice(&[0, 0, 0, 4, 0, 0, 1, 2]);
    expected.extend_from_slice(&[0, 0, 0, 2, b'h', b'i']);
    expected.extend_from_slice(&[0xff, 0xff, 0xff, 0xff]);
    expected.extend_from_slice(&[0, 1, 0, 1]);
    expected.extend_from_slice(b"H\x00\x00\x00\x04");
    assert_eq!(pending.wire, expected);
}

#[test]
fn bind_completes_or_fails() {
    let statement = Statement { name: "s1s".to_string() };
    let pending = Pending { name: "s2s".to_string(), wire: Vec::new() };
    match statement.bind_complete(pending, BackendMessage::BindComplete) {
        Ok(bound) => {
            assert_eq!(bound.portal, "s2s");
            assert_eq!(bound.statement, "s1s");
        }
        Err(_) => panic!("bind did not complete"),
    }
    let pending = Pending { name: "s3s".to_string(), wire: Vec::new() };
    let r = statement.bind_complete(pending, BackendMessage::ParseComplete);
    assert!(matches!(r, Err(AnyError::InvalidMessage)));
}

#[test]
fn execute_asks_for_all_rows() {
    let mut conn = Frontend::new(false);
    let mut bound = BoundStatement { statement: "s1s".to_string(), portal: "s2s".to_string() };
    let (query, wire) = match bound.execute(&mut conn) {
        Ok(started) => started,
        Err(_) => panic!("execute could not be written"),
    };
    assert!(matches!(query.phase, Phase::Rows));
    let mut expected: Vec<u8> = vec![b'E', 0, 0, 0, 12];
    expected.extend_from_slice(b"s2s\0\0\0\0\0");
    expected.extend_from_slice(b"H\x00\x00\x00\x04");
    assert_eq!(wire, expected);
}

#[test]
fn rows_stream_until_the_command_completes() {
    let mut conn = Frontend::new(false);
    let mut query = BoundQuery { phase: Phase::Rows };
    let row = Row { fields: vec![Some(vec![0, 0, 0, 1]), None] };
    match query.next(&mut conn, BackendMessage::DataRow(row)) {
        Step::Row(r) => assert_eq!(r.fields, vec![Some(vec![0, 0, 0, 1]), None]),
        _ => panic!("expected a row"),
    }
    assert!(matches!(query.next(&mut conn, BackendMessage::NoticeResponse), Step::Skip));
    assert!(matches!(query.phase, Phase::Rows));
    match query.next(&mut conn, BackendMessage::CommandComplete) {
        Step::Drain { send } => assert_eq!(send, b"S\x00\x00\x00\x04".to_vec()),
        _ => panic!("expected the stream to drain"),
    }
    assert!(matches!(query.phase, Phase::Draining));
    assert!(matches!(
        query.next(&mut conn, BackendMessage::DataRow(Row { fields: Vec::new() })),
        Step::Skip
    ));
    assert!(matches!(query.next(&mut conn, BackendMessage::ReadyForQuery), Step::End));
    assert!(matches!(query.phase, Phase::Done));
    assert!(matches!(query.next(&mut conn, BackendMessage::CommandComplete), Step::End));
}

#[test]
fn empty_query_and_suspended_portal_end_the_rows() {
    for message in vec![BackendMessage::EmptyQueryResponse, BackendMessage::PortalSuspended] {
        let mut conn = Frontend::new(false);
        let mut query = BoundQuery { phase: Phase::Rows };
        assert!(matches!(query.next(&mut conn, message), Step::Drain { .. }));
        assert!(matches!(query.phase, Phase::Draining));
    }
}

#[test]
fn server_error_is_reported_once_and_the_connection_recovers() {
    let mut conn = Frontend::new(false);
    let mut query = BoundQuery { phase: Phase::Rows };
    let fields = vec![
        field(b'S', "ERROR"),
        field(b'C', "23505"),
        field(b'M', "duplicate key value violates unique constraint \"quad_pkey\""),
    ];
    match query.next(&mut conn, BackendMessage::ErrorResponse(fields)) {
        Step::Failed { error, send } => {
            let text = error.message();
            assert!(text.contains("S\"ERROR\""));
            assert!(text.contains("C\"23505\""));
            assert!(text.contains(
                "M\"duplicate key value violates unique constraint \\\"quad_pkey\\\"\""
            ));
            assert_eq!(send, b"S\x00\x00\x00\x04".to_vec());
        }
        _ => panic!("expected the server's error"),
    }
    assert!(matches!(query.phase, Phase::Draining));
    assert!(matches!(query.next(&mut conn, BackendMessage::ReadyForQuery), Step::End));
    let pending = match Statement::parse(&mut conn, "select 1") {
        Ok(p) => p,
        Err(_) => panic!("parse could not be written"),
    };
    assert!(Statement::parse_complete(pending, BackendMessage::ParseComplete).is_ok());
}

#[test]
fn error_text_is_field_after_field() {
    assert_eq!(make_err(&Vec::new()), "");
    assert_eq!(
        make_err(&vec![field(b'S', "FATAL"), field(b'M', "a\nb")]),
        "S\"FATAL\" M\"a\\nb\" "
    );
}

#[test]
fn a_parameter_has_the_value_that_arrived_last() {
    let mut init = Initialization { key_data: None, parameters: Vec::new() };
    let mut buf = Vec::new();
    for (name, value) in [("TimeZone", "UTC"), ("client_encoding", "LATIN1"), ("TimeZone", "CET")] {
        let message =
            BackendMessage::ParameterStatus { name: name.to_string(), value: value.to_string() };
        assert!(matches!(init.on_message(message, &mut buf), Ok(false)));
    }
    assert_eq!(init.parameter("TimeZone").map(String::as_str), Some("CET"));
    assert_eq!(init.parameter("client_encoding").map(String::as_str), Some("LATIN1"));
    assert_eq!(init.parameter("server_version"), None);
    assert!(buf.is_empty());
}

#[test]
fn the_md5_answer_is_forty_one_bytes() {
    let mut auth = Authentication { username: "someone".to_string(), password: "".to_string() };
    let mut buf = vec![9u8];
    let message = BackendMessage::AuthenticationMd5Password { salt: [0, 0, 0, 0] };
    assert!(matches!(auth.on_message(message, &mut buf), Ok(false)));
    assert_eq!(buf.len(), 1 + 41);
    assert_eq!(&buf[..6], &[9, b'p', 0, 0, 0, 40]);
    assert_eq!(buf[41], 0);
}
