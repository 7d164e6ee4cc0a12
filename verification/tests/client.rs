use lsp_client::client::{Dispatch, LanguageServer, Refusal, Reply};
use lsp_client::decimal::{parse_decimal, write_decimal};
use lsp_client::frame::{header_step, parse_header_line, prepare_lsp_json, HeaderLine, HeaderStep};
use lsp_client::json::{frame_notification, frame_request, notification_frame, request_frame};
use lsp_client::message::{RpcId, RpcMessage};
use serde_json::Value;

fn value(text: &str) -> Value {
    serde_json::from_str(text).unwrap()
}

/// The frame that serde_json itself produces for an object with these members.
fn serde_frame(members: Vec<(&str, Value)>) -> Vec<u8> {
    let mut map = serde_json::Map::new();
    for (k, v) in members {
        map.insert(k.to_string(), v);
    }
    let text = serde_json::to_string(&Value::Object(map)).unwrap();
    format!("Content-Length: {}\r\n\r\n{}", text.len(), text).into_bytes()
}

fn expect_deliver(d: Dispatch<u32>) -> (u32, Reply) {
    match d {
        Dispatch::Deliver(c, r) => (c, r),
        _ => panic!("expected a delivery"),
    }
}

#[test]
fn frame_of_small_body() {
    assert_eq!(prepare_lsp_json(b"{}"), b"Content-Length: 2\r\n\r\n{}".to_vec());
}

#[test]
fn frame_counts_bytes_not_chars() {
    let body = "\"\u{e9}\"".as_bytes();
    assert_eq!(body.len(), 4);
    let mut expected = b"Content-Length: 4\r\n\r\n".to_vec();
    expected.extend_from_slice(body);
    assert_eq!(prepare_lsp_json(body), expected);
}

#[test]
fn frame_of_empty_body() {
    assert_eq!(prepare_lsp_json(b""), b"Content-Length: 0\r\n\r\n".to_vec());
}

#[test]
fn decimal_examples() {
    for n in [0usize, 7, 10, 42, 1000, 123456789, usize::MAX] {
        let mut out = Vec::new();
        write_decimal(n, &mut out);
        assert_eq!(out, n.to_string().into_bytes());
        assert_eq!(parse_decimal(&out), Some(n));
    }
}

#[test]
fn decimal_rejects_non_digits_and_overflow() {
    assert_eq!(parse_decimal(b""), None);
    assert_eq!(parse_decimal(b"12a"), None);
    assert_eq!(parse_decimal(b"-1"), None);
    assert_eq!(parse_decimal(b" 1"), None);
    assert_eq!(parse_decimal(b"007"), Some(7));
    let too_big = format!("{}0", usize::MAX);
    assert_eq!(parse_decimal(too_big.as_bytes()), None);
}

#[test]
fn header_lines() {
    assert_eq!(parse_header_line(b"\r\n"), HeaderLine::End);
    assert_eq!(parse_header_line(b"Content-Length: 52\r\n"), HeaderLine::ContentLength(52));
    assert_eq!(
        parse_header_line(b"Content-Type: application/vscode-jsonrpc; charset=utf-8\r\n"),
        HeaderLine::Other
    );
    assert_eq!(parse_header_line(b"Content-Length: 52"), HeaderLine::Malformed);
    assert_eq!(parse_header_line(b"Content-Length: x\r\n"), HeaderLine::Malformed);
    assert_eq!(parse_header_line(b"Content-Length: \r\n"), HeaderLine::Malformed);
    assert_eq!(parse_header_line(b"\n"), HeaderLine::Malformed);
    assert_eq!(parse_header_line(b""), HeaderLine::Malformed);
}

#[test]
fn header_of_frame_reads_back() {
    let frame = prepare_lsp_json(b"{\"a\":1}");
    let end = frame.iter().position(|b| *b == b'\n').unwrap() + 1;
    assert_eq!(parse_header_line(&frame[..end]), HeaderLine::ContentLength(7));
    assert_eq!(parse_header_line(&frame[end..end + 2]), HeaderLine::End);
    assert_eq!(&frame[end + 2..], b"{\"a\":1}");
}

#[test]
fn request_frame_matches_serde_json() {
    let params = value(r#"{"process_id":"Null","key_sequence":"woshiyigeren"}"#);
    let expected = serde_frame(vec![
        ("jsonrpc", Value::String("2.0".to_string())),
        ("id", Value::from(1u64)),
        ("method", Value::String("simulate_key_sequence".to_string())),
        ("params", params.clone()),
    ]);
    assert_eq!(request_frame(1, "simulate_key_sequence", &params), expected);
}

#[test]
fn request_frame_escapes_method_and_keeps_unicode() {
    let params = value(r#"[1, "\u00e9", null, {"b": [true]}]"#);
    let method = "we\"ird\\method\n\u{4e2d}";
    let expected = serde_frame(vec![
        ("id", Value::from(987654321u64)),
        ("jsonrpc", Value::String("2.0".to_string())),
        ("method", Value::String(method.to_string())),
        ("params", params.clone()),
    ]);
    assert_eq!(request_frame(987654321, method, &params), expected);
}

#[test]
fn notification_frame_matches_serde_json() {
    let params = value(r#"{"uri":"file:///a.rs","version":3}"#);
    let expected = serde_frame(vec![
        ("method", Value::String("textDocument/didOpen".to_string())),
        ("jsonrpc", Value::String("2.0".to_string())),
        ("params", params.clone()),
    ]);
    assert_eq!(notification_frame("textDocument/didOpen", &params), expected);
}

#[test]
fn requests_get_consecutive_ids() {
    let mut ls: LanguageServer<u32> = LanguageServer::new();
    let params = Value::Null;
    assert_eq!(ls.next_request_id(), 1);
    let f1 = ls.send_request("a", &params, 10);
    let f2 = ls.send_request("b", &params, 20);
    assert_eq!(f1, request_frame(1, "a", &params));
    assert_eq!(f2, request_frame(2, "b", &params));
    assert_eq!(ls.next_request_id(), 3);
    assert!(ls.is_pending(1) && ls.is_pending(2) && !ls.is_pending(3));
}

#[test]
fn notification_leaves_state_alone() {
    let mut ls: LanguageServer<u32> = LanguageServer::new();
    ls.send_request("a", &Value::Null, 1);
    let f = ls.send_notification("exit", &Value::Null);
    assert_eq!(f, notification_frame("exit", &Value::Null));
    assert_eq!(ls.next_request_id(), 2);
    assert!(ls.is_pending(1));
}

#[test]
fn success_response_reaches_its_callback() {
    let mut ls: LanguageServer<u32> = LanguageServer::new();
    ls.send_request("a", &Value::Null, 100);
    ls.send_request("b", &Value::Null, 200);
    let msg = value(r#"{"jsonrpc":"2.0","id":2,"result":{"ok":[1,2]}}"#);
    let (cb, reply) = expect_deliver(ls.handle_msg(&msg));
    assert_eq!(cb, 200);
    match reply {
        Reply::Result(v) => assert_eq!(v, value(r#"{"ok":[1,2]}"#)),
        Reply::Error(_) => panic!("expected a result"),
    }
    assert!(ls.is_pending(1) && !ls.is_pending(2));
}

#[test]
fn error_response_reaches_its_callback() {
    let mut ls: LanguageServer<u32> = LanguageServer::new();
    ls.send_request("a", &Value::Null, 5);
    let msg = value(r#"{"jsonrpc":"2.0","id":1,"error":{"code":-32601,"message":"Method not found"}}"#);
    let (cb, reply) = expect_deliver(ls.handle_msg(&msg));
    assert_eq!(cb, 5);
    match reply {
        Reply::Error(m) => assert_eq!(m, "Method not found"),
        Reply::Result(_) => panic!("expected an error"),
    }
    assert!(!ls.is_pending(1));
}

#[test]
fn response_is_delivered_only_once() {
    let mut ls: LanguageServer<u32> = LanguageServer::new();
    ls.send_request("a", &Value::Null, 5);
    let msg = value(r#"{"jsonrpc":"2.0","id":1,"result":null}"#);
    expect_deliver(ls.handle_msg(&msg));
    assert_eq!(ls.try_handle_msg(&msg).err(), Some(Refusal::UnknownId(1)));
}

#[test]
fn unknown_and_invalid_ids() {
    let mut ls: LanguageServer<u32> = LanguageServer::new();
    ls.send_request("a", &Value::Null, 5);
    let unknown = value(r#"{"jsonrpc":"2.0","id":9,"result":1}"#);
    assert_eq!(ls.try_handle_msg(&unknown).err(), Some(Refusal::UnknownId(9)));
    let negative = value(r#"{"jsonrpc":"2.0","id":-1,"result":1}"#);
    assert_eq!(ls.try_handle_msg(&negative).err(), Some(Refusal::InvalidId(-1)));
    assert!(ls.is_pending(1));
}

#[test]
fn other_messages_are_ignored() {
    let mut ls: LanguageServer<u32> = LanguageServer::new();
    ls.send_request("a", &Value::Null, 5);
    for text in [
        r#"{"jsonrpc":"2.0","id":"1","result":1}"#,
        r#"{"jsonrpc":"2.0","id":null,"result":1}"#,
        r#"{"jsonrpc":"2.0","method":"window/logMessage","params":{"type":3}}"#,
        r#"{"jsonrpc":"2.0","id":1,"method":"workspace/configuration","params":{}}"#,
        r#"{"hello":"world"}"#,
        r#"[1,2,3]"#,
        r#"42"#,
    ] {
        assert!(matches!(ls.handle_msg(&value(text)), Dispatch::Ignored), "{}", text);
    }
    assert!(ls.is_pending(1));
    assert_eq!(ls.next_request_id(), 2);
}

#[test]
fn dispatch_of_parsed_messages() {
    let mut ls: LanguageServer<&str> = LanguageServer::new();
    ls.send_request("a", &Value::Null, "first");
    let d = ls.dispatch(RpcMessage::Failure { id: RpcId::Num(1), message: "bad".to_string() });
    match d {
        Dispatch::Deliver(c, Reply::Error(m)) => {
            assert_eq!(c, "first");
            assert_eq!(m, "bad");
        }
        _ => panic!("expected an error delivery"),
    }
    assert!(matches!(ls.dispatch(RpcMessage::Notification), Dispatch::Ignored));
    assert!(matches!(ls.dispatch(RpcMessage::Request), Dispatch::Ignored));
    let s = ls.dispatch(RpcMessage::Success { id: RpcId::Str("1".to_string()), result: Value::Null });
    assert!(matches!(s, Dispatch::Ignored));
}

#[test]
fn handle_response_and_error_directly() {
    let mut ls: LanguageServer<u8> = LanguageServer::new();
    ls.send_request("a", &Value::Null, 1);
    ls.send_request("b", &Value::Null, 2);
    let (c, r) = ls.handle_response(2, Value::Bool(true));
    assert_eq!(c, 2);
    assert!(matches!(r, Reply::Result(Value::Bool(true))));
    let (c, r) = ls.handle_error(1, "oops".to_string());
    assert_eq!(c, 1);
    assert!(matches!(r, Reply::Error(ref m) if m == "oops"));
    assert!(!ls.is_pending(1) && !ls.is_pending(2));
}

#[test]
fn frames_from_json_parts() {
    assert_eq!(
        frame_request(12, "\"m\"", "[1]"),
        b"Content-Length: 51\r\n\r\n{\"id\":12,\"jsonrpc\":\"2.0\",\"method\":\"m\",\"params\":[1]}".to_vec()
    );
    assert_eq!(
        frame_notification("\"m\"", "null"),
        b"Content-Length: 44\r\n\r\n{\"jsonrpc\":\"2.0\",\"method\":\"m\",\"params\":null}".to_vec()
    );
}

#[test]
fn key_sequence_round_trip() {
    let mut ls: LanguageServer<u32> = LanguageServer::new();
    let params = value(r#"{"process_id":"Null","key_sequence":"woshiyigeren"}"#);
    let frame = ls.send_request("simulate_key_sequence", &params, 42);
    let text = String::from_utf8(frame).unwrap();
    let body = text.split("\r\n\r\n").nth(1).unwrap();
    let sent: Value = serde_json::from_str(body).unwrap();
    assert_eq!(sent["id"], Value::from(1u64));
    assert_eq!(sent["method"], Value::String("simulate_key_sequence".to_string()));
    assert_eq!(sent["params"], params);
    let reply = value(r#"{"jsonrpc":"2.0","id":1,"result":{"commit":"wo shi yi ge ren"}}"#);
    let (cb, r) = expect_deliver(ls.handle_msg(&reply));
    assert_eq!(cb, 42);
    assert!(matches!(r, Reply::Result(ref v) if v["commit"] == Value::String("wo shi yi ge ren".to_string())));
}

#[test]
fn header_block_steps() {
    let mut length = None;
    let lines: [&[u8]; 4] = [
        b"Content-Length: 10\r\n",
        b"Content-Type: application/vscode-jsonrpc; charset=utf-8\r\n",
        b"Content-Length: 12\r\n",
        b"\r\n",
    ];
    let mut end = None;
    for line in lines {
        match header_step(length, line) {
            HeaderStep::Continue(l) => length = l,
            HeaderStep::Body(n) => end = Some(n),
            other => panic!("unexpected {:?}", other),
        }
    }
    assert_eq!(end, Some(12));
    assert_eq!(header_step(None, b"\r\n"), HeaderStep::MissingLength);
    assert_eq!(header_step(Some(3), b"Content-Length: 1"), HeaderStep::Malformed);
    assert_eq!(header_step(Some(3), b"X: y\r\n"), HeaderStep::Continue(Some(3)));
}

#[test]
fn interleaved_responses_reach_their_callbacks() {
    let mut ls: LanguageServer<u32> = LanguageServer::new();
    for cb in 1..=5u32 {
        ls.send_request("m", &Value::Null, cb * 10);
    }
    assert_eq!(ls.next_request_id(), 6);
    for id in [3usize, 1, 5] {
        let msg = value(&format!(r#"{{"jsonrpc":"2.0","id":{},"result":{}}}"#, id, id));
        let (cb, _) = expect_deliver(ls.handle_msg(&msg));
        assert_eq!(cb, id as u32 * 10);
    }
    ls.send_request("m", &Value::Null, 60);
    let msg = value(r#"{"jsonrpc":"2.0","id":3,"result":null}"#);
    assert_eq!(ls.try_handle_msg(&msg).err(), Some(Refusal::UnknownId(3)));
    for id in [2usize, 4, 6] {
        let msg = value(&format!(r#"{{"jsonrpc":"2.0","id":{},"error":{{"code":1,"message":"e{}"}}}}"#, id, id));
        let (cb, reply) = expect_deliver(ls.handle_msg(&msg));
        assert_eq!(cb, id as u32 * 10);
        assert!(matches!(reply, Reply::Error(ref m) if *m == format!("e{}", id)));
    }
    for id in 1..=6usize {
        assert!(!ls.is_pending(id));
    }
}

#[test]
fn encoded_text_has_no_line_feed() {
    let params = value(r#"{"text":"line one\nline two","n":[1.5, -2]}"#);
    let frame = request_frame(4, "a\nb", &params);
    let text = String::from_utf8(frame).unwrap();
    let body = text.split("\r\n\r\n").nth(1).unwrap();
    assert!(!body.contains('\n'));
    let read: Value = serde_json::from_str(body).unwrap();
    assert_eq!(read["params"], params);
    assert_eq!(read["method"], Value::String("a\nb".to_string()));
}

#[test]
fn method_escaping_of_control_characters() {
    let method = "\u{1}\u{8}\u{c}\u{1f}\u{7f}/";
    let literal = serde_json::to_string(method).unwrap();
    assert_eq!(literal, "\"\\u0001\\b\\f\\u001f\u{7f}/\"");
    let expected = frame_notification(&literal, "null");
    assert_eq!(notification_frame(method, &Value::Null), expected);
}

#[test]
fn refusal_of_parsed_responses() {
    let mut ls: LanguageServer<u8> = LanguageServer::new();
    ls.send_request("a", &Value::Null, 1);
    let pending = RpcMessage::Success { id: RpcId::Num(1), result: Value::Null };
    assert_eq!(ls.refusal(&pending), None);
    let unknown = RpcMessage::Failure { id: RpcId::Num(2), message: "x".to_string() };
    assert_eq!(ls.refusal(&unknown), Some(Refusal::UnknownId(2)));
    let negative = RpcMessage::Success { id: RpcId::Num(-7), result: Value::Null };
    assert_eq!(ls.refusal(&negative), Some(Refusal::InvalidId(-7)));
    assert_eq!(ls.refusal(&RpcMessage::Notification), None);
    assert_eq!(ls.refusal(&RpcMessage::Success { id: RpcId::Null, result: Value::Null }), None);
}

#[test]
fn refused_message_changes_nothing() {
    let mut ls: LanguageServer<u8> = LanguageServer::new();
    ls.send_request("a", &Value::Null, 1);
    let unknown = value(r#"{"jsonrpc":"2.0","id":2,"error":{"code":1,"message":"m"}}"#);
    assert_eq!(ls.try_handle_msg(&unknown).err(), Some(Refusal::UnknownId(2)));
    assert!(ls.is_pending(1));
    assert_eq!(ls.next_request_id(), 2);
    let ok = value(r#"{"jsonrpc":"2.0","id":1,"result":true}"#);
    match ls.try_handle_msg(&ok) {
        Ok(Dispatch::Deliver(1, Reply::Result(Value::Bool(true)))) => {}
        _ => panic!("expected a delivery"),
    }
}
