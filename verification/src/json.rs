//! The JSON text of outgoing requests and notifications. The JSON encoding of
//! a method name and of a parameter value is serde_json's (for the name, as
//! serde_json's source writes a string); the envelope around them has the
//! members in the order serde_json writes an object's keys (sorted), without
//! whitespace.

use vstd::prelude::*;
use crate::decimal::{decimal_bytes, write_decimal, lemma_decimal_bytes_value, is_digit};
use crate::frame::{lsp_frame, prepare_lsp_json};
use vstd::utf8::{encode_utf8, is_ascii_chars, is_ascii_chars_encode_utf8, encode_scalar, is_scalar, has_width_1_encoding, has_width_2_encoding, has_width_3_encoding, leading_byte_width_1, leading_byte_width_2, leading_byte_width_3, leading_byte_width_4, last_continuation_byte, second_last_continuation_byte, third_last_continuation_byte};
use vstd::pervasive::unreached;

verus! {

#[verifier::external_type_specification]
#[verifier::external_body]
pub struct ExJsonValue(serde_json::Value);

#[verifier::external_type_specification]
#[verifier::external_body]
pub struct ExJsonError(serde_json::Error);

/// What `serde_json::to_string` returns for a JSON value: its compact text.
pub uninterp spec fn json_value_text(v: serde_json::Value) -> Seq<char>;

/// The lowercase hexadecimal digit of `d` (`d < 16`).
pub open spec fn hex_digit(d: u32) -> char {
    if d < 10 {
        (48 + d) as char
    } else {
        (87 + d) as char
    }
}

/// How serde_json writes one character inside a JSON string: `"` and `\`
/// behind a backslash, the control characters below U+0020 as `\b`, `\t`,
/// `\n`, `\f`, `\r` or `\u00XX` (lowercase hex), every other character as
/// it is.
pub open spec fn escape_char(c: char) -> Seq<char> {
    if c == '"' {
        seq!['\\', '"']
    } else if c == '\\' {
        seq!['\\', '\\']
    } else if c == '\u{8}' {
        seq!['\\', 'b']
    } else if c == '\t' {
        seq!['\\', 't']
    } else if c == '\n' {
        seq!['\\', 'n']
    } else if c == '\u{c}' {
        seq!['\\', 'f']
    } else if c == '\r' {
        seq!['\\', 'r']
    } else if (c as u32) < 0x20 {
        seq!['\\', 'u', '0', '0', hex_digit((c as u32) / 16), hex_digit((c as u32) % 16)]
    } else {
        seq![c]
    }
}

/// The escaped characters of a whole string.
pub open spec fn escape_chars(s: Seq<char>) -> Seq<char>
    decreases s.len(),
{
    if s.len() == 0 {
        Seq::empty()
    } else {
        escape_chars(s.drop_last()) + escape_char(s.last())
    }
}

/// The JSON string literal of `s`: its escaped characters between quotes.
pub open spec fn json_string_literal(s: Seq<char>) -> Seq<char> {
    seq!['"'] + escape_chars(s) + seq!['"']
}

/// Calls `serde_json::to_string` on a JSON value. Claimed: it succeeds (a
/// value's keys are strings and its numbers finite, and writing to a `Vec`
/// does not fail); its text is `json_value_text` of the value, so the same
/// value always gives the same text; and the text holds no line feed (the
/// compact format writes no whitespace, and a line feed inside a string is
/// written `\n`).
#[verifier::external_body]
pub(crate) fn encode_json_value(v: &serde_json::Value) -> (r: Result<String, serde_json::Error>)
    ensures
        r is Ok,
        r.unwrap()@ == json_value_text(*v),
        !r.unwrap()@.contains('\n'),
{
    serde_json::to_string(v)
}

/// Calls `serde_json::to_string` on a string slice. Claimed: it succeeds
/// (writing a string to a `Vec` does not fail) and gives the JSON string
/// literal `json_string_literal` of the characters.
#[verifier::external_body]
fn encode_json_string(s: &str) -> (r: Result<String, serde_json::Error>)
    ensures
        r is Ok,
        r.unwrap()@ == json_string_literal(s@),
{
    serde_json::to_string(s)
}

/// The UTF-8 bytes of a request
/// `{"id":<id>,"jsonrpc":"2.0","method":<method>,"params":<params>}`,
/// where `method` and `params` are JSON texts.
pub open spec fn request_body(id: nat, method: Seq<char>, params: Seq<char>) -> Seq<u8> {
    encode_utf8("{\"id\":"@) + decimal_bytes(id) + encode_utf8(",\"jsonrpc\":\"2.0\",\"method\":"@)
        + encode_utf8(method) + encode_utf8(",\"params\":"@) + encode_utf8(params) + encode_utf8(
        "}"@,
    )
}

/// The UTF-8 bytes of a notification
/// `{"jsonrpc":"2.0","method":<method>,"params":<params>}`,
/// where `method` and `params` are JSON texts.
pub open spec fn notification_body(method: Seq<char>, params: Seq<char>) -> Seq<u8> {
    encode_utf8("{\"jsonrpc\":\"2.0\",\"method\":"@) + encode_utf8(method) + encode_utf8(
        ",\"params\":"@,
    ) + encode_utf8(params) + encode_utf8("}"@)
}

fn push_str(out: &mut Vec<u8>, s: &str)
    ensures
        final(out)@ == old(out)@ + encode_utf8(s@),
{
    out.extend_from_slice(s.as_bytes());
}

/// The framed request with the given id, where the method name and the
/// parameters are given as JSON text.
pub fn frame_request(id: usize, method_json: &str, params_json: &str) -> (r: Vec<u8>)
    ensures
        r@ == lsp_frame(request_body(id as nat, method_json@, params_json@)),
{
    let mut body: Vec<u8> = Vec::new();
    push_str(&mut body, "{\"id\":");
    write_decimal(id, &mut body);
    push_str(&mut body, ",\"jsonrpc\":\"2.0\",\"method\":");
    push_str(&mut body, method_json);
    push_str(&mut body, ",\"params\":");
    push_str(&mut body, params_json);
    push_str(&mut body, "}");
    proof {
        assert(body@ =~= request_body(id as nat, method_json@, params_json@));
    }
    prepare_lsp_json(body.as_slice())
}

/// The framed notification, where the method name and the parameters are
/// given as JSON text.
pub fn frame_notification(method_json: &str, params_json: &str) -> (r: Vec<u8>)
    ensures
        r@ == lsp_frame(notification_body(method_json@, params_json@)),
{
    let mut body: Vec<u8> = Vec::new();
    push_str(&mut body, "{\"jsonrpc\":\"2.0\",\"method\":");
    push_str(&mut body, method_json);
    push_str(&mut body, ",\"params\":");
    push_str(&mut body, params_json);
    push_str(&mut body, "}");
    proof {
        assert(body@ =~= notification_body(method_json@, params_json@));
    }
    prepare_lsp_json(body.as_slice())
}

/// The JSON texts of the method name and of the parameters.
fn encode_parts(method: &str, params: &serde_json::Value) -> (r: (String, String))
    ensures
        r.0@ == json_string_literal(method@),
        r.1@ == json_value_text(*params),
        !r.1@.contains('\n'),
{
    let m = match encode_json_string(method) {
        Ok(m) => m,
        Err(_) => unreached(),
    };
    let p = match encode_json_value(params) {
        Ok(p) => p,
        Err(_) => unreached(),
    };
    (m, p)
}

/// The framed request with the given id, method and parameters, ready to be
/// written to the server.
pub fn request_frame(id: usize, method: &str, params: &serde_json::Value) -> (r: Vec<u8>)
    ensures
        r@ == lsp_frame(
            request_body(id as nat, json_string_literal(method@), json_value_text(*params)),
        ),
        !json_value_text(*params).contains('\n'),
        !request_body(id as nat, json_string_literal(method@), json_value_text(*params)).contains(
            10u8,
        ),
{
    let (m, p) = encode_parts(method, params);
    proof {
        lemma_string_literal_lacks_line_feed(method@);
        lemma_request_body_lacks_line_feed(id as nat, m@, p@);
    }
    frame_request(id, m.as_str(), p.as_str())
}

/// The framed notification with the given method and parameters, ready to be
/// written to the server.
pub fn notification_frame(method: &str, params: &serde_json::Value) -> (r: Vec<u8>)
    ensures
        r@ == lsp_frame(notification_body(json_string_literal(method@), json_value_text(*params))),
        !json_value_text(*params).contains('\n'),
        !notification_body(json_string_literal(method@), json_value_text(*params)).contains(10u8),
{
    let (m, p) = encode_parts(method, params);
    proof {
        lemma_string_literal_lacks_line_feed(method@);
        lemma_notification_body_lacks_line_feed(m@, p@);
    }
    frame_notification(m.as_str(), p.as_str())
}

/// A sequence made of two parts without `x` holds no `x`.
proof fn lemma_concat_lacks<A>(a: Seq<A>, b: Seq<A>, x: A)
    requires
        !a.contains(x),
        !b.contains(x),
    ensures
        !(a + b).contains(x),
{
    assert forall|i: int| 0 <= i < (a + b).len() implies (a + b)[i] != x by {
        if i < a.len() {
            assert((a + b)[i] == a[i]);
        } else {
            assert((a + b)[i] == b[i - a.len()]);
        }
    }
}

/// The UTF-8 encoding of a scalar other than U+000A holds no line feed byte.
proof fn lemma_scalar_lacks_line_feed(u: u32)
    requires
        is_scalar(u),
        u != 10,
    ensures
        !encode_scalar(u).contains(10u8),
{
    if has_width_1_encoding(u) {
        assert(leading_byte_width_1(u) != 10) by (bit_vector)
            requires
                u <= 0x7F,
                u != 10,
        ;
        assert(encode_scalar(u)[0] != 10);
    } else {
        assert(last_continuation_byte(u) != 10) by (bit_vector);
        if has_width_2_encoding(u) {
            assert(leading_byte_width_2(u) != 10) by (bit_vector);
            assert(encode_scalar(u)[0] != 10 && encode_scalar(u)[1] != 10);
        } else if has_width_3_encoding(u) {
            assert(leading_byte_width_3(u) != 10) by (bit_vector);
            assert(second_last_continuation_byte(u) != 10) by (bit_vector);
            assert(encode_scalar(u)[0] != 10 && encode_scalar(u)[1] != 10 && encode_scalar(u)[2]
                != 10);
        } else {
            assert(leading_byte_width_4(u) != 10) by (bit_vector);
            assert(second_last_continuation_byte(u) != 10) by (bit_vector);
            assert(third_last_continuation_byte(u) != 10) by (bit_vector);
            assert(encode_scalar(u)[0] != 10 && encode_scalar(u)[1] != 10 && encode_scalar(u)[2]
                != 10 && encode_scalar(u)[3] != 10);
        }
    }
}

/// Text without a line feed encodes to bytes without a line feed byte.
pub proof fn lemma_utf8_lacks_line_feed(s: Seq<char>)
    requires
        !s.contains('\n'),
    ensures
        !encode_utf8(s).contains(10u8),
    decreases s.len(),
{
    if s.len() > 0 {
        assert(s[0] != '\n');
        assert(!s.drop_first().contains('\n')) by {
            assert forall|i: int| 0 <= i < s.drop_first().len() implies s.drop_first()[i] != '\n' by {
                assert(s.drop_first()[i] == s[i + 1]);
            }
        }
        lemma_utf8_lacks_line_feed(s.drop_first());
        vstd::utf8::char_is_scalar(s[0]);
        assert(s[0] as u32 != 10) by {
            assert('\n' as u32 == 10);
            vstd::utf8::char_u32_cast('\n', 10u32);
            if s[0] as u32 == 10 {
                vstd::utf8::char_u32_cast(s[0], 10u32);
            }
        }
        lemma_scalar_lacks_line_feed(s[0] as u32);
        lemma_concat_lacks(encode_scalar(s[0] as u32), encode_utf8(s.drop_first()), 10u8);
    }
}

/// serde_json's escaping leaves no line feed in a string literal.
pub proof fn lemma_string_literal_lacks_line_feed(s: Seq<char>)
    ensures
        !escape_chars(s).contains('\n'),
        !json_string_literal(s).contains('\n'),
    decreases s.len(),
{
    if s.len() > 0 {
        lemma_string_literal_lacks_line_feed(s.drop_last());
        let c = s.last();
        let e = escape_char(c);
        assert(!e.contains('\n')) by {
            if (c as u32) < 0x20 && c != '"' && c != '\\' && c != '\u{8}' && c != '\t' && c != '\n'
                && c != '\u{c}' && c != '\r' {
                let hi = (c as u32) / 16;
                let lo = (c as u32) % 16;
                assert(hex_digit(hi) != '\n');
                assert(hex_digit(lo) != '\n');
                assert(e[4] != '\n' && e[5] != '\n');
            }
        }
        lemma_concat_lacks(escape_chars(s.drop_last()), e, '\n');
    }
    lemma_concat_lacks(seq!['"'], escape_chars(s), '\n');
    lemma_concat_lacks(seq!['"'] + escape_chars(s), seq!['"'], '\n');
}

/// The decimal text of a number holds no line feed byte.
proof fn lemma_decimal_lacks_line_feed(n: nat)
    ensures
        !decimal_bytes(n).contains(10u8),
{
    lemma_decimal_bytes_value(n);
    assert forall|i: int| 0 <= i < decimal_bytes(n).len() implies decimal_bytes(n)[i] != 10u8 by {
        assert(is_digit(decimal_bytes(n)[i]));
    }
}

/// A request's body holds no line feed byte when the method name and the
/// parameters, as JSON text, hold none.
pub proof fn lemma_request_body_lacks_line_feed(id: nat, method: Seq<char>, params: Seq<char>)
    requires
        !method.contains('\n'),
        !params.contains('\n'),
    ensures
        !request_body(id, method, params).contains(10u8),
{
    reveal_strlit("{\"id\":");
    reveal_strlit(",\"jsonrpc\":\"2.0\",\"method\":");
    reveal_strlit(",\"params\":");
    reveal_strlit("}");
    lemma_utf8_lacks_line_feed("{\"id\":"@);
    lemma_utf8_lacks_line_feed(",\"jsonrpc\":\"2.0\",\"method\":"@);
    lemma_utf8_lacks_line_feed(",\"params\":"@);
    lemma_utf8_lacks_line_feed("}"@);
    lemma_decimal_lacks_line_feed(id);
    lemma_utf8_lacks_line_feed(method);
    lemma_utf8_lacks_line_feed(params);
    let a = encode_utf8("{\"id\":"@);
    let b = a + decimal_bytes(id);
    lemma_concat_lacks(a, decimal_bytes(id), 10u8);
    let c = b + encode_utf8(",\"jsonrpc\":\"2.0\",\"method\":"@);
    lemma_concat_lacks(b, encode_utf8(",\"jsonrpc\":\"2.0\",\"method\":"@), 10u8);
    let d = c + encode_utf8(method);
    lemma_concat_lacks(c, encode_utf8(method), 10u8);
    let e = d + encode_utf8(",\"params\":"@);
    lemma_concat_lacks(d, encode_utf8(",\"params\":"@), 10u8);
    let f = e + encode_utf8(params);
    lemma_concat_lacks(e, encode_utf8(params), 10u8);
    lemma_concat_lacks(f, encode_utf8("}"@), 10u8);
}

/// A notification's body holds no line feed byte when the method name and
/// the parameters, as JSON text, hold none.
pub proof fn lemma_notification_body_lacks_line_feed(method: Seq<char>, params: Seq<char>)
    requires
        !method.contains('\n'),
        !params.contains('\n'),
    ensures
        !notification_body(method, params).contains(10u8),
{
    reveal_strlit("{\"jsonrpc\":\"2.0\",\"method\":");
    reveal_strlit(",\"params\":");
    reveal_strlit("}");
    lemma_utf8_lacks_line_feed("{\"jsonrpc\":\"2.0\",\"method\":"@);
    lemma_utf8_lacks_line_feed(",\"params\":"@);
    lemma_utf8_lacks_line_feed("}"@);
    lemma_utf8_lacks_line_feed(method);
    lemma_utf8_lacks_line_feed(params);
    let a = encode_utf8("{\"jsonrpc\":\"2.0\",\"method\":"@);
    lemma_concat_lacks(a, encode_utf8(method), 10u8);
    let b = a + encode_utf8(method);
    lemma_concat_lacks(b, encode_utf8(",\"params\":"@), 10u8);
    let c = b + encode_utf8(",\"params\":"@);
    lemma_concat_lacks(c, encode_utf8(params), 10u8);
    lemma_concat_lacks(c + encode_utf8(params), encode_utf8("}"@), 10u8);
}

/// The UTF-8 bytes of ASCII text are its characters' codes.
proof fn lemma_ascii_bytes(s: Seq<char>, b: Seq<u8>)
    requires
        s.len() == b.len(),
        forall|i: int| 0 <= i < s.len() ==> b[i] < 128 && #[trigger] s[i] == (b[i] as char),
    ensures
        encode_utf8(s) == b,
{
    assert(is_ascii_chars(s)) by {
        assert forall|i: int| 0 <= i < s.len() implies '\0' <= #[trigger] s[i] <= '\u{7f}' by {
            assert(s[i] == (b[i] as char));
        }
    }
    is_ascii_chars_encode_utf8(s);
    assert forall|i: int| 0 <= i < s.len() implies #[trigger] encode_utf8(s)[i] == b[i] by {
        assert(encode_utf8(s)[i] == s[i] as u8);
        assert(s[i] == (b[i] as char));
    }
    assert(encode_utf8(s) =~= b);
}

/// A request's body is the whole JSON object
/// `{"id":<id>,"jsonrpc":"2.0","method":<method>,"params":<params>}`, byte
/// for byte, for every id, method name and parameters: it opens with `{`,
/// closes with `}`, and has 43 bytes besides those of the id, the method
/// name and the parameters.
pub proof fn lemma_request_body_bytes(id: nat, method: Seq<char>, params: Seq<char>)
    ensures
        request_body(id, method, params) == seq![123u8, 34, 105, 100, 34, 58] + decimal_bytes(id)
            + seq![
            44u8, 34, 106, 115, 111, 110, 114, 112, 99, 34, 58, 34, 50, 46, 48, 34, 44, 34, 109,
            101, 116, 104, 111, 100, 34, 58,
        ] + encode_utf8(method) + seq![44u8, 34, 112, 97, 114, 97, 109, 115, 34, 58]
            + encode_utf8(params) + seq![125u8],
        request_body(id, method, params).len() == 43 + decimal_bytes(id).len() + encode_utf8(
            method,
        ).len() + encode_utf8(params).len(),
        request_body(id, method, params)[0] == 123u8,
        request_body(id, method, params).last() == 125u8,
{
    reveal_strlit("{\"id\":");
    reveal_strlit(",\"jsonrpc\":\"2.0\",\"method\":");
    reveal_strlit(",\"params\":");
    reveal_strlit("}");
    lemma_ascii_bytes("{\"id\":"@, seq![123u8, 34, 105, 100, 34, 58]);
    lemma_ascii_bytes(
        ",\"jsonrpc\":\"2.0\",\"method\":"@,
        seq![
            44u8, 34, 106, 115, 111, 110, 114, 112, 99, 34, 58, 34, 50, 46, 48, 34, 44, 34, 109,
            101, 116, 104, 111, 100, 34, 58,
        ],
    );
    lemma_ascii_bytes(",\"params\":"@, seq![44u8, 34, 112, 97, 114, 97, 109, 115, 34, 58]);
    lemma_ascii_bytes("}"@, seq![125u8]);
}

/// A notification's body is the whole JSON object
/// `{"jsonrpc":"2.0","method":<method>,"params":<params>}`, byte for byte,
/// for every method name and parameters (`{}` included): it opens with `{`,
/// closes with `}`, and has 37 bytes besides those of the method name and
/// the parameters.
pub proof fn lemma_notification_body_bytes(method: Seq<char>, params: Seq<char>)
    ensures
        notification_body(method, params) == seq![
            123u8, 34, 106, 115, 111, 110, 114, 112, 99, 34, 58, 34, 50, 46, 48, 34, 44, 34, 109,
            101, 116, 104, 111, 100, 34, 58,
        ] + encode_utf8(method) + seq![44u8, 34, 112, 97, 114, 97, 109, 115, 34, 58]
            + encode_utf8(params) + seq![125u8],
        notification_body(method, params).len() == 37 + encode_utf8(method).len() + encode_utf8(
            params,
        ).len(),
        notification_body(method, params)[0] == 123u8,
        notification_body(method, params).last() == 125u8,
{
    reveal_strlit("{\"jsonrpc\":\"2.0\",\"method\":");
    reveal_strlit(",\"params\":");
    reveal_strlit("}");
    lemma_ascii_bytes(
        "{\"jsonrpc\":\"2.0\",\"method\":"@,
        seq![
            123u8, 34, 106, 115, 111, 110, 114, 112, 99, 34, 58, 34, 50, 46, 48, 34, 44, 34, 109,
            101, 116, 104, 111, 100, 34, 58,
        ],
    );
    lemma_ascii_bytes(",\"params\":"@, seq![44u8, 34, 112, 97, 114, 97, 109, 115, 34, 58]);
    lemma_ascii_bytes("}"@, seq![125u8]);
}

} // verus!
