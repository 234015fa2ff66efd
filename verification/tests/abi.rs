use irodori_trino::abi::{
    accept_request, buffer_to_string, connection_id, error, json_buffer, max_rows, ok,
    owned_buffer, parse_request, profile_field, request_method, static_buffer, string_field,
    IrodoriConnectorBuffer,
};
use irodori_trino::codec::parse_json;
use irodori_trino::json::{no_fields, put_field, Json};

fn request(text: &str) -> Json {
    parse_json(text).unwrap()
}

fn text_of(buffer: IrodoriConnectorBuffer) -> String {
    buffer_to_string(&buffer).unwrap()
}

#[test]
fn buffers_give_back_their_text() {
    for text in ["", "x", "h\u{e9}llo \u{1f600}"] {
        let buffer = owned_buffer(text.to_string());
        assert_eq!(buffer.len, text.len());
        assert_eq!(buffer_to_string(&buffer).unwrap(), text);
    }
    assert_eq!(text_of(static_buffer("fixed")), "fixed");
    assert_eq!(text_of(json_buffer(request("[1, 2]"))), "[1,2]");
}

#[test]
fn null_pointers_are_empty_or_refused() {
    let empty = IrodoriConnectorBuffer { ptr: None, len: 0 };
    assert_eq!(buffer_to_string(&empty), Ok(String::new()));
    let claims = IrodoriConnectorBuffer { ptr: None, len: 3 };
    assert_eq!(buffer_to_string(&claims), Err(()));
}

#[test]
fn bytes_that_are_no_text_are_refused() {
    for bytes in [vec![0xff], vec![0xc3], vec![0xed, 0xa0, 0x80], vec![0xc0, 0x80]] {
        let len = bytes.len();
        let buffer = IrodoriConnectorBuffer {
            ptr: Some(bytes),
            len,
        };
        assert_eq!(buffer_to_string(&buffer), Err(()));
        let refused = text_of(parse_request(&buffer).unwrap_err());
        assert_eq!(
            refused,
            "{\"error\":{\"code\":\"connector.invalidRequest\",\"message\":\"Connector request buffer must be empty or valid UTF-8 JSON.\"},\"ok\":false}"
        );
    }
}

#[test]
fn requests_are_read_from_their_buffer() {
    let read = |text: &str| parse_request(&owned_buffer(text.to_string()));
    assert_eq!(read("").unwrap(), None);
    assert_eq!(read(" \u{3000}\n").unwrap(), None);
    assert_eq!(read(" {\"a\":true}\u{a0}").unwrap(), Some(request("{\"a\":true}")));
    assert_eq!(
        text_of(read("{").unwrap_err()),
        "{\"error\":{\"code\":\"connector.invalidJson\",\"message\":\"Connector request must be valid JSON: EOF while parsing an object at line 1 column 1\"},\"ok\":false}"
    );
}

#[test]
fn what_was_read_decides_over_the_request() {
    assert_eq!(accept_request(Ok(Json::Null)).unwrap(), Some(Json::Null));
    let refused = accept_request(Err("why".to_string())).unwrap_err();
    assert_eq!(
        text_of(refused),
        "{\"error\":{\"code\":\"connector.invalidJson\",\"message\":\"Connector request must be valid JSON: why\"},\"ok\":false}"
    );
}

#[test]
fn answers_say_how_it_went_in_ok() {
    let mut fields = no_fields();
    put_field(&mut fields, "ok", Json::Bool(false));
    put_field(&mut fields, "n", Json::Null);
    assert_eq!(text_of(ok(fields)), "{\"n\":null,\"ok\":true}");
    assert_eq!(text_of(ok(no_fields())), "{\"ok\":true}");
    assert_eq!(
        text_of(error("a.b", "c \"d\"".to_string())),
        "{\"error\":{\"code\":\"a.b\",\"message\":\"c \\\"d\\\"\"},\"ok\":false}"
    );
}

#[test]
fn methods_are_texts_that_are_not_blank() {
    assert_eq!(request_method(None).unwrap(), "health");
    let named = request("{\"method\":\" query \"}");
    assert_eq!(request_method(Some(&named)).unwrap(), " query ");
    for text in ["{}", "{\"method\":\" \"}", "{\"method\":1}", "[]", "\"method\""] {
        let value = request(text);
        let refused = request_method(Some(&value)).unwrap_err();
        assert_eq!(
            text_of(refused),
            "{\"error\":{\"code\":\"connector.invalidRequest\",\"message\":\"Connector request needs a string method.\"},\"ok\":false}"
        );
    }
}

#[test]
fn fields_come_from_the_request_before_the_profile() {
    let value = request("{\"a\":\" \",\"b\":\"near\",\"profile\":{\"a\":\"far\",\"b\":\"far\",\"c\":3}}");
    assert_eq!(string_field(&value, "a"), None);
    assert_eq!(string_field(&value, "b"), Some("near"));
    assert_eq!(profile_field(&value, "a"), Some("far"));
    assert_eq!(profile_field(&value, "b"), Some("near"));
    assert_eq!(profile_field(&value, "c"), None);
    assert_eq!(profile_field(&value, "d"), None);
}

#[test]
fn connections_have_trimmed_names() {
    let id = |text: &str| connection_id(Some(&request(text)));
    assert_eq!(connection_id(None), "default");
    assert_eq!(id("{}"), "default");
    assert_eq!(id("{\"connectionId\":\" a \",\"id\":\"b\"}"), "a");
    assert_eq!(id("{\"connectionId\":\"  \",\"id\":\"b\"}"), "b");
    assert_eq!(id("{\"profile\":{\"id\":\"c\"}}"), "c");
    assert_eq!(id("{\"id\":7,\"profile\":{\"id\":\"c\"}}"), "c");
}

#[test]
fn row_limits_are_kept_within_bounds() {
    let rows = |text: &str| max_rows(&request(text));
    assert_eq!(rows("{}"), 10_000);
    assert_eq!(rows("{\"maxRows\":0}"), 1);
    assert_eq!(rows("{\"maxRows\":1}"), 1);
    assert_eq!(rows("{\"maxRows\":7,\"limit\":9}"), 7);
    assert_eq!(rows("{\"limit\":9}"), 9);
    assert_eq!(rows("{\"maxRows\":100000}"), 100_000);
    assert_eq!(rows("{\"maxRows\":100001}"), 100_000);
    assert_eq!(rows("{\"maxRows\":18446744073709551615}"), 100_000);
    assert_eq!(rows("{\"maxRows\":-1}"), 10_000);
    assert_eq!(rows("{\"maxRows\":1.5}"), 10_000);
    // A limit that is there but is no number keeps the other from being looked at.
    assert_eq!(rows("{\"maxRows\":null,\"limit\":9}"), 10_000);
}
