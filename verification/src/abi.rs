//! Buffers and requests of the connector ABI: how a request is read, which of
//! its fields say what, and how an answer is framed.

use crate::codec::{json_parsed, json_text, parse_json, render_json};
use crate::entries::map_of;
use crate::json::{
    entries_view, group_json_view, json_of, no_fields, put_field, Json, JsonView, NumberView,
};
use crate::text::{
    is_blank, slice_of, trim, trimmed, trimmed_end, trimmed_start, trimming_settles,
};
use vstd::prelude::*;
use vstd::slice::slice_subrange;
use vstd::utf8::{decode_utf8, encode_utf8, valid_utf8};

verus! {

/// A run of bytes that crosses the ABI. `ptr` is the memory that the pointer
/// leads to, nothing for the null pointer, and `len` how much of it counts.
#[derive(Debug)]
pub struct IrodoriConnectorBuffer {
    pub ptr: Option<Vec<u8>>,
    pub len: usize,
}

impl IrodoriConnectorBuffer {
    /// Whether the memory behind the pointer is as long as the buffer says.
    pub open spec fn readable(self) -> bool {
        self.ptr matches Some(memory) ==> self.len <= memory@.len()
    }

    /// The bytes of the buffer, nothing for the null pointer.
    pub open spec fn bytes(self) -> Option<Seq<u8>> {
        match self.ptr {
            Some(memory) => Some(memory@.take(self.len as int)),
            None => None,
        }
    }

    /// Whether this is the buffer of `text`: its encoding, and no more memory.
    pub open spec fn holds(self, text: Seq<char>) -> bool {
        &&& self.ptr matches Some(memory)
        &&& memory@ == encode_utf8(text)
        &&& self.len == memory@.len()
    }

    /// The text in the buffer, where there is one: the null pointer stands for
    /// the empty text when the length is zero.
    pub open spec fn text(self) -> Option<Seq<char>> {
        match self.bytes() {
            Some(bytes) => if valid_utf8(bytes) {
                Some(decode_utf8(bytes))
            } else {
                None
            },
            None => if self.len == 0 {
                Some(Seq::empty())
            } else {
                None
            },
        }
    }
}

/// `std::str::from_utf8`: the text that the bytes encode, where they encode one.
#[verifier::external_body]
fn read_utf8(bytes: &[u8]) -> (r: Option<&str>)
    ensures
        r is Some <==> valid_utf8(bytes@),
        r matches Some(text) ==> encode_utf8(text@) == bytes@,
{
    std::str::from_utf8(bytes).ok()
}

/// A buffer with memory of its own.
pub fn owned_buffer(value: String) -> (buffer: IrodoriConnectorBuffer)
    ensures
        buffer.holds(value@),
{
    let bytes = value.as_str().as_bytes_vec();
    let len: usize = bytes.len();
    IrodoriConnectorBuffer { ptr: Some(bytes), len }
}

/// A buffer that holds a constant text.
pub fn static_buffer(value: &'static str) -> (buffer: IrodoriConnectorBuffer)
    ensures
        buffer.holds(value@),
{
    owned_buffer(value.to_owned())
}

/// A buffer that holds `value` as text.
pub fn json_buffer(value: Json) -> (buffer: IrodoriConnectorBuffer)
    ensures
        buffer.holds(json_text(value@)),
{
    owned_buffer(render_json(value))
}

/// The text in the buffer, an error where the bytes are no text or where a null
/// pointer claims a length.
pub fn buffer_to_string(buffer: &IrodoriConnectorBuffer) -> (r: Result<String, ()>)
    requires
        buffer.readable(),
    ensures
        match r {
            Ok(text) => buffer.text() == Some(text@),
            Err(_) => buffer.text() is None,
        },
{
    match &buffer.ptr {
        None => if buffer.len == 0 {
            Ok(String::new())
        } else {
            Err(())
        },
        Some(memory) => {
            let bytes = slice_subrange(memory.as_slice(), 0, buffer.len);
            assert(bytes@ =~= memory@.take(buffer.len as int));
            match read_utf8(bytes) {
                Some(text) => {
                    proof {
                        vstd::utf8::encode_utf8_decode_utf8(text@);
                    }
                    Ok(text.to_owned())
                },
                None => Err(()),
            }
        },
    }
}

/// A buffer gives back the text it was made of.
pub proof fn buffer_round_trip(buffer: IrodoriConnectorBuffer, text: Seq<char>)
    requires
        buffer.holds(text),
    ensures
        buffer.readable(),
        buffer.text() == Some(text),
{
    let memory = buffer.ptr->0@;
    assert(memory.take(buffer.len as int) =~= memory);
    vstd::utf8::encode_utf8_valid_utf8(text);
    vstd::utf8::encode_utf8_decode_utf8(text);
}

/// The answer to a request that was carried out.
pub open spec fn ok_view(payload: Map<Seq<char>, JsonView>) -> JsonView {
    JsonView::Object(payload.insert("ok"@, JsonView::Bool(true)))
}

/// The answer to a request that was refused or failed.
pub open spec fn error_view(code: Seq<char>, message: Seq<char>) -> JsonView {
    JsonView::Object(
        map![
            "ok"@ => JsonView::Bool(false),
            "error"@ => JsonView::Object(
                map!["code"@ => JsonView::String(code), "message"@ => JsonView::String(message)],
            ),
        ],
    )
}

/// The buffer for the answer to a request that was carried out: `payload`, and
/// that all went well.
pub fn ok(payload: Vec<(String, Json)>) -> (buffer: IrodoriConnectorBuffer)
    ensures
        buffer.holds(json_text(ok_view(map_of(entries_view(payload@))))),
{
    broadcast use group_json_view;

    let mut fields = payload;
    put_field(&mut fields, "ok", Json::Bool(true));
    json_buffer(Json::Object(fields))
}

/// The buffer for the answer to a request that was refused or failed.
pub fn error(code: &str, message: String) -> (buffer: IrodoriConnectorBuffer)
    ensures
        buffer.holds(json_text(error_view(code@, message@))),
{
    broadcast use group_json_view;

    let mut inner = no_fields();
    put_field(&mut inner, "code", Json::String(code.to_owned()));
    put_field(&mut inner, "message", Json::String(message));
    let mut fields = no_fields();
    put_field(&mut fields, "ok", Json::Bool(false));
    put_field(&mut fields, "error", Json::Object(inner));
    json_buffer(Json::Object(fields))
}

/// The answer to a request whose bytes are not text.
pub open spec fn not_text_view() -> JsonView {
    error_view(
        "connector.invalidRequest"@,
        "Connector request buffer must be empty or valid UTF-8 JSON."@,
    )
}

/// What a request says: nothing where there is only white space, else the value
/// that was read from its text, or the answer that refuses it.
pub open spec fn request_read(
    text: Option<Seq<char>>,
    read: Result<JsonView, Seq<char>>,
) -> Result<Option<JsonView>, JsonView> {
    match text {
        None => Err(not_text_view()),
        Some(text) => if is_blank(text) {
            Ok(None)
        } else {
            match read {
                Ok(value) => Ok(Some(value)),
                Err(message) => Err(
                    error_view(
                        "connector.invalidJson"@,
                        "Connector request must be valid JSON: "@ + message,
                    ),
                ),
            }
        },
    }
}

/// The request that a text made of more than white space carries, by what was
/// read from it.
pub fn accept_request(read: Result<Json, String>) -> (r: Result<
    Option<Json>,
    IrodoriConnectorBuffer,
>)
    ensures
        match (read, r) {
            (Ok(value), Ok(Some(request))) => request@ == value@,
            (Err(message), Err(response)) => response.holds(
                json_text(
                    error_view(
                        "connector.invalidJson"@,
                        "Connector request must be valid JSON: "@ + message@,
                    ),
                ),
            ),
            _ => false,
        },
{
    match read {
        Ok(value) => Ok(Some(value)),
        Err(message) => Err(
            error(
                "connector.invalidJson",
                "Connector request must be valid JSON: ".to_owned().concat(message.as_str()),
            ),
        ),
    }
}

/// The request in the buffer, nothing where there is only white space.
pub fn parse_request(buffer: &IrodoriConnectorBuffer) -> (r: Result<
    Option<Json>,
    IrodoriConnectorBuffer,
>)
    requires
        buffer.readable(),
    ensures
        match request_read(buffer.text(), json_parsed(trimmed(buffer.text()->0))) {
            Ok(Some(value)) => r matches Ok(Some(request)) && request@ == value,
            Ok(None) => r matches Ok(None),
            Err(answer) => r matches Err(response) && response.holds(json_text(answer)),
        },
{
    match buffer_to_string(buffer) {
        Err(_) => Err(
            error(
                "connector.invalidRequest",
                "Connector request buffer must be empty or valid UTF-8 JSON.".to_owned(),
            ),
        ),
        Ok(request) => {
            let text = trim(request.as_str());
            if text.is_empty() {
                Ok(None)
            } else {
                accept_request(parse_json(text))
            }
        },
    }
}

/// The text under `field`, where it is more than white space.
pub open spec fn string_field_of(value: JsonView, field: Seq<char>) -> Option<Seq<char>> {
    match value.get(field) {
        Some(JsonView::String(text)) => if is_blank(text) {
            None
        } else {
            Some(text)
        },
        _ => None,
    }
}

/// The first of two that is there.
pub open spec fn first_of<T>(a: Option<T>, b: Option<T>) -> Option<T> {
    match a {
        Some(_) => a,
        None => b,
    }
}

/// The text under `field` of the value under `outer`.
pub open spec fn inner_string_field_of(
    value: JsonView,
    outer: Seq<char>,
    field: Seq<char>,
) -> Option<Seq<char>> {
    match value.get(outer) {
        Some(inner) => string_field_of(inner, field),
        None => None,
    }
}

/// The text under `field` of a request or of its profile.
pub open spec fn profile_field_of(request: JsonView, field: Seq<char>) -> Option<Seq<char>> {
    first_of(
        string_field_of(request, field),
        inner_string_field_of(request, "profile"@, field),
    )
}

/// The method that a request asks for. An empty request asks after the health.
pub open spec fn method_of(request: Option<JsonView>) -> Option<Seq<char>> {
    match request {
        None => Some("health"@),
        Some(value) => string_field_of(value, "method"@),
    }
}

/// The connection that a request is about.
pub open spec fn connection_id_of(request: Option<JsonView>) -> Seq<char> {
    let named = match request {
        None => None,
        Some(value) => first_of(
            string_field_of(value, "connectionId"@),
            first_of(
                string_field_of(value, "id"@),
                inner_string_field_of(value, "profile"@, "id"@),
            ),
        ),
    };
    match named {
        Some(id) => trimmed(id),
        None => "default"@,
    }
}

/// How many rows a query may give: what the request says, kept within bounds.
pub open spec fn max_rows_of(request: JsonView) -> int {
    let asked = match first_of(request.get("maxRows"@), request.get("limit"@)) {
        Some(value) => value.as_u64(),
        None => None,
    };
    match asked {
        Some(n) => if n < 1 {
            1
        } else if n > 100_000 {
            100_000
        } else {
            n as int
        },
        None => 10_000,
    }
}

/// The text under `field`, where it is more than white space.
pub fn string_field<'a>(value: &'a Json, field: &str) -> (r: Option<&'a str>)
    ensures
        slice_of(r) == string_field_of(value@, field@),
{
    match value.get(field) {
        Some(found) => match found.as_str() {
            Some(text) => if trim(text).is_empty() {
                None
            } else {
                Some(text)
            },
            None => None,
        },
        None => None,
    }
}

/// The text under `field` of the value under `outer`.
fn inner_string_field<'a>(value: &'a Json, outer: &str, field: &str) -> (r: Option<&'a str>)
    ensures
        slice_of(r) == inner_string_field_of(value@, outer@, field@),
{
    match value.get(outer) {
        Some(inner) => string_field(inner, field),
        None => None,
    }
}

/// The text under `field` of a request or of its profile.
pub fn profile_field<'a>(request: &'a Json, field: &str) -> (r: Option<&'a str>)
    ensures
        slice_of(r) == profile_field_of(request@, field@),
{
    match string_field(request, field) {
        Some(text) => Some(text),
        None => inner_string_field(request, "profile", field),
    }
}

/// The method that a request asks for, or the answer to one that names none.
pub fn request_method<'a>(request: Option<&'a Json>) -> (r: Result<&'a str, IrodoriConnectorBuffer>)
    ensures
        match method_of(json_of(request)) {
            Some(method) => r matches Ok(named) && named@ == method,
            None => r matches Err(response) && response.holds(
                json_text(
                    error_view(
                        "connector.invalidRequest"@,
                        "Connector request needs a string method."@,
                    ),
                ),
            ),
        },
{
    match request {
        None => Ok("health"),
        Some(value) => match string_field(value, "method") {
            Some(method) => Ok(method),
            None => Err(
                error(
                    "connector.invalidRequest",
                    "Connector request needs a string method.".to_owned(),
                ),
            ),
        },
    }
}

/// The connection that a request is about.
pub fn connection_id(request: Option<&Json>) -> (id: String)
    ensures
        id@ == connection_id_of(json_of(request)),
{
    let named = match request {
        None => None,
        Some(value) => match string_field(value, "connectionId") {
            Some(id) => Some(id),
            None => match string_field(value, "id") {
                Some(id) => Some(id),
                None => inner_string_field(value, "profile", "id"),
            },
        },
    };
    match named {
        Some(id) => trim(id).to_owned(),
        None => "default".to_owned(),
    }
}

/// How many rows a query may give: what the request says, kept within bounds.
pub fn max_rows(request: &Json) -> (rows: usize)
    ensures
        rows == max_rows_of(request@),
{
    let found = match request.get("maxRows") {
        Some(value) => Some(value),
        None => request.get("limit"),
    };
    let asked = match found {
        Some(value) => value.as_u64(),
        None => None,
    };
    match asked {
        Some(n) => if n < 1 {
            1
        } else if n > 100_000 {
            100_000
        } else {
            n as usize
        },
        None => 10_000,
    }
}

/// The row limit of a query lies between one and a hundred thousand, whatever
/// the request says.
pub proof fn max_rows_bounded(request: JsonView)
    ensures
        1 <= max_rows_of(request) <= 100_000,
{
}

/// Every answer says whether the request was carried out, whatever the payload
/// holds, and one that was not says why.
pub proof fn answers_say_how_it_went(
    payload: Map<Seq<char>, JsonView>,
    code: Seq<char>,
    message: Seq<char>,
)
    ensures
        ok_view(payload).get("ok"@) == Some(JsonView::Bool(true)),
        error_view(code, message).get("ok"@) == Some(JsonView::Bool(false)),
        error_view(code, message).get("error"@) matches Some(error) && error.get("code"@) == Some(
            JsonView::String(code),
        ) && error.get("message"@) == Some(JsonView::String(message)),
        forall|field: Seq<char>|
            field != "ok"@ ==> #[trigger] ok_view(payload).get(field) == JsonView::Object(
                payload,
            ).get(field),
{
    reveal_strlit("ok");
    reveal_strlit("error");
    reveal_strlit("code");
    reveal_strlit("message");
    assert("ok"@.len() == 2 && "error"@.len() == 5 && "code"@.len() == 4 && "message"@.len() == 7);
}

/// A connection that no request names is the one called `default`, and a name is
/// never blank nor surrounded by white space.
pub proof fn connection_names(request: Option<JsonView>)
    ensures
        connection_id_of(None) == "default"@,
        connection_id_of(request).len() > 0,
        trimmed(connection_id_of(request)) == connection_id_of(request),
{
    reveal_strlit("default");
    assert(trimmed("default"@) == "default"@) by {
        reveal_with_fuel(trimmed_start, 2);
        reveal_with_fuel(trimmed_end, 2);
    }
    if let Some(value) = request {
        let named = first_of(
            string_field_of(value, "connectionId"@),
            first_of(
                string_field_of(value, "id"@),
                inner_string_field_of(value, "profile"@, "id"@),
            ),
        );
        if let Some(id) = named {
            trimming_settles(id);
        }
    }
}

/// A buffer of a text is its encoding, byte for byte and no longer; and what is
/// read from a buffer is what its counted bytes encode, the null pointer standing
/// for the empty text where it claims no length.
pub proof fn buffers_hold_encoded_text(buffer: IrodoriConnectorBuffer, text: Seq<char>)
    ensures
        buffer.holds(text) <==> buffer.ptr is Some && buffer.ptr->0@ == encode_utf8(text)
            && buffer.len == encode_utf8(text).len(),
        buffer.ptr is None && buffer.len == 0 ==> buffer.text() == Some(Seq::<char>::empty()),
        buffer.ptr is None && buffer.len > 0 ==> buffer.text() is None,
        buffer.ptr is Some && buffer.readable() ==> (buffer.text() == Some(text) <==> encode_utf8(text)
            == buffer.ptr->0@.subrange(0, buffer.len as int)),
        buffer.ptr is Some && buffer.readable() && !valid_utf8(
            buffer.ptr->0@.subrange(0, buffer.len as int),
        ) ==> buffer.text() is None,
        buffer.readable() <==> (buffer.ptr is Some ==> buffer.len <= buffer.ptr->0@.len()),
{
    if let Some(memory) = buffer.ptr {
        assert(memory@.take(buffer.len as int) =~= memory@.subrange(0, buffer.len as int));
        vstd::utf8::encode_utf8_valid_utf8(text);
        vstd::utf8::encode_utf8_decode_utf8(text);
        if valid_utf8(memory@.take(buffer.len as int)) {
            vstd::utf8::decode_utf8_encode_utf8(memory@.take(buffer.len as int));
        }
    }
}

/// An answer to a request that was refused says only that it was, with code and
/// message and nothing more.
pub proof fn refusals_say_nothing_else(code: Seq<char>, message: Seq<char>, field: Seq<char>)
    requires
        error_view(code, message).get(field) is Some,
    ensures
        field == "ok"@ || field == "error"@,
        field == "error"@ ==> forall|inner: Seq<char>|
            (#[trigger] error_view(code, message).get(field)->0.get(inner)) is Some ==> inner
                == "code"@ || inner == "message"@,
{
    reveal_strlit("ok");
    reveal_strlit("error");
    assert("ok"@.len() == 2 && "error"@.len() == 5);
}

/// A request is read as the value that its text denotes, a blank one as none. One
/// that is no JSON is refused with the reader's own message.
pub proof fn requests_are_read_as_they_are(
    text: Seq<char>,
    value: JsonView,
    message: Seq<char>,
    read: Result<JsonView, Seq<char>>,
)
    ensures
        is_blank(text) ==> request_read(Some(text), read) == Ok::<Option<JsonView>, JsonView>(None),
        !is_blank(text) ==> request_read(Some(text), Ok(value)) == Ok::<
            Option<JsonView>,
            JsonView,
        >(Some(value)),
        !is_blank(text) ==> (request_read(Some(text), Err(message)) matches Err(answer)
            && answer.get("ok"@) == Some(JsonView::Bool(false)) && answer.get("error"@) is Some
            && answer.get("error"@)->0.get("code"@) == Some(
            JsonView::String("connector.invalidJson"@),
        ) && answer.get("error"@)->0.get("message"@) == Some(
            JsonView::String("Connector request must be valid JSON: "@ + message),
        )),
        request_read(None, read) matches Err(answer) && answer.get("ok"@) == Some(
            JsonView::Bool(false),
        ) && answer.get("error"@) is Some && answer.get("error"@)->0.get("code"@) == Some(
            JsonView::String("connector.invalidRequest"@),
        ) && answer.get("error"@)->0.get("message"@) == Some(
            JsonView::String("Connector request buffer must be empty or valid UTF-8 JSON."@),
        ),
{
    answers_say_how_it_went(
        Map::empty(),
        "connector.invalidJson"@,
        "Connector request must be valid JSON: "@ + message,
    );
    answers_say_how_it_went(
        Map::empty(),
        "connector.invalidRequest"@,
        "Connector request buffer must be empty or valid UTF-8 JSON."@,
    );
}

/// A text under a field is taken as it is, unless it is blank; no other value is
/// taken for a text.
pub proof fn fields_are_texts_as_they_are(value: JsonView, field: Seq<char>, text: Seq<char>)
    ensures
        value.get(field) == Some(JsonView::String(text)) && !is_blank(text) ==> string_field_of(
            value,
            field,
        ) == Some(text),
        value.get(field) == Some(JsonView::String(text)) && is_blank(text) ==> string_field_of(
            value,
            field,
        ) is None,
        value.get(field) is None ==> string_field_of(value, field) is None,
        value.get(field) is Some && !(value.get(field)->0 is String) ==> string_field_of(
            value,
            field,
        ) is None,
{
}

/// A field of a request goes before that of its profile, which stands in where
/// the request has none.
pub proof fn requests_go_before_profiles(
    request: JsonView,
    profile: JsonView,
    field: Seq<char>,
    text: Seq<char>,
)
    ensures
        string_field_of(request, field) == Some(text) ==> profile_field_of(request, field) == Some(
            text,
        ),
        string_field_of(request, field) is None && request.get("profile"@) == Some(profile)
            ==> profile_field_of(request, field) == string_field_of(profile, field),
        string_field_of(request, field) is None && request.get("profile"@) is None
            ==> profile_field_of(request, field) is None,
{
}

/// A request names its method as a text that is not blank, taken as it is.
pub proof fn methods_are_taken_as_they_are(request: JsonView, method: Seq<char>)
    ensures
        request.get("method"@) == Some(JsonView::String(method)) && !is_blank(method) ==> method_of(
            Some(request),
        ) == Some(method),
        method_of(Some(request)) == Some(method) ==> request.get("method"@) == Some(
            JsonView::String(method),
        ) && !is_blank(method),
        method_of(None) == Some("health"@),
{
}

/// A request names its connection under `connectionId`, else under `id`, else
/// under the `id` of its profile, each time without white space around the name,
/// and else means the one called `default`.
pub proof fn connections_are_named_in_order(request: JsonView, profile: JsonView, name: Seq<char>)
    requires
        !is_blank(name),
    ensures
        request.get("connectionId"@) == Some(JsonView::String(name)) ==> connection_id_of(
            Some(request),
        ) == trimmed(name),
        string_field_of(request, "connectionId"@) is None && request.get("id"@) == Some(
            JsonView::String(name),
        ) ==> connection_id_of(Some(request)) == trimmed(name),
        string_field_of(request, "connectionId"@) is None && string_field_of(request, "id"@) is None
            && request.get("profile"@) == Some(profile) && profile.get("id"@) == Some(
            JsonView::String(name),
        ) ==> connection_id_of(Some(request)) == trimmed(name),
        string_field_of(request, "connectionId"@) is None && string_field_of(request, "id"@) is None
            && request.get("profile"@) == Some(profile) && string_field_of(profile, "id"@) is None
            ==> connection_id_of(Some(request)) == "default"@,
        string_field_of(request, "connectionId"@) is None && string_field_of(request, "id"@) is None
            && request.get("profile"@) is None ==> connection_id_of(Some(request)) == "default"@,
{
}

/// The row limit is the number under `maxRows`, else, where there is nothing under
/// that name, the one under `limit`; it is raised to one, lowered to a hundred
/// thousand, and ten thousand where no number is given.
pub proof fn row_limits_are_taken_from_the_request(request: JsonView, n: u64)
    ensures
        request.get("maxRows"@) == Some(JsonView::Number(NumberView::PosInt(n))) && 1 <= n <= 100_000
            ==> max_rows_of(request) == n,
        request.get("maxRows"@) == Some(JsonView::Number(NumberView::PosInt(0))) ==> max_rows_of(
            request,
        ) == 1,
        request.get("maxRows"@) == Some(JsonView::Number(NumberView::PosInt(n))) && n > 100_000
            ==> max_rows_of(request) == 100_000,
        request.get("maxRows"@) is None && request.get("limit"@) == Some(
            JsonView::Number(NumberView::PosInt(n)),
        ) && 1 <= n <= 100_000 ==> max_rows_of(request) == n,
        request.get("maxRows"@) is None && request.get("limit"@) == Some(
            JsonView::Number(NumberView::PosInt(0)),
        ) ==> max_rows_of(request) == 1,
        request.get("maxRows"@) is None && request.get("limit"@) == Some(
            JsonView::Number(NumberView::PosInt(n)),
        ) && n > 100_000 ==> max_rows_of(request) == 100_000,
        request.get("maxRows"@) is Some && request.get("maxRows"@)->0.as_u64() is None
            ==> max_rows_of(request) == 10_000,
        request.get("maxRows"@) is None && request.get("limit"@) is Some && request.get(
            "limit"@,
        )->0.as_u64() is None ==> max_rows_of(request) == 10_000,
        request.get("maxRows"@) is None && request.get("limit"@) is None ==> max_rows_of(request)
            == 10_000,
{
}

} // verus!
