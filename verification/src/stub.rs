//! The connector as long as no engine driver is linked into it: it tells what it
//! is, and answers every driver operation with a refusal.

use crate::abi::{
    answers_say_how_it_went, buffer_to_string, not_text_view, owned_buffer, static_buffer,
    IrodoriConnectorBuffer,
};
use crate::codec::{json_parsed, parse_json, read_view};
use crate::json::{decimal, Json, JsonView};
use crate::statement::{get_text, text_at};
use crate::text::{contains, is_blank, occurs, same, trim, trimmed};
use vstd::prelude::*;

verus! {

/// The version of the ABI between host and connector.
pub const ABI_VERSION: u32 = 1;

/// The engine that the connector speaks to.
pub const ENGINE: &'static str = "trinoPresto";

/// Whether an engine driver is linked into this package.
pub const DRIVER_LINKED: bool = false;

/// The connector configuration, `connector.config.json`.
pub const CONFIG_JSON: &'static str = r#"{
  "extensionId": "irodori.trino-presto",
  "connector": {
    "engine": "trinoPresto",
    "wire": "jdbc",
    "defaultPort": 8080,
    "module": {
      "abi": "irodori.connector.native.v1",
      "driverLinked": false
    }
  },
  "connection": {
    "endpointModes": [
      "hostPort",
      "connectionString"
    ],
    "transportModes": [
      "direct",
      "sshTunnel",
      "socks5Proxy",
      "httpConnectProxy",
      "proxyChain"
    ],
    "tls": {
      "supported": true
    },
    "customDriverOptions": true,
    "authMethods": [
      {
        "id": "none",
        "label": "No authentication",
        "secretPurposes": []
      },
      {
        "id": "connectionString",
        "label": "Connection string / DSN",
        "secretPurposes": []
      },
      {
        "id": "userPassword",
        "label": "User/password",
        "secretPurposes": [
          "password"
        ]
      },
      {
        "id": "basic",
        "label": "Basic authentication",
        "secretPurposes": [
          "password"
        ]
      },
      {
        "id": "bearerToken",
        "label": "Bearer token",
        "secretPurposes": [
          "token"
        ]
      },
      {
        "id": "oauth2",
        "label": "OAuth 2.0",
        "secretPurposes": [
          "token"
        ]
      },
      {
        "id": "kerberos",
        "label": "Kerberos / GSSAPI",
        "secretPurposes": [
          "token"
        ]
      },
      {
        "id": "ldap",
        "label": "LDAP user/password",
        "secretPurposes": [
          "password"
        ]
      },
      {
        "id": "clientCertificate",
        "label": "Client certificate / mTLS",
        "secretPurposes": [
          "privateKey",
          "privateKeyPassphrase"
        ]
      },
      {
        "id": "customDriverOptions",
        "label": "Custom driver options",
        "secretPurposes": [
          "password",
          "token",
          "privateKey",
          "privateKeyPassphrase"
        ]
      }
    ],
    "secretPurposes": [
      "password",
      "token",
      "privateKey",
      "privateKeyPassphrase"
    ]
  }
}"#;

/// The extension manifest, `irodori.extension.json`.
pub const MANIFEST_JSON: &'static str = r#"{
  "id": "irodori.trino-presto",
  "name": "Trino / Presto Connector",
  "description": "Adds Trino and Presto connectivity as an installable connector extension.",
  "permissions": [
    "connectors"
  ],
  "contributes": {
    "connectors": [
      {
        "engine": "trinoPresto",
        "label": "Trino / Presto",
        "wire": "jdbc",
        "defaultPort": 8080,
        "module": {
          "abi": "irodori.connector.native.v1",
          "driverLinked": false
        },
        "connection": {
          "endpointModes": [
            "hostPort",
            "connectionString"
          ],
          "transportModes": [
            "direct",
            "sshTunnel",
            "socks5Proxy",
            "httpConnectProxy",
            "proxyChain"
          ],
          "tls": {
            "supported": true
          },
          "customDriverOptions": true,
          "authMethods": [
            {
              "id": "none",
              "label": "No authentication",
              "secretPurposes": []
            },
            {
              "id": "connectionString",
              "label": "Connection string / DSN",
              "secretPurposes": []
            },
            {
              "id": "userPassword",
              "label": "User/password",
              "secretPurposes": [
                "password"
              ]
            },
            {
              "id": "basic",
              "label": "Basic authentication",
              "secretPurposes": [
                "password"
              ]
            },
            {
              "id": "bearerToken",
              "label": "Bearer token",
              "secretPurposes": [
                "token"
              ]
            },
            {
              "id": "oauth2",
              "label": "OAuth 2.0",
              "secretPurposes": [
                "token"
              ]
            },
            {
              "id": "kerberos",
              "label": "Kerberos / GSSAPI",
              "secretPurposes": [
                "token"
              ]
            },
            {
              "id": "ldap",
              "label": "LDAP user/password",
              "secretPurposes": [
                "password"
              ]
            },
            {
              "id": "clientCertificate",
              "label": "Client certificate / mTLS",
              "secretPurposes": [
                "privateKey",
                "privateKeyPassphrase"
              ]
            },
            {
              "id": "customDriverOptions",
              "label": "Custom driver options",
              "secretPurposes": [
                "password",
                "token",
                "privateKey",
                "privateKeyPassphrase"
              ]
            }
          ],
          "secretPurposes": [
            "password",
            "token",
            "privateKey",
            "privateKeyPassphrase"
          ]
        }
      }
    ]
  }
}"#;

/// The answer to a question after the health.
pub const HEALTH_RESPONSE_JSON: &'static str =
    r#"{"ok":true,"engine":"trinoPresto","abiVersion":1,"driverLinked":false}"#;

/// The answer to a request whose bytes are not text.
pub const INVALID_REQUEST_RESPONSE_JSON: &'static str =
    r#"{"ok":false,"error":{"code":"connector.invalidRequest","message":"Connector request buffer must be empty or valid UTF-8 JSON."}}"#;

/// The answer to every driver operation.
pub const NOT_LINKED_RESPONSE_JSON: &'static str =
    r#"{"ok":false,"error":{"code":"connector.driverNotLinked","message":"The native connector metadata is available, but the engine-specific driver entrypoint is not linked in this package yet."}}"#;

/// What a request is answered with.
#[derive(Debug, Clone, Copy, PartialEq, Eq, Structural)]
pub enum StubReply {
    InvalidRequest,
    Health,
    Describe,
    Manifest,
    Config,
    NotLinked,
}

/// The reply to a request for that method. There is no driver for any method but
/// those that tell what the connector is.
pub open spec fn method_reply(method: Seq<char>) -> StubReply {
    if method == "health"@ || method == "ping"@ {
        StubReply::Health
    } else if method == "describe"@ || method == "capabilities"@ {
        StubReply::Describe
    } else if method == "manifest"@ {
        StubReply::Manifest
    } else if method == "config"@ {
        StubReply::Config
    } else {
        StubReply::NotLinked
    }
}

/// The reply to a text that names no method as a field: the known names are
/// looked for in quotes, anywhere in it.
pub open spec fn quoted_reply(text: Seq<char>) -> StubReply {
    if occurs(text, "\"health\""@) || occurs(text, "\"ping\""@) {
        StubReply::Health
    } else if occurs(text, "\"describe\""@) || occurs(text, "\"capabilities\""@) {
        StubReply::Describe
    } else if occurs(text, "\"manifest\""@) {
        StubReply::Manifest
    } else if occurs(text, "\"config\""@) {
        StubReply::Config
    } else {
        StubReply::NotLinked
    }
}

/// The method that a text names, by what was read from it.
pub open spec fn named_method(read: Result<JsonView, Seq<char>>) -> Option<Seq<char>> {
    match read {
        Ok(value) => text_at(value, "method"@),
        Err(_) => None,
    }
}

/// The reply to a text, by what was read from it. A blank text asks after the
/// health, and else the method decides, whatever the other fields hold.
pub open spec fn stub_reply_read(
    text: Seq<char>,
    read: Result<JsonView, Seq<char>>,
) -> StubReply {
    if is_blank(text) {
        StubReply::Health
    } else {
        match named_method(read) {
            Some(method) => method_reply(method),
            None => quoted_reply(text),
        }
    }
}

/// The reply to a request, by the text in its buffer.
pub open spec fn stub_reply_of(request: Option<Seq<char>>) -> StubReply {
    match request {
        None => StubReply::InvalidRequest,
        Some(text) => stub_reply_read(text, json_parsed(trimmed(text))),
    }
}

/// The answer that describes the connector: manifest and configuration, as they
/// are, in one object.
pub open spec fn describe_response() -> Seq<char> {
    r#"{"ok":true,"engine":"trinoPresto","abiVersion":1,"driverLinked":false,"manifest":"#@
        + MANIFEST_JSON@ + r#","config":"#@ + CONFIG_JSON@ + r#"}"#@
}

impl StubReply {
    /// The text of the reply.
    pub open spec fn text_view(self) -> Seq<char> {
        match self {
            StubReply::InvalidRequest => INVALID_REQUEST_RESPONSE_JSON@,
            StubReply::Health => HEALTH_RESPONSE_JSON@,
            StubReply::Describe => describe_response(),
            StubReply::Manifest => MANIFEST_JSON@,
            StubReply::Config => CONFIG_JSON@,
            StubReply::NotLinked => NOT_LINKED_RESPONSE_JSON@,
        }
    }

    /// The text of the reply.
    pub fn text(self) -> (r: String)
        ensures
            r@ == self.text_view(),
    {
        match self {
            StubReply::InvalidRequest => INVALID_REQUEST_RESPONSE_JSON.to_owned(),
            StubReply::Health => HEALTH_RESPONSE_JSON.to_owned(),
            StubReply::Describe => describe_response_json(),
            StubReply::Manifest => MANIFEST_JSON.to_owned(),
            StubReply::Config => CONFIG_JSON.to_owned(),
            StubReply::NotLinked => NOT_LINKED_RESPONSE_JSON.to_owned(),
        }
    }
}

/// The answer that describes the connector.
pub fn describe_response_json() -> (r: String)
    ensures
        r@ == describe_response(),
{
    let head =
        r#"{"ok":true,"engine":"trinoPresto","abiVersion":1,"driverLinked":false,"manifest":"#;
    head.to_owned().concat(MANIFEST_JSON).concat(r#","config":"#).concat(CONFIG_JSON).concat(
        r#"}"#,
    )
}

/// The reply to a request for that method.
fn reply_to_method(method: &str) -> (reply: StubReply)
    ensures
        reply == method_reply(method@),
{
    if same(method, "health") || same(method, "ping") {
        StubReply::Health
    } else if same(method, "describe") || same(method, "capabilities") {
        StubReply::Describe
    } else if same(method, "manifest") {
        StubReply::Manifest
    } else if same(method, "config") {
        StubReply::Config
    } else {
        StubReply::NotLinked
    }
}

/// The reply to a text that names no method as a field.
fn reply_to_names(text: &str) -> (reply: StubReply)
    ensures
        reply == quoted_reply(text@),
{
    if contains(text, "\"health\"") || contains(text, "\"ping\"") {
        StubReply::Health
    } else if contains(text, "\"describe\"") || contains(text, "\"capabilities\"") {
        StubReply::Describe
    } else if contains(text, "\"manifest\"") {
        StubReply::Manifest
    } else if contains(text, "\"config\"") {
        StubReply::Config
    } else {
        StubReply::NotLinked
    }
}

/// Which reply a text gets, by what was read from it.
pub fn reply_to(text: &str, read: &Result<Json, String>) -> (reply: StubReply)
    ensures
        reply == stub_reply_read(text@, read_view(*read)),
{
    if trim(text).is_empty() {
        return StubReply::Health;
    }
    let method = match read {
        Ok(value) => get_text(value, "method"),
        Err(_) => None,
    };
    match method {
        Some(method) => reply_to_method(method),
        None => reply_to_names(text),
    }
}

/// Which reply a request gets.
pub fn stub_reply(request: &IrodoriConnectorBuffer) -> (reply: StubReply)
    requires
        request.readable(),
    ensures
        reply == stub_reply_of(request.text()),
{
    match buffer_to_string(request) {
        Err(_) => StubReply::InvalidRequest,
        Ok(request) => {
            let text = request.as_str();
            reply_to(text, &parse_json(trim(text)))
        },
    }
}

pub fn irodori_extension_abi_version() -> (version: u32)
    ensures
        version == ABI_VERSION,
{
    ABI_VERSION
}

pub fn irodori_connector_engine_json() -> (buffer: IrodoriConnectorBuffer)
    ensures
        buffer.holds(ENGINE@),
{
    static_buffer(ENGINE)
}

pub fn irodori_extension_manifest_json() -> (buffer: IrodoriConnectorBuffer)
    ensures
        buffer.holds(MANIFEST_JSON@),
{
    static_buffer(MANIFEST_JSON)
}

pub fn irodori_connector_config_json() -> (buffer: IrodoriConnectorBuffer)
    ensures
        buffer.holds(CONFIG_JSON@),
{
    static_buffer(CONFIG_JSON)
}

/// The answer to a request while no driver is linked.
pub fn irodori_connector_call_json(request: &IrodoriConnectorBuffer) -> (buffer: IrodoriConnectorBuffer)
    requires
        request.readable(),
    ensures
        buffer.holds(stub_reply_of(request.text()).text_view()),
{
    owned_buffer(stub_reply(request).text())
}

/// The method of a request decides over the reply, whatever its other fields hold.
pub proof fn the_method_decides(text: Seq<char>, request: JsonView, method: Seq<char>)
    requires
        !is_blank(text),
        text_at(request, "method"@) == Some(method),
    ensures
        stub_reply_read(text, Ok(request)) == method_reply(method),
        json_parsed(trimmed(text)) == Ok::<JsonView, Seq<char>>(request) ==> stub_reply_of(
            Some(text),
        ) == method_reply(method),
{
}

/// A request for any method but those that tell what the connector is gets
/// refused, whatever its other fields hold: there is no driver to carry it out.
pub proof fn operations_need_a_driver(text: Seq<char>, request: JsonView, method: Seq<char>)
    requires
        !is_blank(text),
        text_at(request, "method"@) == Some(method),
        method != "health"@,
        method != "ping"@,
        method != "describe"@,
        method != "capabilities"@,
        method != "manifest"@,
        method != "config"@,
    ensures
        stub_reply_read(text, Ok(request)).text_view() == NOT_LINKED_RESPONSE_JSON@,
        json_parsed(trimmed(text)) == Ok::<JsonView, Seq<char>>(request) ==> stub_reply_of(
            Some(text),
        ).text_view() == NOT_LINKED_RESPONSE_JSON@,
{
}

/// Bytes that are no text are refused, and a blank request is answered like a
/// question after the health.
pub proof fn requests_without_a_method(text: Seq<char>)
    ensures
        stub_reply_of(None).text_view() == INVALID_REQUEST_RESPONSE_JSON@,
        is_blank(text) ==> stub_reply_of(Some(text)).text_view() == HEALTH_RESPONSE_JSON@,
{
}

/// What the connector says of its health is put together from the constants that
/// it goes by.
pub proof fn health_tells_the_constants()
    ensures
        HEALTH_RESPONSE_JSON@ == "{\"ok\":true,\"engine\":\""@ + ENGINE@ + "\",\"abiVersion\":"@
            + decimal(ABI_VERSION as nat) + ",\"driverLinked\":"@ + (if DRIVER_LINKED {
            "true"@
        } else {
            "false"@
        }) + "}"@,
{
    reveal_strlit("{\"ok\":true,\"engine\":\"trinoPresto\",\"abiVersion\":1,\"driverLinked\":false}");
    reveal_strlit("{\"ok\":true,\"engine\":\"");
    reveal_strlit("trinoPresto");
    reveal_strlit("\",\"abiVersion\":");
    reveal_strlit(",\"driverLinked\":");
    reveal_strlit("false");
    reveal_strlit("}");
    assert(decimal(1) =~= seq!['1']);
    assert(HEALTH_RESPONSE_JSON@ =~= "{\"ok\":true,\"engine\":\""@ + ENGINE@ + "\",\"abiVersion\":"@
        + decimal(ABI_VERSION as nat) + ",\"driverLinked\":"@ + "false"@ + "}"@);
}

/// What the connector says when it describes itself is what it says of its
/// health, with the manifest and the configuration, as they are, behind it.
pub proof fn describing_agrees_with_health(text: Seq<char>, request: JsonView)
    requires
        !is_blank(text),
        request.get("method"@) == Some(JsonView::String("describe"@)) || request.get("method"@)
            == Some(JsonView::String("capabilities"@)),
    ensures
        stub_reply_read(text, Ok(request)).text_view() == HEALTH_RESPONSE_JSON@.drop_last()
            + ",\"manifest\":"@ + MANIFEST_JSON@ + ",\"config\":"@ + CONFIG_JSON@ + "}"@,
        HEALTH_RESPONSE_JSON@.last() == '}',
        describe_response() == stub_reply_read(text, Ok(request)).text_view(),
{
    lemma_method_names_differ();
    let head =
        "{\"ok\":true,\"engine\":\"trinoPresto\",\"abiVersion\":1,\"driverLinked\":false,\"manifest\":"@;
    reveal_strlit("{\"ok\":true,\"engine\":\"trinoPresto\",\"abiVersion\":1,\"driverLinked\":false}");
    reveal_strlit(
        "{\"ok\":true,\"engine\":\"trinoPresto\",\"abiVersion\":1,\"driverLinked\":false,\"manifest\":",
    );
    reveal_strlit(",\"manifest\":");
    assert(head =~= HEALTH_RESPONSE_JSON@.drop_last() + ",\"manifest\":"@);
}

/// No two of the known methods have one name.
proof fn lemma_method_names_differ()
    ensures
        "health"@ != "ping"@,
        "describe"@ != "health"@ && "describe"@ != "ping"@,
        "capabilities"@ != "health"@ && "capabilities"@ != "ping"@ && "capabilities"@ != "describe"@,
        "manifest"@ != "health"@ && "manifest"@ != "ping"@ && "manifest"@ != "describe"@
            && "manifest"@ != "capabilities"@,
        "config"@ != "health"@ && "config"@ != "ping"@ && "config"@ != "describe"@ && "config"@
            != "capabilities"@ && "config"@ != "manifest"@,
{
    reveal_strlit("health");
    reveal_strlit("ping");
    reveal_strlit("describe");
    reveal_strlit("capabilities");
    reveal_strlit("manifest");
    reveal_strlit("config");
    assert("health"@.len() == 6 && "ping"@.len() == 4 && "describe"@.len() == 8
        && "capabilities"@.len() == 12 && "manifest"@.len() == 8 && "config"@.len() == 6);
    assert("health"@[0] == 'h' && "config"@[0] == 'c' && "describe"@[0] == 'd' && "manifest"@[0]
        == 'm');
}

/// Each method that tells what the connector is has its text, whatever the other
/// fields of the request hold, and every other method the same refusal.
pub proof fn methods_have_their_texts(text: Seq<char>, request: JsonView, method: Seq<char>)
    requires
        !is_blank(text),
        request.get("method"@) == Some(JsonView::String(method)),
    ensures
        method == "health"@ || method == "ping"@ ==> stub_reply_read(text, Ok(request)).text_view()
            == HEALTH_RESPONSE_JSON@,
        method == "manifest"@ ==> stub_reply_read(text, Ok(request)).text_view() == MANIFEST_JSON@,
        method == "config"@ ==> stub_reply_read(text, Ok(request)).text_view() == CONFIG_JSON@,
        method != "health"@ && method != "ping"@ && method != "describe"@ && method
            != "capabilities"@ && method != "manifest"@ && method != "config"@ ==> stub_reply_read(
            text,
            Ok(request),
        ).text_view() == "{\"ok\":false,\"error\":{\"code\":\"connector.driverNotLinked\",\"message\":\""@
            + "The native connector metadata is available, but the engine-specific driver entrypoint is not linked in this package yet."@
            + "\"}}"@,
{
    lemma_method_names_differ();
    reveal_strlit(
        "{\"ok\":false,\"error\":{\"code\":\"connector.driverNotLinked\",\"message\":\"The native connector metadata is available, but the engine-specific driver entrypoint is not linked in this package yet.\"}}",
    );
    reveal_strlit("{\"ok\":false,\"error\":{\"code\":\"connector.driverNotLinked\",\"message\":\"");
    reveal_strlit(
        "The native connector metadata is available, but the engine-specific driver entrypoint is not linked in this package yet.",
    );
    reveal_strlit("\"}}");
    assert(NOT_LINKED_RESPONSE_JSON@
        =~= "{\"ok\":false,\"error\":{\"code\":\"connector.driverNotLinked\",\"message\":\""@
        + "The native connector metadata is available, but the engine-specific driver entrypoint is not linked in this package yet."@
        + "\"}}"@);
}

/// Where no method is named by a text, a known name in quotes decides, those that
/// come first before the others, and without any the request is refused.
pub proof fn quoted_names_decide_where_no_method_is_named(
    text: Seq<char>,
    read: Result<JsonView, Seq<char>>,
)
    requires
        !is_blank(text),
        read matches Ok(value) ==> !(value.get("method"@) matches Some(JsonView::String(_))),
    ensures
        occurs(text, "\"health\""@) || occurs(text, "\"ping\""@) ==> stub_reply_read(
            text,
            read,
        ).text_view() == HEALTH_RESPONSE_JSON@,
        !occurs(text, "\"health\""@) && !occurs(text, "\"ping\""@) ==> {
            &&& occurs(text, "\"describe\""@) || occurs(text, "\"capabilities\""@)
                ==> stub_reply_read(text, read).text_view() == describe_response()
            &&& !occurs(text, "\"describe\""@) && !occurs(text, "\"capabilities\""@) ==> {
                &&& occurs(text, "\"manifest\""@) ==> stub_reply_read(text, read).text_view()
                    == MANIFEST_JSON@
                &&& !occurs(text, "\"manifest\""@) && occurs(text, "\"config\""@)
                    ==> stub_reply_read(text, read).text_view() == CONFIG_JSON@
                &&& !occurs(text, "\"manifest\""@) && !occurs(text, "\"config\""@)
                    ==> stub_reply_read(text, read).text_view() == NOT_LINKED_RESPONSE_JSON@
            }
        },
{
}

/// Bytes that are no text are refused in the words of the driver: the answer spells
/// out code and message of the refusal that the driver gives.
pub proof fn unreadable_requests_are_refused_alike(code: Seq<char>, message: Seq<char>)
    requires
        not_text_view().get("error"@) is Some,
        not_text_view().get("error"@)->0.get("code"@) == Some(JsonView::String(code)),
        not_text_view().get("error"@)->0.get("message"@) == Some(JsonView::String(message)),
    ensures
        stub_reply_of(None).text_view() == "{\"ok\":false,\"error\":{\"code\":\""@ + code
            + "\",\"message\":\""@ + message + "\"}}"@,
{
    let expected_code = "connector.invalidRequest"@;
    let expected = "Connector request buffer must be empty or valid UTF-8 JSON."@;
    answers_say_how_it_went(Map::empty(), expected_code, expected);
    reveal_strlit(
        "{\"ok\":false,\"error\":{\"code\":\"connector.invalidRequest\",\"message\":\"Connector request buffer must be empty or valid UTF-8 JSON.\"}}",
    );
    reveal_strlit("{\"ok\":false,\"error\":{\"code\":\"");
    reveal_strlit("connector.invalidRequest");
    reveal_strlit("\",\"message\":\"");
    reveal_strlit("Connector request buffer must be empty or valid UTF-8 JSON.");
    reveal_strlit("\"}}");
    assert(INVALID_REQUEST_RESPONSE_JSON@ =~= "{\"ok\":false,\"error\":{\"code\":\""@ + code
        + "\",\"message\":\""@ + message + "\"}}"@);
}

/// How a way to authenticate is listed in the configuration.
pub open spec fn auth_method_text(id: Seq<char>, label: Seq<char>, secrets: Seq<char>) -> Seq<char> {
    "\n      {\n        \"id\": \""@ + id + "\",\n        \"label\": \""@ + label + "\",\n        \"secretPurposes\": "@ + secrets + "\n      }"@
}

/// The ways to authenticate that the configuration lists, in its order, each with
/// its label and the secrets that it takes.
pub open spec fn auth_methods_text() -> Seq<char> {
    let none = "[]"@;
    let password = "[\n          \"password\"\n        ]"@;
    let token = "[\n          \"token\"\n        ]"@;
    let key = "[\n          \"privateKey\",\n          \"privateKeyPassphrase\"\n        ]"@;
    let all = "[\n          \"password\",\n          \"token\",\n          \"privateKey\",\n          \"privateKeyPassphrase\"\n        ]"@;
    auth_method_text("none"@, "No authentication"@, none) + ","@
        + auth_method_text("connectionString"@, "Connection string / DSN"@, none) + ","@
        + auth_method_text("userPassword"@, "User/password"@, password) + ","@
        + auth_method_text("basic"@, "Basic authentication"@, password) + ","@
        + auth_method_text("bearerToken"@, "Bearer token"@, token) + ","@
        + auth_method_text("oauth2"@, "OAuth 2.0"@, token) + ","@
        + auth_method_text("kerberos"@, "Kerberos / GSSAPI"@, token) + ","@
        + auth_method_text("ldap"@, "LDAP user/password"@, password) + ","@
        + auth_method_text("clientCertificate"@, "Client certificate / mTLS"@, key) + ","@
        + auth_method_text("customDriverOptions"@, "Custom driver options"@, all)
}

/// The configuration says which engine it is for, over which wire and port, by
/// which ABI and whether the driver is linked, how an endpoint is reached, and
/// which ways there are to authenticate.
pub proof fn configuration_tells_the_connector()
    ensures
        CONFIG_JSON@ == "{\n  \"extensionId\": \"irodori.trino-presto\",\n  \"connector\": {\n    \"engine\": \""@
            + ENGINE@
            + "\",\n    \"wire\": \"jdbc\",\n    \"defaultPort\": 8080,\n    \"module\": {\n      \"abi\": \"irodori.connector.native.v1\",\n      \"driverLinked\": "@
            + (if DRIVER_LINKED {
            "true"@
        } else {
            "false"@
        })
            + "\n    }\n  },\n"@
            + "  \"connection\": {\n    \"endpointModes\": [\n      \"hostPort\",\n      \"connectionString\"\n    ],\n    \"transportModes\": [\n      \"direct\",\n      \"sshTunnel\",\n      \"socks5Proxy\",\n      \"httpConnectProxy\",\n      \"proxyChain\"\n    ],\n    \"tls\": {\n      \"supported\": true\n    },\n    \"customDriverOptions\": true,\n    "@
            + "\"authMethods\": ["@
            + auth_methods_text() + "\n    ],\n    \"secretPurposes\": [\n      \"password\",\n      \"token\",\n      \"privateKey\",\n      \"privateKeyPassphrase\"\n    ]\n  }\n}"@,
{
    lemma_configuration_pieces();
    lemma_auth_methods();
    let config = CONFIG_JSON@;
    assert(config =~= config.subrange(0, 75) + config.subrange(75, 86) + config.subrange(86, 216) + config.subrange(216, 221) + config.subrange(221, 233) + config.subrange(233, 537) + config.subrange(537, 553) + config.subrange(553, 2023) + config.subrange(2023, 2148));
}

/// Where the other pieces stand in the configuration.
proof fn lemma_configuration_pieces()
    ensures
        CONFIG_JSON@.len() == 2148,
        CONFIG_JSON@.subrange(0, 75) == "{\n  \"extensionId\": \"irodori.trino-presto\",\n  \"connector\": {\n    \"engine\": \""@,
        CONFIG_JSON@.subrange(75, 86) == ENGINE@,
        CONFIG_JSON@.subrange(86, 216) == "\",\n    \"wire\": \"jdbc\",\n    \"defaultPort\": 8080,\n    \"module\": {\n      \"abi\": \"irodori.connector.native.v1\",\n      \"driverLinked\": "@,
        CONFIG_JSON@.subrange(216, 221) == "false"@,
        CONFIG_JSON@.subrange(221, 233) == "\n    }\n  },\n"@,
        CONFIG_JSON@.subrange(233, 537) == "  \"connection\": {\n    \"endpointModes\": [\n      \"hostPort\",\n      \"connectionString\"\n    ],\n    \"transportModes\": [\n      \"direct\",\n      \"sshTunnel\",\n      \"socks5Proxy\",\n      \"httpConnectProxy\",\n      \"proxyChain\"\n    ],\n    \"tls\": {\n      \"supported\": true\n    },\n    \"customDriverOptions\": true,\n    "@,
        CONFIG_JSON@.subrange(537, 553) == "\"authMethods\": ["@,
        CONFIG_JSON@.subrange(2023, 2148) == "\n    ],\n    \"secretPurposes\": [\n      \"password\",\n      \"token\",\n      \"privateKey\",\n      \"privateKeyPassphrase\"\n    ]\n  }\n}"@,
{
    reveal_strlit("{\n  \"extensionId\": \"irodori.trino-presto\",\n  \"connector\": {\n    \"engine\": \"trinoPresto\",\n    \"wire\": \"jdbc\",\n    \"defaultPort\": 8080,\n    \"module\": {\n      \"abi\": \"irodori.connector.native.v1\",\n      \"driverLinked\": false\n    }\n  },\n  \"connection\": {\n    \"endpointModes\": [\n      \"hostPort\",\n      \"connectionString\"\n    ],\n    \"transportModes\": [\n      \"direct\",\n      \"sshTunnel\",\n      \"socks5Proxy\",\n      \"httpConnectProxy\",\n      \"proxyChain\"\n    ],\n    \"tls\": {\n      \"supported\": true\n    },\n    \"customDriverOptions\": true,\n    \"authMethods\": [\n      {\n        \"id\": \"none\",\n        \"label\": \"No authentication\",\n        \"secretPurposes\": []\n      },\n      {\n        \"id\": \"connectionString\",\n        \"label\": \"Connection string / DSN\",\n        \"secretPurposes\": []\n      },\n      {\n        \"id\": \"userPassword\",\n        \"label\": \"User/password\",\n        \"secretPurposes\": [\n          \"password\"\n        ]\n      },\n      {\n        \"id\": \"basic\",\n        \"label\": \"Basic authentication\",\n        \"secretPurposes\": [\n          \"password\"\n        ]\n      },\n      {\n        \"id\": \"bearerToken\",\n        \"label\": \"Bearer token\",\n        \"secretPurposes\": [\n          \"token\"\n        ]\n      },\n      {\n        \"id\": \"oauth2\",\n        \"label\": \"OAuth 2.0\",\n        \"secretPurposes\": [\n          \"token\"\n        ]\n      },\n      {\n        \"id\": \"kerberos\",\n        \"label\": \"Kerberos / GSSAPI\",\n        \"secretPurposes\": [\n          \"token\"\n        ]\n      },\n      {\n        \"id\": \"ldap\",\n        \"label\": \"LDAP user/password\",\n        \"secretPurposes\": [\n          \"password\"\n        ]\n      },\n      {\n        \"id\": \"clientCertificate\",\n        \"label\": \"Client certificate / mTLS\",\n        \"secretPurposes\": [\n          \"privateKey\",\n          \"privateKeyPassphrase\"\n        ]\n      },\n      {\n        \"id\": \"customDriverOptions\",\n        \"label\": \"Custom driver options\",\n        \"secretPurposes\": [\n          \"password\",\n          \"token\",\n          \"privateKey\",\n          \"privateKeyPassphrase\"\n        ]\n      }\n    ],\n    \"secretPurposes\": [\n      \"password\",\n      \"token\",\n      \"privateKey\",\n      \"privateKeyPassphrase\"\n    ]\n  }\n}");
    reveal_strlit("{\n  \"extensionId\": \"irodori.trino-presto\",\n  \"connector\": {\n    \"engine\": \"");
    reveal_strlit("\",\n    \"wire\": \"jdbc\",\n    \"defaultPort\": 8080,\n    \"module\": {\n      \"abi\": \"irodori.connector.native.v1\",\n      \"driverLinked\": ");
    reveal_strlit("\n    }\n  },\n");
    reveal_strlit("trinoPresto");
    reveal_strlit("false");
    reveal_strlit("  \"connection\": {\n    \"endpointModes\": [\n      \"hostPort\",\n      \"connectionString\"\n    ],\n    \"transportModes\": [\n      \"direct\",\n      \"sshTunnel\",\n      \"socks5Proxy\",\n      \"httpConnectProxy\",\n      \"proxyChain\"\n    ],\n    \"tls\": {\n      \"supported\": true\n    },\n    \"customDriverOptions\": true,\n    ");
    reveal_strlit("\"authMethods\": [");
    reveal_strlit("\n    ],\n    \"secretPurposes\": [\n      \"password\",\n      \"token\",\n      \"privateKey\",\n      \"privateKeyPassphrase\"\n    ]\n  }\n}");
    let config = CONFIG_JSON@;
    assert(config.subrange(0, 75) =~= "{\n  \"extensionId\": \"irodori.trino-presto\",\n  \"connector\": {\n    \"engine\": \""@);
    assert(config.subrange(75, 86) =~= ENGINE@);
    assert(config.subrange(86, 216) =~= "\",\n    \"wire\": \"jdbc\",\n    \"defaultPort\": 8080,\n    \"module\": {\n      \"abi\": \"irodori.connector.native.v1\",\n      \"driverLinked\": "@);
    assert(config.subrange(216, 221) =~= "false"@);
    assert(config.subrange(221, 233) =~= "\n    }\n  },\n"@);
    assert(config.subrange(233, 537) =~= "  \"connection\": {\n    \"endpointModes\": [\n      \"hostPort\",\n      \"connectionString\"\n    ],\n    \"transportModes\": [\n      \"direct\",\n      \"sshTunnel\",\n      \"socks5Proxy\",\n      \"httpConnectProxy\",\n      \"proxyChain\"\n    ],\n    \"tls\": {\n      \"supported\": true\n    },\n    \"customDriverOptions\": true,\n    "@);
    assert(config.subrange(537, 553) =~= "\"authMethods\": ["@);
    assert(config.subrange(2023, 2148) =~= "\n    ],\n    \"secretPurposes\": [\n      \"password\",\n      \"token\",\n      \"privateKey\",\n      \"privateKeyPassphrase\"\n    ]\n  }\n}"@);
}

/// Where the ways to authenticate stand in the configuration.
proof fn lemma_auth_methods()
    ensures
        CONFIG_JSON@.subrange(553, 2023) == auth_methods_text(),
{
    reveal_strlit("{\n  \"extensionId\": \"irodori.trino-presto\",\n  \"connector\": {\n    \"engine\": \"trinoPresto\",\n    \"wire\": \"jdbc\",\n    \"defaultPort\": 8080,\n    \"module\": {\n      \"abi\": \"irodori.connector.native.v1\",\n      \"driverLinked\": false\n    }\n  },\n  \"connection\": {\n    \"endpointModes\": [\n      \"hostPort\",\n      \"connectionString\"\n    ],\n    \"transportModes\": [\n      \"direct\",\n      \"sshTunnel\",\n      \"socks5Proxy\",\n      \"httpConnectProxy\",\n      \"proxyChain\"\n    ],\n    \"tls\": {\n      \"supported\": true\n    },\n    \"customDriverOptions\": true,\n    \"authMethods\": [\n      {\n        \"id\": \"none\",\n        \"label\": \"No authentication\",\n        \"secretPurposes\": []\n      },\n      {\n        \"id\": \"connectionString\",\n        \"label\": \"Connection string / DSN\",\n        \"secretPurposes\": []\n      },\n      {\n        \"id\": \"userPassword\",\n        \"label\": \"User/password\",\n        \"secretPurposes\": [\n          \"password\"\n        ]\n      },\n      {\n        \"id\": \"basic\",\n        \"label\": \"Basic authentication\",\n        \"secretPurposes\": [\n          \"password\"\n        ]\n      },\n      {\n        \"id\": \"bearerToken\",\n        \"label\": \"Bearer token\",\n        \"secretPurposes\": [\n          \"token\"\n        ]\n      },\n      {\n        \"id\": \"oauth2\",\n        \"label\": \"OAuth 2.0\",\n        \"secretPurposes\": [\n          \"token\"\n        ]\n      },\n      {\n        \"id\": \"kerberos\",\n        \"label\": \"Kerberos / GSSAPI\",\n        \"secretPurposes\": [\n          \"token\"\n        ]\n      },\n      {\n        \"id\": \"ldap\",\n        \"label\": \"LDAP user/password\",\n        \"secretPurposes\": [\n          \"password\"\n        ]\n      },\n      {\n        \"id\": \"clientCertificate\",\n        \"label\": \"Client certificate / mTLS\",\n        \"secretPurposes\": [\n          \"privateKey\",\n          \"privateKeyPassphrase\"\n        ]\n      },\n      {\n        \"id\": \"customDriverOptions\",\n        \"label\": \"Custom driver options\",\n        \"secretPurposes\": [\n          \"password\",\n          \"token\",\n          \"privateKey\",\n          \"privateKeyPassphrase\"\n        ]\n      }\n    ],\n    \"secretPurposes\": [\n      \"password\",\n      \"token\",\n      \"privateKey\",\n      \"privateKeyPassphrase\"\n    ]\n  }\n}");
    reveal_strlit("\n      {\n        \"id\": \"");
    reveal_strlit("\",\n        \"label\": \"");
    reveal_strlit("\",\n        \"secretPurposes\": ");
    reveal_strlit("\n      }");
    reveal_strlit("[]");
    reveal_strlit("[\n          \"token\"\n        ]");
    reveal_strlit("[\n          \"password\"\n        ]");
    reveal_strlit("[\n          \"privateKey\",\n          \"privateKeyPassphrase\"\n        ]");
    reveal_strlit("[\n          \"password\",\n          \"token\",\n          \"privateKey\",\n          \"privateKeyPassphrase\"\n        ]");
    reveal_strlit(",");
    reveal_strlit("none");
    reveal_strlit("No authentication");
    reveal_strlit("connectionString");
    reveal_strlit("Connection string / DSN");
    reveal_strlit("userPassword");
    reveal_strlit("User/password");
    reveal_strlit("basic");
    reveal_strlit("Basic authentication");
    reveal_strlit("bearerToken");
    reveal_strlit("Bearer token");
    reveal_strlit("oauth2");
    reveal_strlit("OAuth 2.0");
    reveal_strlit("kerberos");
    reveal_strlit("Kerberos / GSSAPI");
    reveal_strlit("ldap");
    reveal_strlit("LDAP user/password");
    reveal_strlit("clientCertificate");
    reveal_strlit("Client certificate / mTLS");
    reveal_strlit("customDriverOptions");
    reveal_strlit("Custom driver options");
    let config = CONFIG_JSON@;
    assert(config.subrange(553, 658) =~= auth_method_text(
        "none"@,
        "No authentication"@,
        "[]"@,
    ));
    assert(config.subrange(658, 659) =~= ","@);
    assert(config.subrange(659, 782) =~= auth_method_text(
        "connectionString"@,
        "Connection string / DSN"@,
        "[]"@,
    ));
    assert(config.subrange(782, 783) =~= ","@);
    assert(config.subrange(783, 922) =~= auth_method_text(
        "userPassword"@,
        "User/password"@,
        "[\n          \"password\"\n        ]"@,
    ));
    assert(config.subrange(922, 923) =~= ","@);
    assert(config.subrange(923, 1062) =~= auth_method_text(
        "basic"@,
        "Basic authentication"@,
        "[\n          \"password\"\n        ]"@,
    ));
    assert(config.subrange(1062, 1063) =~= ","@);
    assert(config.subrange(1063, 1197) =~= auth_method_text(
        "bearerToken"@,
        "Bearer token"@,
        "[\n          \"token\"\n        ]"@,
    ));
    assert(config.subrange(1197, 1198) =~= ","@);
    assert(config.subrange(1198, 1324) =~= auth_method_text(
        "oauth2"@,
        "OAuth 2.0"@,
        "[\n          \"token\"\n        ]"@,
    ));
    assert(config.subrange(1324, 1325) =~= ","@);
    assert(config.subrange(1325, 1461) =~= auth_method_text(
        "kerberos"@,
        "Kerberos / GSSAPI"@,
        "[\n          \"token\"\n        ]"@,
    ));
    assert(config.subrange(1461, 1462) =~= ","@);
    assert(config.subrange(1462, 1598) =~= auth_method_text(
        "ldap"@,
        "LDAP user/password"@,
        "[\n          \"password\"\n        ]"@,
    ));
    assert(config.subrange(1598, 1599) =~= ","@);
    assert(config.subrange(1599, 1791) =~= auth_method_text(
        "clientCertificate"@,
        "Client certificate / mTLS"@,
        "[\n          \"privateKey\",\n          \"privateKeyPassphrase\"\n        ]"@,
    ));
    assert(config.subrange(1791, 1792) =~= ","@);
    assert(config.subrange(1792, 2023) =~= auth_method_text(
        "customDriverOptions"@,
        "Custom driver options"@,
        "[\n          \"password\",\n          \"token\",\n          \"privateKey\",\n          \"privateKeyPassphrase\"\n        ]"@,
    ));
    assert(config.subrange(553, 2023) =~= config.subrange(553, 658) + config.subrange(658, 659) + config.subrange(659, 782) + config.subrange(782, 783) + config.subrange(783, 922) + config.subrange(922, 923) + config.subrange(923, 1062) + config.subrange(1062, 1063) + config.subrange(1063, 1197) + config.subrange(1197, 1198) + config.subrange(1198, 1324) + config.subrange(1324, 1325) + config.subrange(1325, 1461) + config.subrange(1461, 1462) + config.subrange(1462, 1598) + config.subrange(1598, 1599) + config.subrange(1599, 1791) + config.subrange(1791, 1792) + config.subrange(1792, 2023));
}

/// The manifest says who the extension is and contributes one connector, for the
/// engine, wire, port and ABI that the configuration names.
pub proof fn manifest_tells_the_connector()
    ensures
        "{\n  \"id\": \"irodori.trino-presto\",\n  \"name\": \"Trino / Presto Connector\",\n  \"description\": \"Adds Trino and Presto connectivity as an installable connector extension.\",\n  \"permissions\": [\n    \"connectors\"\n  ],\n  \"contributes\": {\n    \"connectors\": [\n      {\n        \"engine\": \""@
            + ENGINE@
            + "\",\n        \"label\": \"Trino / Presto\",\n        \"wire\": \"jdbc\",\n        \"defaultPort\": 8080,\n        \"module\": {\n          \"abi\": \"irodori.connector.native.v1\",\n          \"driverLinked\": "@
            + (if DRIVER_LINKED {
            "true"@
        } else {
            "false"@
        })
            + "\n        },\n        \"connection\": {"@ == MANIFEST_JSON@.take(509),
{
    reveal_strlit("{\n  \"id\": \"irodori.trino-presto\",\n  \"name\": \"Trino / Presto Connector\",\n  \"description\": \"Adds Trino and Presto connectivity as an installable connector extension.\",\n  \"permissions\": [\n    \"connectors\"\n  ],\n  \"contributes\": {\n    \"connectors\": [\n      {\n        \"engine\": \"trinoPresto\",\n        \"label\": \"Trino / Presto\",\n        \"wire\": \"jdbc\",\n        \"defaultPort\": 8080,\n        \"module\": {\n          \"abi\": \"irodori.connector.native.v1\",\n          \"driverLinked\": false\n        },\n        \"connection\": {\n          \"endpointModes\": [\n            \"hostPort\",\n            \"connectionString\"\n          ],\n          \"transportModes\": [\n            \"direct\",\n            \"sshTunnel\",\n            \"socks5Proxy\",\n            \"httpConnectProxy\",\n            \"proxyChain\"\n          ],\n          \"tls\": {\n            \"supported\": true\n          },\n          \"customDriverOptions\": true,\n          \"authMethods\": [\n            {\n              \"id\": \"none\",\n              \"label\": \"No authentication\",\n              \"secretPurposes\": []\n            },\n            {\n              \"id\": \"connectionString\",\n              \"label\": \"Connection string / DSN\",\n              \"secretPurposes\": []\n            },\n            {\n              \"id\": \"userPassword\",\n              \"label\": \"User/password\",\n              \"secretPurposes\": [\n                \"password\"\n              ]\n            },\n            {\n              \"id\": \"basic\",\n              \"label\": \"Basic authentication\",\n              \"secretPurposes\": [\n                \"password\"\n              ]\n            },\n            {\n              \"id\": \"bearerToken\",\n              \"label\": \"Bearer token\",\n              \"secretPurposes\": [\n                \"token\"\n              ]\n            },\n            {\n              \"id\": \"oauth2\",\n              \"label\": \"OAuth 2.0\",\n              \"secretPurposes\": [\n                \"token\"\n              ]\n            },\n            {\n              \"id\": \"kerberos\",\n              \"label\": \"Kerberos / GSSAPI\",\n              \"secretPurposes\": [\n                \"token\"\n              ]\n            },\n            {\n              \"id\": \"ldap\",\n              \"label\": \"LDAP user/password\",\n              \"secretPurposes\": [\n                \"password\"\n              ]\n            },\n            {\n              \"id\": \"clientCertificate\",\n              \"label\": \"Client certificate / mTLS\",\n              \"secretPurposes\": [\n                \"privateKey\",\n                \"privateKeyPassphrase\"\n              ]\n            },\n            {\n              \"id\": \"customDriverOptions\",\n              \"label\": \"Custom driver options\",\n              \"secretPurposes\": [\n                \"password\",\n                \"token\",\n                \"privateKey\",\n                \"privateKeyPassphrase\"\n              ]\n            }\n          ],\n          \"secretPurposes\": [\n            \"password\",\n            \"token\",\n            \"privateKey\",\n            \"privateKeyPassphrase\"\n          ]\n        }\n      }\n    ]\n  }\n}");
    reveal_strlit("{\n  \"id\": \"irodori.trino-presto\",\n  \"name\": \"Trino / Presto Connector\",\n  \"description\": \"Adds Trino and Presto connectivity as an installable connector extension.\",\n  \"permissions\": [\n    \"connectors\"\n  ],\n  \"contributes\": {\n    \"connectors\": [\n      {\n        \"engine\": \"");
    reveal_strlit("\",\n        \"label\": \"Trino / Presto\",\n        \"wire\": \"jdbc\",\n        \"defaultPort\": 8080,\n        \"module\": {\n          \"abi\": \"irodori.connector.native.v1\",\n          \"driverLinked\": ");
    reveal_strlit("\n        },\n        \"connection\": {");
    reveal_strlit("trinoPresto");
    reveal_strlit("false");
    let manifest = MANIFEST_JSON@;
    assert(manifest.subrange(0, 273) =~= "{\n  \"id\": \"irodori.trino-presto\",\n  \"name\": \"Trino / Presto Connector\",\n  \"description\": \"Adds Trino and Presto connectivity as an installable connector extension.\",\n  \"permissions\": [\n    \"connectors\"\n  ],\n  \"contributes\": {\n    \"connectors\": [\n      {\n        \"engine\": \""@);
    assert(manifest.subrange(273, 284) =~= ENGINE@);
    assert(manifest.subrange(284, 469) =~= "\",\n        \"label\": \"Trino / Presto\",\n        \"wire\": \"jdbc\",\n        \"defaultPort\": 8080,\n        \"module\": {\n          \"abi\": \"irodori.connector.native.v1\",\n          \"driverLinked\": "@);
    assert(manifest.subrange(469, 474) =~= "false"@);
    assert(manifest.subrange(474, 509) =~= "\n        },\n        \"connection\": {"@);
    assert(manifest.take(509) =~= manifest.subrange(0, 273) + manifest.subrange(273, 284) + manifest.subrange(284, 469) + manifest.subrange(469, 474) + manifest.subrange(474, 509));
}

} // verus!
