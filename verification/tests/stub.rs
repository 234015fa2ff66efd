use irodori_trino::abi::{owned_buffer, IrodoriConnectorBuffer};
use irodori_trino::json::Json;
use irodori_trino::stub::{
    describe_response_json, irodori_connector_call_json, irodori_connector_config_json,
    irodori_connector_engine_json, irodori_extension_abi_version, irodori_extension_manifest_json,
    reply_to, stub_reply, StubReply, ABI_VERSION, CONFIG_JSON, DRIVER_LINKED, ENGINE, HEALTH_RESPONSE_JSON,
    INVALID_REQUEST_RESPONSE_JSON, MANIFEST_JSON, NOT_LINKED_RESPONSE_JSON,
};
use serde_json::Value;

fn buffer_from_str(value: &str) -> IrodoriConnectorBuffer {
    buffer_from_bytes(value.as_bytes())
}

fn buffer_from_bytes(value: &[u8]) -> IrodoriConnectorBuffer {
    IrodoriConnectorBuffer {
        ptr: Some(value.to_vec()),
        len: value.len(),
    }
}

fn buffer_to_json(buffer: IrodoriConnectorBuffer) -> Value {
    let bytes = buffer.ptr.unwrap();
    serde_json::from_slice(&bytes[..buffer.len]).unwrap()
}

fn answer(request: &str) -> String {
    let buffer = irodori_connector_call_json(&buffer_from_str(request));
    String::from_utf8(buffer.ptr.unwrap()).unwrap()
}

#[test]
fn manifest_and_config_describe_the_same_connector() {
    let manifest: Value = serde_json::from_str(MANIFEST_JSON).unwrap();
    let config: Value = serde_json::from_str(CONFIG_JSON).unwrap();
    let connector = &manifest["contributes"]["connectors"][0];

    assert_eq!(manifest["id"], config["extensionId"]);
    assert_eq!(connector["engine"], ENGINE);
    assert_eq!(connector["engine"], config["connector"]["engine"]);
    assert_eq!(connector["module"], config["connector"]["module"]);
    assert_eq!(connector["connection"], config["connection"]);
    assert!(config["connection"]["authMethods"]
        .as_array()
        .is_some_and(|methods| !methods.is_empty()));
    assert!(config["connection"]["secretPurposes"]
        .as_array()
        .is_some_and(|purposes| !purposes.is_empty()));
    assert!(manifest["permissions"]
        .as_array()
        .unwrap()
        .iter()
        .any(|permission| permission == "connectors"));
}

#[test]
fn abi_exports_static_json() {
    assert_eq!(irodori_extension_abi_version(), ABI_VERSION);
    assert!(irodori_extension_manifest_json().len > 0);
    assert!(irodori_connector_config_json().len > 0);
    assert_eq!(irodori_connector_engine_json().len, ENGINE.len());
}

#[test]
fn call_json_reports_health_and_describes_metadata() {
    let health = buffer_to_json(irodori_connector_call_json(&buffer_from_str(
        r#"{"method":"health"}"#,
    )));
    assert_eq!(health["ok"], true);
    assert_eq!(health["engine"], ENGINE);
    assert_eq!(health["driverLinked"], false);

    let describe = buffer_to_json(irodori_connector_call_json(&buffer_from_str(
        r#"{"method":"describe"}"#,
    )));
    assert_eq!(describe["ok"], true);
    assert_eq!(
        describe["manifest"]["id"],
        describe["config"]["extensionId"]
    );
    assert_eq!(describe["config"]["connector"]["engine"], ENGINE);
}

#[test]
fn call_json_rejects_driver_operations_until_linked() {
    let response = buffer_to_json(irodori_connector_call_json(&buffer_from_str(
        r#"{"method":"query","sql":"select 1"}"#,
    )));
    assert_eq!(response["ok"], false);
    assert_eq!(response["error"]["code"], "connector.driverNotLinked");
}

#[test]
fn call_json_rejects_invalid_request_buffers() {
    let invalid_utf8 = buffer_to_json(irodori_connector_call_json(&buffer_from_bytes(&[
        0xff, 0xfe,
    ])));
    assert_eq!(invalid_utf8["ok"], false);
    assert_eq!(invalid_utf8["error"]["code"], "connector.invalidRequest");

    let invalid_null = buffer_to_json(irodori_connector_call_json(&IrodoriConnectorBuffer {
        ptr: None,
        len: 1,
    }));
    assert_eq!(invalid_null["ok"], false);
    assert_eq!(invalid_null["error"]["code"], "connector.invalidRequest");
}

#[test]
fn metadata_names_the_connector() {
    let config: Value = serde_json::from_str(CONFIG_JSON).unwrap();
    assert_eq!(ABI_VERSION, 1);
    assert_eq!(ENGINE, "trinoPresto");
    assert_eq!(DRIVER_LINKED, false);
    assert_eq!(config["extensionId"], "irodori.trino-presto");
    assert_eq!(config["connector"]["wire"], "jdbc");
    assert_eq!(config["connector"]["defaultPort"], 8080);
    assert_eq!(config["connection"]["authMethods"].as_array().unwrap().len(), 10);
    let manifest: Value = serde_json::from_str(MANIFEST_JSON).unwrap();
    let module = &manifest["contributes"]["connectors"][0]["module"];
    assert_eq!(module["abi"], "irodori.connector.native.v1");
}

#[test]
fn exports_hold_the_constants() {
    let engine = irodori_connector_engine_json();
    assert_eq!(engine.ptr.unwrap(), ENGINE.as_bytes());
    let manifest = irodori_extension_manifest_json();
    assert_eq!(manifest.ptr.unwrap(), MANIFEST_JSON.as_bytes());
    let config = irodori_connector_config_json();
    assert_eq!(config.ptr.unwrap(), CONFIG_JSON.as_bytes());
}

#[test]
fn each_method_has_its_reply() {
    assert_eq!(answer(r#"{"method":"ping"}"#), HEALTH_RESPONSE_JSON);
    assert_eq!(answer(r#"{"method":"capabilities"}"#), describe_response_json());
    assert_eq!(answer(r#"{"method":"manifest"}"#), MANIFEST_JSON);
    assert_eq!(answer(r#"{"method":"config"}"#), CONFIG_JSON);
    assert_eq!(answer(r#"{"method":"connect"}"#), NOT_LINKED_RESPONSE_JSON);
    assert_eq!(answer("not even JSON"), NOT_LINKED_RESPONSE_JSON);
}

#[test]
fn requests_without_a_method_get_health_or_refusal() {
    assert_eq!(answer(""), HEALTH_RESPONSE_JSON);
    assert_eq!(answer(" \n\t"), HEALTH_RESPONSE_JSON);
    let null = IrodoriConnectorBuffer { ptr: None, len: 0 };
    assert_eq!(stub_reply(&null), StubReply::Health);
    assert_eq!(stub_reply(&buffer_from_bytes(&[0x80])), StubReply::InvalidRequest);
    assert_eq!(
        StubReply::InvalidRequest.text(),
        INVALID_REQUEST_RESPONSE_JSON
    );
}

#[test]
fn the_method_decides_whatever_the_other_fields_hold() {
    for (request, reply) in [
        (r#"{"method":"config","also":"manifest"}"#, StubReply::Config),
        (r#"{"method":"manifest","also":"health"}"#, StubReply::Manifest),
        (r#"{"id":"config","method":"describe"}"#, StubReply::Describe),
        (r#"{"method":"query","sql":"config"}"#, StubReply::NotLinked),
        (r#"{"method":"connect","user":"health"}"#, StubReply::NotLinked),
        (r#"{"method":"metadata","id":"manifest"}"#, StubReply::NotLinked),
        (r#"{"method":" ping ","also":"ping"}"#, StubReply::NotLinked),
        (r#" {"method":"\u0070ing"} "#, StubReply::Health),
        (r#"{"method":"query","method":"config"}"#, StubReply::Config),
    ] {
        assert_eq!(stub_reply(&buffer_from_str(request)), reply, "{request}");
    }
}

#[test]
fn a_query_for_the_word_config_is_a_driver_operation() {
    let response = buffer_to_json(irodori_connector_call_json(&buffer_from_str(
        r#"{"method":"query","sql":"config"}"#,
    )));
    assert_eq!(response["ok"], false);
    assert_eq!(response["error"]["code"], "connector.driverNotLinked");
}

#[test]
fn names_in_quotes_count_where_no_method_is_named() {
    let reply = |request: &str| stub_reply(&buffer_from_str(request));
    assert_eq!(
        reply(r#"["config","manifest","describe","ping"]"#),
        StubReply::Health
    );
    assert_eq!(reply(r#"["config","manifest"]"#), StubReply::Manifest);
    assert_eq!(reply(r#"{"method":7,"also":"config"}"#), StubReply::Config);
    assert_eq!(reply(r#"{"method":"config""#), StubReply::Config);
    assert_eq!(reply("health"), StubReply::NotLinked);
    assert_eq!(reply("{}"), StubReply::NotLinked);
}

#[test]
fn what_was_read_decides_over_the_reply() {
    let request = |method: &str| {
        Ok(Json::Object(vec![(
            "method".to_string(),
            Json::String(method.to_string()),
        )]))
    };
    let quoted = r#""manifest""#;
    assert_eq!(reply_to(quoted, &request("query")), StubReply::NotLinked);
    assert_eq!(reply_to(quoted, &request("capabilities")), StubReply::Describe);
    assert_eq!(reply_to(quoted, &Ok(Json::Null)), StubReply::Manifest);
    assert_eq!(reply_to(quoted, &Err("why".to_string())), StubReply::Manifest);
    assert_eq!(reply_to(" ", &request("config")), StubReply::Health);
}

#[test]
fn only_the_counted_bytes_are_read() {
    let mut buffer = owned_buffer("\"config\" and \"manifest\"".to_string());
    buffer.len = 8;
    assert_eq!(stub_reply(&buffer), StubReply::Config);
}
