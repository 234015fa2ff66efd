use irodori_trino::abi::{buffer_to_string, owned_buffer, IrodoriConnectorBuffer};
use irodori_trino::codec::parse_json;
use irodori_trino::config::TrinoConfig;
use irodori_trino::connections::{poisoned_response, ConnectionTable};
use irodori_trino::driver::{
    call_json, call_request, finish_connect, load_metadata, load_version, resume, version_text,
    Pending, Step, METADATA_SQL,
};
use irodori_trino::http::{HttpEvent, HttpMethod, HttpReply, HttpRequest, TrinoConnection};
use irodori_trino::stub::{CONFIG_JSON, ENGINE, MANIFEST_JSON};
use serde_json::Value;

fn text_of(buffer: IrodoriConnectorBuffer) -> String {
    buffer_to_string(&buffer).unwrap()
}

fn replied(step: Step) -> String {
    match step {
        Step::Reply(buffer) => text_of(buffer),
        other => panic!("expected an answer: {other:?}"),
    }
}

fn sent(step: Step) -> (HttpRequest, Pending) {
    match step {
        Step::Send(request, pending) => (request, pending),
        other => panic!("expected a request: {other:?}"),
    }
}

fn call(table: &mut ConnectionTable, request: &str) -> Step {
    call_json(&owned_buffer(request.to_string()), table)
}

fn page(body: &str) -> HttpEvent {
    HttpEvent::Reply(HttpReply {
        code: 200,
        status: "200 OK".to_string(),
        body: body.to_string(),
    })
}

fn code_of(answer: &str) -> String {
    let value: Value = serde_json::from_str(answer).unwrap();
    assert_eq!(value["ok"], false);
    value["error"]["code"].as_str().unwrap().to_string()
}

fn message_of(answer: &str) -> String {
    let value: Value = serde_json::from_str(answer).unwrap();
    value["error"]["message"].as_str().unwrap().to_string()
}

fn open(table: &mut ConnectionTable, id: &str) {
    let request = format!(
        "{{\"method\":\"connect\",\"connectionId\":\"{id}\",\"url\":\"http://{id}\",\"password\":\"s3cret\"}}"
    );
    let (_, pending) = sent(call(table, &request));
    replied(resume(pending, page("{}"), table));
}

#[test]
fn the_connector_says_what_it_is() {
    let mut table = ConnectionTable::new();
    let health = "{\"abiVersion\":1,\"driverLinked\":false,\"engine\":\"trinoPresto\",\"ok\":true}";
    for request in ["", "  ", "{\"method\":\"health\"}", "{\"method\":\"ping\"}"] {
        assert_eq!(replied(call(&mut table, request)), health);
    }
    for request in ["{\"method\":\"describe\"}", "{\"method\":\"capabilities\"}"] {
        let answer: Value = serde_json::from_str(&replied(call(&mut table, request))).unwrap();
        assert_eq!(answer["ok"], true);
        assert_eq!(answer["engine"], ENGINE);
        assert_eq!(
            answer["manifest"],
            serde_json::from_str::<Value>(MANIFEST_JSON).unwrap()
        );
        assert_eq!(
            answer["config"],
            serde_json::from_str::<Value>(CONFIG_JSON).unwrap()
        );
    }
    assert_eq!(replied(call(&mut table, "{\"method\":\"manifest\"}")), MANIFEST_JSON);
    assert_eq!(replied(call(&mut table, "{\"method\":\"config\"}")), CONFIG_JSON);
    assert!(table.open.is_empty());
}

#[test]
fn requests_that_cannot_be_read_are_refused() {
    let mut table = ConnectionTable::new();
    let unreadable = IrodoriConnectorBuffer { ptr: None, len: 2 };
    let answer = replied(call_json(&unreadable, &mut table));
    assert_eq!(code_of(&answer), "connector.invalidRequest");
    assert_eq!(code_of(&replied(call(&mut table, "{"))), "connector.invalidJson");
    assert_eq!(code_of(&replied(call(&mut table, "{}"))), "connector.invalidRequest");
    assert_eq!(code_of(&replied(call(&mut table, "[]"))), "connector.invalidRequest");
    let answer = replied(call(&mut table, "{\"method\":\"Health\"}"));
    assert_eq!(code_of(&answer), "connector.unknownMethod");
    assert_eq!(message_of(&answer), "unknown connector method: Health");
    // A method is taken as it is, white space and all.
    let answer = replied(call(&mut table, "{\"method\":\"ping \"}"));
    assert_eq!(message_of(&answer), "unknown connector method: ping ");
}

#[test]
fn parsed_requests_are_carried_out_alike() {
    let mut table = ConnectionTable::new();
    assert_eq!(
        replied(call_request(None, &mut table)),
        replied(call(&mut table, ""))
    );
    let close = parse_json("{\"method\":\"close\"}").unwrap();
    assert_eq!(
        replied(call_request(Some(&close), &mut table)),
        "{\"closed\":false,\"connectionId\":\"default\",\"ok\":true}"
    );
}

#[test]
fn connecting_asks_for_the_version() {
    let mut table = ConnectionTable::new();
    let (request, pending) = sent(call(
        &mut table,
        "{\"method\":\"connect\",\"id\":\" one \",\"profile\":{\"host\":\"h\",\"port\":1}}",
    ));
    assert_eq!(request.method, HttpMethod::Get);
    assert_eq!(request.url, "http://h:1/v1/info");
    assert!(table.open.is_empty());
    let answer = replied(resume(pending, page("{\"nodeVersion\":\"435\"}"), &mut table));
    assert_eq!(
        answer,
        "{\"connectionId\":\"one\",\"driverLinked\":false,\"endpoint\":\"http://h:1\",\"engine\":\"trinoPresto\",\"ok\":true,\"serverVersion\":\"Trino/Presto 435\"}"
    );
    assert_eq!(table.connection("one").unwrap().config.base_url, "http://h:1");
}

#[test]
fn versions_are_read_from_the_answer() {
    let version = |text: &str| version_text(&parse_json(text).unwrap());
    assert_eq!(version("{\"nodeVersion\":\"1\",\"version\":\"2\"}"), "Trino/Presto 1");
    assert_eq!(version("{\"version\":\"2\"}"), "Trino/Presto 2");
    assert_eq!(version("{\"nodeVersion\":{\"version\":\"1\"},\"version\":\"2\"}"), "Trino/Presto");
    assert_eq!(version("null"), "Trino/Presto");
    assert_eq!(load_version(page("no JSON")), Ok("Trino/Presto".to_string()));
    assert_eq!(
        load_version(page("{\"version\":\"2\"}")),
        Ok("Trino/Presto 2".to_string())
    );
    assert_eq!(
        load_version(HttpEvent::NotStarted("a".to_string())),
        Err("a".to_string())
    );
    assert_eq!(
        load_version(HttpEvent::SendFailed("a".to_string())),
        Err("Trino info request failed: a".to_string())
    );
    assert_eq!(
        load_version(HttpEvent::ReadFailed("a".to_string())),
        Err("Trino info response read failed: a".to_string())
    );
    assert_eq!(
        load_version(HttpEvent::Reply(HttpReply {
            code: 401,
            status: "401 Unauthorized".to_string(),
            body: "who?".to_string(),
        })),
        Err("Trino info returned HTTP 401 Unauthorized: who?".to_string())
    );
}

#[test]
fn a_failed_connect_opens_nothing() {
    let mut table = ConnectionTable::new();
    open(&mut table, "old");
    let (_, pending) = sent(call(
        &mut table,
        "{\"method\":\"connect\",\"id\":\"new\",\"url\":\"http://u:pw@h\",\"token\":\"t0ken\"}",
    ));
    let event = HttpEvent::SendFailed("cannot reach http://u:pw@h with t0ken or pw".to_string());
    let answer = replied(resume(pending, event, &mut table));
    assert_eq!(code_of(&answer), "connector.connectFailed");
    let message = message_of(&answer);
    assert!(!message.contains("t0ken") && !message.contains("pw"));
    assert_eq!(table.open.len(), 1);
    assert!(table.connection("new").is_err());
}

#[test]
fn an_opened_connection_replaces_the_one_of_its_name() {
    let mut table = ConnectionTable::new();
    open(&mut table, "a");
    open(&mut table, "b");
    let (_, pending) = sent(call(
        &mut table,
        "{\"method\":\"connect\",\"connectionId\":\"a\",\"url\":\"http://other\"}",
    ));
    replied(resume(pending, page("{}"), &mut table));
    assert_eq!(table.connection("a").unwrap().config.base_url, "http://other");
    assert_eq!(table.connection("b").unwrap().config.base_url, "http://b");
    assert_eq!(table.open.len(), 2);
}

#[test]
fn a_closed_connection_is_gone() {
    let mut table = ConnectionTable::new();
    open(&mut table, "a");
    open(&mut table, "b");
    let close = "{\"method\":\"close\",\"connectionId\":\"a\"}";
    assert_eq!(
        replied(call(&mut table, close)),
        "{\"closed\":true,\"connectionId\":\"a\",\"ok\":true}"
    );
    assert_eq!(
        replied(call(&mut table, close)),
        "{\"closed\":false,\"connectionId\":\"a\",\"ok\":true}"
    );
    let query = "{\"method\":\"query\",\"connectionId\":\"a\",\"sql\":\"x\"}";
    let answer = replied(call(&mut table, query));
    assert_eq!(code_of(&answer), "connector.connectionNotFound");
    assert_eq!(message_of(&answer), "no open connection: a");
    assert!(table.connection("b").is_ok());
}

#[test]
fn entries_of_one_name_are_closed_together() {
    let mut table = ConnectionTable::new();
    open(&mut table, "a");
    let again = table.connection("a").unwrap();
    table.open.push(("a".to_string(), again));
    assert!(table.remove("a"));
    assert!(!table.remove("a"));
    assert!(table.open.is_empty());
}

#[test]
fn queries_need_a_statement_and_a_connection() {
    let mut table = ConnectionTable::new();
    let answer = replied(call(&mut table, "{\"method\":\"query\",\"sql\":\" \"}"));
    assert_eq!(code_of(&answer), "connector.invalidRequest");
    assert_eq!(
        message_of(&answer),
        "query requires a string sql, query, or statement field."
    );
    let answer = replied(call(&mut table, "{\"method\":\"query\",\"sql\":\"x\"}"));
    assert_eq!(code_of(&answer), "connector.connectionNotFound");
    assert_eq!(message_of(&answer), "no open connection: default");
    let answer = replied(call(&mut table, "{\"method\":\"metadata\"}"));
    assert_eq!(code_of(&answer), "connector.connectionNotFound");
}

#[test]
fn queries_run_page_by_page() {
    let mut table = ConnectionTable::new();
    open(&mut table, "a");
    let (request, pending) = sent(call(
        &mut table,
        "{\"method\":\"query\",\"id\":\"a\",\"statement\":\"three\",\"query\":\"two\",\"maxRows\":3}",
    ));
    assert_eq!(request.url, "http://a/v1/statement");
    assert_eq!(request.body.as_deref(), Some("two"));
    let (request, pending) = sent(resume(
        pending,
        page("{\"columns\":[{\"name\":\"n\"}],\"data\":[[1],[\"x\"]],\"nextUri\":\"http://a/2\"}"),
        &mut table,
    ));
    assert_eq!(request.url, "http://a/2");
    let answer = replied(resume(
        pending,
        page("{\"data\":[[null],[2.5]],\"nextUri\":\"http://a/3\"}"),
        &mut table,
    ));
    assert_eq!(
        answer,
        "{\"columns\":[\"n\"],\"connectionId\":\"a\",\"ok\":true,\"rows\":[[1],[\"x\"],[null]],\"truncated\":true}"
    );
}

#[test]
fn failures_hide_the_secrets_of_the_connection() {
    let mut table = ConnectionTable::new();
    open(&mut table, "a");
    let error = "{\"error\":\"s3cret at http://a\"}";
    let (_, pending) = sent(call(&mut table, "{\"method\":\"query\",\"id\":\"a\",\"sql\":\"x\"}"));
    let answer = replied(resume(pending, page(error), &mut table));
    assert_eq!(code_of(&answer), "connector.queryFailed");
    assert_eq!(message_of(&answer), "Trino query failed: \"**** at <trino-url>\"");
    let (_, pending) = sent(call(&mut table, "{\"method\":\"metadata\",\"id\":\"a\"}"));
    let answer = replied(resume(pending, page(error), &mut table));
    assert_eq!(code_of(&answer), "connector.metadataFailed");
    assert_eq!(message_of(&answer), "Trino query failed: \"**** at <trino-url>\"");
    assert_eq!(table.open.len(), 1);
}

#[test]
fn metadata_lists_the_catalog() {
    let mut table = ConnectionTable::new();
    open(&mut table, "a");
    let (request, pending) = sent(call(&mut table, "{\"method\":\"metadata\",\"id\":\"a\"}"));
    assert_eq!(request.body.as_deref(), Some(METADATA_SQL));
    assert_eq!(
        METADATA_SQL,
        "SELECT table_schema, table_name, column_name, data_type, ordinal_position \
         FROM information_schema.columns \
         WHERE table_schema NOT IN ('information_schema') \
         ORDER BY table_schema, table_name, ordinal_position"
    );
    let (_, pending) = sent(resume(
        pending,
        page("{\"columns\":[{\"name\":\"table_schema\"},{\"name\":\"table_name\"},{\"name\":\"column_name\"},{\"name\":\"data_type\"}],\"nextUri\":\"http://a/2\"}"),
        &mut table,
    ));
    let answer = replied(resume(
        pending,
        page("{\"data\":[[\"s\",\"t\",\"c\",\"bigint\"]]}"),
        &mut table,
    ));
    let answer: Value = serde_json::from_str(&answer).unwrap();
    assert_eq!(answer["connectionId"], "a");
    assert_eq!(answer["metadata"]["schemas"][0]["objects"][0]["columns"][0]["name"], "c");
    let (_, run) = load_metadata(&table.connection("a").unwrap());
    assert_eq!(run.cap, 10_000);
}

#[test]
fn a_poisoned_table_is_refused() {
    let mut table = ConnectionTable::new();
    open(&mut table, "a");
    let (_, waiting) = sent(call(&mut table, "{\"method\":\"connect\",\"id\":\"b\"}"));
    let (_, failing) = sent(call(&mut table, "{\"method\":\"connect\",\"id\":\"b\"}"));
    table.poison();
    let poisoned = text_of(poisoned_response());
    assert_eq!(code_of(&poisoned), "connector.statePoisoned");
    assert_eq!(message_of(&poisoned), "Connector connection state is poisoned.");
    for request in [
        "{\"method\":\"query\",\"id\":\"a\",\"sql\":\"x\"}",
        "{\"method\":\"metadata\",\"id\":\"a\"}",
        "{\"method\":\"close\",\"id\":\"a\"}",
    ] {
        assert_eq!(replied(call(&mut table, request)), poisoned);
    }
    assert_eq!(replied(resume(waiting, page("{}"), &mut table)), poisoned);
    // A connect that fails says so first.
    let event = HttpEvent::NotStarted("no runtime".to_string());
    let answer = replied(resume(failing, event, &mut table));
    assert_eq!(code_of(&answer), "connector.connectFailed");
    assert_eq!(table.open.len(), 1);
}

#[test]
fn the_outcome_decides_over_the_connection() {
    let mut table = ConnectionTable::new();
    let request = parse_json("{\"url\":\"http://h\"}").unwrap();
    let connection = TrinoConnection {
        config: TrinoConfig::from_request(&request).unwrap(),
    };
    let failed = finish_connect(
        "x".to_string(),
        connection.clone(),
        Err("no http://h".to_string()),
        &mut table,
    );
    assert_eq!(message_of(&replied(failed)), "no <trino-url>");
    let opened = finish_connect("x".to_string(), connection, Ok("V".to_string()), &mut table);
    let answer: Value = serde_json::from_str(&replied(opened)).unwrap();
    assert_eq!(answer["serverVersion"], "V");
    assert!(table.connection("x").is_ok());
}
