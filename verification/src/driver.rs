//! The connector with the Trino driver: what each request asks to be done, and
//! what is answered. Where a request needs the coordinator, the driver says what
//! to send and goes on when it is told how that went.

use crate::abi::{
    connection_id, connection_id_of, error, error_view, first_of, max_rows, max_rows_of, method_of,
    not_text_view, ok, ok_view, owned_buffer, parse_request, request_method, request_read,
    string_field, string_field_of, IrodoriConnectorBuffer,
};
use crate::catalog::{metadata_from_columns, metadata_view};
use crate::codec::{json_parsed, json_text, parse_json};
use crate::config::{config_of, maskable, redaction_hides_secrets, ConfigView, TrinoConfig};
use crate::connections::{
    connection_in, not_found_view, poisoned_response, poisoned_view, ConnectionTable, TableView,
};
use crate::entries::map_of;
use crate::http::{
    info_request_of, is_success, request_of, statement_request_of, HttpEvent, HttpEventView,
    HttpMethod, HttpRequest, HttpRequestView, TrinoConnection,
};
use crate::json::{
    entries_view, group_json_view, items_view, json_of, no_fields, put_field, Json, JsonNumber,
    JsonView, NumberView,
};
use crate::statement::{
    after_event, after_page, rows_are_gathered_cell_for_cell, rows_view, run_statement, RunStep,
    RunStepView, RunView, StatementRun,
};
use crate::stub::{ABI_VERSION, CONFIG_JSON, DRIVER_LINKED, ENGINE, MANIFEST_JSON};
use crate::text::{is_blank, occurs, same, slice_of, texts, trimmed};
use vstd::prelude::*;

verus! {

/// The statement that lists the columns of all tables.
pub const METADATA_SQL: &'static str =
    "SELECT table_schema, table_name, column_name, data_type, ordinal_position FROM information_schema.columns WHERE table_schema NOT IN ('information_schema') ORDER BY table_schema, table_name, ordinal_position";

/// How many columns are listed at most.
pub const METADATA_ROWS: usize = 10_000;

/// An operation that waits for the coordinator, seen from outside.
#[verifier::ext_equal]
pub enum PendingView {
    Connect { id: Seq<char>, config: ConfigView },
    Query { id: Seq<char>, config: ConfigView, run: RunView },
    Metadata { id: Seq<char>, config: ConfigView, run: RunView },
}

/// What to do next, seen from outside: answer with a text, or send a request.
#[verifier::ext_equal]
pub enum StepView {
    Reply(Seq<char>),
    Send(HttpRequestView, PendingView),
}

/// An operation that waits for the coordinator.
#[derive(Debug)]
pub enum Pending {
    Connect { id: String, connection: TrinoConnection },
    Query { id: String, connection: TrinoConnection, run: StatementRun },
    Metadata { id: String, connection: TrinoConnection, run: StatementRun },
}

/// What to do next: answer, or send a request and then resume the operation.
#[derive(Debug)]
pub enum Step {
    Reply(IrodoriConnectorBuffer),
    Send(HttpRequest, Pending),
}

impl View for Pending {
    type V = PendingView;

    open spec fn view(&self) -> PendingView {
        match self {
            Pending::Connect { id, connection } => PendingView::Connect {
                id: id@,
                config: connection@,
            },
            Pending::Query { id, connection, run } => PendingView::Query {
                id: id@,
                config: connection@,
                run: run@,
            },
            Pending::Metadata { id, connection, run } => PendingView::Metadata {
                id: id@,
                config: connection@,
                run: run@,
            },
        }
    }
}

impl Step {
    /// Whether this is the step that `view` describes.
    pub open spec fn is(self, view: StepView) -> bool {
        match (self, view) {
            (Step::Reply(buffer), StepView::Reply(text)) => buffer.holds(text),
            (Step::Send(request, pending), StepView::Send(sent, waiting)) => request@ == sent
                && pending@ == waiting,
            _ => false,
        }
    }
}

/// An answer in JSON.
pub open spec fn reply(value: JsonView) -> StepView {
    StepView::Reply(json_text(value))
}

/// What the connector says of itself.
pub open spec fn health_payload() -> Map<Seq<char>, JsonView> {
    map![
        "engine"@ => JsonView::String(ENGINE@),
        "abiVersion"@ => JsonView::Number(NumberView::PosInt(ABI_VERSION as u64)),
        "driverLinked"@ => JsonView::Bool(DRIVER_LINKED),
    ]
}

/// The value that was read, null where there is none.
pub open spec fn read_or_null(read: Result<JsonView, Seq<char>>) -> JsonView {
    match read {
        Ok(value) => value,
        Err(_) => JsonView::Null,
    }
}

/// What the connector says of itself, with manifest and configuration.
pub open spec fn describe_payload() -> Map<Seq<char>, JsonView> {
    health_payload().insert("manifest"@, read_or_null(json_parsed(MANIFEST_JSON@))).insert(
        "config"@,
        read_or_null(json_parsed(CONFIG_JSON@)),
    )
}

/// Asks the coordinator for its version, to open a connection once it answers.
pub open spec fn connect_step(request: JsonView) -> StepView {
    let config = config_of(request);
    StepView::Send(
        info_request_of(config),
        PendingView::Connect { id: connection_id_of(Some(request)), config },
    )
}

/// The statement of a query.
pub open spec fn sql_of(request: JsonView) -> Option<Seq<char>> {
    first_of(
        string_field_of(request, "sql"@),
        first_of(string_field_of(request, "query"@), string_field_of(request, "statement"@)),
    )
}

/// Submits the statement of a query on an open connection.
pub open spec fn query_step(request: JsonView, table: TableView) -> StepView {
    let id = connection_id_of(Some(request));
    match sql_of(request) {
        None => reply(
            error_view(
                "connector.invalidRequest"@,
                "query requires a string sql, query, or statement field."@,
            ),
        ),
        Some(sql) => match connection_in(table, id) {
            Err(answer) => reply(answer),
            Ok(config) => StepView::Send(
                statement_request_of(config, sql),
                PendingView::Query { id, config, run: RunView::fresh(max_rows_of(request)) },
            ),
        },
    }
}

/// Submits the statement that lists all columns on an open connection.
pub open spec fn metadata_step(request: JsonView, table: TableView) -> StepView {
    let id = connection_id_of(Some(request));
    match connection_in(table, id) {
        Err(answer) => reply(answer),
        Ok(config) => StepView::Send(
            statement_request_of(config, METADATA_SQL@),
            PendingView::Metadata { id, config, run: RunView::fresh(METADATA_ROWS as int) },
        ),
    }
}

/// Closes a connection and says whether it was open.
pub open spec fn close_step(request: JsonView, table: TableView) -> (TableView, StepView) {
    let id = connection_id_of(Some(request));
    if table.poisoned {
        (table, reply(poisoned_view()))
    } else {
        (
            TableView { open: table.open.remove(id), ..table },
            reply(
                ok_view(
                    map![
                        "connectionId"@ => JsonView::String(id),
                        "closed"@ => JsonView::Bool(table.open.contains_key(id)),
                    ],
                ),
            ),
        )
    }
}

/// What a request does, by the method it asks for.
pub open spec fn method_step(method: Seq<char>, request: JsonView, table: TableView) -> (
    TableView,
    StepView,
) {
    if method == "health"@ || method == "ping"@ {
        (table, reply(ok_view(health_payload())))
    } else if method == "describe"@ || method == "capabilities"@ {
        (table, reply(ok_view(describe_payload())))
    } else if method == "manifest"@ {
        (table, StepView::Reply(MANIFEST_JSON@))
    } else if method == "config"@ {
        (table, StepView::Reply(CONFIG_JSON@))
    } else if method == "connect"@ {
        (table, connect_step(request))
    } else if method == "query"@ {
        (table, query_step(request, table))
    } else if method == "metadata"@ {
        (table, metadata_step(request, table))
    } else if method == "close"@ {
        close_step(request, table)
    } else {
        (
            table,
            reply(
                error_view("connector.unknownMethod"@, "unknown connector method: "@ + method),
            ),
        )
    }
}

/// What a request does: the open connections after it, and the next step. An
/// empty request asks after the health.
pub open spec fn request_step(request: Option<JsonView>, table: TableView) -> (
    TableView,
    StepView,
) {
    match request {
        None => (table, reply(ok_view(health_payload()))),
        Some(value) => match method_of(request) {
            Some(method) => method_step(method, value, table),
            None => (
                table,
                reply(
                    error_view(
                        "connector.invalidRequest"@,
                        "Connector request needs a string method."@,
                    ),
                ),
            ),
        },
    }
}

/// What the bytes of a request do.
pub open spec fn call_step(text: Option<Seq<char>>, table: TableView) -> (TableView, StepView) {
    match request_read(text, json_parsed(trimmed(text->0))) {
        Ok(request) => request_step(request, table),
        Err(answer) => (table, reply(answer)),
    }
}

/// The version that a coordinator reports.
pub open spec fn version_of(info: JsonView) -> Seq<char> {
    let found = match first_of(info.get("nodeVersion"@), info.get("version"@)) {
        Some(version) => version.as_str(),
        None => None,
    };
    match found {
        Some(version) => "Trino/Presto "@ + version,
        None => "Trino/Presto"@,
    }
}

/// The version in an answer, or why there is none.
pub open spec fn version_in(event: HttpEventView) -> Result<Seq<char>, Seq<char>> {
    match event {
        HttpEventView::NotStarted(message) => Err(message),
        HttpEventView::SendFailed(message) => Err("Trino info request failed: "@ + message),
        HttpEventView::ReadFailed(message) => Err("Trino info response read failed: "@ + message),
        HttpEventView::Reply { code, status, body } => if is_success(code) {
            Ok(version_of(read_or_null(json_parsed(body))))
        } else {
            Err("Trino info returned HTTP "@ + status + ": "@ + body)
        },
    }
}

/// What an opened connection is answered with.
pub open spec fn connected_payload(
    id: Seq<char>,
    config: ConfigView,
    version: Seq<char>,
) -> Map<Seq<char>, JsonView> {
    map![
        "engine"@ => JsonView::String(ENGINE@),
        "connectionId"@ => JsonView::String(id),
        "driverLinked"@ => JsonView::Bool(DRIVER_LINKED),
        "endpoint"@ => JsonView::String(config.base_url),
        "serverVersion"@ => JsonView::String(version),
    ]
}

/// What an operation that failed is answered with: a message without secrets.
pub open spec fn failure(code: Seq<char>, config: ConfigView, message: Seq<char>) -> StepView {
    reply(error_view(code, config.redacted(message)))
}

/// Opens the connection, where the coordinator answered.
pub open spec fn connected_step(
    id: Seq<char>,
    config: ConfigView,
    version: Result<Seq<char>, Seq<char>>,
    table: TableView,
) -> (TableView, StepView) {
    match version {
        Err(message) => (table, failure("connector.connectFailed"@, config, message)),
        Ok(version) => if table.poisoned {
            (table, reply(poisoned_view()))
        } else {
            (
                TableView { open: table.open.insert(id, config), ..table },
                reply(ok_view(connected_payload(id, config, version))),
            )
        },
    }
}

/// What a query is answered with.
pub open spec fn result_payload(id: Seq<char>, run: RunView) -> Map<Seq<char>, JsonView> {
    map![
        "connectionId"@ => JsonView::String(id),
        "columns"@ => JsonView::Array(
            run.columns.map_values(|name: Seq<char>| JsonView::String(name)),
        ),
        "rows"@ => JsonView::Array(
            run.rows.map_values(|row: Seq<JsonView>| JsonView::Array(row)),
        ),
        "truncated"@ => JsonView::Bool(run.truncated),
    ]
}

/// Goes on with a query.
pub open spec fn queried_step(id: Seq<char>, config: ConfigView, step: RunStepView) -> StepView {
    match step {
        RunStepView::Send(request, run) => StepView::Send(
            request,
            PendingView::Query { id, config, run },
        ),
        RunStepView::Finished(run) => reply(ok_view(result_payload(id, run))),
        RunStepView::Failed(message) => failure("connector.queryFailed"@, config, message),
    }
}

/// Goes on with the listing of all columns.
pub open spec fn listed_step(id: Seq<char>, config: ConfigView, step: RunStepView) -> StepView {
    match step {
        RunStepView::Send(request, run) => StepView::Send(
            request,
            PendingView::Metadata { id, config, run },
        ),
        RunStepView::Finished(run) => reply(
            ok_view(
                map![
                    "connectionId"@ => JsonView::String(id),
                    "metadata"@ => metadata_view(run.columns, run.rows),
                ],
            ),
        ),
        RunStepView::Failed(message) => failure("connector.metadataFailed"@, config, message),
    }
}

/// Goes on with an operation after it was told how its request went.
pub open spec fn resume_step(pending: PendingView, event: HttpEventView, table: TableView) -> (
    TableView,
    StepView,
) {
    match pending {
        PendingView::Connect { id, config } => connected_step(id, config, version_in(event), table),
        PendingView::Query { id, config, run } => (
            table,
            queried_step(id, config, after_event(run, config, event)),
        ),
        PendingView::Metadata { id, config, run } => (
            table,
            listed_step(id, config, after_event(run, config, event)),
        ),
    }
}

/// What the connector says of itself.
fn health_fields() -> (fields: Vec<(String, Json)>)
    ensures
        map_of(entries_view(fields@)) == health_payload(),
{
    let mut fields = no_fields();
    put_field(&mut fields, "engine", Json::String(ENGINE.to_owned()));
    put_field(&mut fields, "abiVersion", Json::Number(JsonNumber::Unsigned(ABI_VERSION as u64)));
    put_field(&mut fields, "driverLinked", Json::Bool(DRIVER_LINKED));
    fields
}

/// The value that `text` denotes, null where it is no JSON.
fn parse_or_null(text: &str) -> (value: Json)
    ensures
        value@ == read_or_null(json_parsed(text@)),
{
    match parse_json(text) {
        Ok(value) => value,
        Err(_) => Json::Null,
    }
}

/// Asks the coordinator for its version, to open a connection once it answers.
pub fn connect(request: &Json) -> (step: Step)
    ensures
        step.is(connect_step(request@)),
{
    let id = connection_id(Some(request));
    match TrinoConfig::from_request(request) {
        Ok(config) => {
            let connection = TrinoConnection { config };
            Step::Send(connection.info_request(), Pending::Connect { id, connection })
        },
        Err(err) => Step::Reply(error("connector.invalidRequest", err)),
    }
}

/// The statement of a query.
fn query_sql<'a>(request: &'a Json) -> (r: Option<&'a str>)
    ensures
        slice_of(r) == sql_of(request@),
{
    match string_field(request, "sql") {
        Some(sql) => Some(sql),
        None => match string_field(request, "query") {
            Some(sql) => Some(sql),
            None => string_field(request, "statement"),
        },
    }
}

/// Submits the statement of a query on an open connection.
pub fn query(request: &Json, table: &ConnectionTable) -> (step: Step)
    ensures
        step.is(query_step(request@, table@)),
{
    let id = connection_id(Some(request));
    match query_sql(request) {
        None => Step::Reply(
            error(
                "connector.invalidRequest",
                "query requires a string sql, query, or statement field.".to_owned(),
            ),
        ),
        Some(sql) => match table.connection(id.as_str()) {
            Err(response) => Step::Reply(response),
            Ok(connection) => {
                let (sent, run) = run_statement(&connection, sql, max_rows(request));
                Step::Send(sent, Pending::Query { id, connection, run })
            },
        },
    }
}

/// Submits the statement that lists all columns on an open connection.
pub fn metadata(request: &Json, table: &ConnectionTable) -> (step: Step)
    ensures
        step.is(metadata_step(request@, table@)),
{
    let id = connection_id(Some(request));
    match table.connection(id.as_str()) {
        Err(response) => Step::Reply(response),
        Ok(connection) => {
            let (sent, run) = load_metadata(&connection);
            Step::Send(sent, Pending::Metadata { id, connection, run })
        },
    }
}

/// The statement that lists all columns, and the run that waits for its answer.
pub fn load_metadata(connection: &TrinoConnection) -> (r: (HttpRequest, StatementRun))
    ensures
        r.0@ == statement_request_of(connection@, METADATA_SQL@),
        r.1@ == RunView::fresh(METADATA_ROWS as int),
{
    run_statement(connection, METADATA_SQL, METADATA_ROWS)
}

/// Closes a connection and says whether it was open.
pub fn close(request: &Json, table: &mut ConnectionTable) -> (step: Step)
    ensures
        final(table)@ == close_step(request@, old(table)@).0,
        step.is(close_step(request@, old(table)@).1),
{
    let id = connection_id(Some(request));
    if table.poisoned {
        return Step::Reply(poisoned_response());
    }
    let existed = table.remove(id.as_str());
    let mut fields = no_fields();
    put_field(&mut fields, "connectionId", Json::String(id));
    put_field(&mut fields, "closed", Json::Bool(existed));
    Step::Reply(ok(fields))
}

/// Does what a request asks for, by its method.
fn call_method(method: &str, request: &Json, table: &mut ConnectionTable) -> (step: Step)
    ensures
        final(table)@ == method_step(method@, request@, old(table)@).0,
        step.is(method_step(method@, request@, old(table)@).1),
{
    if same(method, "health") || same(method, "ping") {
        Step::Reply(ok(health_fields()))
    } else if same(method, "describe") || same(method, "capabilities") {
        let mut fields = health_fields();
        put_field(&mut fields, "manifest", parse_or_null(MANIFEST_JSON));
        put_field(&mut fields, "config", parse_or_null(CONFIG_JSON));
        Step::Reply(ok(fields))
    } else if same(method, "manifest") {
        Step::Reply(owned_buffer(MANIFEST_JSON.to_owned()))
    } else if same(method, "config") {
        Step::Reply(owned_buffer(CONFIG_JSON.to_owned()))
    } else if same(method, "connect") {
        connect(request)
    } else if same(method, "query") {
        query(request, table)
    } else if same(method, "metadata") {
        metadata(request, table)
    } else if same(method, "close") {
        close(request, table)
    } else {
        Step::Reply(
            error("connector.unknownMethod", "unknown connector method: ".to_owned().concat(method)),
        )
    }
}

/// Does what a request asks for. An empty request asks after the health.
pub fn call_request(request: Option<&Json>, table: &mut ConnectionTable) -> (step: Step)
    ensures
        final(table)@ == request_step(json_of(request), old(table)@).0,
        step.is(request_step(json_of(request), old(table)@).1),
{
    let method = match request_method(request) {
        Ok(method) => method,
        Err(response) => {
            return Step::Reply(response);
        },
    };
    match request {
        None => Step::Reply(ok(health_fields())),
        Some(value) => call_method(method, value, table),
    }
}

/// Does what the request in the buffer asks for.
pub fn call_json(request: &IrodoriConnectorBuffer, table: &mut ConnectionTable) -> (step: Step)
    requires
        request.readable(),
    ensures
        final(table)@ == call_step(request.text(), old(table)@).0,
        step.is(call_step(request.text(), old(table)@).1),
{
    match parse_request(request) {
        Err(response) => Step::Reply(response),
        Ok(None) => call_request(None, table),
        Ok(Some(value)) => call_request(Some(&value), table),
    }
}

/// The version that a coordinator reports.
pub fn version_text(info: &Json) -> (version: String)
    ensures
        version@ == version_of(info@),
{
    let found = match info.get("nodeVersion") {
        Some(value) => Some(value),
        None => info.get("version"),
    };
    let text = match found {
        Some(value) => value.as_str(),
        None => None,
    };
    match text {
        Some(version) => "Trino/Presto ".to_owned().concat(version),
        None => "Trino/Presto".to_owned(),
    }
}

/// The version in an answer, or why there is none.
pub fn load_version(event: HttpEvent) -> (r: Result<String, String>)
    ensures
        match version_in(event@) {
            Ok(version) => r matches Ok(found) && found@ == version,
            Err(message) => r matches Err(found) && found@ == message,
        },
{
    match event {
        HttpEvent::NotStarted(message) => Err(message),
        HttpEvent::SendFailed(message) => Err(
            "Trino info request failed: ".to_owned().concat(message.as_str()),
        ),
        HttpEvent::ReadFailed(message) => Err(
            "Trino info response read failed: ".to_owned().concat(message.as_str()),
        ),
        HttpEvent::Reply(reply) => {
            if reply.code >= 200 && reply.code < 300 {
                let info = parse_or_null(reply.body.as_str());
                Ok(version_text(&info))
            } else {
                Err(
                    "Trino info returned HTTP ".to_owned().concat(reply.status.as_str()).concat(
                        ": ",
                    ).concat(reply.body.as_str()),
                )
            }
        },
    }
}

/// The answer to an operation that failed.
fn failed(code: &str, connection: &TrinoConnection, message: &str) -> (step: Step)
    ensures
        step.is(failure(code@, connection@, message@)),
{
    Step::Reply(error(code, connection.config.redact(message)))
}

/// Opens the connection, where the coordinator answered.
pub fn finish_connect(
    id: String,
    connection: TrinoConnection,
    version: Result<String, String>,
    table: &mut ConnectionTable,
) -> (step: Step)
    ensures
        ({
            let version = match version {
                Ok(version) => Ok(version@),
                Err(message) => Err(message@),
            };
            &&& final(table)@ == connected_step(id@, connection@, version, old(table)@).0
            &&& step.is(connected_step(id@, connection@, version, old(table)@).1)
        }),
{
    match version {
        Err(message) => failed("connector.connectFailed", &connection, message.as_str()),
        Ok(version) => {
            if table.poisoned {
                return Step::Reply(poisoned_response());
            }
            let mut fields = no_fields();
            put_field(&mut fields, "engine", Json::String(ENGINE.to_owned()));
            put_field(&mut fields, "connectionId", Json::String(id.clone()));
            put_field(&mut fields, "driverLinked", Json::Bool(DRIVER_LINKED));
            put_field(&mut fields, "endpoint", Json::String(connection.config.base_url.clone()));
            put_field(&mut fields, "serverVersion", Json::String(version));
            table.insert(id, connection);
            Step::Reply(ok(fields))
        },
    }
}

/// The names of columns, as values.
fn columns_json(columns: Vec<String>) -> (r: Json)
    ensures
        r@ == JsonView::Array(
            texts(columns@).map_values(|name: Seq<char>| JsonView::String(name)),
        ),
{
    broadcast use group_json_view;

    let mut list: Vec<Json> = Vec::new();
    for name in it: columns
        invariant
            it.seq() == columns@,
            list@.len() == it.index(),
            forall|j: int|
                0 <= j < list@.len() ==> (#[trigger] list@[j])@ == JsonView::String(columns@[j]@),
    {
        list.push(Json::String(name));
    }
    assert(items_view(list@) =~= texts(columns@).map_values(
        |name: Seq<char>| JsonView::String(name),
    ));
    Json::Array(list)
}

/// Rows, as values.
fn rows_json(rows: Vec<Vec<Json>>) -> (r: Json)
    ensures
        r@ == JsonView::Array(
            rows_view(rows@).map_values(|row: Seq<JsonView>| JsonView::Array(row)),
        ),
{
    broadcast use group_json_view;

    let mut list: Vec<Json> = Vec::new();
    for row in it: rows
        invariant
            it.seq() == rows@,
            list@.len() == it.index(),
            forall|j: int|
                0 <= j < list@.len() ==> (#[trigger] list@[j])@ == JsonView::Array(
                    rows_view(rows@)[j],
                ),
    {
        list.push(Json::Array(row));
    }
    assert(items_view(list@) =~= rows_view(rows@).map_values(
        |row: Seq<JsonView>| JsonView::Array(row),
    ));
    Json::Array(list)
}

/// Goes on with a query.
pub fn finish_query(id: String, connection: TrinoConnection, step: RunStep) -> (r: Step)
    ensures
        r.is(queried_step(id@, connection@, step@)),
{
    match step {
        RunStep::Send(request, run) => Step::Send(request, Pending::Query { id, connection, run }),
        RunStep::Finished(run) => {
            let StatementRun { cap: _, paging: _, columns, rows, truncated } = run;
            let mut fields = no_fields();
            put_field(&mut fields, "connectionId", Json::String(id));
            put_field(&mut fields, "columns", columns_json(columns));
            put_field(&mut fields, "rows", rows_json(rows));
            put_field(&mut fields, "truncated", Json::Bool(truncated));
            Step::Reply(ok(fields))
        },
        RunStep::Failed(message) => failed("connector.queryFailed", &connection, message.as_str()),
    }
}

/// Goes on with the listing of all columns.
pub fn finish_metadata(id: String, connection: TrinoConnection, step: RunStep) -> (r: Step)
    ensures
        r.is(listed_step(id@, connection@, step@)),
{
    match step {
        RunStep::Send(request, run) => Step::Send(
            request,
            Pending::Metadata { id, connection, run },
        ),
        RunStep::Finished(run) => {
            let StatementRun { cap: _, paging: _, columns, rows, truncated: _ } = run;
            let mut fields = no_fields();
            put_field(&mut fields, "connectionId", Json::String(id));
            put_field(
                &mut fields,
                "metadata",
                metadata_from_columns(columns.as_slice(), rows),
            );
            Step::Reply(ok(fields))
        },
        RunStep::Failed(message) => failed(
            "connector.metadataFailed",
            &connection,
            message.as_str(),
        ),
    }
}

/// Goes on with an operation after its request went as `event` says.
pub fn resume(pending: Pending, event: HttpEvent, table: &mut ConnectionTable) -> (step: Step)
    ensures
        final(table)@ == resume_step(pending@, event@, old(table)@).0,
        step.is(resume_step(pending@, event@, old(table)@).1),
{
    match pending {
        Pending::Connect { id, connection } => finish_connect(
            id,
            connection,
            load_version(event),
            table,
        ),
        Pending::Query { id, connection, run } => {
            let next = run.advance(&connection, event);
            finish_query(id, connection, next)
        },
        Pending::Metadata { id, connection, run } => {
            let next = run.advance(&connection, event);
            finish_metadata(id, connection, next)
        },
    }
}

/// A request that asks for anything but closing leaves the open connections as
/// they are, and so does one that is refused.
pub proof fn only_closing_closes(request: Option<JsonView>, table: TableView)
    requires
        method_of(request) != Some("close"@),
    ensures
        request_step(request, table).0 == table,
{
}

/// A blank request is answered like a question after the health.
pub proof fn blank_request_asks_after_health(text: Seq<char>, table: TableView)
    requires
        is_blank(text),
    ensures
        call_step(Some(text), table) == (table, reply(ok_view(health_payload()))),
{
}

/// Bytes that are no text are refused, with the open connections as they are.
pub proof fn unreadable_request_is_refused(table: TableView)
    ensures
        call_step(None, table) == (table, reply(not_text_view())),
{
}

/// A connection that was opened is found under its name, in place of one that
/// was there, and no other is touched.
pub proof fn opened_connection_is_found(
    id: Seq<char>,
    config: ConfigView,
    version: Seq<char>,
    table: TableView,
    other: Seq<char>,
)
    requires
        !table.poisoned,
    ensures
        connection_in(connected_step(id, config, Ok(version), table).0, id) == Ok::<
            ConfigView,
            JsonView,
        >(config),
        other != id ==> connection_in(connected_step(id, config, Ok(version), table).0, other)
            == connection_in(table, other),
{
}

/// A connection that could not be opened leaves the others as they are.
pub proof fn failed_connect_changes_nothing(
    id: Seq<char>,
    config: ConfigView,
    message: Seq<char>,
    table: TableView,
)
    ensures
        connected_step(id, config, Err(message), table).0 == table,
{
}

/// A connection that was closed is gone, closing it again finds nothing to
/// close, and no other is touched.
pub proof fn closed_connection_is_gone(request: JsonView, table: TableView, other: Seq<char>)
    requires
        !table.poisoned,
    ensures
        ({
            let id = connection_id_of(Some(request));
            let after = close_step(request, table).0;
            &&& connection_in(after, id) == Err::<ConfigView, JsonView>(not_found_view(id))
            &&& other != id ==> connection_in(after, other) == connection_in(table, other)
            &&& close_step(request, after) == (
                after,
                reply(
                    ok_view(
                        map![
                            "connectionId"@ => JsonView::String(id),
                            "closed"@ => JsonView::Bool(false),
                        ],
                    ),
                ),
            )
        }),
{
    let id = connection_id_of(Some(request));
    let after = close_step(request, table).0;
    assert(after.open.remove(id) =~= after.open);
}

/// Once the table is poisoned, every operation on it is answered with that and
/// changes nothing.
pub proof fn poisoned_table_is_refused(
    request: JsonView,
    table: TableView,
    id: Seq<char>,
    config: ConfigView,
    version: Seq<char>,
)
    requires
        table.poisoned,
    ensures
        metadata_step(request, table) == reply(poisoned_view()),
        close_step(request, table) == (table, reply(poisoned_view())),
        sql_of(request) is Some ==> query_step(request, table) == reply(poisoned_view()),
        connected_step(id, config, Ok(version), table) == (table, reply(poisoned_view())),
{
}

/// What goes on with a query or a listing never changes the open connections.
pub proof fn statements_keep_connections(
    pending: PendingView,
    event: HttpEventView,
    table: TableView,
)
    requires
        !(pending is Connect),
    ensures
        resume_step(pending, event, table).0 == table,
{
}

/// The connection that an operation works on.
pub open spec fn pending_config(pending: PendingView) -> ConfigView {
    match pending {
        PendingView::Connect { config, .. } => config,
        PendingView::Query { config, .. } => config,
        PendingView::Metadata { config, .. } => config,
    }
}

/// Why an operation failed, where it did.
pub open spec fn failure_of(pending: PendingView, event: HttpEventView) -> Option<Seq<char>> {
    match pending {
        PendingView::Connect { .. } => match version_in(event) {
            Err(message) => Some(message),
            Ok(_) => None,
        },
        PendingView::Query { config, run, .. } => match after_event(run, config, event) {
            RunStepView::Failed(message) => Some(message),
            _ => None,
        },
        PendingView::Metadata { config, run, .. } => match after_event(run, config, event) {
            RunStepView::Failed(message) => Some(message),
            _ => None,
        },
    }
}

/// Whatever goes wrong, the message that is answered holds none of the sensitive
/// values of the connection.
pub proof fn failures_hide_secrets(
    pending: PendingView,
    event: HttpEventView,
    table: TableView,
    secret: Seq<char>,
)
    requires
        failure_of(pending, event) is Some,
        pending_config(pending).redaction_values.contains(secret),
        maskable(secret),
    ensures
        exists|code: Seq<char>, message: Seq<char>|
            resume_step(pending, event, table) == (
                table,
                reply(#[trigger] error_view(code, message)),
            ) && !occurs(message, secret),
{
    let config = pending_config(pending);
    let message = config.redacted(failure_of(pending, event)->0);
    redaction_hides_secrets(config, failure_of(pending, event)->0, secret);
    let code = match pending {
        PendingView::Connect { .. } => "connector.connectFailed"@,
        PendingView::Query { .. } => "connector.queryFailed"@,
        PendingView::Metadata { .. } => "connector.metadataFailed"@,
    };
    assert(resume_step(pending, event, table) == (table, reply(error_view(code, message))));
}

/// The version that a coordinator reports is given back whole: behind the name of
/// the engine, every character of it. It is looked for under `nodeVersion` and,
/// where there is nothing under that name, under `version`.
pub proof fn versions_are_reported_whole(info: JsonView, version: Seq<char>)
    ensures
        info.get("nodeVersion"@) == Some(JsonView::String(version)) || (info.get("nodeVersion"@)
            is None && info.get("version"@) == Some(JsonView::String(version))) ==> {
            &&& version_of(info).len() == 13 + version.len()
            &&& version_of(info).take(13) == "Trino/Presto "@
            &&& version_of(info).skip(13) == version
        },
        info.get("nodeVersion"@) is None && info.get("version"@) is None ==> version_of(info)
            == "Trino/Presto"@,
        info.get("nodeVersion"@) is Some && !(info.get("nodeVersion"@)->0 is String) ==> version_of(
            info,
        ) == "Trino/Presto"@,
        info.get("nodeVersion"@) is None && info.get("version"@) is Some && !(info.get("version"@)->0
            is String) ==> version_of(info) == "Trino/Presto"@,
{
    reveal_strlit("Trino/Presto ");
    assert("Trino/Presto "@.len() == 13);
    let whole = "Trino/Presto "@ + version;
    assert(whole.take(13) =~= "Trino/Presto "@);
    assert(whole.skip(13) =~= version);
}

/// The version comes from the body of an answer that reports success, whether or
/// not that is JSON; any other outcome fails with what happened.
pub proof fn versions_come_from_answers(
    code: u16,
    status: Seq<char>,
    body: Seq<char>,
    info: JsonView,
    message: Seq<char>,
)
    ensures
        200 <= code <= 299 && json_parsed(body) == Ok::<JsonView, Seq<char>>(info) ==> version_in(
            HttpEventView::Reply { code, status, body },
        ) == Ok::<Seq<char>, Seq<char>>(version_of(info)),
        200 <= code <= 299 && json_parsed(body) is Err ==> version_in(
            HttpEventView::Reply { code, status, body },
        ) == Ok::<Seq<char>, Seq<char>>("Trino/Presto"@),
        !(200 <= code <= 299) ==> version_in(HttpEventView::Reply { code, status, body }) == Err::<
            Seq<char>,
            Seq<char>,
        >("Trino info returned HTTP "@ + status + ": "@ + body),
        version_in(HttpEventView::NotStarted(message)) == Err::<Seq<char>, Seq<char>>(message),
        version_in(HttpEventView::SendFailed(message)) == Err::<Seq<char>, Seq<char>>(
            "Trino info request failed: "@ + message,
        ),
        version_in(HttpEventView::ReadFailed(message)) == Err::<Seq<char>, Seq<char>>(
            "Trino info response read failed: "@ + message,
        ),
{
}

/// What a step is: an answer whose buffer holds the text, or the request to send
/// and the operation that waits for it.
pub proof fn steps_are_what_they_are_seen_as(step: Step, view: StepView)
    requires
        step.is(view),
    ensures
        match view {
            StepView::Reply(text) => step is Reply && step->Reply_0.holds(text),
            StepView::Send(request, pending) => step is Send && step->Send_0@ == request
                && step->Send_1@ == pending,
        },
        match step {
            Step::Send(_, Pending::Connect { id, connection }) => view->Send_1
                == (PendingView::Connect { id: id@, config: connection.config@ }),
            Step::Send(_, Pending::Query { id, connection, run }) => view->Send_1
                == (PendingView::Query { id: id@, config: connection.config@, run: run@ }),
            Step::Send(_, Pending::Metadata { id, connection, run }) => view->Send_1
                == (PendingView::Metadata { id: id@, config: connection.config@, run: run@ }),
            _ => true,
        },
{
}

/// No two fields of an answer have one name.
proof fn lemma_answer_fields_differ()
    ensures
        "ok"@.len() == 2,
        "rows"@.len() == 4,
        "engine"@.len() == 6 && "config"@.len() == 6 && "closed"@.len() == 6,
        "engine"@[0] == 'e' && "config"@[1] == 'o' && "closed"@[1] == 'l',
        "columns"@.len() == 7,
        "manifest"@.len() == 8 && "metadata"@.len() == 8 && "endpoint"@.len() == 8,
        "manifest"@[1] == 'a' && "metadata"@[1] == 'e' && "endpoint"@[0] == 'e',
        "truncated"@.len() == 9,
        "abiVersion"@.len() == 10,
        "driverLinked"@.len() == 12 && "connectionId"@.len() == 12,
        "driverLinked"@[0] == 'd' && "connectionId"@[0] == 'c',
        "serverVersion"@.len() == 13,
{
    reveal_strlit("ok");
    reveal_strlit("rows");
    reveal_strlit("engine");
    reveal_strlit("config");
    reveal_strlit("closed");
    reveal_strlit("columns");
    reveal_strlit("manifest");
    reveal_strlit("metadata");
    reveal_strlit("endpoint");
    reveal_strlit("truncated");
    reveal_strlit("abiVersion");
    reveal_strlit("driverLinked");
    reveal_strlit("connectionId");
    reveal_strlit("serverVersion");
}

/// No two methods have one name.
proof fn lemma_method_names()
    ensures
        "health"@.len() == 6 && "config"@.len() == 6,
        "health"@[0] == 'h' && "config"@[0] == 'c',
        "ping"@.len() == 4,
        "describe"@.len() == 8 && "manifest"@.len() == 8 && "metadata"@.len() == 8,
        "describe"@[0] == 'd' && "manifest"@[0] == 'm' && "metadata"@[0] == 'm',
        "manifest"@[1] == 'a' && "metadata"@[1] == 'e',
        "capabilities"@.len() == 12,
        "connect"@.len() == 7,
        "query"@.len() == 5 && "close"@.len() == 5,
        "query"@[0] == 'q' && "close"@[0] == 'c',
{
    reveal_strlit("health");
    reveal_strlit("config");
    reveal_strlit("ping");
    reveal_strlit("describe");
    reveal_strlit("manifest");
    reveal_strlit("metadata");
    reveal_strlit("capabilities");
    reveal_strlit("connect");
    reveal_strlit("query");
    reveal_strlit("close");
}

/// What the connector says of itself, asked after its health: engine, version of
/// the ABI and whether the driver is linked, and nothing else.
pub proof fn health_is_answered(table: TableView, request: JsonView, method: Seq<char>)
    requires
        method == "health"@ || method == "ping"@,
    ensures
        method_step(method, request, table) == (
            table,
            StepView::Reply(json_text(ok_view(health_payload()))),
        ),
        ok_view(health_payload()).get("ok"@) == Some(JsonView::Bool(true)),
        ok_view(health_payload()).get("engine"@) == Some(JsonView::String(ENGINE@)),
        ok_view(health_payload()).get("abiVersion"@) == Some(
            JsonView::Number(NumberView::PosInt(ABI_VERSION as u64)),
        ),
        ok_view(health_payload()).get("driverLinked"@) == Some(JsonView::Bool(DRIVER_LINKED)),
        forall|field: Seq<char>|
            (#[trigger] ok_view(health_payload()).get(field)) is Some ==> field == "ok"@ || field
                == "engine"@ || field == "abiVersion"@ || field == "driverLinked"@,
{
    lemma_answer_fields_differ();
}

/// Describing itself, the connector says what it says of its health, and adds the
/// manifest and the configuration as the values that their texts denote.
pub proof fn describing_adds_to_health(
    table: TableView,
    request: JsonView,
    method: Seq<char>,
    field: Seq<char>,
    value: JsonView,
)
    requires
        method == "describe"@ || method == "capabilities"@,
    ensures
        method_step(method, request, table) == (
            table,
            StepView::Reply(json_text(ok_view(describe_payload()))),
        ),
        field != "manifest"@ && field != "config"@ ==> ok_view(describe_payload()).get(field)
            == ok_view(health_payload()).get(field),
        json_parsed(MANIFEST_JSON@) == Ok::<JsonView, Seq<char>>(value) ==> ok_view(
            describe_payload(),
        ).get("manifest"@) == Some(value),
        json_parsed(MANIFEST_JSON@) is Err ==> ok_view(describe_payload()).get("manifest"@) == Some(
            JsonView::Null,
        ),
        json_parsed(CONFIG_JSON@) == Ok::<JsonView, Seq<char>>(value) ==> ok_view(
            describe_payload(),
        ).get("config"@) == Some(value),
        json_parsed(CONFIG_JSON@) is Err ==> ok_view(describe_payload()).get("config"@) == Some(
            JsonView::Null,
        ),
{
    lemma_answer_fields_differ();
    lemma_method_names();
}

/// Manifest and configuration are handed out as they are, and a method that is not
/// known is named in the refusal.
pub proof fn texts_are_handed_out_as_they_are(
    table: TableView,
    request: JsonView,
    method: Seq<char>,
)
    ensures
        method_step("manifest"@, request, table) == (table, StepView::Reply(MANIFEST_JSON@)),
        method_step("config"@, request, table) == (table, StepView::Reply(CONFIG_JSON@)),
        method != "health"@ && method != "ping"@ && method != "describe"@ && method
            != "capabilities"@ && method != "manifest"@ && method != "config"@ && method
            != "connect"@ && method != "query"@ && method != "metadata"@ && method != "close"@
            ==> method_step(method, request, table) == (
            table,
            StepView::Reply(
                json_text(
                    error_view("connector.unknownMethod"@, "unknown connector method: "@ + method),
                ),
            ),
        ),
{
    lemma_method_names();
}

/// A request is carried out by the method that it names; one that names none is
/// refused, and an empty one asks after the health.
pub proof fn requests_are_carried_out_by_method(
    table: TableView,
    request: JsonView,
    method: Seq<char>,
)
    ensures
        request.get("method"@) == Some(JsonView::String(method)) && !is_blank(method)
            ==> request_step(Some(request), table) == method_step(method, request, table),
        string_field_of(request, "method"@) is None ==> request_step(Some(request), table) == (
            table,
            StepView::Reply(
                json_text(
                    error_view(
                        "connector.invalidRequest"@,
                        "Connector request needs a string method."@,
                    ),
                ),
            ),
        ),
        request_step(None, table) == (table, StepView::Reply(json_text(ok_view(health_payload())))),
{
}

/// The bytes of a request do what the value does that their text denotes, white
/// space around it aside; and what is no JSON is refused in the reader's words.
pub proof fn bytes_do_what_they_denote(
    table: TableView,
    text: Seq<char>,
    request: JsonView,
    message: Seq<char>,
)
    requires
        !is_blank(text),
    ensures
        json_parsed(trimmed(text)) == Ok::<JsonView, Seq<char>>(request) ==> call_step(
            Some(text),
            table,
        ) == request_step(Some(request), table),
        json_parsed(trimmed(text)) == Err::<JsonView, Seq<char>>(message) ==> call_step(
            Some(text),
            table,
        ) == (
            table,
            StepView::Reply(
                json_text(
                    error_view(
                        "connector.invalidJson"@,
                        "Connector request must be valid JSON: "@ + message,
                    ),
                ),
            ),
        ),
{
}

/// To connect is to ask the coordinator for its version, with the connection that
/// the request configures and under the name that it gives.
pub proof fn connecting_asks_for_the_version(table: TableView, request: JsonView)
    ensures
        method_step("connect"@, request, table) == (
            table,
            StepView::Send(
                request_of(
                    config_of(request),
                    HttpMethod::Get,
                    config_of(request).base_url + "/v1/info"@,
                    None,
                ),
                PendingView::Connect {
                    id: connection_id_of(Some(request)),
                    config: config_of(request),
                },
            ),
        ),
{
    lemma_method_names();
}

/// The statement of a query is the text under `sql`, else under `query`, else under
/// `statement`, word for word.
pub proof fn statements_are_taken_word_for_word(request: JsonView, sql: Seq<char>)
    requires
        !is_blank(sql),
    ensures
        request.get("sql"@) == Some(JsonView::String(sql)) ==> sql_of(request) == Some(sql),
        string_field_of(request, "sql"@) is None && request.get("query"@) == Some(
            JsonView::String(sql),
        ) ==> sql_of(request) == Some(sql),
        string_field_of(request, "sql"@) is None && string_field_of(request, "query"@) is None
            && request.get("statement"@) == Some(JsonView::String(sql)) ==> sql_of(request) == Some(
            sql,
        ),
        string_field_of(request, "sql"@) is None && string_field_of(request, "query"@) is None
            && string_field_of(request, "statement"@) is None ==> sql_of(request) is None,
{
}

/// A query posts its statement, word for word, on the connection that it names,
/// and gathers as many rows as it asks for. Without a statement, or a connection
/// of that name, it is refused.
pub proof fn queries_post_their_statement(
    table: TableView,
    request: JsonView,
    sql: Seq<char>,
    id: Seq<char>,
    config: ConfigView,
)
    requires
        id == connection_id_of(Some(request)),
    ensures
        sql_of(request) == Some(sql) && !table.poisoned && table.open.contains_key(id)
            && table.open[id] == config ==> method_step("query"@, request, table) == (
            table,
            StepView::Send(
                request_of(
                    config,
                    HttpMethod::Post,
                    config.base_url + "/v1/statement"@,
                    Some(sql),
                ),
                PendingView::Query { id, config, run: RunView::fresh(max_rows_of(request)) },
            ),
        ),
        sql_of(request) is None ==> method_step("query"@, request, table) == (
            table,
            StepView::Reply(
                json_text(
                    error_view(
                        "connector.invalidRequest"@,
                        "query requires a string sql, query, or statement field."@,
                    ),
                ),
            ),
        ),
        sql_of(request) is Some && !table.poisoned && !table.open.contains_key(id) ==> method_step(
            "query"@,
            request,
            table,
        ) == (
            table,
            StepView::Reply(
                json_text(
                    error_view("connector.connectionNotFound"@, "no open connection: "@ + id),
                ),
            ),
        ),
{
    lemma_method_names();
}

/// Metadata posts the statement that lists the columns of all tables, on the
/// connection that the request names, and gathers ten thousand of them at most.
pub proof fn metadata_posts_the_listing(
    table: TableView,
    request: JsonView,
    id: Seq<char>,
    config: ConfigView,
)
    requires
        id == connection_id_of(Some(request)),
    ensures
        !table.poisoned && table.open.contains_key(id) && table.open[id] == config ==> method_step(
            "metadata"@,
            request,
            table,
        ) == (
            table,
            StepView::Send(
                request_of(
                    config,
                    HttpMethod::Post,
                    config.base_url + "/v1/statement"@,
                    Some(
                        "SELECT table_schema, table_name, column_name, data_type, ordinal_position FROM information_schema.columns WHERE table_schema NOT IN ('information_schema') ORDER BY table_schema, table_name, ordinal_position"@,
                    ),
                ),
                PendingView::Metadata { id, config, run: RunView::fresh(10_000) },
            ),
        ),
        !table.poisoned && !table.open.contains_key(id) ==> method_step("metadata"@, request, table)
            == (
            table,
            StepView::Reply(
                json_text(
                    error_view("connector.connectionNotFound"@, "no open connection: "@ + id),
                ),
            ),
        ),
{
    lemma_method_names();
}

/// Closing takes the connection of that name, and no other, out of those that are
/// open, and says under its name whether it was.
pub proof fn closing_says_whether_it_was_open(table: TableView, request: JsonView, other: Seq<char>)
    requires
        !table.poisoned,
    ensures
        ({
            let id = connection_id_of(Some(request));
            let after = method_step("close"@, request, table).0;
            &&& !after.open.contains_key(id)
            &&& other != id ==> (after.open.contains_key(other) <==> table.open.contains_key(other))
            &&& other != id && table.open.contains_key(other) ==> after.open[other]
                == table.open[other]
            &&& !after.poisoned
            &&& exists|payload: Map<Seq<char>, JsonView>|
                method_step("close"@, request, table).1 == StepView::Reply(
                    json_text(#[trigger] ok_view(payload)),
                ) && payload.dom() == set!["connectionId"@, "closed"@] && payload["connectionId"@]
                    == JsonView::String(id) && payload["closed"@] == JsonView::Bool(
                    table.open.contains_key(id),
                )
        }),
{
    lemma_method_names();
    lemma_answer_fields_differ();
    let id = connection_id_of(Some(request));
    let payload =
        map![
        "connectionId"@ => JsonView::String(id),
        "closed"@ => JsonView::Bool(table.open.contains_key(id)),
    ];
    assert(payload.dom() =~= set!["connectionId"@, "closed"@]);
    assert(method_step("close"@, request, table).1 == StepView::Reply(json_text(ok_view(payload))));
}

/// Once the coordinator has answered, the connection is open under its name, as it
/// was configured, and the answer tells name, endpoint and version, and nothing of
/// its secrets.
pub proof fn connecting_opens_and_tells(
    id: Seq<char>,
    config: ConfigView,
    version: Seq<char>,
    table: TableView,
)
    requires
        !table.poisoned,
    ensures
        ({
            let (after, step) = connected_step(id, config, Ok(version), table);
            &&& after == (TableView { poisoned: false, open: table.open.insert(id, config) })
            &&& exists|payload: Map<Seq<char>, JsonView>|
                step == StepView::Reply(json_text(#[trigger] ok_view(payload))) && payload.dom()
                    == set![
                    "engine"@,
                    "connectionId"@,
                    "driverLinked"@,
                    "endpoint"@,
                    "serverVersion"@,
                ] && payload["engine"@] == JsonView::String(ENGINE@) && payload["connectionId"@]
                    == JsonView::String(id) && payload["driverLinked"@] == JsonView::Bool(
                    DRIVER_LINKED,
                ) && payload["endpoint"@] == JsonView::String(config.base_url)
                    && payload["serverVersion"@] == JsonView::String(version)
        }),
{
    lemma_answer_fields_differ();
    let payload = connected_payload(id, config, version);
    assert(payload.dom() =~= set![
        "engine"@,
        "connectionId"@,
        "driverLinked"@,
        "endpoint"@,
        "serverVersion"@,
    ]);
    assert(connected_step(id, config, Ok(version), table).1 == StepView::Reply(
        json_text(ok_view(payload)),
    ));
}

/// An operation that failed is answered with its own code and the redacted message,
/// and leaves the open connections as they are.
pub proof fn failures_are_answered_with_their_code(
    id: Seq<char>,
    config: ConfigView,
    message: Seq<char>,
    table: TableView,
)
    ensures
        connected_step(id, config, Err(message), table) == (
            table,
            StepView::Reply(
                json_text(error_view("connector.connectFailed"@, config.redacted(message))),
            ),
        ),
        queried_step(id, config, RunStepView::Failed(message)) == StepView::Reply(
            json_text(error_view("connector.queryFailed"@, config.redacted(message))),
        ),
        listed_step(id, config, RunStepView::Failed(message)) == StepView::Reply(
            json_text(error_view("connector.metadataFailed"@, config.redacted(message))),
        ),
{
}

/// A query that is done is answered with everything that was gathered: the columns
/// by name, the rows cell for cell, and whether there were more.
pub proof fn results_are_answered_whole(id: Seq<char>, config: ConfigView, run: RunView)
    ensures
        exists|payload: Map<Seq<char>, JsonView>|
            queried_step(id, config, RunStepView::Finished(run)) == StepView::Reply(
                json_text(#[trigger] ok_view(payload)),
            ) && payload.dom() == set!["connectionId"@, "columns"@, "rows"@, "truncated"@]
                && payload["connectionId"@] == JsonView::String(id) && payload["truncated"@]
                == JsonView::Bool(run.truncated) && payload["columns"@] is Array
                && payload["columns"@]->Array_0.len() == run.columns.len() && (forall|i: int|
                0 <= i < run.columns.len() ==> #[trigger] payload["columns"@]->Array_0[i]
                    == JsonView::String(run.columns[i])) && payload["rows"@] is Array
                && payload["rows"@]->Array_0.len() == run.rows.len() && (forall|i: int|
                0 <= i < run.rows.len() ==> #[trigger] payload["rows"@]->Array_0[i]
                    == JsonView::Array(run.rows[i])),
{
    lemma_answer_fields_differ();
    let payload = result_payload(id, run);
    assert(payload.dom() =~= set!["connectionId"@, "columns"@, "rows"@, "truncated"@]);
    assert(queried_step(id, config, RunStepView::Finished(run)) == StepView::Reply(
        json_text(ok_view(payload)),
    ));
}

/// A query whose result comes in one page is answered with the rows of that page,
/// cell for cell, and with its columns.
pub proof fn one_page_is_the_answer(
    id: Seq<char>,
    config: ConfigView,
    cap: int,
    page: JsonView,
    data: Seq<JsonView>,
)
    requires
        page.get("data"@) == Some(JsonView::Array(data)),
        page.get("nextUri"@) is None,
        data.len() <= cap,
        forall|i: int| 0 <= i < data.len() ==> #[trigger] data[i] is Array,
    ensures
        exists|payload: Map<Seq<char>, JsonView>|
            queried_step(id, config, after_page(RunView::fresh(cap), config, page))
                == StepView::Reply(json_text(#[trigger] ok_view(payload))) && payload["rows"@]
                == JsonView::Array(data) && payload["truncated"@] == JsonView::Bool(false),
{
    lemma_answer_fields_differ();
    let run = RunView::fresh(cap).with_page(page);
    rows_are_gathered_cell_for_cell(RunView::fresh(cap), page, data);
    let payload = result_payload(id, run);
    assert(payload["rows"@]->Array_0 =~= data) by {
        assert forall|i: int| 0 <= i < data.len() implies payload["rows"@]->Array_0[i] == data[i] by {
            assert(run.rows[0 + i] == data[i]->Array_0);
        }
    }
    assert(queried_step(id, config, after_page(RunView::fresh(cap), config, page))
        == StepView::Reply(json_text(ok_view(payload))));
}

/// A listing that is done is answered with the catalog that it gives.
pub proof fn listings_are_answered_with_the_catalog(
    id: Seq<char>,
    config: ConfigView,
    run: RunView,
)
    ensures
        exists|payload: Map<Seq<char>, JsonView>|
            listed_step(id, config, RunStepView::Finished(run)) == StepView::Reply(
                json_text(#[trigger] ok_view(payload)),
            ) && payload.dom() == set!["connectionId"@, "metadata"@] && payload["connectionId"@]
                == JsonView::String(id) && payload["metadata"@] == metadata_view(
                run.columns,
                run.rows,
            ),
{
    lemma_answer_fields_differ();
    let payload =
        map![
        "connectionId"@ => JsonView::String(id),
        "metadata"@ => metadata_view(run.columns, run.rows),
    ];
    assert(payload.dom() =~= set!["connectionId"@, "metadata"@]);
    assert(listed_step(id, config, RunStepView::Finished(run)) == StepView::Reply(
        json_text(ok_view(payload)),
    ));
}

/// An operation goes on with what its own request brought: a connection with the
/// version, a query and a listing with the next page, on the connection and under
/// the name that it began with.
pub proof fn operations_go_on_where_they_were(
    id: Seq<char>,
    config: ConfigView,
    run: RunView,
    event: HttpEventView,
    table: TableView,
    request: HttpRequestView,
    next: RunView,
)
    ensures
        resume_step(PendingView::Connect { id, config }, event, table) == connected_step(
            id,
            config,
            version_in(event),
            table,
        ),
        resume_step(PendingView::Query { id, config, run }, event, table) == (
            table,
            queried_step(id, config, after_event(run, config, event)),
        ),
        resume_step(PendingView::Metadata { id, config, run }, event, table) == (
            table,
            listed_step(id, config, after_event(run, config, event)),
        ),
        queried_step(id, config, RunStepView::Send(request, next)) == StepView::Send(
            request,
            PendingView::Query { id, config, run: next },
        ),
        listed_step(id, config, RunStepView::Send(request, next)) == StepView::Send(
            request,
            PendingView::Metadata { id, config, run: next },
        ),
{
}

} // verus!
