use irodori_trino::codec::parse_json;
use irodori_trino::config::TrinoConfig;
use irodori_trino::http::{HttpEvent, HttpMethod, HttpReply, TrinoConnection};
use irodori_trino::json::Json;
use irodori_trino::statement::{
    accept_page, get_text, into_field, read_statement_response, run_statement, RunStep,
    StatementRun,
};

fn connection() -> TrinoConnection {
    let request = parse_json("{\"url\":\"http://h\"}").unwrap();
    TrinoConnection {
        config: TrinoConfig::from_request(&request).unwrap(),
    }
}

fn reply(code: u16, status: &str, body: &str) -> HttpReply {
    HttpReply {
        code,
        status: status.to_string(),
        body: body.to_string(),
    }
}

fn page(body: &str) -> HttpEvent {
    HttpEvent::Reply(reply(200, "200 OK", body))
}

fn fresh(cap: usize) -> StatementRun {
    run_statement(&connection(), "select 1", cap).1
}

fn numbers(run: &StatementRun) -> Vec<Vec<u64>> {
    run.rows
        .iter()
        .map(|row| row.iter().map(|cell| cell.as_u64().unwrap()).collect())
        .collect()
}

fn sent(step: RunStep) -> (String, StatementRun) {
    match step {
        RunStep::Send(request, run) => {
            assert_eq!(request.method, HttpMethod::Get);
            (request.url, run)
        }
        other => panic!("expected another request: {other:?}"),
    }
}

fn finished(step: RunStep) -> StatementRun {
    match step {
        RunStep::Finished(run) => run,
        other => panic!("expected the end: {other:?}"),
    }
}

fn failed(step: RunStep) -> String {
    match step {
        RunStep::Failed(message) => message,
        other => panic!("expected a failure: {other:?}"),
    }
}

#[test]
fn a_statement_is_submitted() {
    let (request, run) = run_statement(&connection(), "select 1", 5);
    assert_eq!(request.url, "http://h/v1/statement");
    assert_eq!(request.body.as_deref(), Some("select 1"));
    assert_eq!(run.cap, 5);
    assert!(!run.paging && !run.truncated && run.columns.is_empty() && run.rows.is_empty());
}

#[test]
fn pages_are_followed_and_added_up() {
    let connection = connection();
    let step = fresh(10).advance(&connection, page("{\"nextUri\":\"http://h/1\"}"));
    let (url, run) = sent(step);
    assert_eq!(url, "http://h/1");
    assert!(run.columns.is_empty());

    let step = run.advance(
        &connection,
        page("{\"columns\":[{\"name\":\"a\"},{\"type\":\"x\"},{\"name\":3}],\"data\":[[1,2],[3,4]],\"nextUri\":\"http://h/2\"}"),
    );
    let (url, run) = sent(step);
    assert_eq!(url, "http://h/2");

    let step = run.advance(
        &connection,
        page("{\"columns\":[{\"name\":\"late\"}],\"data\":[[5,6],7]}"),
    );
    let run = finished(step);
    assert_eq!(run.columns, vec!["a", "value", "value"]);
    assert_eq!(numbers(&run), vec![vec![1, 2], vec![3, 4], vec![5, 6], vec![7]]);
    assert!(!run.truncated);
}

#[test]
fn cutting_into_pages_makes_no_difference() {
    let connection = connection();
    let cuts = [
        vec!["[[1],[2],[3]]"],
        vec!["[[1]]", "[]", "[[2],[3]]"],
        vec!["[[1]]", "[[2]]", "[[3]]"],
    ];
    for cap in 0..5 {
        for cut in &cuts {
            let mut run = fresh(cap);
            for (at, data) in cut.iter().enumerate() {
                let next = if at + 1 < cut.len() {
                    ",\"nextUri\":\"http://h/n\""
                } else {
                    ""
                };
                let body = format!("{{\"data\":{data}{next}}}");
                match run.advance(&connection, page(&body)) {
                    RunStep::Send(_, later) => run = later,
                    RunStep::Finished(end) => {
                        run = end;
                        break;
                    }
                    RunStep::Failed(message) => panic!("{message}"),
                }
            }
            let expected: Vec<Vec<u64>> = (1..=3u64).take(cap).map(|n| vec![n]).collect();
            assert_eq!(numbers(&run), expected);
            assert_eq!(run.truncated, cap < 3);
        }
    }
}

#[test]
fn a_full_run_asks_for_nothing_more() {
    let connection = connection();
    let body = "{\"data\":[[1],[2],[3]],\"nextUri\":\"http://h/n\"}";
    let run = finished(fresh(2).advance(&connection, page(body)));
    assert_eq!(numbers(&run), vec![vec![1], vec![2]]);
    assert!(run.truncated);
    // Exactly at the limit the next page is still asked for.
    let (_, run) = sent(fresh(3).advance(&connection, page(body)));
    assert!(!run.truncated);
    let (_, run) = sent(run.advance(&connection, page("{\"nextUri\":\"http://h/m\"}")));
    let run = finished(run.advance(&connection, page(body)));
    assert!(run.truncated);
    assert_eq!(run.rows.len(), 3);
}

#[test]
fn columns_come_from_the_pages_that_are_read() {
    let connection = connection();
    let next = ",\"nextUri\":\"http://h/n\"";
    // The page that passes the limit may still name the columns.
    let first = format!("{{\"data\":[[1]]{next}}}");
    let second = format!("{{\"columns\":[{{\"name\":\"b\"}}],\"data\":[[2],[3]]{next}}}");
    let (_, run) = sent(fresh(2).advance(&connection, page(&first)));
    let run = finished(run.advance(&connection, page(&second)));
    assert!(run.truncated);
    assert_eq!(run.columns, vec!["b"]);
    // What comes after it is not read.
    let run = finished(fresh(0).advance(&connection, page(&first)));
    assert!(run.truncated);
    assert!(run.columns.is_empty());
    // Of several pages that name columns the first one counts.
    let third = format!("{{\"columns\":[{{\"name\":\"c\"}}],\"data\":[[4],[5]]}}");
    let (_, run) = sent(fresh(3).advance(&connection, page(&second)));
    let run = finished(run.advance(&connection, page(&third)));
    assert!(run.truncated);
    assert_eq!(run.columns, vec!["b"]);
}

#[test]
fn odd_pages_hold_nothing() {
    let connection = connection();
    for body in [
        "{}",
        "[]",
        "7",
        "{\"data\":7,\"columns\":{}}",
        "{\"data\":null,\"nextUri\":7}",
    ] {
        let run = finished(fresh(3).advance(&connection, page(body)));
        assert!(run.rows.is_empty() && run.columns.is_empty() && !run.truncated);
    }
}

#[test]
fn failures_say_where_they_happened() {
    let connection = connection();
    let event = || HttpEvent::SendFailed("no route".to_string());
    assert_eq!(
        failed(fresh(1).advance(&connection, event())),
        "Trino statement request failed: no route"
    );
    let (_, run) = sent(fresh(1).advance(&connection, page("{\"nextUri\":\"u\"}")));
    assert_eq!(
        failed(run.advance(&connection, event())),
        "Trino nextUri request failed: no route"
    );
    assert_eq!(
        failed(fresh(1).advance(&connection, HttpEvent::ReadFailed("cut".to_string()))),
        "Trino statement response read failed: cut"
    );
    assert_eq!(
        failed(fresh(1).advance(&connection, HttpEvent::NotStarted("no runtime".to_string()))),
        "no runtime"
    );
}

#[test]
fn answers_are_read_or_refused() {
    let read = |code: u16, status: &str, body: &str| {
        read_statement_response(&reply(code, status, body))
    };
    for code in [200, 204, 299] {
        assert_eq!(read(code, "", "{}"), Ok(Json::Object(vec![])));
    }
    for code in [100, 199, 300, 404, 500] {
        assert_eq!(
            read(code, "404 Not Found", "gone").unwrap_err(),
            "Trino statement returned HTTP 404 Not Found: gone"
        );
    }
    assert_eq!(
        read(200, "200 OK", "{").unwrap_err(),
        "Trino statement JSON failed: EOF while parsing an object at line 1 column 1: {"
    );
    assert_eq!(
        read(200, "200 OK", "{\"error\":{\"message\":\"bad\", \"code\":1}}").unwrap_err(),
        "Trino query failed: {\"code\":1,\"message\":\"bad\"}"
    );
    // An error that is null is an error.
    assert_eq!(
        read(200, "200 OK", "{\"error\":null}").unwrap_err(),
        "Trino query failed: null"
    );
}

#[test]
fn what_was_read_decides_over_the_page() {
    assert_eq!(accept_page(Ok(Json::Null), "null"), Ok(Json::Null));
    assert_eq!(
        accept_page(Err("why".to_string()), "body").unwrap_err(),
        "Trino statement JSON failed: why: body"
    );
    let error = Json::Object(vec![("error".to_string(), Json::Bool(true))]);
    assert_eq!(
        accept_page(Ok(error), "").unwrap_err(),
        "Trino query failed: true"
    );
}

#[test]
fn fields_are_taken_out_of_objects() {
    let object = || {
        Json::Object(vec![
            ("a".to_string(), Json::Bool(false)),
            ("b".to_string(), Json::String("x".to_string())),
            ("a".to_string(), Json::Bool(true)),
        ])
    };
    assert_eq!(into_field(object(), "a"), Some(Json::Bool(true)));
    assert_eq!(into_field(object(), "c"), None);
    assert_eq!(into_field(Json::Null, "a"), None);
    assert_eq!(get_text(&object(), "b"), Some("x"));
    assert_eq!(get_text(&object(), "a"), None);
}
