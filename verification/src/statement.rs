//! Running a statement: its result comes in pages, each of which names the next,
//! and is gathered until there is no more or the row limit is passed.

use crate::codec::{json_parsed, json_text, parse_json, render_json};
use crate::config::ConfigView;
use crate::entries::{last_for, lemma_map_of_absent, lemma_map_of_last};
use crate::http::{
    is_success, next_request_of, request_of, statement_request_of, HttpEvent, HttpEventView,
    HttpMethod, HttpReply, HttpRequest, HttpRequestView, TrinoConnection,
};
use crate::json::{entries_view, group_json_view, items_view, Json, JsonView};
use crate::text::{same, slice_of, texts};
use vstd::prelude::*;

verus! {

/// What `value` holds under `field`, where that is a text.
pub open spec fn text_at(value: JsonView, field: Seq<char>) -> Option<Seq<char>> {
    match value.get(field) {
        Some(found) => found.as_str(),
        None => None,
    }
}

/// What `value` holds under `field`, where that is an array, else nothing.
pub open spec fn items_at(value: JsonView, field: Seq<char>) -> Seq<JsonView> {
    match value.get(field) {
        Some(JsonView::Array(items)) => items,
        _ => Seq::empty(),
    }
}

/// The name of a column in a page.
pub open spec fn column_name(column: JsonView) -> Seq<char> {
    match text_at(column, "name"@) {
        Some(name) => name,
        None => "value"@,
    }
}

/// The columns that a page names.
pub open spec fn page_columns(page: JsonView) -> Seq<Seq<char>> {
    items_at(page, "columns"@).map_values(|column: JsonView| column_name(column))
}

/// The cells of a row. What is no array is a row of one cell.
pub open spec fn row_cells(row: JsonView) -> Seq<JsonView> {
    match row {
        JsonView::Array(cells) => cells,
        other => seq![other],
    }
}

/// The rows of a list of them.
pub open spec fn rows_cells(rows: Seq<JsonView>) -> Seq<Seq<JsonView>> {
    rows.map_values(|row: JsonView| row_cells(row))
}

/// The first `n` of `s`, all where there are no more.
pub open spec fn at_most<T>(s: Seq<T>, n: int) -> Seq<T> {
    if n < 0 {
        Seq::empty()
    } else if n < s.len() {
        s.take(n)
    } else {
        s
    }
}

/// A statement under way, seen from outside.
#[verifier::ext_equal]
pub struct RunView {
    pub cap: int,
    pub paging: bool,
    pub columns: Seq<Seq<char>>,
    pub rows: Seq<Seq<JsonView>>,
    pub truncated: bool,
}

impl RunView {
    /// A statement of which nothing has come back.
    pub open spec fn fresh(cap: int) -> RunView {
        RunView { cap, paging: false, columns: Seq::empty(), rows: Seq::empty(), truncated: false }
    }

    /// The run with one more page: columns from the first page that names any,
    /// rows as long as there is room, and whether one had no room.
    pub open spec fn with_page(self, page: JsonView) -> RunView {
        let data = items_at(page, "data"@);
        let room = self.cap - self.rows.len();
        RunView {
            cap: self.cap,
            paging: true,
            columns: if self.columns.len() == 0 {
                page_columns(page)
            } else {
                self.columns
            },
            rows: self.rows + rows_cells(at_most(data, room)),
            truncated: data.len() > 0 && data.len() > room,
        }
    }
}

/// What to do next with a statement, seen from outside.
#[verifier::ext_equal]
pub enum RunStepView {
    Send(HttpRequestView, RunView),
    Finished(RunView),
    Failed(Seq<char>),
}

/// The page that a body was read as, or why there is none: it is no JSON, or it
/// reports an error.
pub open spec fn page_read(body: Seq<char>, read: Result<JsonView, Seq<char>>) -> Result<
    JsonView,
    Seq<char>,
> {
    match read {
        Err(message) => Err("Trino statement JSON failed: "@ + message + ": "@ + body),
        Ok(page) => match page.get("error"@) {
            Some(error) => Err("Trino query failed: "@ + json_text(error)),
            None => Ok(page),
        },
    }
}

/// The page in an answer, or why there is none.
pub open spec fn page_of(code: u16, status: Seq<char>, body: Seq<char>) -> Result<
    JsonView,
    Seq<char>,
> {
    if is_success(code) {
        page_read(body, json_parsed(body))
    } else {
        Err("Trino statement returned HTTP "@ + status + ": "@ + body)
    }
}

/// What to do next after one more page.
pub open spec fn after_page(run: RunView, config: ConfigView, page: JsonView) -> RunStepView {
    let next = run.with_page(page);
    match text_at(page, "nextUri"@) {
        Some(uri) => if next.truncated {
            RunStepView::Finished(next)
        } else {
            RunStepView::Send(next_request_of(config, uri), next)
        },
        None => RunStepView::Finished(next),
    }
}

/// What to do next after a request of the statement.
pub open spec fn after_event(run: RunView, config: ConfigView, event: HttpEventView) -> RunStepView {
    match event {
        HttpEventView::NotStarted(message) => RunStepView::Failed(message),
        HttpEventView::SendFailed(message) => RunStepView::Failed(
            (if run.paging {
                "Trino nextUri request failed: "@
            } else {
                "Trino statement request failed: "@
            }) + message,
        ),
        HttpEventView::ReadFailed(message) => RunStepView::Failed(
            "Trino statement response read failed: "@ + message,
        ),
        HttpEventView::Reply { code, status, body } => match page_of(code, status, body) {
            Ok(page) => after_page(run, config, page),
            Err(message) => RunStepView::Failed(message),
        },
    }
}

/// The views of a list of rows.
pub open spec fn rows_view(rows: Seq<Vec<Json>>) -> Seq<Seq<JsonView>> {
    rows.map_values(|row: Vec<Json>| items_view(row@))
}

/// A statement under way: its row limit, whether a page has come, and what has
/// been gathered.
#[derive(Debug)]
pub struct StatementRun {
    pub cap: usize,
    pub paging: bool,
    pub columns: Vec<String>,
    pub rows: Vec<Vec<Json>>,
    pub truncated: bool,
}

impl View for StatementRun {
    type V = RunView;

    open spec fn view(&self) -> RunView {
        RunView {
            cap: self.cap as int,
            paging: self.paging,
            columns: texts(self.columns@),
            rows: rows_view(self.rows@),
            truncated: self.truncated,
        }
    }
}

/// What to do next with a statement.
#[derive(Debug)]
pub enum RunStep {
    Send(HttpRequest, StatementRun),
    Finished(StatementRun),
    Failed(String),
}

impl View for RunStep {
    type V = RunStepView;

    open spec fn view(&self) -> RunStepView {
        match self {
            RunStep::Send(request, run) => RunStepView::Send(request@, run@),
            RunStep::Finished(run) => RunStepView::Finished(run@),
            RunStep::Failed(message) => RunStepView::Failed(message@),
        }
    }
}

/// What `value` holds under `field`, where that is a text.
pub fn get_text<'a>(value: &'a Json, field: &str) -> (r: Option<&'a str>)
    ensures
        slice_of(r) == text_at(value@, field@),
{
    match value.get(field) {
        Some(found) => found.as_str(),
        None => None,
    }
}

/// The columns that a page names.
fn read_columns(page: &Json) -> (columns: Vec<String>)
    ensures
        texts(columns@) == page_columns(page@),
{
    broadcast use group_json_view;

    let mut columns: Vec<String> = Vec::new();
    assert(texts(columns@) =~= Seq::empty());
    if let Some(found) = page.get("columns") {
        if let Some(items) = found.as_array() {
            let ghost seen = items_view(items@);
            let mut i: usize = 0;
            while i < items.len()
                invariant
                    i <= items@.len(),
                    seen == items_view(items@),
                    columns@.len() == i,
                    forall|j: int| 0 <= j < i ==> (#[trigger] columns@[j])@ == column_name(seen[j]),
                decreases items@.len() - i,
            {
                let name = match get_text(&items[i], "name") {
                    Some(name) => name,
                    None => "value",
                };
                columns.push(name.to_owned());
                i += 1;
            }
            assert(texts(columns@) =~= page_columns(page@));
            return columns;
        }
    }
    assert(page_columns(page@) =~= Seq::empty());
    columns
}

/// What an object holds under `field`, taken out of it.
pub fn into_field(value: Json, field: &str) -> (r: Option<Json>)
    ensures
        match r {
            Some(found) => value@.get(field@) == Some(found@),
            None => value@.get(field@) is None,
        },
{
    broadcast use group_json_view;

    match value {
        Json::Object(entries) => {
            let mut rest = entries;
            let ghost all = entries_view(entries@);
            while rest.len() > 0
                invariant
                    rest@.len() <= entries@.len(),
                    rest@ == entries@.take(rest@.len() as int),
                    all == entries_view(entries@),
                    value == Json::Object(entries),
                    forall|j: int| rest@.len() <= j < all.len() ==> (#[trigger] all[j]).0 != field@,
                decreases rest@.len(),
            {
                if let Some((key, found)) = rest.pop() {
                    let ghost at = rest@.len() as int;
                    assert(entries@[at] == (key, found));
                    assert(rest@ =~= entries@.take(at));
                    if same(key.as_str(), field) {
                        proof {
                            assert(last_for(all, field@, at));
                            lemma_map_of_last(all, field@, at);
                        }
                        return Some(found);
                    }
                    assert(all[at].0 == key@);
                }
            }
            proof {
                lemma_map_of_absent(all, field@);
            }
            None
        },
        _ => None,
    }
}

/// The rows of a page, taken out of it.
fn into_rows(page: Json) -> (rows: Vec<Json>)
    ensures
        items_view(rows@) == items_at(page@, "data"@),
{
    broadcast use group_json_view;

    match into_field(page, "data") {
        Some(Json::Array(rows)) => rows,
        _ => {
            let rows: Vec<Json> = Vec::new();
            assert(items_view(rows@) =~= Seq::empty());
            rows
        },
    }
}

/// The cells of a row.
fn into_cells(row: Json) -> (cells: Vec<Json>)
    ensures
        items_view(cells@) == row_cells(row@),
{
    broadcast use group_json_view;

    match row {
        Json::Array(cells) => cells,
        other => {
            let mut cells: Vec<Json> = Vec::new();
            cells.push(other);
            assert(items_view(cells@) =~= seq![other@]);
            cells
        },
    }
}

/// The page that a body was read as, or why there is none.
pub fn accept_page(read: Result<Json, String>, body: &str) -> (r: Result<Json, String>)
    ensures
        ({
            let read = match read {
                Ok(page) => Ok(page@),
                Err(message) => Err(message@),
            };
            match page_read(body@, read) {
                Ok(page) => r matches Ok(found) && found@ == page,
                Err(message) => r matches Err(found) && found@ == message,
            }
        }),
{
    match read {
        Err(message) => Err(
            "Trino statement JSON failed: ".to_owned().concat(message.as_str()).concat(
                ": ",
            ).concat(body),
        ),
        Ok(page) => {
            if page.get("error").is_some() {
                match into_field(page, "error") {
                    Some(error) => Err(
                        "Trino query failed: ".to_owned().concat(render_json(error).as_str()),
                    ),
                    None => Err(String::new()),
                }
            } else {
                Ok(page)
            }
        },
    }
}

/// The page in an answer, or why there is none.
pub fn read_statement_response(reply: &HttpReply) -> (r: Result<Json, String>)
    ensures
        match page_of(reply.code, reply.status@, reply.body@) {
            Ok(page) => r matches Ok(found) && found@ == page,
            Err(message) => r matches Err(found) && found@ == message,
        },
{
    if reply.code < 200 || reply.code >= 300 {
        return Err(
            "Trino statement returned HTTP ".to_owned().concat(reply.status.as_str()).concat(
                ": ",
            ).concat(reply.body.as_str()),
        );
    }
    accept_page(parse_json(reply.body.as_str()), reply.body.as_str())
}

/// Submits a statement: what to send, and the run that waits for the answer.
pub fn run_statement(connection: &TrinoConnection, sql: &str, cap: usize) -> (r: (
    HttpRequest,
    StatementRun,
))
    ensures
        r.0@ == statement_request_of(connection@, sql@),
        r.1@ == RunView::fresh(cap as int),
{
    let run = StatementRun {
        cap,
        paging: false,
        columns: Vec::new(),
        rows: Vec::new(),
        truncated: false,
    };
    assert(texts(run.columns@) =~= Seq::empty());
    assert(rows_view(run.rows@) =~= Seq::empty());
    (connection.statement_request(sql), run)
}

impl StatementRun {
    /// Adds the rows of a page, as long as there is room, and says whether one
    /// had none.
    fn add_rows(&mut self, data: Vec<Json>)
        ensures
            final(self)@ == (RunView {
                rows: old(self)@.rows + rows_cells(
                    at_most(items_view(data@), old(self)@.cap - old(self)@.rows.len()),
                ),
                truncated: data@.len() > 0 && data@.len() > old(self)@.cap - old(self)@.rows.len(),
                ..old(self)@
            }),
    {
        broadcast use group_json_view;

        let mut data = data;
        let room: usize = if self.rows.len() < self.cap {
            self.cap - self.rows.len()
        } else {
            0
        };
        let ghost all = items_view(data@);
        let ghost before = self.rows@;
        let truncated = data.len() > room;
        data.truncate(room);
        let ghost kept = items_view(data@);
        assert(kept =~= at_most(all, old(self)@.cap - old(self)@.rows.len()));
        let mut rows: Vec<Vec<Json>> = Vec::new();
        std::mem::swap(&mut rows, &mut self.rows);
        assert(rows_view(rows@) =~= rows_view(before) + rows_cells(kept.take(0)));
        for row in it: data
            invariant
                it.seq() == data@,
                kept == items_view(data@),
                rows_view(rows@) == rows_view(before) + rows_cells(kept.take(it.index())),
        {
            let ghost i = it.index();
            let ghost so_far = rows@;
            assert(kept[i] == row@);
            let cells = into_cells(row);
            rows.push(cells);
            assert(rows_view(rows@) =~= rows_view(so_far).push(row_cells(kept[i])));
            assert(kept.take(i + 1) =~= kept.take(i).push(kept[i]));
            assert(rows_cells(kept.take(i + 1)) =~= rows_cells(kept.take(i)).push(
                row_cells(kept[i]),
            ));
            assert(rows_view(rows@) =~= rows_view(before) + rows_cells(kept.take(i + 1)));
        }
        assert(kept.take(kept.len() as int) =~= kept);
        self.rows = rows;
        self.truncated = truncated;
    }

    /// Takes in one more page and says what to do next.
    pub fn absorb(self, connection: &TrinoConnection, page: Json) -> (step: RunStep)
        ensures
            step@ == after_page(self@, connection@, page@),
    {
        let mut run = self;
        if run.columns.is_empty() {
            run.columns = read_columns(&page);
        }
        let next = match get_text(&page, "nextUri") {
            Some(uri) => Some(uri.to_owned()),
            None => None,
        };
        run.paging = true;
        let data = into_rows(page);
        run.add_rows(data);
        assert(run@ == self@.with_page(page@));
        match next {
            Some(uri) => if run.truncated {
                RunStep::Finished(run)
            } else {
                RunStep::Send(connection.next_request(uri.as_str()), run)
            },
            None => RunStep::Finished(run),
        }
    }

    /// Goes on after a request of the statement.
    pub fn advance(self, connection: &TrinoConnection, event: HttpEvent) -> (step: RunStep)
        ensures
            step@ == after_event(self@, connection@, event@),
    {
        match event {
            HttpEvent::NotStarted(message) => RunStep::Failed(message),
            HttpEvent::SendFailed(message) => {
                let what = if self.paging {
                    "Trino nextUri request failed: "
                } else {
                    "Trino statement request failed: "
                };
                RunStep::Failed(what.to_owned().concat(message.as_str()))
            },
            HttpEvent::ReadFailed(message) => RunStep::Failed(
                "Trino statement response read failed: ".to_owned().concat(message.as_str()),
            ),
            HttpEvent::Reply(reply) => match read_statement_response(&reply) {
                Ok(page) => self.absorb(connection, page),
                Err(message) => RunStep::Failed(message),
            },
        }
    }
}

/// The run after several pages, where what comes after a full one is not asked for.
pub open spec fn with_pages(run: RunView, pages: Seq<JsonView>) -> RunView
    decreases pages.len(),
{
    if pages.len() == 0 {
        run
    } else {
        let earlier = with_pages(run, pages.drop_last());
        if earlier.truncated {
            earlier
        } else {
            earlier.with_page(pages.last())
        }
    }
}

/// The rows of several pages, one page after the other.
pub open spec fn all_rows(pages: Seq<JsonView>) -> Seq<JsonView>
    decreases pages.len(),
{
    if pages.len() == 0 {
        Seq::empty()
    } else {
        all_rows(pages.drop_last()) + items_at(pages.last(), "data"@)
    }
}

/// The columns of the first page that names any.
pub open spec fn first_columns(pages: Seq<JsonView>) -> Seq<Seq<char>>
    decreases pages.len(),
{
    if pages.len() == 0 {
        Seq::empty()
    } else {
        let earlier = first_columns(pages.drop_last());
        if earlier.len() == 0 {
            page_columns(pages.last())
        } else {
            earlier
        }
    }
}

/// How many of the pages are read: up to the one with which the rows pass the
/// limit, all of them where they never do.
pub open spec fn pages_read(cap: int, pages: Seq<JsonView>) -> int
    decreases pages.len(),
{
    if pages.len() == 0 {
        0
    } else if all_rows(pages.drop_last()).len() > cap {
        pages_read(cap, pages.drop_last())
    } else {
        pages.len() as int
    }
}

/// The pages that are read are the fewest whose rows pass the limit: with fewer
/// the rows are within it, and with these they are not, unless there are no more.
pub proof fn reading_stops_past_the_limit(cap: int, pages: Seq<JsonView>)
    requires
        cap >= 0,
    ensures
        0 <= pages_read(cap, pages) <= pages.len(),
        forall|n: int|
            0 <= n < pages_read(cap, pages) ==> all_rows(#[trigger] pages.take(n)).len() <= cap,
        pages_read(cap, pages) < pages.len() ==> all_rows(
            pages.take(pages_read(cap, pages)),
        ).len() > cap,
        all_rows(pages).len() <= cap ==> pages_read(cap, pages) == pages.len(),
    decreases pages.len(),
{
    if pages.len() > 0 {
        let earlier = pages.drop_last();
        reading_stops_past_the_limit(cap, earlier);
        assert(forall|n: int| 0 <= n <= earlier.len() ==> #[trigger] pages.take(n) =~= earlier.take(n));
        assert(earlier.take(earlier.len() as int) =~= earlier);
    }
}

/// However a result is cut into pages, a run gathers its rows in order, up to
/// the limit; it says that the result was cut short exactly when there were more;
/// and its columns are those of the first page that names any, among the pages
/// that are read.
pub proof fn pages_add_up(cap: int, pages: Seq<JsonView>)
    requires
        cap >= 0,
    ensures
        with_pages(RunView::fresh(cap), pages).rows == rows_cells(at_most(all_rows(pages), cap)),
        with_pages(RunView::fresh(cap), pages).truncated == (all_rows(pages).len() > cap),
        with_pages(RunView::fresh(cap), pages).rows.len() <= cap,
        with_pages(RunView::fresh(cap), pages).columns == first_columns(
            pages.take(pages_read(cap, pages)),
        ),
        with_pages(RunView::fresh(cap), pages).cap == cap,
    decreases pages.len(),
{
    if pages.len() == 0 {
        assert(rows_cells(at_most(all_rows(pages), cap)) =~= Seq::empty());
    } else {
        let fewer = pages.drop_last();
        let earlier = with_pages(RunView::fresh(cap), fewer);
        pages_add_up(cap, fewer);
        reading_stops_past_the_limit(cap, fewer);
        let had = all_rows(fewer);
        let data = items_at(pages.last(), "data"@);
        if earlier.truncated {
            assert(at_most(had + data, cap) =~= at_most(had, cap));
            let n = pages_read(cap, fewer);
            assert(pages.take(n) =~= fewer.take(n));
        } else {
            assert(earlier.rows.len() == had.len());
            assert(at_most(had + data, cap) =~= had + at_most(data, cap - had.len()));
            assert(rows_cells(had + at_most(data, cap - had.len())) =~= rows_cells(had) + rows_cells(
                at_most(data, cap - had.len()),
            ));
            assert(fewer.take(fewer.len() as int) =~= fewer);
            assert(pages.take(pages.len() as int) =~= pages);
        }
    }
}

/// What to do after several pages, each of which was sent for when the one
/// before it said so.
pub open spec fn after_pages(cap: int, config: ConfigView, pages: Seq<JsonView>) -> RunStepView
    recommends
        pages.len() > 0,
    decreases pages.len(),
{
    if pages.len() <= 1 {
        after_page(RunView::fresh(cap), config, pages.last())
    } else {
        match after_pages(cap, config, pages.drop_last()) {
            RunStepView::Send(_, run) => after_page(run, config, pages.last()),
            done => done,
        }
    }
}

/// As long as pages name the next, it is sent for, until the row limit is passed.
proof fn lemma_after_pages(cap: int, config: ConfigView, pages: Seq<JsonView>)
    requires
        cap >= 0,
        pages.len() > 0,
        forall|i: int|
            0 <= i < pages_read(cap, pages) - 1 ==> text_at(#[trigger] pages[i], "nextUri"@) is Some,
    ensures
        ({
            let run = with_pages(RunView::fresh(cap), pages);
            after_pages(cap, config, pages) == if run.truncated {
                RunStepView::Finished(run)
            } else {
                match text_at(pages.last(), "nextUri"@) {
                    Some(uri) => RunStepView::Send(next_request_of(config, uri), run),
                    None => RunStepView::Finished(run),
                }
            }
        }),
    decreases pages.len(),
{
    let earlier = pages.drop_last();
    if pages.len() > 1 {
        assert(earlier.last() == pages[pages.len() - 2]);
        assert(forall|i: int| 0 <= i < earlier.len() ==> #[trigger] earlier[i] == pages[i]);
        reading_stops_past_the_limit(cap, earlier);
        pages_add_up(cap, earlier);
        lemma_after_pages(cap, config, earlier);
    } else {
        assert(with_pages(RunView::fresh(cap), earlier) == RunView::fresh(cap));
    }
}

/// A statement whose result comes in several pages, each of those that are read
/// but the last naming the next, ends with the rows of all of them in order, up to
/// the row limit, with whether there were more, and with the columns of the first
/// page that names any among those that are read. Where the limit is passed, it
/// does not matter what the last page that is read names.
pub proof fn whole_result_is_gathered(cap: int, config: ConfigView, pages: Seq<JsonView>)
    requires
        cap >= 0,
        pages.len() > 0,
        forall|i: int|
            0 <= i < pages_read(cap, pages) - 1 ==> text_at(#[trigger] pages[i], "nextUri"@) is Some,
        all_rows(pages).len() > cap || text_at(pages.last(), "nextUri"@) is None,
    ensures
        after_pages(cap, config, pages) matches RunStepView::Finished(run) && run.rows
            == rows_cells(at_most(all_rows(pages), cap)) && run.truncated == (all_rows(pages).len()
            > cap) && run.columns == first_columns(pages.take(pages_read(cap, pages))),
{
    lemma_after_pages(cap, config, pages);
    pages_add_up(cap, pages);
}

/// A run that has passed its limit asks for nothing more.
pub proof fn full_run_stops(run: RunView, config: ConfigView, page: JsonView)
    requires
        items_at(page, "data"@).len() > 0,
        items_at(page, "data"@).len() > run.cap - run.rows.len(),
    ensures
        after_page(run, config, page) == RunStepView::Finished(run.with_page(page)),
        run.with_page(page).truncated,
{
}

/// A page adds its rows as they are, behind those gathered and as long as there is
/// room: an array cell for cell, whatever its cells are, anything else as a row of
/// that one cell. Whether a row had no room is noted.
pub proof fn rows_are_gathered_cell_for_cell(run: RunView, page: JsonView, data: Seq<JsonView>)
    requires
        page.get("data"@) == Some(JsonView::Array(data)),
        run.rows.len() <= run.cap,
    ensures
        ({
            let next = run.with_page(page);
            let room = run.cap - run.rows.len();
            let kept = if data.len() < room {
                data.len() as int
            } else {
                room
            };
            &&& next.cap == run.cap
            &&& next.rows.len() == run.rows.len() + kept
            &&& forall|i: int| 0 <= i < run.rows.len() ==> #[trigger] next.rows[i] == run.rows[i]
            &&& forall|i: int|
                0 <= i < kept && data[i] is Array ==> #[trigger] next.rows[run.rows.len() + i]
                    == data[i]->Array_0
            &&& forall|i: int|
                0 <= i < kept && !(data[i] is Array) ==> #[trigger] next.rows[run.rows.len() + i]
                    == seq![data[i]]
            &&& next.truncated <==> data.len() > room
        }),
{
}

/// A page without rows adds none, and cuts nothing short.
pub proof fn pages_without_rows_add_none(run: RunView, page: JsonView)
    requires
        page.get("data"@) is Some ==> !(page.get("data"@)->0 is Array),
        run.rows.len() <= run.cap,
    ensures
        run.with_page(page).rows == run.rows,
        run.with_page(page).cap == run.cap,
        !run.with_page(page).truncated,
{
    assert(rows_cells(Seq::empty()) =~= Seq::empty());
    assert(run.rows + Seq::<Seq<JsonView>>::empty() =~= run.rows);
}

/// The columns of a result are named as the first page names them that names any,
/// in its order; a column without a name is called `value`.
pub proof fn columns_are_named_as_the_page_says(
    run: RunView,
    page: JsonView,
    columns: Seq<JsonView>,
    i: int,
    name: Seq<char>,
)
    ensures
        run.columns.len() > 0 ==> run.with_page(page).columns == run.columns,
        run.columns.len() == 0 && page.get("columns"@) == Some(JsonView::Array(columns)) ==> {
            &&& run.with_page(page).columns.len() == columns.len()
            &&& 0 <= i < columns.len() && columns[i].get("name"@) == Some(JsonView::String(name))
                ==> run.with_page(page).columns[i] == name
            &&& 0 <= i < columns.len() && columns[i].get("name"@) is None ==> run.with_page(
                page,
            ).columns[i] == "value"@
            &&& 0 <= i < columns.len() && columns[i].get("name"@) is Some && !(columns[i].get(
                "name"@,
            )->0 is String) ==> run.with_page(page).columns[i] == "value"@
        },
        run.columns.len() == 0 && (page.get("columns"@) is Some ==> !(page.get("columns"@)->0
            is Array)) ==> run.with_page(page).columns.len() == 0,
{
}

/// The next page is asked for at the very address that a page names, as long as no
/// row was without room; else the statement is done. Either way the run is the one
/// that has taken in the page.
pub proof fn the_next_page_is_asked_for(
    run: RunView,
    config: ConfigView,
    page: JsonView,
    uri: Seq<char>,
)
    ensures
        page.get("nextUri"@) == Some(JsonView::String(uri)) && !run.with_page(page).truncated
            ==> after_page(run, config, page) == RunStepView::Send(
            request_of(config, HttpMethod::Get, uri, None),
            run.with_page(page),
        ),
        run.with_page(page).truncated ==> after_page(run, config, page) == RunStepView::Finished(
            run.with_page(page),
        ),
        page.get("nextUri"@) is None ==> after_page(run, config, page) == RunStepView::Finished(
            run.with_page(page),
        ),
        page.get("nextUri"@) is Some && !(page.get("nextUri"@)->0 is String) ==> after_page(
            run,
            config,
            page,
        ) == RunStepView::Finished(run.with_page(page)),
        run.with_page(page).paging,
{
}

/// An answer is a page if it reports success, is JSON and reports no error; it is
/// then the value that its body denotes. Else the statement fails, and says why in
/// the words of what came back.
pub proof fn answers_are_pages_or_failures(
    code: u16,
    status: Seq<char>,
    body: Seq<char>,
    page: JsonView,
    error: JsonView,
    message: Seq<char>,
)
    ensures
        !(200 <= code <= 299) ==> page_of(code, status, body) == Err::<JsonView, Seq<char>>(
            "Trino statement returned HTTP "@ + status + ": "@ + body,
        ),
        200 <= code <= 299 ==> page_of(code, status, body) == page_read(body, json_parsed(body)),
        page.get("error"@) is None ==> page_read(body, Ok(page)) == Ok::<JsonView, Seq<char>>(page),
        page.get("error"@) == Some(error) ==> page_read(body, Ok(page)) == Err::<
            JsonView,
            Seq<char>,
        >("Trino query failed: "@ + json_text(error)),
        page_read(body, Err(message)) == Err::<JsonView, Seq<char>>(
            "Trino statement JSON failed: "@ + message + ": "@ + body,
        ),
{
}

/// What is said where a request of a statement failed: the message of the failure,
/// behind what was being done.
pub proof fn failed_requests_say_what_was_done(run: RunView, config: ConfigView, message: Seq<char>)
    ensures
        after_event(run, config, HttpEventView::NotStarted(message)) == RunStepView::Failed(message),
        !run.paging ==> after_event(run, config, HttpEventView::SendFailed(message))
            == RunStepView::Failed("Trino statement request failed: "@ + message),
        run.paging ==> after_event(run, config, HttpEventView::SendFailed(message))
            == RunStepView::Failed("Trino nextUri request failed: "@ + message),
        after_event(run, config, HttpEventView::ReadFailed(message)) == RunStepView::Failed(
            "Trino statement response read failed: "@ + message,
        ),
{
}

/// An answer that is a page is taken in, and one that is none ends the statement
/// with what it says.
pub proof fn answers_are_taken_in(
    run: RunView,
    config: ConfigView,
    code: u16,
    status: Seq<char>,
    body: Seq<char>,
)
    ensures
        match page_of(code, status, body) {
            Ok(page) => after_event(run, config, HttpEventView::Reply { code, status, body })
                == after_page(run, config, page),
            Err(message) => after_event(run, config, HttpEventView::Reply { code, status, body })
                == RunStepView::Failed(message),
        },
{
}

/// A statement begins with nothing gathered and its row limit as it was asked for.
pub proof fn statements_begin_with_nothing(cap: int)
    ensures
        RunView::fresh(cap).cap == cap,
        RunView::fresh(cap).rows.len() == 0,
        RunView::fresh(cap).columns.len() == 0,
        !RunView::fresh(cap).paging,
        !RunView::fresh(cap).truncated,
{
}

/// A text under a field is found as it is, and nothing else is taken for one.
pub proof fn texts_are_found_as_they_are(value: JsonView, field: Seq<char>, text: Seq<char>)
    ensures
        text_at(value, field) == Some(text) <==> value.get(field) == Some(JsonView::String(text)),
{
}

/// What is seen of a statement under way is all there is to it.
pub proof fn runs_are_seen_whole(run: StatementRun, i: int, j: int)
    ensures
        run@.cap == run.cap,
        run@.paging == run.paging,
        run@.truncated == run.truncated,
        run@.columns.len() == run.columns@.len(),
        0 <= i < run.columns@.len() ==> run@.columns[i] == run.columns@[i]@,
        run@.rows.len() == run.rows@.len(),
        0 <= i < run.rows@.len() ==> run@.rows[i].len() == run.rows@[i]@.len(),
        0 <= i < run.rows@.len() && 0 <= j < run.rows@[i]@.len() ==> run@.rows[i][j]
            == run.rows@[i]@[j]@,
{
    broadcast use group_json_view;

}

} // verus!
