//! Requests to a Trino coordinator and what comes back: which address, which
//! headers, which credentials. Sending and receiving is up to the caller.

use crate::config::{config_of, texts_in_the_request_are_the_settings, ConfigView, TrinoConfig};
use crate::json::JsonView;
use crate::text::{is_blank, text_of, trimmed};
use vstd::prelude::*;

verus! {

/// The verb of a request.
#[derive(Debug, Clone, Copy, PartialEq, Eq, Structural)]
pub enum HttpMethod {
    Get,
    Post,
}

/// The credentials that go with a request.
#[derive(Debug, PartialEq, Eq)]
pub enum Authorization {
    Bearer(String),
    Basic(String, String),
    Anonymous,
}

/// A request to be sent.
#[derive(Debug, PartialEq, Eq)]
pub struct HttpRequest {
    pub method: HttpMethod,
    pub url: String,
    pub headers: Vec<(String, String)>,
    pub authorization: Authorization,
    pub body: Option<String>,
}

/// What came back for a request: the status as a number and in words, and the body.
#[derive(Debug)]
pub struct HttpReply {
    pub code: u16,
    pub status: String,
    pub body: String,
}

/// How a request went. A failure carries its message.
#[derive(Debug)]
pub enum HttpEvent {
    /// Nothing could be sent, for want of a runtime to send it from.
    NotStarted(String),
    /// The request could not be sent or was not answered.
    SendFailed(String),
    /// The body of the answer could not be read.
    ReadFailed(String),
    /// The answer.
    Reply(HttpReply),
}

/// The credentials that go with a request, seen from outside.
#[verifier::ext_equal]
pub enum AuthorizationView {
    Bearer(Seq<char>),
    Basic(Seq<char>, Seq<char>),
    Anonymous,
}

/// A request to be sent, seen from outside.
#[verifier::ext_equal]
pub struct HttpRequestView {
    pub method: HttpMethod,
    pub url: Seq<char>,
    pub headers: Seq<(Seq<char>, Seq<char>)>,
    pub authorization: AuthorizationView,
    pub body: Option<Seq<char>>,
}

/// How a request went, seen from outside.
#[verifier::ext_equal]
pub enum HttpEventView {
    NotStarted(Seq<char>),
    SendFailed(Seq<char>),
    ReadFailed(Seq<char>),
    Reply { code: u16, status: Seq<char>, body: Seq<char> },
}

impl View for Authorization {
    type V = AuthorizationView;

    open spec fn view(&self) -> AuthorizationView {
        match self {
            Authorization::Bearer(token) => AuthorizationView::Bearer(token@),
            Authorization::Basic(user, password) => AuthorizationView::Basic(user@, password@),
            Authorization::Anonymous => AuthorizationView::Anonymous,
        }
    }
}

/// The views of a list of headers.
pub open spec fn headers_view(headers: Seq<(String, String)>) -> Seq<(Seq<char>, Seq<char>)> {
    headers.map_values(|h: (String, String)| (h.0@, h.1@))
}

impl View for HttpRequest {
    type V = HttpRequestView;

    open spec fn view(&self) -> HttpRequestView {
        HttpRequestView {
            method: self.method,
            url: self.url@,
            headers: headers_view(self.headers@),
            authorization: self.authorization@,
            body: text_of(self.body),
        }
    }
}

impl View for HttpEvent {
    type V = HttpEventView;

    open spec fn view(&self) -> HttpEventView {
        match self {
            HttpEvent::NotStarted(message) => HttpEventView::NotStarted(message@),
            HttpEvent::SendFailed(message) => HttpEventView::SendFailed(message@),
            HttpEvent::ReadFailed(message) => HttpEventView::ReadFailed(message@),
            HttpEvent::Reply(reply) => HttpEventView::Reply {
                code: reply.code,
                status: reply.status@,
                body: reply.body@,
            },
        }
    }
}

/// Whether a status code reports success.
pub open spec fn is_success(code: u16) -> bool {
    200 <= code < 300
}

/// A value under both its Trino and its Presto header.
pub open spec fn header_pair(
    trino: Seq<char>,
    presto: Seq<char>,
    value: Option<Seq<char>>,
) -> Seq<(Seq<char>, Seq<char>)> {
    match value {
        Some(value) => seq![(trino, value), (presto, value)],
        None => Seq::empty(),
    }
}

/// The headers that say for whom, and where by default, a request is made.
pub open spec fn session_headers(config: ConfigView) -> Seq<(Seq<char>, Seq<char>)> {
    header_pair("X-Trino-User"@, "X-Presto-User"@, Some(config.user)) + header_pair(
        "X-Trino-Catalog"@,
        "X-Presto-Catalog"@,
        config.catalog,
    ) + header_pair("X-Trino-Schema"@, "X-Presto-Schema"@, config.schema)
}

/// The credentials of a connection. A token goes before a password.
pub open spec fn authorization_of(config: ConfigView) -> AuthorizationView {
    match config.bearer_token {
        Some(token) => AuthorizationView::Bearer(token),
        None => match config.password {
            Some(password) => AuthorizationView::Basic(config.user, password),
            None => AuthorizationView::Anonymous,
        },
    }
}

/// A request of a connection.
pub open spec fn request_of(
    config: ConfigView,
    method: HttpMethod,
    url: Seq<char>,
    body: Option<Seq<char>>,
) -> HttpRequestView {
    HttpRequestView {
        method,
        url,
        headers: session_headers(config),
        authorization: authorization_of(config),
        body,
    }
}

/// The request for the version of the coordinator.
pub open spec fn info_request_of(config: ConfigView) -> HttpRequestView {
    request_of(config, HttpMethod::Get, config.base_url + "/v1/info"@, None)
}

/// The request that submits a statement.
pub open spec fn statement_request_of(config: ConfigView, sql: Seq<char>) -> HttpRequestView {
    request_of(config, HttpMethod::Post, config.base_url + "/v1/statement"@, Some(sql))
}

/// The request for the next page of a result.
pub open spec fn next_request_of(config: ConfigView, uri: Seq<char>) -> HttpRequestView {
    request_of(config, HttpMethod::Get, uri, None)
}

fn push_header_pair(
    headers: &mut Vec<(String, String)>,
    trino: &str,
    presto: &str,
    value: &String,
)
    ensures
        headers_view(final(headers)@) == headers_view(old(headers)@) + header_pair(
            trino@,
            presto@,
            Some(value@),
        ),
{
    let ghost before = headers@;
    headers.push((trino.to_owned(), value.clone()));
    headers.push((presto.to_owned(), value.clone()));
    assert(headers_view(headers@) =~= headers_view(before) + header_pair(
        trino@,
        presto@,
        Some(value@),
    ));
}

/// An open connection.
#[derive(Debug)]
pub struct TrinoConnection {
    pub config: TrinoConfig,
}

impl View for TrinoConnection {
    type V = ConfigView;

    open spec fn view(&self) -> ConfigView {
        self.config@
    }
}

impl Clone for TrinoConnection {
    fn clone(&self) -> (r: Self)
        ensures
            r@ == self@,
    {
        TrinoConnection { config: self.config.clone() }
    }
}

impl TrinoConnection {
    /// The request with the headers and the credentials of this connection.
    pub fn auth(&self, request: HttpRequest) -> (r: HttpRequest)
        ensures
            r@ == (HttpRequestView {
                headers: request@.headers + session_headers(self@),
                authorization: match authorization_of(self@) {
                    AuthorizationView::Anonymous => request@.authorization,
                    given => given,
                },
                ..request@
            }),
    {
        let mut headers = request.headers;
        let ghost before = headers_view(headers@);
        push_header_pair(&mut headers, "X-Trino-User", "X-Presto-User", &self.config.user);
        if let Some(catalog) = &self.config.catalog {
            push_header_pair(&mut headers, "X-Trino-Catalog", "X-Presto-Catalog", catalog);
        }
        if let Some(schema) = &self.config.schema {
            push_header_pair(&mut headers, "X-Trino-Schema", "X-Presto-Schema", schema);
        }
        assert(headers_view(headers@) =~= before + session_headers(self@));
        let authorization = if let Some(token) = &self.config.bearer_token {
            Authorization::Bearer(token.clone())
        } else if let Some(password) = &self.config.password {
            Authorization::Basic(self.config.user.clone(), password.clone())
        } else {
            request.authorization
        };
        HttpRequest {
            method: request.method,
            url: request.url,
            headers,
            authorization,
            body: request.body,
        }
    }

    fn request(&self, method: HttpMethod, url: String, body: Option<String>) -> (r: HttpRequest)
        ensures
            r@ == request_of(self@, method, url@, text_of(body)),
    {
        let bare = HttpRequest {
            method,
            url,
            headers: Vec::new(),
            authorization: Authorization::Anonymous,
            body,
        };
        assert(bare@.headers + session_headers(self@) =~= session_headers(self@));
        self.auth(bare)
    }

    /// The request for the version of the coordinator.
    pub fn info_request(&self) -> (r: HttpRequest)
        ensures
            r@ == info_request_of(self@),
    {
        self.request(HttpMethod::Get, self.config.base_url.clone().concat("/v1/info"), None)
    }

    /// The request that submits a statement.
    pub fn statement_request(&self, sql: &str) -> (r: HttpRequest)
        ensures
            r@ == statement_request_of(self@, sql@),
    {
        self.request(
            HttpMethod::Post,
            self.config.base_url.clone().concat("/v1/statement"),
            Some(sql.to_owned()),
        )
    }

    /// The request for the next page of a result.
    pub fn next_request(&self, uri: &str) -> (r: HttpRequest)
        ensures
            r@ == next_request_of(self@, uri@),
    {
        self.request(HttpMethod::Get, uri.to_owned(), None)
    }
}

/// A request of a connection goes to the address that it was made for, with the
/// body that it was made with, and says for which user, catalog and schema it is
/// made, to Trino and to Presto alike and in this order, and nothing else.
pub proof fn requests_say_for_whom_they_are_made(
    config: ConfigView,
    method: HttpMethod,
    url: Seq<char>,
    body: Option<Seq<char>>,
)
    ensures
        ({
            let sent = request_of(config, method, url, body);
            let behind: int = if config.catalog is Some {
                4
            } else {
                2
            };
            &&& sent.method == method
            &&& sent.url == url
            &&& sent.body == body
            &&& sent.headers[0] == ("X-Trino-User"@, config.user)
            &&& sent.headers[1] == ("X-Presto-User"@, config.user)
            &&& config.catalog matches Some(catalog) ==> sent.headers[2] == (
                "X-Trino-Catalog"@,
                catalog,
            ) && sent.headers[3] == ("X-Presto-Catalog"@, catalog)
            &&& config.schema matches Some(schema) ==> sent.headers[behind] == (
                "X-Trino-Schema"@,
                schema,
            ) && sent.headers[behind + 1] == ("X-Presto-Schema"@, schema)
            &&& sent.headers.len() == behind + (if config.schema is Some {
                2int
            } else {
                0int
            })
        }),
{
}

/// A request of a connection carries its token; else its user and password; else
/// no credentials.
pub proof fn requests_carry_the_credentials(
    config: ConfigView,
    method: HttpMethod,
    url: Seq<char>,
    body: Option<Seq<char>>,
)
    ensures
        config.bearer_token matches Some(token) ==> request_of(
            config,
            method,
            url,
            body,
        ).authorization == AuthorizationView::Bearer(token),
        config.bearer_token is None && config.password is Some ==> request_of(
            config,
            method,
            url,
            body,
        ).authorization == AuthorizationView::Basic(config.user, config.password->0),
        config.bearer_token is None && config.password is None ==> request_of(
            config,
            method,
            url,
            body,
        ).authorization == AuthorizationView::Anonymous,
{
}

/// Which requests a connection makes: the version is got from below the endpoint,
/// a statement is posted below it, word for word, and a next page is got from the
/// very address that was named for it.
pub proof fn requests_go_where_they_belong(config: ConfigView, sql: Seq<char>, uri: Seq<char>)
    ensures
        info_request_of(config) == request_of(
            config,
            HttpMethod::Get,
            config.base_url + "/v1/info"@,
            None,
        ),
        statement_request_of(config, sql) == request_of(
            config,
            HttpMethod::Post,
            config.base_url + "/v1/statement"@,
            Some(sql),
        ),
        next_request_of(config, uri) == request_of(config, HttpMethod::Get, uri, None),
{
}

/// A request that gives a token, under whichever of its names, configures a
/// connection whose requests carry that token as their bearer.
pub proof fn tokens_become_bearers(
    request: JsonView,
    name: Seq<char>,
    token: Seq<char>,
    method: HttpMethod,
    url: Seq<char>,
    body: Option<Seq<char>>,
)
    requires
        name == "token"@ || name == "bearerToken"@ || name == "accessToken"@,
        request.get(name) == Some(JsonView::String(token)),
        !is_blank(token),
        name != "token"@ ==> request.get("token"@) is None,
        name == "accessToken"@ ==> request.get("bearerToken"@) is None,
    ensures
        request_of(config_of(request), method, url, body).authorization
            == AuthorizationView::Bearer(trimmed(token)),
{
    let names = seq!["token"@, "bearerToken"@, "accessToken"@];
    let k: int = if name == "token"@ {
        0
    } else if name == "bearerToken"@ {
        1
    } else {
        2
    };
    assert(names[k] == name);
    texts_in_the_request_are_the_settings(request, names, k, token);
}

/// The status codes that report success are those from 200 to 299.
pub proof fn success_is_two_hundred_and_up(code: u16)
    ensures
        is_success(code) <==> code / 100 == 2,
{
}

/// What is seen of a request and of how it went is all there is to it.
pub proof fn requests_and_events_are_seen_whole(request: HttpRequest, event: HttpEvent)
    ensures
        request@.method == request.method,
        request@.url == request.url@,
        request@.headers.len() == request.headers@.len(),
        forall|i: int|
            0 <= i < request.headers@.len() ==> #[trigger] request@.headers[i] == (
                request.headers@[i].0@,
                request.headers@[i].1@,
            ),
        match request.authorization {
            Authorization::Bearer(token) => request@.authorization == AuthorizationView::Bearer(
                token@,
            ),
            Authorization::Basic(user, password) => request@.authorization
                == AuthorizationView::Basic(user@, password@),
            Authorization::Anonymous => request@.authorization == AuthorizationView::Anonymous,
        },
        match request.body {
            Some(body) => request@.body == Some(body@),
            None => request@.body is None,
        },
        match event {
            HttpEvent::NotStarted(message) => event@ == HttpEventView::NotStarted(message@),
            HttpEvent::SendFailed(message) => event@ == HttpEventView::SendFailed(message@),
            HttpEvent::ReadFailed(message) => event@ == HttpEventView::ReadFailed(message@),
            HttpEvent::Reply(reply) => event@ is Reply && event@->code == reply.code
                && event@->status == reply.status@ && event@->body == reply.body@,
        },
{
}

} // verus!
