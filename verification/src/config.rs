//! Where a connection leads and with which credentials: what a request says of
//! it, under which names and in which places, and what of it is kept out of
//! messages.

use crate::abi::first_of;
use crate::json::{json_of, Json, JsonView};
use crate::text::{
    agrees, before_first, find, first_at, has_char, head, head_ends_at_the_first, is_blank, occurs,
    occurs_at, only_the_run_is_taken_off, replace, replaced, replacing_adds_nothing,
    replacing_goes_from_left_to_right, replacing_removes, same, slice_of, split, split_on,
    stays_clear, text_of, texts, trim, trim_end_matches, trimmed, trimmed_end, trimmed_start,
    trimming_settles, without_trailing, without_trailing_settles,
};
use vstd::prelude::*;

verus! {

/// A value that may be there, as a sequence.
pub open spec fn present(value: Option<JsonView>) -> Seq<JsonView> {
    match value {
        Some(value) => seq![value],
        None => Seq::empty(),
    }
}

/// What the value under `outer` holds under `field`.
pub open spec fn inner_of(value: JsonView, outer: Seq<char>, field: Seq<char>) -> Option<JsonView> {
    match value.get(outer) {
        Some(inner) => inner.get(field),
        None => None,
    }
}

/// The places of a request in which a setting may stand, in the order in which
/// they are looked at.
pub open spec fn containers_of(request: JsonView) -> Seq<JsonView> {
    seq![request] + present(request.get("profile"@)) + present(request.get("options"@)) + present(
        request.get("auth"@),
    ) + present(request.get("secrets"@)) + present(inner_of(request, "profile"@, "options"@))
        + present(inner_of(request, "profile"@, "auth"@)) + present(
        inner_of(request, "profile"@, "secrets"@),
    )
}

/// The text that a setting stands for: a scalar as it is written, nothing for
/// any other value.
pub open spec fn scalar_text(value: JsonView) -> Seq<char> {
    match value {
        JsonView::String(text) => text,
        JsonView::Number(n) => n.text(),
        JsonView::Bool(b) => if b {
            "true"@
        } else {
            "false"@
        },
        _ => Seq::empty(),
    }
}

/// The setting under `field`, without white space around it, where anything is left.
pub open spec fn text_setting(container: JsonView, field: Seq<char>) -> Option<Seq<char>> {
    match container.get(field) {
        Some(value) => {
            let text = trimmed(scalar_text(value));
            if text.len() == 0 {
                None
            } else {
                Some(text)
            }
        },
        None => None,
    }
}

/// The setting under `field`, where it is a truth value.
pub open spec fn bool_setting(container: JsonView, field: Seq<char>) -> Option<bool> {
    match container.get(field) {
        Some(value) => value.as_bool(),
        None => None,
    }
}

/// The first of the fields that `read` finds something under.
pub open spec fn first_field<T>(
    container: JsonView,
    fields: Seq<Seq<char>>,
    read: spec_fn(JsonView, Seq<char>) -> Option<T>,
) -> Option<T>
    decreases fields.len(),
{
    if fields.len() == 0 {
        None
    } else {
        first_of(read(container, fields[0]), first_field(container, fields.skip(1), read))
    }
}

/// What the first of the places that has any of the fields says.
pub open spec fn first_setting<T>(
    containers: Seq<JsonView>,
    fields: Seq<Seq<char>>,
    read: spec_fn(JsonView, Seq<char>) -> Option<T>,
) -> Option<T>
    decreases containers.len(),
{
    if containers.len() == 0 {
        None
    } else {
        first_of(
            first_field(containers[0], fields, read),
            first_setting(containers.skip(1), fields, read),
        )
    }
}

/// The text that a request gives for a setting with these names.
pub open spec fn option_text(request: JsonView, fields: Seq<Seq<char>>) -> Option<Seq<char>> {
    first_setting(containers_of(request), fields, |c: JsonView, f: Seq<char>| text_setting(c, f))
}

/// The truth value that a request gives for a setting with these names.
pub open spec fn option_bool(request: JsonView, fields: Seq<Seq<char>>) -> Option<bool> {
    first_setting(containers_of(request), fields, |c: JsonView, f: Seq<char>| bool_setting(c, f))
}

/// The views of a list of names.
pub open spec fn names_view(names: Seq<&str>) -> Seq<Seq<char>> {
    names.map_values(|name: &str| name@)
}

/// The views of a list of places.
pub open spec fn places_view(places: Seq<&Json>) -> Seq<JsonView> {
    places.map_values(|place: &Json| place@)
}

fn push_present<'a>(places: &mut Vec<&'a Json>, place: Option<&'a Json>)
    ensures
        places_view(final(places)@) == places_view(old(places)@) + present(json_of(place)),
{
    let ghost before = places@;
    match place {
        Some(found) => {
            places.push(found);
            assert(places_view(places@) =~= places_view(before) + present(json_of(place)));
        },
        None => {
            assert(places_view(before) + present(json_of(place)) =~= places_view(before));
        },
    }
}

fn get_inner<'a>(value: &'a Json, outer: &str, field: &str) -> (r: Option<&'a Json>)
    ensures
        json_of(r) == inner_of(value@, outer@, field@),
{
    match value.get(outer) {
        Some(inner) => inner.get(field),
        None => None,
    }
}

/// The places of a request in which a setting may stand.
pub fn request_containers<'a>(request: &'a Json) -> (places: Vec<&'a Json>)
    ensures
        places_view(places@) == containers_of(request@),
{
    let mut places: Vec<&'a Json> = Vec::new();
    places.push(request);
    assert(places_view(places@) =~= seq![request@]);
    push_present(&mut places, request.get("profile"));
    push_present(&mut places, request.get("options"));
    push_present(&mut places, request.get("auth"));
    push_present(&mut places, request.get("secrets"));
    push_present(&mut places, get_inner(request, "profile", "options"));
    push_present(&mut places, get_inner(request, "profile", "auth"));
    push_present(&mut places, get_inner(request, "profile", "secrets"));
    places
}

/// The text that a setting stands for.
fn scalar_string(value: &Json) -> (text: String)
    ensures
        text@ == scalar_text(value@),
{
    match value {
        Json::String(text) => text.clone(),
        Json::Number(n) => n.text(),
        Json::Bool(b) => if *b {
            "true".to_owned()
        } else {
            "false".to_owned()
        },
        _ => String::new(),
    }
}

/// The text that a request gives for a setting with these names.
pub fn option_string(request: &Json, fields: &[&str]) -> (r: Option<String>)
    ensures
        text_of(r) == option_text(request@, names_view(fields@)),
{
    let places = request_containers(request);
    let ghost read = |c: JsonView, f: Seq<char>| text_setting(c, f);
    let ghost seen = places_view(places@);
    let ghost names = names_view(fields@);
    let mut i: usize = 0;
    assert(seen.skip(0) =~= seen);
    while i < places.len()
        invariant
            i <= places@.len(),
            seen == places_view(places@),
            seen == containers_of(request@),
            names == names_view(fields@),
            read == (|c: JsonView, f: Seq<char>| text_setting(c, f)),
            first_setting(seen, names, read) == first_setting(seen.skip(i as int), names, read),
        decreases places@.len() - i,
    {
        let mut j: usize = 0;
        assert(names.skip(0) =~= names);
        while j < fields.len()
            invariant
                i < places@.len(),
                j <= fields@.len(),
                seen == places_view(places@),
                seen == containers_of(request@),
                names == names_view(fields@),
                read == (|c: JsonView, f: Seq<char>| text_setting(c, f)),
                first_setting(seen, names, read) == first_setting(seen.skip(i as int), names, read),
                first_field(seen[i as int], names, read) == first_field(
                    seen[i as int],
                    names.skip(j as int),
                    read,
                ),
            decreases fields@.len() - j,
        {
            if let Some(value) = places[i].get(fields[j]) {
                let text = scalar_string(value);
                let short = trim(text.as_str());
                if !short.is_empty() {
                    return Some(short.to_owned());
                }
            }
            assert(names.skip(j as int).skip(1) =~= names.skip(j + 1));
            j += 1;
        }
        assert(seen.skip(i as int).skip(1) =~= seen.skip(i + 1));
        i += 1;
    }
    None
}

/// The truth value that a request gives for a setting with these names.
pub fn bool_option(request: &Json, fields: &[&str]) -> (r: Option<bool>)
    ensures
        r == option_bool(request@, names_view(fields@)),
{
    let places = request_containers(request);
    let ghost read = |c: JsonView, f: Seq<char>| bool_setting(c, f);
    let ghost seen = places_view(places@);
    let ghost names = names_view(fields@);
    let mut i: usize = 0;
    assert(seen.skip(0) =~= seen);
    while i < places.len()
        invariant
            i <= places@.len(),
            seen == places_view(places@),
            seen == containers_of(request@),
            names == names_view(fields@),
            read == (|c: JsonView, f: Seq<char>| bool_setting(c, f)),
            first_setting(seen, names, read) == first_setting(seen.skip(i as int), names, read),
        decreases places@.len() - i,
    {
        let mut j: usize = 0;
        assert(names.skip(0) =~= names);
        while j < fields.len()
            invariant
                i < places@.len(),
                j <= fields@.len(),
                seen == places_view(places@),
                seen == containers_of(request@),
                names == names_view(fields@),
                read == (|c: JsonView, f: Seq<char>| bool_setting(c, f)),
                first_setting(seen, names, read) == first_setting(seen.skip(i as int), names, read),
                first_field(seen[i as int], names, read) == first_field(
                    seen[i as int],
                    names.skip(j as int),
                    read,
                ),
            decreases fields@.len() - j,
        {
            if let Some(value) = places[i].get(fields[j]) {
                if let Some(b) = value.as_bool() {
                    return Some(b);
                }
            }
            assert(names.skip(j as int).skip(1) =~= names.skip(j + 1));
            j += 1;
        }
        assert(seen.skip(i as int).skip(1) =~= seen.skip(i + 1));
        i += 1;
    }
    None
}

/// The endpoint that a request describes by its parts.
pub open spec fn built_url(request: JsonView) -> Seq<char> {
    let host = match option_text(request, seq!["host"@, "endpoint"@]) {
        Some(host) => host,
        None => "127.0.0.1"@,
    };
    let port = match option_text(request, seq!["port"@]) {
        Some(port) => port,
        None => "8080"@,
    };
    let scheme = if option_bool(request, seq!["tls"@, "ssl"@]) == Some(true) {
        "https"@
    } else {
        "http"@
    };
    scheme + "://"@ + host + ":"@ + port
}

/// The endpoint that a request describes by its parts.
pub fn build_url(request: &Json) -> (url: String)
    ensures
        url@ == built_url(request@),
{
    let host_names: [&str; 2] = ["host", "endpoint"];
    let port_names: [&str; 1] = ["port"];
    let tls_names: [&str; 2] = ["tls", "ssl"];
    assert(names_view(host_names@) =~= seq!["host"@, "endpoint"@]);
    assert(names_view(port_names@) =~= seq!["port"@]);
    assert(names_view(tls_names@) =~= seq!["tls"@, "ssl"@]);
    let host = match option_string(request, host_names.as_slice()) {
        Some(host) => host,
        None => "127.0.0.1".to_owned(),
    };
    let port = match option_string(request, port_names.as_slice()) {
        Some(port) => port,
        None => "8080".to_owned(),
    };
    let secure = match bool_option(request, tls_names.as_slice()) {
        Some(b) => b,
        None => false,
    };
    let scheme = if secure {
        "https"
    } else {
        "http"
    };
    scheme.to_owned().concat("://").concat(host.as_str()).concat(":").concat(port.as_str())
}

/// The sensitive values with one more, unless it is blank or among them already.
pub open spec fn with_sensitive(values: Seq<Seq<char>>, value: Seq<char>) -> Seq<Seq<char>> {
    let short = trimmed(value);
    if short.len() == 0 || values.contains(short) {
        values
    } else {
        values.push(short)
    }
}

/// The sensitive values with one more, where there is one.
pub open spec fn with_optional(values: Seq<Seq<char>>, value: Option<Seq<char>>) -> Seq<Seq<char>> {
    match value {
        Some(value) => with_sensitive(values, value),
        None => values,
    }
}

/// The sensitive values with all of `parts`, one after the other.
pub open spec fn with_all(values: Seq<Seq<char>>, parts: Seq<Seq<char>>) -> Seq<Seq<char>>
    decreases parts.len(),
{
    if parts.len() == 0 {
        values
    } else {
        with_sensitive(with_all(values, parts.drop_last()), parts.last())
    }
}

/// What stands behind the first `pattern` in `text`.
pub open spec fn behind_first(text: Seq<char>, pattern: Seq<char>) -> Option<Seq<char>> {
    if occurs(text, pattern) {
        let at = choose|at: int| first_at(text, pattern, at);
        Some(text.skip(at + pattern.len()))
    } else {
        None
    }
}

/// The part of an address in which credentials may stand.
pub open spec fn url_authority(address: Seq<char>) -> Seq<char> {
    before_first(before_first(address, '/'), '@')
}

/// The sensitive values with the credentials in an address.
pub open spec fn with_url_auth(values: Seq<Seq<char>>, url: Seq<char>) -> Seq<Seq<char>> {
    match behind_first(url, "://"@) {
        Some(address) => {
            let auth = url_authority(address);
            if auth.contains(':') {
                with_all(values, split_on(auth, ':'))
            } else {
                values
            }
        },
        None => values,
    }
}

/// Whether `value` is among the texts.
fn has_text(values: &Vec<String>, value: &str) -> (r: bool)
    ensures
        r == texts(values@).contains(value@),
{
    let mut i: usize = 0;
    while i < values.len()
        invariant
            i <= values@.len(),
            forall|j: int| 0 <= j < i ==> (#[trigger] values@[j])@ != value@,
        decreases values@.len() - i,
    {
        if same(values[i].as_str(), value) {
            assert(texts(values@)[i as int] == value@);
            return true;
        }
        i += 1;
    }
    assert forall|j: int| 0 <= j < texts(values@).len() implies texts(values@)[j] != value@ by {
        assert(values@[j]@ != value@);
    }
    false
}

/// Notes a sensitive value, unless it is blank or noted already.
pub fn push_sensitive(values: &mut Vec<String>, value: Option<&str>)
    ensures
        texts(final(values)@) == with_optional(texts(old(values)@), slice_of(value)),
{
    if let Some(value) = value {
        let short = trim(value);
        if !short.is_empty() && !has_text(values, short) {
            let ghost before = values@;
            values.push(short.to_owned());
            assert(texts(values@) =~= texts(before).push(short@));
        }
    }
}

/// Notes the credentials that stand in an address.
pub fn collect_url_auth(url: &str, values: &mut Vec<String>)
    ensures
        texts(final(values)@) == with_url_auth(texts(old(values)@), url@),
{
    proof {
        reveal_strlit("://");
    }
    let ghost start = texts(values@);
    match find(url, "://") {
        None => {},
        Some(at) => {
            let len: usize = url.unicode_len();
            let address = url.substring_char(at + 3, len);
            proof {
                let first = choose|i: int| first_at(url@, "://"@, i);
                assert(first_at(url@, "://"@, at as int));
                assert(first == at);
                assert(address@ =~= url@.skip(at + 3));
            }
            let auth = head(head(address, '/'), '@');
            assert(behind_first(url@, "://"@) == Some(address@));
            if has_char(auth, ':') {
                let parts = split(auth, ':');
                let ghost pieces = texts(parts@);
                let mut i: usize = 0;
                assert(pieces.take(0) =~= Seq::empty());
                while i < parts.len()
                    invariant
                        i <= parts@.len(),
                        pieces == texts(parts@),
                        texts(values@) == with_all(start, pieces.take(i as int)),
                    decreases parts@.len() - i,
                {
                    push_sensitive(values, Some(parts[i].as_str()));
                    assert(pieces.take(i + 1).drop_last() =~= pieces.take(i as int));
                    assert(pieces.take(i + 1).last() == parts@[i as int]@);
                    i += 1;
                }
                assert(pieces.take(pieces.len() as int) =~= pieces);
            }
        },
    }
}

/// A configured connection, seen from outside.
#[verifier::ext_equal]
pub struct ConfigView {
    pub base_url: Seq<char>,
    pub user: Seq<char>,
    pub password: Option<Seq<char>>,
    pub bearer_token: Option<Seq<char>>,
    pub catalog: Option<Seq<char>>,
    pub schema: Option<Seq<char>>,
    pub redaction_values: Seq<Seq<char>>,
}

/// A configured connection: endpoint, credentials, what to look at by default,
/// and the values that no message may show.
#[derive(Debug, PartialEq, Eq)]
pub struct TrinoConfig {
    pub base_url: String,
    pub user: String,
    pub password: Option<String>,
    pub bearer_token: Option<String>,
    pub catalog: Option<String>,
    pub schema: Option<String>,
    pub redaction_values: Vec<String>,
}

impl View for TrinoConfig {
    type V = ConfigView;

    open spec fn view(&self) -> ConfigView {
        ConfigView {
            base_url: self.base_url@,
            user: self.user@,
            password: text_of(self.password),
            bearer_token: text_of(self.bearer_token),
            catalog: text_of(self.catalog),
            schema: text_of(self.schema),
            redaction_values: texts(self.redaction_values@),
        }
    }
}

/// The address that a request gives, in one piece or in parts.
pub open spec fn url_of(request: JsonView) -> Seq<char> {
    match option_text(request, seq!["connectionString"@, "url"@, "dsn"@]) {
        Some(url) => url,
        None => built_url(request),
    }
}

/// The connection that a request configures.
pub open spec fn config_of(request: JsonView) -> ConfigView {
    let url = url_of(request);
    let password = option_text(request, seq!["password"@]);
    let bearer_token = option_text(request, seq!["token"@, "bearerToken"@, "accessToken"@]);
    ConfigView {
        base_url: without_trailing(url, '/'),
        user: match option_text(request, seq!["user"@, "username"@]) {
            Some(user) => user,
            None => "irodori"@,
        },
        password,
        bearer_token,
        catalog: option_text(request, seq!["catalog"@]),
        schema: option_text(request, seq!["schema"@, "database"@, "db"@]),
        redaction_values: with_url_auth(
            with_optional(with_optional(Seq::empty(), password), bearer_token),
            url,
        ),
    }
}

/// `message` with the first sensitive value masked, then the second, and so on.
pub open spec fn masked(message: Seq<char>, secrets: Seq<Seq<char>>) -> Seq<char>
    decreases secrets.len(),
{
    if secrets.len() == 0 {
        message
    } else {
        let earlier = masked(message, secrets.drop_last());
        if secrets.last().len() == 0 {
            earlier
        } else {
            replaced(earlier, secrets.last(), "****"@)
        }
    }
}

impl ConfigView {
    /// `message` without the endpoint and the sensitive values.
    pub open spec fn redacted(self, message: Seq<char>) -> Seq<char> {
        masked(replaced(message, self.base_url, "<trino-url>"@), self.redaction_values)
    }
}

/// The slice of an optional string.
pub fn as_deref(o: &Option<String>) -> (r: Option<&str>)
    ensures
        slice_of(r) == text_of(*o),
{
    match o {
        Some(s) => Some(s.as_str()),
        None => None,
    }
}

/// A copy of an optional string.
fn copy_text(o: &Option<String>) -> (r: Option<String>)
    ensures
        text_of(r) == text_of(*o),
{
    match o {
        Some(s) => Some(s.clone()),
        None => None,
    }
}

impl Clone for TrinoConfig {
    fn clone(&self) -> (r: Self)
        ensures
            r@ == self@,
    {
        let mut redaction_values: Vec<String> = Vec::new();
        let mut i: usize = 0;
        while i < self.redaction_values.len()
            invariant
                i <= self.redaction_values@.len(),
                texts(redaction_values@) == texts(self.redaction_values@).take(i as int),
            decreases self.redaction_values@.len() - i,
        {
            let ghost before = redaction_values@;
            redaction_values.push(self.redaction_values[i].clone());
            assert(texts(redaction_values@) =~= texts(before).push(self.redaction_values@[i as int]@));
            assert(texts(redaction_values@) =~= texts(self.redaction_values@).take(i + 1));
            i += 1;
        }
        assert(texts(redaction_values@) =~= texts(self.redaction_values@));
        TrinoConfig {
            base_url: self.base_url.clone(),
            user: self.user.clone(),
            password: copy_text(&self.password),
            bearer_token: copy_text(&self.bearer_token),
            catalog: copy_text(&self.catalog),
            schema: copy_text(&self.schema),
            redaction_values,
        }
    }
}

impl TrinoConfig {
    /// The connection that a request configures. No request is refused.
    pub fn from_request(request: &Json) -> (r: Result<TrinoConfig, String>)
        ensures
            r matches Ok(config) && config@ == config_of(request@),
    {
        let url_names: [&str; 3] = ["connectionString", "url", "dsn"];
        let user_names: [&str; 2] = ["user", "username"];
        let password_names: [&str; 1] = ["password"];
        let token_names: [&str; 3] = ["token", "bearerToken", "accessToken"];
        let catalog_names: [&str; 1] = ["catalog"];
        let schema_names: [&str; 3] = ["schema", "database", "db"];
        proof {
            assert(names_view(url_names@) =~= seq!["connectionString"@, "url"@, "dsn"@]);
            assert(names_view(user_names@) =~= seq!["user"@, "username"@]);
            assert(names_view(password_names@) =~= seq!["password"@]);
            assert(names_view(token_names@) =~= seq!["token"@, "bearerToken"@, "accessToken"@]);
            assert(names_view(catalog_names@) =~= seq!["catalog"@]);
            assert(names_view(schema_names@) =~= seq!["schema"@, "database"@, "db"@]);
        }
        let url = match option_string(request, url_names.as_slice()) {
            Some(url) => url,
            None => build_url(request),
        };
        let user = match option_string(request, user_names.as_slice()) {
            Some(user) => user,
            None => "irodori".to_owned(),
        };
        let password = option_string(request, password_names.as_slice());
        let bearer_token = option_string(request, token_names.as_slice());
        let catalog = option_string(request, catalog_names.as_slice());
        let schema = option_string(request, schema_names.as_slice());
        let mut redaction_values: Vec<String> = Vec::new();
        assert(texts(redaction_values@) =~= Seq::empty());
        push_sensitive(&mut redaction_values, as_deref(&password));
        push_sensitive(&mut redaction_values, as_deref(&bearer_token));
        collect_url_auth(url.as_str(), &mut redaction_values);
        Ok(
            TrinoConfig {
                base_url: trim_end_matches(url.as_str(), '/').to_owned(),
                user,
                password,
                bearer_token,
                catalog,
                schema,
                redaction_values,
            },
        )
    }

    /// `message` without the endpoint and the sensitive values.
    pub fn redact(&self, message: &str) -> (r: String)
        ensures
            r@ == self@.redacted(message@),
    {
        let mut text = replace(message, self.base_url.as_str(), "<trino-url>");
        let ghost start = text@;
        let ghost secrets = texts(self.redaction_values@);
        let mut i: usize = 0;
        assert(secrets.take(0) =~= Seq::empty());
        while i < self.redaction_values.len()
            invariant
                i <= self.redaction_values@.len(),
                secrets == texts(self.redaction_values@),
                text@ == masked(start, secrets.take(i as int)),
            decreases self.redaction_values@.len() - i,
        {
            let secret = self.redaction_values[i].as_str();
            assert(secrets.take(i + 1).drop_last() =~= secrets.take(i as int));
            assert(secrets.take(i + 1).last() == secret@);
            if !secret.is_empty() {
                text = replace(text.as_str(), secret, "****");
            }
            i += 1;
        }
        assert(secrets.take(secrets.len() as int) =~= secrets);
        text
    }
}

/// Whether a text can be masked for good: it neither begins nor ends in an
/// asterisk nor holds a mask. Any other can come out of the masks themselves.
pub open spec fn maskable(text: Seq<char>) -> bool {
    &&& text.len() > 0
    &&& text[0] != '*'
    &&& text.last() != '*'
    &&& !occurs(text, "****"@)
}

/// What can be masked for good stays clear of the mask, and nothing else does.
pub proof fn maskable_stays_clear(text: Seq<char>)
    ensures
        maskable(text) <==> stays_clear(text, "****"@),
{
    reveal_strlit("****");
    let mask = "****"@;
    if maskable(text) {
        assert forall|at: int| -text.len() < at < mask.len() implies !#[trigger] agrees(
            text,
            mask,
            at,
        ) by {
            if agrees(text, mask, at) {
                if at >= 0 {
                    assert(text[0] == mask[at + 0]);
                } else if at + text.len() <= mask.len() {
                    assert(text[text.len() - 1] == mask[at + (text.len() - 1)]);
                } else {
                    assert(forall|i: int| 0 <= i < 4 ==> #[trigger] text[i - at] == mask[at + (i - at)]);
                    assert forall|i: int| 0 <= i < 4 implies #[trigger] text.subrange(-at, 4 - at)[i]
                        == mask[i] by {
                        assert(text[i - at] == mask[i]);
                    }
                    assert(text.subrange(-at, -at + mask.len()) =~= mask);
                    assert(occurs_at(text, mask, -at));
                }
            }
        }
    }
    if stays_clear(text, mask) {
        if text[0] == '*' {
            assert(agrees(text, mask, 3));
        }
        if text.last() == '*' {
            assert(agrees(text, mask, 1 - text.len()));
        }
        if occurs(text, mask) {
            let at = choose|at: int| occurs_at(text, mask, at);
            assert forall|i: int|
                0 <= i < text.len() && 0 <= i - at < mask.len() implies #[trigger] text[i]
                == mask[i - at] by {
                assert(text.subrange(at, at + mask.len())[i - at] == mask[i - at]);
            }
            assert(agrees(text, mask, -at));
        }
    }
}

/// Masking brings back no text that can be masked for good.
proof fn lemma_masking_adds_nothing(message: Seq<char>, secrets: Seq<Seq<char>>, other: Seq<char>)
    requires
        secrets.len() > 0 ==> maskable(other),
        !occurs(message, other),
    ensures
        !occurs(masked(message, secrets), other),
    decreases secrets.len(),
{
    if secrets.len() > 0 {
        lemma_masking_adds_nothing(message, secrets.drop_last(), other);
        let earlier = masked(message, secrets.drop_last());
        if secrets.last().len() > 0 && occurs(masked(message, secrets), other) {
            maskable_stays_clear(other);
            replacing_adds_nothing(earlier, secrets.last(), "****"@, other);
        }
    }
}

/// No sensitive value that can be masked for good is left in a masked message,
/// whatever the others are.
pub proof fn masking_hides(message: Seq<char>, secrets: Seq<Seq<char>>, k: int)
    requires
        0 <= k < secrets.len(),
        maskable(secrets[k]),
    ensures
        !occurs(masked(message, secrets), secrets[k]),
    decreases secrets.len(),
{
    let earlier = masked(message, secrets.drop_last());
    maskable_stays_clear(secrets[k]);
    if k == secrets.len() - 1 {
        replacing_removes(earlier, secrets[k], "****"@);
    } else {
        assert(secrets.drop_last()[k] == secrets[k]);
        masking_hides(message, secrets.drop_last(), k);
        if secrets.last().len() > 0 && occurs(masked(message, secrets), secrets[k]) {
            replacing_adds_nothing(earlier, secrets.last(), "****"@, secrets[k]);
        }
    }
}

/// No sensitive value of a connection is left in a redacted message, where it can
/// be masked for good.
pub proof fn redaction_hides_secrets(config: ConfigView, message: Seq<char>, secret: Seq<char>)
    requires
        config.redaction_values.contains(secret),
        maskable(secret),
    ensures
        !occurs(config.redacted(message), secret),
{
    let k = choose|k: int|
        0 <= k < config.redaction_values.len() && config.redaction_values[k] == secret;
    masking_hides(replaced(message, config.base_url, "<trino-url>"@), config.redaction_values, k);
}

/// The endpoint of a connection is not left in a redacted message. (One that can
/// overlap the placeholder or a mask may come out of it.)
pub proof fn redaction_hides_endpoint(config: ConfigView, message: Seq<char>)
    requires
        stays_clear(config.base_url, "<trino-url>"@),
        config.redaction_values.len() > 0 ==> maskable(config.base_url),
    ensures
        !occurs(config.redacted(message), config.base_url),
{
    replacing_removes(message, config.base_url, "<trino-url>"@);
    lemma_masking_adds_nothing(
        replaced(message, config.base_url, "<trino-url>"@),
        config.redaction_values,
        config.base_url,
    );
}

/// Of several places the first one that has the setting decides, and of several
/// names in it the first one that is there.
pub proof fn nearer_setting_wins<T>(
    containers: Seq<JsonView>,
    fields: Seq<Seq<char>>,
    read: spec_fn(JsonView, Seq<char>) -> Option<T>,
    place: int,
    name: int,
)
    requires
        0 <= place < containers.len(),
        0 <= name < fields.len(),
        forall|p: int, n: int|
            0 <= p < place && 0 <= n < fields.len() ==> #[trigger] read(
                containers[p],
                fields[n],
            ) is None,
        forall|n: int| 0 <= n < name ==> #[trigger] read(containers[place], fields[n]) is None,
        read(containers[place], fields[name]) is Some,
    ensures
        first_setting(containers, fields, read) == read(containers[place], fields[name]),
    decreases containers.len(),
{
    if place == 0 {
        lemma_first_field(containers[0], fields, read, name);
    } else {
        assert(forall|n: int| 0 <= n < fields.len() ==> #[trigger] read(containers[0], fields[n]) is None);
        lemma_no_field(containers[0], fields, read);
        let rest = containers.skip(1);
        assert forall|p: int, n: int|
            0 <= p < place - 1 && 0 <= n < fields.len() implies #[trigger] read(
            rest[p],
            fields[n],
        ) is None by {
            assert(rest[p] == containers[p + 1]);
        }
        assert(rest[place - 1] == containers[place]);
        nearer_setting_wins(rest, fields, read, place - 1, name);
    }
}

proof fn lemma_first_field<T>(
    container: JsonView,
    fields: Seq<Seq<char>>,
    read: spec_fn(JsonView, Seq<char>) -> Option<T>,
    name: int,
)
    requires
        0 <= name < fields.len(),
        forall|n: int| 0 <= n < name ==> #[trigger] read(container, fields[n]) is None,
        read(container, fields[name]) is Some,
    ensures
        first_field(container, fields, read) == read(container, fields[name]),
    decreases fields.len(),
{
    if name > 0 {
        let rest = fields.skip(1);
        assert(read(container, fields[0]) is None);
        assert forall|n: int| 0 <= n < name - 1 implies #[trigger] read(
            container,
            rest[n],
        ) is None by {
            assert(rest[n] == fields[n + 1]);
        }
        assert(rest[name - 1] == fields[name]);
        lemma_first_field(container, rest, read, name - 1);
    }
}

proof fn lemma_no_field<T>(
    container: JsonView,
    fields: Seq<Seq<char>>,
    read: spec_fn(JsonView, Seq<char>) -> Option<T>,
)
    requires
        forall|n: int| 0 <= n < fields.len() ==> #[trigger] read(container, fields[n]) is None,
    ensures
        first_field(container, fields, read) is None,
    decreases fields.len(),
{
    if fields.len() > 0 {
        let rest = fields.skip(1);
        assert(read(container, fields[0]) is None);
        assert forall|n: int| 0 <= n < rest.len() implies #[trigger] read(
            container,
            rest[n],
        ) is None by {
            assert(rest[n] == fields[n + 1]);
        }
        lemma_no_field(container, rest, read);
    }
}

/// Every text that a request gives for a setting is trimmed and not empty.
pub proof fn settings_are_trimmed(request: JsonView, fields: Seq<Seq<char>>)
    ensures
        option_text(request, fields) matches Some(text) ==> text.len() > 0 && trimmed(text) == text,
{
    lemma_setting_trimmed(containers_of(request), fields);
}

proof fn lemma_field_trimmed(container: JsonView, fields: Seq<Seq<char>>)
    ensures
        first_field(container, fields, |c: JsonView, f: Seq<char>| text_setting(c, f)) matches Some(
            text,
        ) ==> text.len() > 0 && trimmed(text) == text,
    decreases fields.len(),
{
    if fields.len() > 0 {
        lemma_field_trimmed(container, fields.skip(1));
        if let Some(value) = container.get(fields[0]) {
            trimming_settles(scalar_text(value));
        }
    }
}

proof fn lemma_setting_trimmed(containers: Seq<JsonView>, fields: Seq<Seq<char>>)
    ensures
        first_setting(
            containers,
            fields,
            |c: JsonView, f: Seq<char>| text_setting(c, f),
        ) matches Some(text) ==> text.len() > 0 && trimmed(text) == text,
    decreases containers.len(),
{
    if containers.len() > 0 {
        lemma_field_trimmed(containers[0], fields);
        lemma_setting_trimmed(containers.skip(1), fields);
    }
}

/// Whether the values are trimmed, not empty, and each there once.
pub open spec fn clean_values(values: Seq<Seq<char>>) -> bool {
    &&& forall|i: int|
        0 <= i < values.len() ==> (#[trigger] values[i]).len() > 0 && trimmed(values[i]) == values[i]
    &&& forall|i: int, j: int| 0 <= i < j < values.len() ==> values[i] != values[j]
}

/// Noting a value keeps the values clean and those noted before.
proof fn lemma_with_sensitive(values: Seq<Seq<char>>, value: Seq<char>)
    ensures
        clean_values(values) ==> clean_values(with_sensitive(values, value)),
        trimmed(value).len() > 0 ==> with_sensitive(values, value).contains(trimmed(value)),
        forall|v: Seq<char>| values.contains(v) ==> #[trigger] with_sensitive(values, value).contains(v),
{
    trimming_settles(value);
    let short = trimmed(value);
    let next = with_sensitive(values, value);
    if short.len() > 0 && !values.contains(short) {
        assert(next[values.len() as int] == short);
    }
    assert forall|v: Seq<char>| values.contains(v) implies #[trigger] next.contains(v) by {
        let i = choose|i: int| 0 <= i < values.len() && values[i] == v;
        assert(next[i] == v);
    }
}

proof fn lemma_with_all(values: Seq<Seq<char>>, parts: Seq<Seq<char>>)
    ensures
        clean_values(values) ==> clean_values(with_all(values, parts)),
        forall|v: Seq<char>| values.contains(v) ==> #[trigger] with_all(values, parts).contains(v),
        forall|k: int|
            0 <= k < parts.len() && trimmed(#[trigger] parts[k]).len() > 0 ==> with_all(
                values,
                parts,
            ).contains(trimmed(parts[k])),
    decreases parts.len(),
{
    if parts.len() > 0 {
        let earlier = parts.drop_last();
        lemma_with_all(values, earlier);
        lemma_with_sensitive(with_all(values, earlier), parts.last());
        assert forall|k: int|
            0 <= k < parts.len() && trimmed(#[trigger] parts[k]).len() > 0 implies with_all(
            values,
            parts,
        ).contains(trimmed(parts[k])) by {
            if k < parts.len() - 1 {
                assert(earlier[k] == parts[k]);
            }
        }
    }
}

/// The sensitive values of a configured connection are trimmed, not empty and
/// each there once; password and token are among them; and the endpoint ends in
/// no slash.
pub proof fn configured_connection(request: JsonView)
    ensures
        clean_values(config_of(request).redaction_values),
        config_of(request).password matches Some(password) ==> config_of(
            request,
        ).redaction_values.contains(password),
        config_of(request).bearer_token matches Some(token) ==> config_of(
            request,
        ).redaction_values.contains(token),
        config_of(request).base_url.len() > 0 ==> config_of(request).base_url.last() != '/',
{
    let config = config_of(request);
    settings_are_trimmed(request, seq!["password"@]);
    settings_are_trimmed(request, seq!["token"@, "bearerToken"@, "accessToken"@]);
    without_trailing_settles(url_of(request), '/');
    let none = Seq::<Seq<char>>::empty();
    let one = with_optional(none, config.password);
    let two = with_optional(one, config.bearer_token);
    if let Some(password) = config.password {
        lemma_with_sensitive(none, password);
    }
    if let Some(token) = config.bearer_token {
        lemma_with_sensitive(one, token);
    }
    if let Some(address) = behind_first(url_of(request), "://"@) {
        lemma_with_all(two, split_on(url_authority(address), ':'));
    }
}

/// The password and the token that a request gives are in no message that the
/// connection it configures has redacted.
pub proof fn credentials_stay_hidden(request: JsonView, message: Seq<char>, secret: Seq<char>)
    requires
        config_of(request).password == Some(secret) || config_of(request).bearer_token == Some(
            secret,
        ),
        maskable(secret),
    ensures
        !occurs(config_of(request).redacted(message), secret),
{
    configured_connection(request);
    redaction_hides_secrets(config_of(request), message, secret);
}

/// The credentials that stand in the address of a request are in no message that
/// the connection it configures has redacted.
pub proof fn address_credentials_stay_hidden(
    request: JsonView,
    message: Seq<char>,
    address: Seq<char>,
    k: int,
)
    requires
        behind_first(url_of(request), "://"@) == Some(address),
        url_authority(address).contains(':'),
        0 <= k < split_on(url_authority(address), ':').len(),
        maskable(trimmed(split_on(url_authority(address), ':')[k])),
    ensures
        !occurs(
            config_of(request).redacted(message),
            trimmed(split_on(url_authority(address), ':')[k]),
        ),
{
    let config = config_of(request);
    let parts = split_on(url_authority(address), ':');
    let noted = with_optional(with_optional(Seq::empty(), config.password), config.bearer_token);
    lemma_with_all(noted, parts);
    redaction_hides_secrets(config, message, trimmed(parts[k]));
}

/// The place of a request that is the `n`th to be looked at for a setting: the
/// request itself, its profile, options, authentication and secrets, and those of
/// its profile.
pub open spec fn place(request: JsonView, n: int) -> Option<JsonView> {
    if n == 0 {
        Some(request)
    } else if n == 1 {
        request.get("profile"@)
    } else if n == 2 {
        request.get("options"@)
    } else if n == 3 {
        request.get("auth"@)
    } else if n == 4 {
        request.get("secrets"@)
    } else if request.get("profile"@) is None {
        None
    } else if n == 5 {
        request.get("profile"@)->0.get("options"@)
    } else if n == 6 {
        request.get("profile"@)->0.get("auth"@)
    } else if n == 7 {
        request.get("profile"@)->0.get("secrets"@)
    } else {
        None
    }
}

/// The value under a name at the `n`th place.
pub open spec fn given(request: JsonView, n: int, name: Seq<char>) -> Option<JsonView> {
    if place(request, n) is Some {
        place(request, n)->0.get(name)
    } else {
        None
    }
}

/// The text that is given under a name at the `n`th place: a text without the
/// white space around it unless it is blank, a number as it is written, a truth
/// value as a word.
pub open spec fn given_text(request: JsonView, n: int, name: Seq<char>) -> Option<Seq<char>> {
    match given(request, n, name) {
        Some(JsonView::String(text)) => if is_blank(text) {
            None
        } else {
            Some(trimmed(text))
        },
        Some(JsonView::Number(number)) => if is_blank(number.text()) {
            None
        } else {
            Some(trimmed(number.text()))
        },
        Some(JsonView::Bool(true)) => Some("true"@),
        Some(JsonView::Bool(false)) => Some("false"@),
        _ => None,
    }
}

/// The truth value that is given under a name at the `n`th place.
pub open spec fn given_bool(request: JsonView, n: int, name: Seq<char>) -> Option<bool> {
    match given(request, n, name) {
        Some(JsonView::Bool(b)) => Some(b),
        _ => None,
    }
}

/// Whether the text under the `k`th name at the `n`th place is the first that is
/// given: there is none at the places before, nor under the names before.
pub open spec fn decides(request: JsonView, names: Seq<Seq<char>>, n: int, k: int) -> bool {
    &&& 0 <= n < 8
    &&& 0 <= k < names.len()
    &&& given_text(request, n, names[k]) is Some
    &&& forall|m: int, j: int|
        0 <= m < n && 0 <= j < names.len() ==> #[trigger] given_text(request, m, names[j]) is None
    &&& forall|j: int| 0 <= j < k ==> #[trigger] given_text(request, n, names[j]) is None
}

/// Whether `value` is what a request gives under one of the names: the first text
/// that is given, or nothing where none is.
pub open spec fn settles(
    request: JsonView,
    names: Seq<Seq<char>>,
    value: Option<Seq<char>>,
) -> bool {
    match value {
        Some(text) => exists|n: int, k: int| #[trigger]
            decides(request, names, n, k) && given_text(request, n, names[k]) == Some(text),
        None => forall|n: int, k: int|
            0 <= n < 8 && 0 <= k < names.len() ==> #[trigger] given_text(
                request,
                n,
                names[k],
            ) is None,
    }
}

/// What the first of two lists of places says, else the second.
proof fn lemma_first_setting_joined<T>(
    a: Seq<JsonView>,
    b: Seq<JsonView>,
    fields: Seq<Seq<char>>,
    read: spec_fn(JsonView, Seq<char>) -> Option<T>,
)
    ensures
        first_setting(a + b, fields, read) == first_of(
            first_setting(a, fields, read),
            first_setting(b, fields, read),
        ),
    decreases a.len(),
{
    if a.len() == 0 {
        assert(a + b =~= b);
    } else {
        lemma_first_setting_joined(a.skip(1), b, fields, read);
        assert((a + b).skip(1) =~= a.skip(1) + b);
    }
}

/// What one place says, where it is there.
spec fn says<T>(
    place: Option<JsonView>,
    fields: Seq<Seq<char>>,
    read: spec_fn(JsonView, Seq<char>) -> Option<T>,
) -> Option<T> {
    match place {
        Some(container) => first_field(container, fields, read),
        None => None,
    }
}

proof fn lemma_says<T>(
    place: Option<JsonView>,
    fields: Seq<Seq<char>>,
    read: spec_fn(JsonView, Seq<char>) -> Option<T>,
)
    ensures
        first_setting(present(place), fields, read) == says(place, fields, read),
{
    reveal_with_fuel(first_setting, 3);
    if let Some(container) = place {
        assert(seq![container].skip(1) =~= Seq::empty());
    }
}

/// The places speak one after the other.
proof fn lemma_places_in_turn<T>(
    request: JsonView,
    fields: Seq<Seq<char>>,
    read: spec_fn(JsonView, Seq<char>) -> Option<T>,
)
    ensures
        first_setting(containers_of(request), fields, read) == first_of(
            says(place(request, 0), fields, read),
            first_of(
                says(place(request, 1), fields, read),
                first_of(
                    says(place(request, 2), fields, read),
                    first_of(
                        says(place(request, 3), fields, read),
                        first_of(
                            says(place(request, 4), fields, read),
                            first_of(
                                says(place(request, 5), fields, read),
                                first_of(
                                    says(place(request, 6), fields, read),
                                    says(place(request, 7), fields, read),
                                ),
                            ),
                        ),
                    ),
                ),
            ),
        ),
{
    let p0 = present(place(request, 0));
    let p1 = present(place(request, 1));
    let p2 = present(place(request, 2));
    let p3 = present(place(request, 3));
    let p4 = present(place(request, 4));
    let p5 = present(place(request, 5));
    let p6 = present(place(request, 6));
    let p7 = present(place(request, 7));
    assert(containers_of(request) =~= p0 + p1 + p2 + p3 + p4 + p5 + p6 + p7);
    lemma_first_setting_joined(p0 + p1 + p2 + p3 + p4 + p5 + p6, p7, fields, read);
    lemma_first_setting_joined(p0 + p1 + p2 + p3 + p4 + p5, p6, fields, read);
    lemma_first_setting_joined(p0 + p1 + p2 + p3 + p4, p5, fields, read);
    lemma_first_setting_joined(p0 + p1 + p2 + p3, p4, fields, read);
    lemma_first_setting_joined(p0 + p1 + p2, p3, fields, read);
    lemma_first_setting_joined(p0 + p1, p2, fields, read);
    lemma_first_setting_joined(p0, p1, fields, read);
    lemma_says(place(request, 0), fields, read);
    lemma_says(place(request, 1), fields, read);
    lemma_says(place(request, 2), fields, read);
    lemma_says(place(request, 3), fields, read);
    lemma_says(place(request, 4), fields, read);
    lemma_says(place(request, 5), fields, read);
    lemma_says(place(request, 6), fields, read);
    lemma_says(place(request, 7), fields, read);
}

/// What a place says comes from the first name under which it has anything.
proof fn lemma_says_first<T>(
    place: Option<JsonView>,
    fields: Seq<Seq<char>>,
    read: spec_fn(JsonView, Seq<char>) -> Option<T>,
) -> (k: int)
    ensures
        says(place, fields, read) is Some ==> place is Some && 0 <= k < fields.len() && says(
            place,
            fields,
            read,
        ) == read(place->0, fields[k]) && forall|j: int|
            0 <= j < k ==> #[trigger] read(place->0, fields[j]) is None,
        says(place, fields, read) is None && place is Some ==> forall|j: int|
            0 <= j < fields.len() ==> #[trigger] read(place->0, fields[j]) is None,
    decreases fields.len(),
{
    if place is None || fields.len() == 0 {
        0
    } else {
        let container = place->0;
        let rest = fields.skip(1);
        let k = lemma_says_first(place, rest, read);
        if read(container, fields[0]) is Some {
            0
        } else {
            if says(place, fields, read) is Some {
                assert(rest[k] == fields[k + 1]);
                assert forall|j: int| 0 <= j < k + 1 implies #[trigger] read(
                    place->0,
                    fields[j],
                ) is None by {
                    if j > 0 {
                        assert(rest[j - 1] == fields[j]);
                        assert(read(place->0, rest[j - 1]) is None);
                    }
                }
            } else {
                assert forall|j: int| 0 <= j < fields.len() implies #[trigger] read(
                    place->0,
                    fields[j],
                ) is None by {
                    if j > 0 {
                        assert(rest[j - 1] == fields[j]);
                        assert(read(place->0, rest[j - 1]) is None);
                    }
                }
            }
            k + 1
        }
    }
}

/// What is read as a text setting is the text that is given.
proof fn lemma_given_text(request: JsonView, n: int, name: Seq<char>)
    ensures
        place(request, n) is Some ==> text_setting(place(request, n)->0, name) == given_text(
            request,
            n,
            name,
        ),
        place(request, n) is None ==> given_text(request, n, name) is None,
{
    reveal_strlit("true");
    reveal_strlit("false");
    assert(trimmed("true"@) == "true"@ && trimmed("false"@) == "false"@) by {
        reveal_with_fuel(trimmed_start, 2);
        reveal_with_fuel(trimmed_end, 2);
    }
    assert("true"@.len() == 4 && "false"@.len() == 5);
}

/// What a request says for a setting is the first text that it gives under one of
/// the names: place by place, the request itself first, and name by name.
pub proof fn settings_come_from_the_first_place(request: JsonView, names: Seq<Seq<char>>)
    ensures
        settles(request, names, option_text(request, names)),
{
    let read = |c: JsonView, f: Seq<char>| text_setting(c, f);
    lemma_places_in_turn(request, names, read);
    let value = option_text(request, names);
    let k0 = lemma_says_first(place(request, 0), names, read);
    let k1 = lemma_says_first(place(request, 1), names, read);
    let k2 = lemma_says_first(place(request, 2), names, read);
    let k3 = lemma_says_first(place(request, 3), names, read);
    let k4 = lemma_says_first(place(request, 4), names, read);
    let k5 = lemma_says_first(place(request, 5), names, read);
    let k6 = lemma_says_first(place(request, 6), names, read);
    let k7 = lemma_says_first(place(request, 7), names, read);
    assert forall|n: int, j: int| 0 <= n < 8 && 0 <= j < names.len() implies #[trigger] given_text(
        request,
        n,
        names[j],
    ) == (if place(request, n) is Some {
        read(place(request, n)->0, names[j])
    } else {
        None
    }) by {
        lemma_given_text(request, n, names[j]);
    }
    assert forall|n: int, j: int|
        0 <= n < 8 && 0 <= j < names.len() && says(
            place(request, n),
            names,
            read,
        ) is None implies #[trigger] given_text(request, n, names[j]) is None by {
        if place(request, n) is Some {
            assert(n == 0 || n == 1 || n == 2 || n == 3 || n == 4 || n == 5 || n == 6 || n == 7);
            assert(read(place(request, n)->0, names[j]) is None);
        }
    }
    if value is Some {
        let n: int = if says(place(request, 0), names, read) is Some {
            0
        } else if says(place(request, 1), names, read) is Some {
            1
        } else if says(place(request, 2), names, read) is Some {
            2
        } else if says(place(request, 3), names, read) is Some {
            3
        } else if says(place(request, 4), names, read) is Some {
            4
        } else if says(place(request, 5), names, read) is Some {
            5
        } else if says(place(request, 6), names, read) is Some {
            6
        } else {
            7
        };
        let k: int = if n == 0 {
            k0
        } else if n == 1 {
            k1
        } else if n == 2 {
            k2
        } else if n == 3 {
            k3
        } else if n == 4 {
            k4
        } else if n == 5 {
            k5
        } else if n == 6 {
            k6
        } else {
            k7
        };
        assert(given_text(request, n, names[k]) == value);
        assert forall|m: int, j: int|
            0 <= m < n && 0 <= j < names.len() implies #[trigger] given_text(
            request,
            m,
            names[j],
        ) is None by {
            assert(says(place(request, m), names, read) is None);
        }
        assert forall|j: int| 0 <= j < k implies #[trigger] given_text(
            request,
            n,
            names[j],
        ) is None by {
            assert(read(place(request, n)->0, names[j]) is None);
        }
        assert(decides(request, names, n, k));
    }
}

/// There is one text that a request gives first: what settles a setting is one.
pub proof fn settings_are_settled_once(
    request: JsonView,
    names: Seq<Seq<char>>,
    a: Option<Seq<char>>,
    b: Option<Seq<char>>,
)
    requires
        settles(request, names, a),
        settles(request, names, b),
    ensures
        a == b,
{
    if a is Some && b is Some {
        let (n, k) = choose|n: int, k: int| #[trigger]
            decides(request, names, n, k) && given_text(request, n, names[k]) == a;
        let (m, j) = choose|m: int, j: int| #[trigger]
            decides(request, names, m, j) && given_text(request, m, names[j]) == b;
        assert(n == m && k == j);
    } else if a is Some {
        let (n, k) = choose|n: int, k: int| #[trigger]
            decides(request, names, n, k) && given_text(request, n, names[k]) == a;
        assert(given_text(request, n, names[k]) is Some);
    } else if b is Some {
        let (n, k) = choose|n: int, k: int| #[trigger]
            decides(request, names, n, k) && given_text(request, n, names[k]) == b;
        assert(given_text(request, n, names[k]) is Some);
    }
}

/// Under which names a request gives the settings of a connection.
pub proof fn connections_are_configured_by_name(request: JsonView)
    ensures
        settles(
            request,
            seq!["token"@, "bearerToken"@, "accessToken"@],
            config_of(request).bearer_token,
        ),
        settles(request, seq!["password"@], config_of(request).password),
        settles(request, seq!["catalog"@], config_of(request).catalog),
        settles(request, seq!["schema"@, "database"@, "db"@], config_of(request).schema),
        settles(request, seq!["user"@, "username"@], Some(config_of(request).user)) || (settles(
            request,
            seq!["user"@, "username"@],
            None,
        ) && config_of(request).user == "irodori"@),
{
    settings_come_from_the_first_place(request, seq!["token"@, "bearerToken"@, "accessToken"@]);
    settings_come_from_the_first_place(request, seq!["password"@]);
    settings_come_from_the_first_place(request, seq!["catalog"@]);
    settings_come_from_the_first_place(request, seq!["schema"@, "database"@, "db"@]);
    settings_come_from_the_first_place(request, seq!["user"@, "username"@]);
}

/// A text that is given under one of the names in the request itself, and under no
/// name that goes before it there, is the setting.
pub proof fn texts_in_the_request_are_the_settings(
    request: JsonView,
    names: Seq<Seq<char>>,
    k: int,
    text: Seq<char>,
)
    requires
        0 <= k < names.len(),
        request.get(names[k]) == Some(JsonView::String(text)),
        !is_blank(text),
        forall|j: int| 0 <= j < k ==> request.get(#[trigger] names[j]) is None,
    ensures
        option_text(request, names) == Some(trimmed(text)),
{
    settings_come_from_the_first_place(request, names);
    assert(given_text(request, 0, names[k]) == Some(trimmed(text)));
    assert forall|j: int| 0 <= j < k implies #[trigger] given_text(
        request,
        0,
        names[j],
    ) is None by {
        assert(request.get(names[j]) is None);
    }
    assert(decides(request, names, 0, k));
    assert(settles(request, names, Some(trimmed(text))));
    settings_are_settled_once(request, names, Some(trimmed(text)), option_text(request, names));
}

/// Every accepted name of a setting will do: a request that gives a text under it,
/// and under no other name of the setting, configures the connection with that
/// text, without the white space around it.
pub proof fn any_accepted_name_will_do(request: JsonView, name: Seq<char>, text: Seq<char>)
    requires
        request.get(name) == Some(JsonView::String(text)),
        !is_blank(text),
        forall|other: Seq<char>| other != name ==> #[trigger] request.get(other) is None,
    ensures
        name == "token"@ || name == "bearerToken"@ || name == "accessToken"@ ==> config_of(
            request,
        ).bearer_token == Some(trimmed(text)),
        name == "password"@ ==> config_of(request).password == Some(trimmed(text)),
        name == "user"@ || name == "username"@ ==> config_of(request).user == trimmed(text),
        name == "catalog"@ ==> config_of(request).catalog == Some(trimmed(text)),
        name == "schema"@ || name == "database"@ || name == "db"@ ==> config_of(request).schema
            == Some(trimmed(text)),
        name == "connectionString"@ || name == "url"@ || name == "dsn"@ ==> url_of(request)
            == trimmed(text),
        name == "host"@ || name == "endpoint"@ ==> url_of(request) == "http://"@ + trimmed(text)
            + ":8080"@,
        name == "port"@ ==> url_of(request) == "http://127.0.0.1:"@ + trimmed(text),
{
    lemma_sole_name(request, seq!["token"@, "bearerToken"@, "accessToken"@], name, text);
    lemma_sole_name(request, seq!["password"@], name, text);
    lemma_sole_name(request, seq!["user"@, "username"@], name, text);
    lemma_sole_name(request, seq!["catalog"@], name, text);
    lemma_sole_name(request, seq!["schema"@, "database"@, "db"@], name, text);
    lemma_sole_name(request, seq!["connectionString"@, "url"@, "dsn"@], name, text);
    lemma_sole_name(request, seq!["host"@, "endpoint"@], name, text);
    lemma_sole_name(request, seq!["port"@], name, text);
    assert(seq!["token"@, "bearerToken"@, "accessToken"@][0] == "token"@);
    assert(seq!["token"@, "bearerToken"@, "accessToken"@][1] == "bearerToken"@);
    assert(seq!["token"@, "bearerToken"@, "accessToken"@][2] == "accessToken"@);
    assert(seq!["password"@][0] == "password"@);
    assert(seq!["user"@, "username"@][0] == "user"@ && seq!["user"@, "username"@][1]
        == "username"@);
    assert(seq!["catalog"@][0] == "catalog"@);
    assert(seq!["schema"@, "database"@, "db"@][0] == "schema"@);
    assert(seq!["schema"@, "database"@, "db"@][1] == "database"@);
    assert(seq!["schema"@, "database"@, "db"@][2] == "db"@);
    assert(seq!["connectionString"@, "url"@, "dsn"@][0] == "connectionString"@);
    assert(seq!["connectionString"@, "url"@, "dsn"@][1] == "url"@);
    assert(seq!["connectionString"@, "url"@, "dsn"@][2] == "dsn"@);
    assert(seq!["host"@, "endpoint"@][0] == "host"@ && seq!["host"@, "endpoint"@][1]
        == "endpoint"@);
    assert(seq!["port"@][0] == "port"@);
    if name == "host"@ || name == "endpoint"@ || name == "port"@ {
        reveal_strlit("connectionString");
        reveal_strlit("url");
        reveal_strlit("dsn");
        reveal_strlit("host");
        reveal_strlit("endpoint");
        reveal_strlit("port");
        reveal_strlit("tls");
        reveal_strlit("ssl");
        reveal_strlit("profile");
        reveal_strlit("options");
        reveal_strlit("auth");
        reveal_strlit("secrets");
        assert("connectionString"@.len() == 16 && "url"@.len() == 3 && "dsn"@.len() == 3
            && "host"@.len() == 4 && "endpoint"@.len() == 8 && "port"@.len() == 4 && "tls"@.len()
            == 3 && "ssl"@.len() == 3 && "profile"@.len() == 7 && "options"@.len() == 7
            && "auth"@.len() == 4 && "secrets"@.len() == 7);
        assert("host"@[0] == 'h' && "port"@[0] == 'p' && "auth"@[0] == 'a');
        lemma_nothing_given(request, seq!["connectionString"@, "url"@, "dsn"@], name);
        lemma_nothing_given(request, seq!["tls"@, "ssl"@], name);
        if name == "port"@ {
            lemma_nothing_given(request, seq!["host"@, "endpoint"@], name);
        } else {
            lemma_nothing_given(request, seq!["port"@], name);
        }
        reveal_strlit("http://");
        reveal_strlit(":8080");
        reveal_strlit("http://127.0.0.1:");
        reveal_strlit("http");
        reveal_strlit("://");
        reveal_strlit(":");
        reveal_strlit("8080");
        reveal_strlit("127.0.0.1");
        assert("http"@ + "://"@ + trimmed(text) + ":"@ + "8080"@ =~= "http://"@ + trimmed(text)
            + ":8080"@);
        assert("http"@ + "://"@ + "127.0.0.1"@ + ":"@ + trimmed(text) =~= "http://127.0.0.1:"@
            + trimmed(text));
    }
}

/// A request with one field gives the setting that the field is a name of.
proof fn lemma_sole_name(
    request: JsonView,
    names: Seq<Seq<char>>,
    name: Seq<char>,
    text: Seq<char>,
)
    requires
        request.get(name) == Some(JsonView::String(text)),
        !is_blank(text),
        forall|other: Seq<char>| other != name ==> #[trigger] request.get(other) is None,
    ensures
        forall|k: int|
            0 <= k < names.len() && #[trigger] names[k] == name ==> option_text(request, names)
                == Some(trimmed(text)),
{
    assert forall|k: int| 0 <= k < names.len() && #[trigger] names[k] == name implies option_text(
        request,
        names,
    ) == Some(trimmed(text)) by {
        let first = lemma_first_index(names, name, k);
        texts_in_the_request_are_the_settings(request, names, first, text);
    }
}

proof fn lemma_first_index(names: Seq<Seq<char>>, name: Seq<char>, k: int) -> (first: int)
    requires
        0 <= k < names.len(),
        names[k] == name,
    ensures
        0 <= first <= k,
        names[first] == name,
        forall|j: int| 0 <= j < first ==> names[j] != name,
    decreases k,
{
    if exists|j: int| 0 <= j < k && names[j] == name {
        let j = choose|j: int| 0 <= j < k && names[j] == name;
        lemma_first_index(names, name, j)
    } else {
        k
    }
}

/// A request with one text field gives no setting that the field is no name of.
proof fn lemma_nothing_given(request: JsonView, names: Seq<Seq<char>>, name: Seq<char>)
    requires
        request.get(name) is Some,
        request.get(name)->0 is String,
        forall|other: Seq<char>| other != name ==> #[trigger] request.get(other) is None,
        name != "profile"@ && name != "options"@ && name != "auth"@ && name != "secrets"@,
        forall|j: int| 0 <= j < names.len() ==> #[trigger] names[j] != name,
    ensures
        option_text(request, names) is None,
        option_bool(request, names) is None,
{
    let read = |c: JsonView, f: Seq<char>| text_setting(c, f);
    let read_bool = |c: JsonView, f: Seq<char>| bool_setting(c, f);
    lemma_places_in_turn(request, names, read);
    lemma_places_in_turn(request, names, read_bool);
    assert(place(request, 1) is None && place(request, 2) is None && place(request, 3) is None
        && place(request, 4) is None && place(request, 5) is None && place(request, 6) is None
        && place(request, 7) is None);
    lemma_no_field(request, names, read);
    lemma_no_field(request, names, read_bool);
}

/// A truth value is taken from the first place that gives one under any of the
/// names, and there from the first name under which there is one.
pub proof fn truth_values_come_from_the_first_place(request: JsonView, names: Seq<Seq<char>>)
    ensures
        match option_bool(request, names) {
            Some(b) => exists|n: int, k: int|
                0 <= n < 8 && 0 <= k < names.len() && #[trigger] given_bool(request, n, names[k])
                    == Some(b) && (forall|m: int, j: int|
                    0 <= m < n && 0 <= j < names.len() ==> #[trigger] given_bool(
                        request,
                        m,
                        names[j],
                    ) is None) && (forall|j: int|
                    0 <= j < k ==> #[trigger] given_bool(request, n, names[j]) is None),
            None => forall|n: int, k: int|
                0 <= n < 8 && 0 <= k < names.len() ==> #[trigger] given_bool(
                    request,
                    n,
                    names[k],
                ) is None,
        },
{
    let read = |c: JsonView, f: Seq<char>| bool_setting(c, f);
    lemma_places_in_turn(request, names, read);
    let value = option_bool(request, names);
    let k0 = lemma_says_first(place(request, 0), names, read);
    let k1 = lemma_says_first(place(request, 1), names, read);
    let k2 = lemma_says_first(place(request, 2), names, read);
    let k3 = lemma_says_first(place(request, 3), names, read);
    let k4 = lemma_says_first(place(request, 4), names, read);
    let k5 = lemma_says_first(place(request, 5), names, read);
    let k6 = lemma_says_first(place(request, 6), names, read);
    let k7 = lemma_says_first(place(request, 7), names, read);
    assert forall|n: int, j: int| 0 <= n < 8 && 0 <= j < names.len() implies #[trigger] given_bool(
        request,
        n,
        names[j],
    ) == (if place(request, n) is Some {
        read(place(request, n)->0, names[j])
    } else {
        None
    }) by {}
    assert forall|n: int, j: int|
        0 <= n < 8 && 0 <= j < names.len() && says(
            place(request, n),
            names,
            read,
        ) is None implies #[trigger] given_bool(request, n, names[j]) is None by {
        if place(request, n) is Some {
            assert(n == 0 || n == 1 || n == 2 || n == 3 || n == 4 || n == 5 || n == 6 || n == 7);
            assert(read(place(request, n)->0, names[j]) is None);
        }
    }
    if value is Some {
        let n: int = if says(place(request, 0), names, read) is Some {
            0
        } else if says(place(request, 1), names, read) is Some {
            1
        } else if says(place(request, 2), names, read) is Some {
            2
        } else if says(place(request, 3), names, read) is Some {
            3
        } else if says(place(request, 4), names, read) is Some {
            4
        } else if says(place(request, 5), names, read) is Some {
            5
        } else if says(place(request, 6), names, read) is Some {
            6
        } else {
            7
        };
        let k: int = if n == 0 {
            k0
        } else if n == 1 {
            k1
        } else if n == 2 {
            k2
        } else if n == 3 {
            k3
        } else if n == 4 {
            k4
        } else if n == 5 {
            k5
        } else if n == 6 {
            k6
        } else {
            k7
        };
        assert(given_bool(request, n, names[k]) == value);
        assert forall|m: int, j: int|
            0 <= m < n && 0 <= j < names.len() implies #[trigger] given_bool(
            request,
            m,
            names[j],
        ) is None by {
            assert(says(place(request, m), names, read) is None);
        }
        assert forall|j: int| 0 <= j < k implies #[trigger] given_bool(
            request,
            n,
            names[j],
        ) is None by {
            assert(read(place(request, n)->0, names[j]) is None);
        }
    }
}

/// The address of a connection is the one that the request gives in one piece; else
/// it is put together from scheme, host and port, of which each has its default:
/// no encryption, this machine, and port 8080.
pub proof fn addresses_are_given_or_put_together(
    request: JsonView,
    url: Option<Seq<char>>,
    host: Option<Seq<char>>,
    port: Option<Seq<char>>,
)
    requires
        settles(request, seq!["connectionString"@, "url"@, "dsn"@], url),
        settles(request, seq!["host"@, "endpoint"@], host),
        settles(request, seq!["port"@], port),
    ensures
        url is Some ==> url_of(request) == url->0,
        url is None ==> built_url(request) == url_of(request) && url_of(request) == (if option_bool(
            request,
            seq!["tls"@, "ssl"@],
        ) == Some(true) {
            "https://"@
        } else {
            "http://"@
        }) + (if host is Some {
            host->0
        } else {
            "127.0.0.1"@
        }) + ":"@ + (if port is Some {
            port->0
        } else {
            "8080"@
        }),
{
    let url_names = seq!["connectionString"@, "url"@, "dsn"@];
    let host_names = seq!["host"@, "endpoint"@];
    let port_names = seq!["port"@];
    settings_come_from_the_first_place(request, url_names);
    settings_come_from_the_first_place(request, host_names);
    settings_come_from_the_first_place(request, port_names);
    settings_are_settled_once(request, url_names, url, option_text(request, url_names));
    settings_are_settled_once(request, host_names, host, option_text(request, host_names));
    settings_are_settled_once(request, port_names, port, option_text(request, port_names));
    reveal_strlit("http");
    reveal_strlit("https");
    reveal_strlit("://");
    reveal_strlit("http://");
    reveal_strlit("https://");
    assert("http"@ + "://"@ =~= "http://"@);
    assert("https"@ + "://"@ =~= "https://"@);
}

/// The endpoint of a connection is its address without the slashes at its end.
pub proof fn endpoints_are_addresses_without_slashes(request: JsonView)
    ensures
        config_of(request).base_url.len() <= url_of(request).len(),
        config_of(request).base_url == url_of(request).take(
            config_of(request).base_url.len() as int,
        ),
        forall|i: int|
            config_of(request).base_url.len() <= i < url_of(request).len() ==> url_of(request)[i]
                == '/',
        config_of(request).base_url.len() > 0 ==> config_of(request).base_url.last() != '/',
{
    only_the_run_is_taken_off(url_of(request), '/');
    without_trailing_settles(url_of(request), '/');
}

/// Noting a sensitive value adds it behind the others, without the white space
/// around it, unless it is blank or among them.
pub proof fn sensitive_values_are_added_once(values: Seq<Seq<char>>, value: Seq<char>)
    ensures
        with_optional(values, None) == values,
        is_blank(value) ==> with_optional(values, Some(value)) == values,
        values.contains(trimmed(value)) ==> with_optional(values, Some(value)) == values,
        !is_blank(value) && !values.contains(trimmed(value)) ==> with_optional(values, Some(value))
            == values + seq![trimmed(value)],
{
    assert(values.push(trimmed(value)) =~= values + seq![trimmed(value)]);
}

/// What stands behind the scheme of an address that has one.
proof fn lemma_behind_scheme(scheme: Seq<char>, rest: Seq<char>)
    requires
        first_at(scheme + "://"@ + rest, "://"@, scheme.len() as int),
    ensures
        behind_first(scheme + "://"@ + rest, "://"@) == Some(rest),
{
    reveal_strlit("://");
    let url = scheme + "://"@ + rest;
    let at = scheme.len() as int;
    let first = choose|i: int| first_at(url, "://"@, i);
    assert(occurs(url, "://"@));
    assert(first == at) by {
        assert(first_at(url, "://"@, first));
    }
    assert(url.skip(at + 3) =~= rest);
}

/// Where the part of an address ends in which credentials may stand.
proof fn lemma_authority(auth: Seq<char>, tail: Seq<char>)
    requires
        !auth.contains('/'),
        !auth.contains('@'),
        tail.len() == 0 || tail[0] == '/' || tail[0] == '@',
    ensures
        url_authority(auth + tail) == auth,
{
    let all = auth + tail;
    let host = before_first(all, '/');
    let n = auth.len() as int;
    head_ends_at_the_first(all, '/');
    head_ends_at_the_first(host, '@');
    assert forall|i: int| 0 <= i < n implies auth[i] != '/' && auth[i] != '@' by {
        assert(auth.contains(auth[i]));
    }
    if host.len() < n {
        assert(all[host.len() as int] == auth[host.len() as int]);
    }
    assert(host.len() >= n);
    assert forall|i: int| 0 <= i < n implies host[i] == auth[i] by {
        assert(host[i] == all.take(host.len() as int)[i]);
    }
    let cut = before_first(host, '@');
    if cut.len() < n {
        assert(host[cut.len() as int] == auth[cut.len() as int]);
    }
    if cut.len() > n {
        assert(host[n] == all.take(host.len() as int)[n]);
        assert(host[n] == tail[0]);
        assert(cut[n] == host.take(cut.len() as int)[n]);
        assert(cut.contains(cut[n]));
        if tail[0] == '/' {
            assert(host.contains(host[n]));
        }
    }
    assert forall|i: int| 0 <= i < n implies cut[i] == auth[i] by {
        assert(cut[i] == host.take(cut.len() as int)[i]);
    }
    assert(cut =~= auth);
}

/// What is sensitive about a connection: its password, its token, and, where the
/// part of its address between the scheme and the first slash or at-sign holds a
/// colon, the pieces of that part between the colons. Nothing else is.
pub proof fn credentials_are_sensitive_and_nothing_else(
    request: JsonView,
    scheme: Seq<char>,
    auth: Seq<char>,
    tail: Seq<char>,
    value: Seq<char>,
)
    requires
        url_of(request) == scheme + "://"@ + auth + tail,
        first_at(url_of(request), "://"@, scheme.len() as int),
        !auth.contains('/'),
        !auth.contains('@'),
        tail.len() == 0 || tail[0] == '/' || tail[0] == '@',
    ensures
        config_of(request).redaction_values.contains(value) <==> {
            ||| config_of(request).password == Some(value)
            ||| config_of(request).bearer_token == Some(value)
            ||| auth.contains(':') && value.len() > 0 && exists|k: int|
                0 <= k < split_on(auth, ':').len() && trimmed(#[trigger] split_on(auth, ':')[k])
                    == value
        },
{
    let config = config_of(request);
    let parts = split_on(auth, ':');
    let none = Seq::<Seq<char>>::empty();
    let one = with_optional(none, config.password);
    let two = with_optional(one, config.bearer_token);
    assert(scheme + "://"@ + auth + tail =~= scheme + "://"@ + (auth + tail));
    lemma_behind_scheme(scheme, auth + tail);
    lemma_authority(auth, tail);
    settings_are_trimmed(request, seq!["password"@]);
    settings_are_trimmed(request, seq!["token"@, "bearerToken"@, "accessToken"@]);
    assert(!none.contains(value));
    if let Some(password) = config.password {
        lemma_with_sensitive_exactly(none, password, value);
    }
    if let Some(token) = config.bearer_token {
        lemma_with_sensitive_exactly(one, token, value);
    }
    lemma_with_all_exactly(two, parts, value);
}

/// What is among the values after one more was noted.
proof fn lemma_with_sensitive_exactly(values: Seq<Seq<char>>, value: Seq<char>, v: Seq<char>)
    ensures
        with_sensitive(values, value).contains(v) <==> values.contains(v) || (v.len() > 0 && trimmed(
            value,
        ) == v),
{
    lemma_with_sensitive(values, value);
    let next = with_sensitive(values, value);
    if next.contains(v) && !values.contains(v) {
        let i = choose|i: int| 0 <= i < next.len() && next[i] == v;
        if i < values.len() {
            assert(values[i] == v);
        }
    }
}

proof fn lemma_with_all_exactly(values: Seq<Seq<char>>, parts: Seq<Seq<char>>, v: Seq<char>)
    ensures
        with_all(values, parts).contains(v) <==> values.contains(v) || (v.len() > 0 && exists|k: int|
            0 <= k < parts.len() && trimmed(#[trigger] parts[k]) == v),
    decreases parts.len(),
{
    if parts.len() > 0 {
        let earlier = parts.drop_last();
        lemma_with_all_exactly(values, earlier, v);
        lemma_with_sensitive_exactly(with_all(values, earlier), parts.last(), v);
        if exists|k: int| 0 <= k < parts.len() && trimmed(#[trigger] parts[k]) == v {
            let k = choose|k: int| 0 <= k < parts.len() && trimmed(#[trigger] parts[k]) == v;
            if k < parts.len() - 1 {
                assert(earlier[k] == parts[k]);
            }
        }
        if exists|k: int| 0 <= k < earlier.len() && trimmed(#[trigger] earlier[k]) == v {
            let k = choose|k: int| 0 <= k < earlier.len() && trimmed(#[trigger] earlier[k]) == v;
            assert(parts[k] == earlier[k]);
        }
        assert(parts[parts.len() - 1] == parts.last());
    }
}

/// An address without a scheme gives nothing away: only password and token are
/// sensitive then, in this order.
pub proof fn password_and_token_are_noted_in_order(request: JsonView)
    ensures
        config_of(request).password matches Some(password) ==> config_of(
            request,
        ).redaction_values.len() > 0 && config_of(request).redaction_values[0] == password,
        config_of(request).bearer_token matches Some(token) ==> (match config_of(request).password {
            Some(password) => password != token ==> config_of(request).redaction_values.len() > 1
                && config_of(request).redaction_values[1] == token,
            None => config_of(request).redaction_values.len() > 0 && config_of(
                request,
            ).redaction_values[0] == token,
        }),
        !occurs(url_of(request), "://"@) ==> config_of(request).redaction_values.len() <= 2 && forall|
            value: Seq<char>,
        | #[trigger]
            config_of(request).redaction_values.contains(value) ==> config_of(request).password
                == Some(value) || config_of(request).bearer_token == Some(value),
{
    let config = config_of(request);
    let none = Seq::<Seq<char>>::empty();
    let one = with_optional(none, config.password);
    let two = with_optional(one, config.bearer_token);
    settings_are_trimmed(request, seq!["password"@]);
    settings_are_trimmed(request, seq!["token"@, "bearerToken"@, "accessToken"@]);
    if let Some(password) = config.password {
        assert(one =~= seq![password]);
        if let Some(token) = config.bearer_token {
            if token != password {
                assert(!one.contains(token));
                assert(two =~= seq![password, token]);
            } else {
                assert(one[0] == token);
                assert(two == one);
            }
        }
    } else if let Some(token) = config.bearer_token {
        assert(two =~= seq![token]);
    }
    if let Some(address) = behind_first(url_of(request), "://"@) {
        lemma_with_all_keeps(two, split_on(url_authority(address), ':'));
    }
    assert(config.redaction_values == with_url_auth(two, url_of(request)));
    assert(config.redaction_values.len() >= two.len());
    assert(two.len() > 0 ==> config.redaction_values[0] == two[0]);
    assert(two.len() > 1 ==> config.redaction_values[1] == two[1]);
}

/// Noting more values keeps those noted before where they are.
proof fn lemma_with_all_keeps(values: Seq<Seq<char>>, parts: Seq<Seq<char>>)
    ensures
        with_all(values, parts).len() >= values.len(),
        forall|i: int| 0 <= i < values.len() ==> with_all(values, parts)[i] == values[i],
    decreases parts.len(),
{
    if parts.len() > 0 {
        lemma_with_all_keeps(values, parts.drop_last());
    }
}

/// Redaction touches nothing but the endpoint and the sensitive values: a message
/// without them stays as it is.
pub proof fn redaction_keeps_the_rest(config: ConfigView, message: Seq<char>)
    requires
        config.base_url.len() > 0,
        !occurs(message, config.base_url),
        forall|i: int|
            0 <= i < config.redaction_values.len() ==> !occurs(
                message,
                #[trigger] config.redaction_values[i],
            ),
    ensures
        config.redacted(message) == message,
{
    replacing_goes_from_left_to_right(message, config.base_url, "<trino-url>"@, 0);
    lemma_masking_keeps(message, config.redaction_values);
}

proof fn lemma_masking_keeps(message: Seq<char>, secrets: Seq<Seq<char>>)
    requires
        forall|i: int| 0 <= i < secrets.len() ==> !occurs(message, #[trigger] secrets[i]),
    ensures
        masked(message, secrets) == message,
    decreases secrets.len(),
{
    if secrets.len() > 0 {
        assert(forall|i: int|
            0 <= i < secrets.drop_last().len() ==> #[trigger] secrets.drop_last()[i] == secrets[i]);
        lemma_masking_keeps(message, secrets.drop_last());
        if secrets.last().len() > 0 {
            assert(!occurs(message, secrets[secrets.len() - 1]));
            replacing_goes_from_left_to_right(message, secrets.last(), "****"@, 0);
        }
    }
}

/// In a message that names the endpoint once and no sensitive value, the endpoint
/// alone gives way to its placeholder; and in one that holds a sensitive value once
/// and nothing else to hide, that value alone gives way to its mask.
pub proof fn redaction_puts_placeholders(
    config: ConfigView,
    before: Seq<char>,
    after: Seq<char>,
    k: int,
)
    requires
        config.base_url.len() > 0,
    ensures
        ({
            let message = before + config.base_url + after;
            let shown = before + "<trino-url>"@ + after;
            first_at(message, config.base_url, before.len() as int) && !occurs(
                after,
                config.base_url,
            ) && (forall|i: int|
                0 <= i < config.redaction_values.len() ==> !occurs(
                    shown,
                    #[trigger] config.redaction_values[i],
                )) ==> config.redacted(message) == shown
        }),
        0 <= k < config.redaction_values.len() ==> ({
            let secret = config.redaction_values[k];
            let message = before + secret + after;
            let shown = before + "****"@ + after;
            secret.len() > 0 && first_at(message, secret, before.len() as int) && !occurs(
                after,
                secret,
            ) && !occurs(message, config.base_url) && (forall|i: int|
                0 <= i < k ==> !occurs(message, #[trigger] config.redaction_values[i])) && (forall|
                i: int,
            |
                k < i < config.redaction_values.len() ==> !occurs(
                    shown,
                    #[trigger] config.redaction_values[i],
                )) ==> config.redacted(message) == shown
        }),
{
    let n = before.len() as int;
    {
        let message = before + config.base_url + after;
        let shown = before + "<trino-url>"@ + after;
        if first_at(message, config.base_url, n) && !occurs(after, config.base_url) {
            replacing_goes_from_left_to_right(message, config.base_url, "<trino-url>"@, n);
            replacing_goes_from_left_to_right(after, config.base_url, "<trino-url>"@, 0);
            assert(message.take(n) =~= before);
            assert(message.skip(n + config.base_url.len()) =~= after);
            if forall|i: int|
                0 <= i < config.redaction_values.len() ==> !occurs(
                    shown,
                    #[trigger] config.redaction_values[i],
                ) {
                lemma_masking_keeps(shown, config.redaction_values);
            }
        }
    }
    if 0 <= k < config.redaction_values.len() {
        let secret = config.redaction_values[k];
        let message = before + secret + after;
        let shown = before + "****"@ + after;
        if secret.len() > 0 && first_at(message, secret, n) && !occurs(after, secret) && !occurs(
            message,
            config.base_url,
        ) && (forall|i: int|
            0 <= i < k ==> !occurs(message, #[trigger] config.redaction_values[i])) && (forall|
            i: int,
        |
            k < i < config.redaction_values.len() ==> !occurs(
                shown,
                #[trigger] config.redaction_values[i],
            )) {
            replacing_goes_from_left_to_right(message, config.base_url, "<trino-url>"@, 0);
            replacing_goes_from_left_to_right(message, secret, "****"@, n);
            replacing_goes_from_left_to_right(after, secret, "****"@, 0);
            assert(message.take(n) =~= before);
            assert(message.skip(n + secret.len()) =~= after);
            lemma_masking_in_turn(message, shown, config.redaction_values, k);
        }
    }
}

proof fn lemma_masking_in_turn(
    message: Seq<char>,
    shown: Seq<char>,
    secrets: Seq<Seq<char>>,
    k: int,
)
    requires
        0 <= k < secrets.len(),
        secrets[k].len() > 0,
        replaced(message, secrets[k], "****"@) == shown,
        forall|i: int| 0 <= i < k ==> !occurs(message, #[trigger] secrets[i]),
        forall|i: int| k < i < secrets.len() ==> !occurs(shown, #[trigger] secrets[i]),
    ensures
        masked(message, secrets) == shown,
    decreases secrets.len(),
{
    let earlier = secrets.drop_last();
    assert(forall|i: int| 0 <= i < earlier.len() ==> #[trigger] earlier[i] == secrets[i]);
    if k == secrets.len() - 1 {
        lemma_masking_keeps(message, earlier);
    } else {
        lemma_masking_in_turn(message, shown, earlier, k);
        if secrets.last().len() > 0 {
            assert(!occurs(shown, secrets[secrets.len() - 1]));
            replacing_goes_from_left_to_right(shown, secrets.last(), "****"@, 0);
        }
    }
}

/// What is seen of a configured connection is all there is to it.
pub proof fn configurations_are_seen_whole(config: TrinoConfig)
    ensures
        config@.base_url == config.base_url@,
        config@.user == config.user@,
        match config.password {
            Some(password) => config@.password == Some(password@),
            None => config@.password is None,
        },
        match config.bearer_token {
            Some(token) => config@.bearer_token == Some(token@),
            None => config@.bearer_token is None,
        },
        match config.catalog {
            Some(catalog) => config@.catalog == Some(catalog@),
            None => config@.catalog is None,
        },
        match config.schema {
            Some(schema) => config@.schema == Some(schema@),
            None => config@.schema is None,
        },
        config@.redaction_values.len() == config.redaction_values@.len(),
        forall|i: int|
            0 <= i < config.redaction_values@.len() ==> #[trigger] config@.redaction_values[i]
                == config.redaction_values@[i]@,
{
}

/// The credentials in an address are noted one after the other, as they stand
/// between its colons; an address without a scheme, or without a colon in the part
/// between its scheme and the first slash or at-sign, has none.
pub proof fn addresses_give_their_credentials(
    values: Seq<Seq<char>>,
    scheme: Seq<char>,
    auth: Seq<char>,
    tail: Seq<char>,
    url: Seq<char>,
)
    requires
        first_at(scheme + "://"@ + auth + tail, "://"@, scheme.len() as int),
        !auth.contains('/'),
        !auth.contains('@'),
        tail.len() == 0 || tail[0] == '/' || tail[0] == '@',
    ensures
        !occurs(url, "://"@) ==> with_url_auth(values, url) == values,
        !auth.contains(':') ==> with_url_auth(values, scheme + "://"@ + auth + tail) == values,
        auth.contains(':') ==> with_url_auth(values, scheme + "://"@ + auth + tail) == with_all(
            values,
            split_on(auth, ':'),
        ),
{
    assert(scheme + "://"@ + auth + tail =~= scheme + "://"@ + (auth + tail));
    lemma_behind_scheme(scheme, auth + tail);
    lemma_authority(auth, tail);
}

/// Noting several values is noting them one after the other.
pub proof fn values_are_noted_in_turn(
    values: Seq<Seq<char>>,
    parts: Seq<Seq<char>>,
    part: Seq<char>,
)
    ensures
        with_all(values, Seq::empty()) == values,
        with_all(values, parts.push(part)) == with_optional(with_all(values, parts), Some(part)),
{
    assert(parts.push(part).drop_last() =~= parts);
}

/// A connection configured by a request notes its password, then its token, then
/// the credentials in its address.
pub proof fn credentials_are_noted_in_order(request: JsonView)
    ensures
        config_of(request).redaction_values == with_url_auth(
            with_optional(
                with_optional(Seq::empty(), config_of(request).password),
                config_of(request).bearer_token,
            ),
            url_of(request),
        ),
{
}

/// Redaction puts the placeholder for the endpoint first and masks one sensitive
/// value after the other: with one more value, a message is what it was without,
/// with that value masked.
pub proof fn redaction_goes_in_order(config: ConfigView, secret: Seq<char>, message: Seq<char>)
    ensures
        (ConfigView { redaction_values: Seq::empty(), ..config }).redacted(message) == replaced(
            message,
            config.base_url,
            "<trino-url>"@,
        ),
        secret.len() > 0 ==> (ConfigView {
            redaction_values: config.redaction_values.push(secret),
            ..config
        }).redacted(message) == replaced(config.redacted(message), secret, "****"@),
        secret.len() == 0 ==> (ConfigView {
            redaction_values: config.redaction_values.push(secret),
            ..config
        }).redacted(message) == config.redacted(message),
{
    assert(config.redaction_values.push(secret).drop_last() =~= config.redaction_values);
}

/// Names and places are seen one by one, as they are, also where a value may be
/// missing.
pub proof fn names_and_places_are_seen_as_they_are(
    names: Seq<&str>,
    places: Seq<&Json>,
    value: &Json,
    i: int,
)
    ensures
        names_view(names).len() == names.len(),
        0 <= i < names.len() ==> names_view(names)[i] == names[i]@,
        places_view(places).len() == places.len(),
        0 <= i < places.len() ==> places_view(places)[i] == places[i]@,
        json_of(Some(value)) == Some(value@),
        json_of(None) is None,
{
}

} // verus!
