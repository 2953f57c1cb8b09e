//! The Elasticsearch client: how a connection is set up from a profile,
//! which requests it sends, and what it makes of the replies. Sending and
//! receiving is left to the caller.
use vstd::prelude::*;
use vstd::utf8::*;
use vstd::string::*;
use crate::models::{ProfileConfig, AuthType};
use crate::crypto::{Encryptor, EncryptError, decrypt_spec, string_result};
use crate::encoding::{base64_standard, base64_encode, header_value_ok, header_value_valid, json_string_literal, to_json_string_literal};
use crate::json::{JsonValue, JsonNumber, entries_get, entry_keys, field_spec, field, take_field, into_array};
use crate::text::{push_char, push_str, concat2, concat3, to_owned_string};

verus! {

/// Why a request to Elasticsearch could not be made or failed.
#[derive(Debug)]
pub enum EsError {
    /// Basic authentication without a username or password.
    MissingBasicCredentials,
    /// API key authentication without an API key.
    MissingApiKey,
    /// The stored credential could not be decrypted.
    Credential(EncryptError),
    /// The credential is too long to be encoded.
    CredentialTooLong,
    /// The authorization text cannot stand in an HTTP header.
    InvalidHeaderValue,
    /// The connection test got an unsuccessful status, with the reply text.
    Http(u16, String),
    /// Cluster information could not be read (status).
    ClusterInfoFailed(u16),
    /// The index list could not be read (status).
    ListIndicesFailed(u16),
    /// The index list reply has an unexpected shape.
    InvalidIndexList,
    /// Index creation failed, with the reply text.
    CreateIndexFailed(String),
    /// Index deletion failed, with the reply text.
    DeleteIndexFailed(String),
    /// A bulk insert failed, with the reply text.
    BulkInsertFailed(String),
    /// The bulk reply has no list of items.
    InvalidBulkResponse,
    /// A search failed, with the reply text.
    SearchFailed(String),
    /// A count failed, with the reply text.
    CountFailed(String),
    /// The count reply has no count.
    InvalidCountResponse,
    /// A reply that should be JSON is not.
    InvalidJson,
}

/// Whether an HTTP status is a success (2xx).
pub open spec fn is_success_spec(status: u16) -> bool {
    200 <= status <= 299
}

/// Whether an HTTP status is a success (2xx).
pub fn is_success(status: u16) -> (r: bool)
    ensures
        r == is_success_spec(status),
{
    200 <= status && status <= 299
}

/// The text without its trailing `/` characters.
pub open spec fn trim_end_slashes(s: Seq<char>) -> Seq<char>
    decreases s.len(),
{
    if s.len() > 0 && s.last() == '/' {
        trim_end_slashes(s.drop_last())
    } else {
        s
    }
}

/// A trimmed text does not end with `/`, and trimming it again changes
/// nothing.
pub proof fn law_trim_end_slashes(s: Seq<char>)
    ensures
        !(trim_end_slashes(s).len() > 0 && trim_end_slashes(s).last() == '/'),
        trim_end_slashes(trim_end_slashes(s)) == trim_end_slashes(s),
        trim_end_slashes(s).len() <= s.len(),
        trim_end_slashes(s) == s.take(trim_end_slashes(s).len() as int),
    decreases s.len(),
{
    if s.len() > 0 && s.last() == '/' {
        law_trim_end_slashes(s.drop_last());
        let t = trim_end_slashes(s.drop_last());
        assert(s.drop_last().take(t.len() as int) =~= s.take(t.len() as int));
    } else {
        assert(s.take(s.len() as int) =~= s);
    }
}

/// `host` without trailing `/` characters.
pub fn trim_end_slash(host: &str) -> (r: String)
    ensures
        r@ == trim_end_slashes(host@),
{
    let mut chars: Vec<char> = Vec::new();
    for c in it: host.chars()
        invariant
            it.seq() == host@,
            chars@ == host@.take(it.index() as int),
    {
        chars.push(c);
        proof {
            assert(host@.take(it.index() + 1) =~= host@.take(it.index() as int).push(c));
        }
    }
    proof {
        assert(host@.take(host@.len() as int) =~= host@);
    }
    let mut n: usize = chars.len();
    while n > 0 && chars[n - 1] == '/'
        invariant
            n <= chars@.len(),
            chars@ == host@,
            trim_end_slashes(host@) == trim_end_slashes(host@.take(n as int)),
        decreases n,
    {
        proof {
            assert(host@.take(n as int).drop_last() =~= host@.take(n - 1));
        }
        n = n - 1;
    }
    let mut r = String::new();
    let mut i: usize = 0;
    while i < n
        invariant
            i <= n <= chars@.len(),
            r@ == chars@.take(i as int),
        decreases n - i,
    {
        push_char(&mut r, chars[i]);
        proof {
            assert(chars@.take(i + 1) =~= chars@.take(i as int).push(chars@[i as int]));
        }
        i = i + 1;
    }
    r
}

/// The `Authorization` header value for Basic authentication.
pub open spec fn basic_authorization(user: Seq<char>, password: Seq<char>) -> Seq<char> {
    "Basic "@ + base64_standard(encode_utf8(user + seq![':'] + password))
}

/// The `Authorization` header value for API key authentication.
pub open spec fn api_key_authorization(key: Seq<char>) -> Seq<char> {
    "ApiKey "@ + key
}

/// Whether Base64 text of the bytes would overflow `usize`.
pub open spec fn too_long_to_encode(data: Seq<u8>) -> bool {
    data.len() / 3 + 1 > usize::MAX / 4
}

/// The `Authorization` header value for a profile whose credentials are
/// encrypted with `key`, or why there is none.
pub open spec fn authorization_spec(profile: ProfileConfig, key: Seq<u8>) -> Result<Seq<char>, EsError> {
    match profile.auth_type {
        AuthType::Basic => match (profile.username, profile.password_encrypted) {
            (Some(user), Some(encrypted)) => match decrypt_spec(key, encrypted@) {
                Err(e) => Err(EsError::Credential(e)),
                Ok(password) => if too_long_to_encode(encode_utf8(user@ + seq![':'] + password)) {
                    Err(EsError::CredentialTooLong)
                } else if header_value_ok(basic_authorization(user@, password)) {
                    Ok(basic_authorization(user@, password))
                } else {
                    Err(EsError::InvalidHeaderValue)
                },
            },
            _ => Err(EsError::MissingBasicCredentials),
        },
        AuthType::ApiKey => match profile.api_key_encrypted {
            Some(encrypted) => match decrypt_spec(key, encrypted@) {
                Err(e) => Err(EsError::Credential(e)),
                Ok(api_key) => if header_value_ok(api_key_authorization(api_key)) {
                    Ok(api_key_authorization(api_key))
                } else {
                    Err(EsError::InvalidHeaderValue)
                },
            },
            None => Err(EsError::MissingApiKey),
        },
    }
}

/// How to reach an Elasticsearch cluster: its base URL, the
/// `Authorization` header and the default `Content-Type` header sent with
/// every request, whether invalid certificates are accepted, and the
/// request timeout in seconds.
pub struct ESClient {
    pub base_url: String,
    pub authorization: String,
    pub content_type: String,
    pub accept_invalid_certs: bool,
    pub timeout_secs: u64,
}

/// The authorization header value for Basic authentication.
fn basic_header(user: &str, password: &str) -> (r: Result<String, EsError>)
    ensures
        too_long_to_encode(encode_utf8(user@ + seq![':'] + password@)) ==> r matches Err(EsError::CredentialTooLong),
        !too_long_to_encode(encode_utf8(user@ + seq![':'] + password@)) ==> r is Ok && r->Ok_0@ == basic_authorization(user@, password@),
{
    let auth_value = concat3(user, ":", password);
    proof {
        reveal_strlit(":");
        assert(auth_value@ =~= user@ + seq![':'] + password@);
    }
    let bytes = auth_value.as_str().as_bytes();
    if bytes.len() / 3 + 1 > usize::MAX / 4 {
        return Err(EsError::CredentialTooLong);
    }
    let encoded = base64_encode(bytes);
    Ok(concat2("Basic ", encoded.as_str()))
}

impl ESClient {
    /// The connection settings for a profile: its host without trailing
    /// `/`, the decrypted credentials in the `Authorization` header, JSON
    /// as the default content type, a 30-second timeout, and invalid certificates accepted only when SSL
    /// is used without certificate checks.
    pub fn new(profile: &ProfileConfig, encryptor: &Encryptor) -> (r: Result<ESClient, EsError>)
        ensures
            authorization_spec(*profile, encryptor.key()) is Ok ==> r is Ok,
            r matches Ok(c) ==> {
                &&& authorization_spec(*profile, encryptor.key()) is Ok
                &&& authorization_spec(*profile, encryptor.key())->Ok_0 == c.authorization@
                &&& c.base_url@ == trim_end_slashes(profile.host@)
                &&& c.content_type@ == "application/json"@
                &&& c.accept_invalid_certs == (profile.use_ssl && !profile.verify_certificate)
                &&& c.timeout_secs == 30
            },
            r matches Err(e) ==> authorization_spec(*profile, encryptor.key()) is Err && authorization_spec(*profile, encryptor.key())->Err_0 == e,
    {
        let authorization = match profile.auth_type {
            AuthType::Basic => {
                match (&profile.username, &profile.password_encrypted) {
                    (Some(user), Some(encrypted)) => {
                        let password = match encryptor.decrypt(encrypted.as_str()) {
                            Ok(p) => p,
                            Err(e) => return Err(EsError::Credential(e)),
                        };
                        let header = basic_header(user.as_str(), password.as_str())?;
                        if !header_value_valid(header.as_str()) {
                            return Err(EsError::InvalidHeaderValue);
                        }
                        header
                    },
                    _ => return Err(EsError::MissingBasicCredentials),
                }
            },
            AuthType::ApiKey => {
                match &profile.api_key_encrypted {
                    Some(encrypted) => {
                        let api_key = match encryptor.decrypt(encrypted.as_str()) {
                            Ok(k) => k,
                            Err(e) => return Err(EsError::Credential(e)),
                        };
                        let header = concat2("ApiKey ", api_key.as_str());
                        if !header_value_valid(header.as_str()) {
                            return Err(EsError::InvalidHeaderValue);
                        }
                        header
                    },
                    None => return Err(EsError::MissingApiKey),
                }
            },
        };
        let base_url = trim_end_slash(profile.host.as_str());
        Ok(ESClient {
            base_url,
            authorization,
            content_type: to_owned_string("application/json"),
            accept_invalid_certs: profile.use_ssl && !profile.verify_certificate,
            timeout_secs: 30,
        })
    }
}

/// The part of a URL path that selects an index: nothing for all
/// indices, or `/` and the index name.
pub open spec fn index_scope(index_name: Seq<char>) -> Seq<char> {
    if index_name.len() == 0 {
        Seq::<char>::empty()
    } else {
        seq!['/'] + index_name
    }
}

/// The status of the `index` action of a bulk reply item, when it is an
/// unsigned integer.
pub open spec fn item_status(item: JsonValue) -> Option<u64> {
    match field_spec(field_spec(item, "index"@), "status"@) {
        JsonValue::Number(JsonNumber::PosInt(n)) => Some(n),
        _ => None,
    }
}

/// Whether a bulk reply item reports success (a 2xx status).
pub open spec fn item_succeeded(item: JsonValue) -> bool {
    match item_status(item) {
        Some(s) => 200 <= s < 300,
        None => false,
    }
}

/// How many bulk reply items report success.
pub open spec fn count_successes(items: Seq<JsonValue>) -> nat
    decreases items.len(),
{
    if items.len() == 0 {
        0
    } else {
        count_successes(items.drop_last()) + if item_succeeded(items.last()) {
            1nat
        } else {
            0nat
        }
    }
}

/// At most every item succeeds.
pub proof fn law_successes_at_most_items(items: Seq<JsonValue>)
    ensures
        count_successes(items) <= items.len(),
    decreases items.len(),
{
    if items.len() > 0 {
        law_successes_at_most_items(items.drop_last());
    }
}

/// The name an index list entry gives: its `index` field, or its single
/// element, when that is a string.
pub open spec fn index_name_of(v: JsonValue) -> Option<Seq<char>> {
    match v {
        JsonValue::Object(entries) => match entries_get(entries@, "index"@) {
            Some(JsonValue::String(s)) => Some(s@),
            _ => None,
        },
        JsonValue::Array(items) => if items@.len() == 1 && items@[0] is String {
            Some(items@[0]->String_0@)
        } else {
            None
        },
        _ => None,
    }
}

/// The names of an index list, or `None` when an entry gives none.
pub open spec fn index_names(items: Seq<JsonValue>) -> Option<Seq<Seq<char>>>
    decreases items.len(),
{
    if items.len() == 0 {
        Some(Seq::<Seq<char>>::empty())
    } else {
        match (index_names(items.drop_last()), index_name_of(items.last())) {
            (Some(ns), Some(n)) => Some(ns.push(n)),
            _ => None,
        }
    }
}

/// Once a prefix of an index list gives no names, the whole list gives
/// none.
pub proof fn lemma_index_names_none_extends(items: Seq<JsonValue>, k: int)
    requires
        0 <= k <= items.len(),
        index_names(items.take(k)) is None,
    ensures
        index_names(items) is None,
    decreases items.len(),
{
    if items.len() == k {
        assert(items.take(k) =~= items);
    } else {
        assert(items.drop_last().take(k) =~= items.take(k));
        lemma_index_names_none_extends(items.drop_last(), k);
    }
}

/// The views of a list of strings.
pub open spec fn string_views(v: Seq<String>) -> Seq<Seq<char>> {
    Seq::new(v.len(), |i: int| v[i]@)
}

/// The action line of a bulk request for an index whose name is written
/// as the JSON string literal `lit`.
pub open spec fn bulk_action_line(lit: Seq<char>) -> Seq<char> {
    "{\"index\":{\"_index\":"@ + lit + "}}"@
}

/// A bulk request body: for each document, the action line and the
/// document, each ended by a newline.
pub open spec fn bulk_lines(action: Seq<char>, docs: Seq<Seq<char>>) -> Seq<char>
    decreases docs.len(),
{
    if docs.len() == 0 {
        Seq::<char>::empty()
    } else {
        bulk_lines(action, docs.drop_last()) + action + seq!['\n'] + docs.last() + seq!['\n']
    }
}

/// The name of the first index of an index list entry.
fn entry_index_name(v: &JsonValue) -> (r: Option<String>)
    ensures
        r matches Some(s) ==> index_name_of(*v) == Some(s@),
        r is None ==> index_name_of(*v) is None,
{
    match v {
        JsonValue::Object(_) => {
            match field(v, "index") {
                Some(JsonValue::String(s)) => Some(s.clone()),
                _ => None,
            }
        },
        JsonValue::Array(items) => {
            if items.len() == 1 {
                match &items[0] {
                    JsonValue::String(s) => Some(s.clone()),
                    _ => None,
                }
            } else {
                None
            }
        },
        _ => None,
    }
}

impl ESClient {
    /// URL of the cluster root, for the connection test and cluster
    /// information.
    pub fn root_url(&self) -> (r: String)
        ensures
            r@ == self.base_url@ + "/"@,
    {
        concat2(self.base_url.as_str(), "/")
    }

    /// URL of the index list.
    pub fn cat_indices_url(&self) -> (r: String)
        ensures
            r@ == self.base_url@ + "/_cat/indices?format=json"@,
    {
        concat2(self.base_url.as_str(), "/_cat/indices?format=json")
    }

    /// URL of one index, to create, delete, or test for.
    pub fn index_url(&self, index_name: &str) -> (r: String)
        ensures
            r@ == self.base_url@ + "/"@ + index_name@,
    {
        concat3(self.base_url.as_str(), "/", index_name)
    }

    /// URL of the bulk endpoint.
    pub fn bulk_url(&self) -> (r: String)
        ensures
            r@ == self.base_url@ + "/_bulk"@,
    {
        concat2(self.base_url.as_str(), "/_bulk")
    }

    fn scoped_url(&self, index_name: &str, endpoint: &str) -> (r: String)
        ensures
            r@ == self.base_url@ + index_scope(index_name@) + endpoint@,
    {
        let mut r = self.base_url.clone();
        if !index_name.is_empty() {
            push_char(&mut r, '/');
            push_str(&mut r, index_name);
            proof {
                assert(r@ =~= self.base_url@ + index_scope(index_name@));
            }
        } else {
            proof {
                assert(r@ =~= self.base_url@ + index_scope(index_name@));
            }
        }
        push_str(&mut r, endpoint);
        r
    }

    /// URL of a search over one index, or over all when the name is empty.
    pub fn search_url(&self, index_name: &str) -> (r: String)
        ensures
            r@ == self.base_url@ + index_scope(index_name@) + "/_search"@,
    {
        self.scoped_url(index_name, "/_search")
    }

    /// URL of a count over one index, or over all when the name is empty.
    pub fn count_url(&self, index_name: &str) -> (r: String)
        ensures
            r@ == self.base_url@ + index_scope(index_name@) + "/_count"@,
    {
        self.scoped_url(index_name, "/_count")
    }
}

/// An HTTP method.
#[derive(Debug, Clone, Copy, PartialEq, Eq, Structural)]
pub enum HttpMethod {
    Get,
    Head,
    Put,
    Post,
    Delete,
}

/// What a request carries: nothing, a JSON value to send as JSON text, or
/// text as it is.
#[derive(Debug)]
pub enum RequestBody {
    Empty,
    Json(JsonValue),
    Text(String),
}

/// One request to the cluster: its method, its URL, the `Content-Type`
/// that replaces the client's default (if any), and its body.
#[derive(Debug)]
pub struct EsRequest {
    pub method: HttpMethod,
    pub url: String,
    pub content_type: Option<String>,
    pub body: RequestBody,
}

impl ESClient {
    /// The request of the connection test and of the cluster information:
    /// `GET` on the cluster root.
    pub fn root_request(&self) -> (r: EsRequest)
        ensures
            r.method == HttpMethod::Get,
            r.url@ == self.base_url@ + "/"@,
            r.content_type is None,
            r.body is Empty,
    {
        EsRequest { method: HttpMethod::Get, url: self.root_url(), content_type: None, body: RequestBody::Empty }
    }

    /// The request for the index list: `GET` on `_cat/indices` in JSON.
    pub fn list_indices_request(&self) -> (r: EsRequest)
        ensures
            r.method == HttpMethod::Get,
            r.url@ == self.base_url@ + "/_cat/indices?format=json"@,
            r.content_type is None,
            r.body is Empty,
    {
        EsRequest { method: HttpMethod::Get, url: self.cat_indices_url(), content_type: None, body: RequestBody::Empty }
    }

    /// The request that creates an index: `PUT` on the index, with the
    /// creation body as JSON.
    pub fn create_index_request(&self, index_name: &str, settings: Option<JsonValue>, mappings: Option<JsonValue>) -> (r: EsRequest)
        ensures
            r.method == HttpMethod::Put,
            r.url@ == self.base_url@ + "/"@ + index_name@,
            r.content_type is None,
            r.body matches RequestBody::Json(b) && b is Object
                && entries_get(b->Object_0@, "settings"@) == settings
                && entries_get(b->Object_0@, "mappings"@) == mappings
                && entry_keys(b->Object_0@) == (if mappings is Some { seq!["mappings"@] } else { Seq::<Seq<char>>::empty() })
                    + (if settings is Some { seq!["settings"@] } else { Seq::<Seq<char>>::empty() }),
    {
        let body = create_index_body(settings, mappings);
        EsRequest { method: HttpMethod::Put, url: self.index_url(index_name), content_type: None, body: RequestBody::Json(body) }
    }

    /// The request that deletes an index: `DELETE` on the index.
    pub fn delete_index_request(&self, index_name: &str) -> (r: EsRequest)
        ensures
            r.method == HttpMethod::Delete,
            r.url@ == self.base_url@ + "/"@ + index_name@,
            r.content_type is None,
            r.body is Empty,
    {
        EsRequest { method: HttpMethod::Delete, url: self.index_url(index_name), content_type: None, body: RequestBody::Empty }
    }

    /// The request that tests for an index: `HEAD` on the index.
    pub fn index_exists_request(&self, index_name: &str) -> (r: EsRequest)
        ensures
            r.method == HttpMethod::Head,
            r.url@ == self.base_url@ + "/"@ + index_name@,
            r.content_type is None,
            r.body is Empty,
    {
        EsRequest { method: HttpMethod::Head, url: self.index_url(index_name), content_type: None, body: RequestBody::Empty }
    }

    /// The bulk request that indexes the documents, given as JSON text,
    /// into one index: `POST` on `_bulk`, as NDJSON.
    pub fn bulk_request(&self, index_name: &str, documents: &Vec<String>) -> (r: EsRequest)
        ensures
            r.method == HttpMethod::Post,
            r.url@ == self.base_url@ + "/_bulk"@,
            r.content_type matches Some(t) && t@ == "application/x-ndjson"@,
            r.body matches RequestBody::Text(b)
                && b@ == bulk_lines(bulk_action_line(json_string_literal(index_name@)), string_views(documents@)),
    {
        let body = bulk_body(index_name, documents);
        EsRequest {
            method: HttpMethod::Post,
            url: self.bulk_url(),
            content_type: Some(to_owned_string("application/x-ndjson")),
            body: RequestBody::Text(body),
        }
    }

    /// The search request: `POST` on the search endpoint of the index (or
    /// of all indices), with the query as JSON.
    pub fn search_request(&self, index_name: &str, query: JsonValue) -> (r: EsRequest)
        ensures
            r.method == HttpMethod::Post,
            r.url@ == self.base_url@ + index_scope(index_name@) + "/_search"@,
            r.content_type is None,
            r.body == RequestBody::Json(query),
    {
        EsRequest { method: HttpMethod::Post, url: self.search_url(index_name), content_type: None, body: RequestBody::Json(query) }
    }

    /// The count request: `GET` on the count endpoint of the index (or of
    /// all indices).
    pub fn count_request(&self, index_name: &str) -> (r: EsRequest)
        ensures
            r.method == HttpMethod::Get,
            r.url@ == self.base_url@ + index_scope(index_name@) + "/_count"@,
            r.content_type is None,
            r.body is Empty,
    {
        EsRequest { method: HttpMethod::Get, url: self.count_url(index_name), content_type: None, body: RequestBody::Empty }
    }
}

/// The connection test: success when the status is 2xx; otherwise the
/// status and the reply text.
pub fn finish_test_connection(status: u16, text: String) -> (r: Result<bool, EsError>)
    ensures
        is_success_spec(status) <==> r is Ok,
        r matches Ok(b) ==> b,
        r matches Err(e) ==> (e matches EsError::Http(s, t) && s == status && t == text),
{
    if is_success(status) {
        Ok(true)
    } else {
        Err(EsError::Http(status, text))
    }
}

/// Cluster information may be read exactly when the status is 2xx.
pub fn check_cluster_info(status: u16) -> (r: Result<(), EsError>)
    ensures
        is_success_spec(status) <==> r is Ok,
        r matches Err(e) ==> (e matches EsError::ClusterInfoFailed(s) && s == status),
{
    if is_success(status) {
        Ok(())
    } else {
        Err(EsError::ClusterInfoFailed(status))
    }
}

/// The index names of an index list reply.
#[verifier::loop_isolation(false)]
pub fn finish_list_indices(status: u16, reply: Option<JsonValue>) -> (r: Result<Vec<String>, EsError>)
    ensures
        !is_success_spec(status) ==> (r matches Err(EsError::ListIndicesFailed(s)) && s == status),
        is_success_spec(status) && reply is None ==> r matches Err(EsError::InvalidJson),
        is_success_spec(status) && reply is Some ==> match reply->Some_0 {
            JsonValue::Array(items) => match index_names(items@) {
                Some(ns) => r is Ok && string_views(r->Ok_0@) == ns,
                None => r matches Err(EsError::InvalidIndexList),
            },
            _ => r matches Err(EsError::InvalidIndexList),
        },
{
    if !is_success(status) {
        return Err(EsError::ListIndicesFailed(status));
    }
    let reply = match reply {
        Some(v) => v,
        None => return Err(EsError::InvalidJson),
    };
    match &reply {
        JsonValue::Array(items) => {
            let mut names: Vec<String> = Vec::new();
            let mut i: usize = 0;
            while i < items.len()
                invariant
                    i <= items@.len(),
                    index_names(items@.take(i as int)) == Some(string_views(names@)),
                decreases items@.len() - i,
            {
                proof {
                    assert(items@.take(i + 1).drop_last() =~= items@.take(i as int));
                }
                match entry_index_name(&items[i]) {
                    Some(n) => {
                        let ghost before = names@;
                        names.push(n);
                        proof {
                            assert(string_views(names@) =~= string_views(before).push(names@.last()@));
                        }
                    },
                    None => {
                        proof {
                            lemma_index_names_none_extends(items@, i + 1);
                        }
                        return Err(EsError::InvalidIndexList);
                    },
                }
                i = i + 1;
            }
            proof {
                assert(items@.take(items@.len() as int) =~= items@);
            }
            Ok(names)
        },
        _ => Err(EsError::InvalidIndexList),
    }
}

/// The body of an index creation request: an object with the mappings
/// and the settings that are given, its keys in sorted order.
pub fn create_index_body(settings: Option<JsonValue>, mappings: Option<JsonValue>) -> (r: JsonValue)
    ensures
        r is Object,
        entries_get(r->Object_0@, "settings"@) == settings,
        entries_get(r->Object_0@, "mappings"@) == mappings,
        entry_keys(r->Object_0@) == (if mappings is Some { seq!["mappings"@] } else { Seq::<Seq<char>>::empty() })
            + (if settings is Some { seq!["settings"@] } else { Seq::<Seq<char>>::empty() }),
{
    let mut entries: Vec<(String, JsonValue)> = Vec::new();
    let ghost s0 = settings;
    let ghost m0 = mappings;
    proof {
        reveal_strlit("settings");
        reveal_strlit("mappings");
    }
    match mappings {
        Some(m) => {
            entries.push((to_owned_string("mappings"), m));
        },
        None => {},
    }
    match settings {
        Some(s) => {
            entries.push((to_owned_string("settings"), s));
        },
        None => {},
    }
    proof {
        assert("settings"@[0] != "mappings"@[0]);
        assert("settings"@ != "mappings"@);
        if m0 is Some {
            assert(entries@[0].0@ == "mappings"@);
            crate::json::lemma_entries_get_at(entries@, "mappings"@, 0);
        } else {
            crate::json::lemma_entries_get_none(entries@, "mappings"@);
        }
        if s0 is Some {
            let k = entries@.len() - 1;
            assert(entries@[k].0@ == "settings"@);
            crate::json::lemma_entries_get_at(entries@, "settings"@, k);
        } else {
            crate::json::lemma_entries_get_none(entries@, "settings"@);
        }
        assert(entry_keys(entries@) =~= (if m0 is Some { seq!["mappings"@] } else { Seq::<Seq<char>>::empty() })
            + (if s0 is Some { seq!["settings"@] } else { Seq::<Seq<char>>::empty() }));
    }
    JsonValue::Object(entries)
}

/// The body of a bulk request that indexes the documents, given as JSON
/// text, into one index: for each, an action line and the document, each
/// ended by a newline.
pub fn bulk_body(index_name: &str, documents: &Vec<String>) -> (r: String)
    ensures
        r@ == bulk_lines(bulk_action_line(json_string_literal(index_name@)), string_views(documents@)),
{
    let lit = match to_json_string_literal(index_name) {
        Ok(l) => l,
        Err(_) => {
            proof {
                assert(false);
            }
            String::new()
        },
    };
    let action = concat3("{\"index\":{\"_index\":", lit.as_str(), "}}");
    let ghost docs = string_views(documents@);
    let mut body = String::new();
    let mut i: usize = 0;
    while i < documents.len()
        invariant
            i <= documents@.len(),
            docs == string_views(documents@),
            action@ == bulk_action_line(json_string_literal(index_name@)),
            body@ == bulk_lines(action@, docs.take(i as int)),
        decreases documents@.len() - i,
    {
        proof {
            assert(docs.take(i + 1).drop_last() =~= docs.take(i as int));
            assert(docs.take(i + 1).last() == documents@[i as int]@);
        }
        push_str(&mut body, action.as_str());
        push_char(&mut body, '\n');
        push_str(&mut body, documents[i].as_str());
        push_char(&mut body, '\n');
        i = i + 1;
    }
    proof {
        assert(docs.take(documents@.len() as int) =~= docs);
    }
    body
}

/// Index creation: done when the status is 2xx; otherwise the reply text.
pub fn finish_create_index(status: u16, text: String) -> (r: Result<(), EsError>)
    ensures
        is_success_spec(status) <==> r is Ok,
        r matches Err(e) ==> (e matches EsError::CreateIndexFailed(t) && t == text),
{
    if is_success(status) {
        Ok(())
    } else {
        Err(EsError::CreateIndexFailed(text))
    }
}

/// Index deletion: done when the status is 2xx; otherwise the reply text.
pub fn finish_delete_index(status: u16, text: String) -> (r: Result<(), EsError>)
    ensures
        is_success_spec(status) <==> r is Ok,
        r matches Err(e) ==> (e matches EsError::DeleteIndexFailed(t) && t == text),
{
    if is_success(status) {
        Ok(())
    } else {
        Err(EsError::DeleteIndexFailed(text))
    }
}

/// An index exists exactly when asking for it gives a 2xx status.
pub fn index_exists_result(status: u16) -> (r: bool)
    ensures
        r == is_success_spec(status),
{
    is_success(status)
}

/// The number of documents a bulk request inserted: the reply items
/// whose `index` action has a 2xx status.
pub fn finish_bulk_insert(status: u16, text: String, reply: Option<JsonValue>) -> (r: Result<usize, EsError>)
    ensures
        !is_success_spec(status) ==> (r matches Err(EsError::BulkInsertFailed(t)) && t == text),
        is_success_spec(status) && reply is None ==> r matches Err(EsError::InvalidJson),
        is_success_spec(status) && reply is Some ==> match field_spec(reply->Some_0, "items"@) {
            JsonValue::Array(items) => r is Ok && r->Ok_0 == count_successes(items@),
            _ => r matches Err(EsError::InvalidBulkResponse),
        },
{
    if !is_success(status) {
        return Err(EsError::BulkInsertFailed(text));
    }
    let reply = match reply {
        Some(v) => v,
        None => return Err(EsError::InvalidJson),
    };
    let items_value = take_field(reply, "items");
    match &items_value {
        JsonValue::Array(items) => {
            let mut count: usize = 0;
            let mut i: usize = 0;
            while i < items.len()
                invariant
                    i <= items@.len(),
                    count == count_successes(items@.take(i as int)),
                    count <= i,
                decreases items@.len() - i,
            {
                proof {
                    assert(items@.take(i + 1).drop_last() =~= items@.take(i as int));
                }
                let ok = match field(&items[i], "index") {
                    Some(action) => match field(action, "status") {
                        Some(JsonValue::Number(n)) => match n.as_u64() {
                            Some(code) => 200 <= code && code < 300,
                            None => false,
                        },
                        _ => false,
                    },
                    None => false,
                };
                if ok {
                    count = count + 1;
                }
                i = i + 1;
            }
            proof {
                assert(items@.take(items@.len() as int) =~= items@);
            }
            Ok(count)
        },
        _ => Err(EsError::InvalidBulkResponse),
    }
}

/// A search reply: the reply itself when the status is 2xx.
pub fn finish_search(status: u16, text: String, reply: Option<JsonValue>) -> (r: Result<JsonValue, EsError>)
    ensures
        !is_success_spec(status) ==> (r matches Err(EsError::SearchFailed(t)) && t == text),
        is_success_spec(status) && reply is None ==> r matches Err(EsError::InvalidJson),
        is_success_spec(status) && reply is Some ==> r is Ok && r->Ok_0 == reply->Some_0,
{
    if !is_success(status) {
        return Err(EsError::SearchFailed(text));
    }
    match reply {
        Some(v) => Ok(v),
        None => Err(EsError::InvalidJson),
    }
}

/// A count reply: its `count` field when the status is 2xx and that field
/// is an unsigned integer.
pub fn finish_count(status: u16, text: String, reply: Option<JsonValue>) -> (r: Result<u64, EsError>)
    ensures
        !is_success_spec(status) ==> (r matches Err(EsError::CountFailed(t)) && t == text),
        is_success_spec(status) && reply is None ==> r matches Err(EsError::InvalidJson),
        is_success_spec(status) && reply is Some ==> match field_spec(reply->Some_0, "count"@) {
            JsonValue::Number(JsonNumber::PosInt(n)) => r is Ok && r->Ok_0 == n,
            _ => r matches Err(EsError::InvalidCountResponse),
        },
{
    if !is_success(status) {
        return Err(EsError::CountFailed(text));
    }
    let reply = match reply {
        Some(v) => v,
        None => return Err(EsError::InvalidJson),
    };
    match take_field(reply, "count") {
        JsonValue::Number(n) => match n.as_u64() {
            Some(c) => Ok(c),
            None => Err(EsError::InvalidCountResponse),
        },
        _ => Err(EsError::InvalidCountResponse),
    }
}

} // verus!
