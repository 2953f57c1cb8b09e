//! The export tool: its settings, its requests to Elasticsearch, and the
//! layout of the documents it writes to a spreadsheet.
use vstd::prelude::*;
use vstd::utf8::*;
use vstd::string::*;
use crate::json::{JsonValue, JsonNumber, entries_get, field_spec, take_field, into_array, remove_field};
use crate::encoding::{base64_standard, base64_encode};
use crate::es::{is_success, is_success_spec, basic_authorization, too_long_to_encode};
use crate::chars::{lowercased, to_lowercase};
use crate::text::{push_char, push_str, concat2, concat3, to_owned_string, str_eq, u64_to_decimal, decimal};

verus! {

/// The default of a flag that is on unless set.
pub fn default_true() -> (r: bool)
    ensures
        r,
{
    true
}

/// The default number of documents to fetch.
pub fn default_size() -> (r: u32)
    ensures
        r == 1000,
{
    1000
}

/// The default query: match every document.
pub fn default_query() -> (r: JsonValue)
    ensures
        r is Object && r->Object_0@.len() == 1 && r->Object_0@[0].0@ == "match_all"@
            && r->Object_0@[0].1 is Object && r->Object_0@[0].1->Object_0@.len() == 0,
{
    let mut entries: Vec<(String, JsonValue)> = Vec::new();
    entries.push((to_owned_string("match_all"), JsonValue::Object(Vec::new())));
    JsonValue::Object(entries)
}

/// Where the export tool connects and with which credentials.
pub struct ElasticsearchConfig {
    pub host: String,
    pub port: u16,
    pub username: String,
    pub password: String,
    pub use_ssl: bool,
    pub verify_certificate: bool,
}

/// What the export tool fetches.
pub struct QueryConfig {
    pub index: String,
    pub query: JsonValue,
    pub size: u32,
}

/// The export tool's settings.
pub struct Config {
    pub elasticsearch: ElasticsearchConfig,
    pub query: QueryConfig,
}

/// Why the export tool stopped.
#[derive(Debug)]
pub enum ExportError {
    /// The credentials are too long to be encoded.
    CredentialTooLong,
    /// The connection test got an unsuccessful status, with the reply text.
    ConnectionFailed(u16, String),
    /// The search got an unsuccessful status, with the reply text.
    SearchFailed(u16, String),
    /// A reply that should be JSON is not.
    InvalidJson,
    /// The search reply has no list of hits.
    InvalidSearchResponse,
    /// There is nothing to write to a spreadsheet.
    NoDocuments,
}

/// The base URL of the export tool's cluster.
pub open spec fn export_base_url(c: ElasticsearchConfig) -> Seq<char> {
    (if c.use_ssl { "https"@ } else { "http"@ }) + "://"@ + c.host@ + seq![':'] + decimal(c.port as nat)
}

/// How the export tool reaches its cluster: the base URL, the
/// `Authorization` header, whether invalid certificates are accepted, and
/// the request timeout in seconds.
pub struct ESClient {
    pub base_url: String,
    pub auth_header: String,
    pub accept_invalid_certs: bool,
    pub timeout_secs: u64,
}

impl ESClient {
    /// The connection settings: `http` or `https` by the SSL flag, the
    /// host and the port; Basic authentication; a 60-second timeout; and
    /// invalid certificates accepted only when SSL is used without
    /// certificate checks.
    pub fn new(config: &ElasticsearchConfig) -> (r: Result<ESClient, ExportError>)
        ensures
            too_long_to_encode(encode_utf8(config.username@ + seq![':'] + config.password@)) ==> r matches Err(ExportError::CredentialTooLong),
            !too_long_to_encode(encode_utf8(config.username@ + seq![':'] + config.password@)) ==> r is Ok,
            r matches Ok(c) ==> {
                &&& c.base_url@ == export_base_url(*config)
                &&& c.auth_header@ == basic_authorization(config.username@, config.password@)
                &&& c.accept_invalid_certs == (config.use_ssl && !config.verify_certificate)
                &&& c.timeout_secs == 60
            },
    {
        let scheme = if config.use_ssl { "https" } else { "http" };
        let mut base_url = concat3(scheme, "://", config.host.as_str());
        push_char(&mut base_url, ':');
        let port = u64_to_decimal(config.port as u64);
        push_str(&mut base_url, port.as_str());
        proof {
            reveal_strlit("://");
            assert(base_url@ =~= export_base_url(*config));
        }
        let auth_value = concat3(config.username.as_str(), ":", config.password.as_str());
        proof {
            reveal_strlit(":");
            assert(auth_value@ =~= config.username@ + seq![':'] + config.password@);
        }
        let bytes = auth_value.as_str().as_bytes();
        if bytes.len() / 3 + 1 > usize::MAX / 4 {
            return Err(ExportError::CredentialTooLong);
        }
        let encoded = base64_encode(bytes);
        let auth_header = concat2("Basic ", encoded.as_str());
        Ok(ESClient {
            base_url,
            auth_header,
            accept_invalid_certs: config.use_ssl && !config.verify_certificate,
            timeout_secs: 60,
        })
    }

    /// URL of a search over one index.
    pub fn search_url(&self, index: &str) -> (r: String)
        ensures
            r@ == self.base_url@ + seq!['/'] + index@ + "/_search"@,
    {
        let mut r = concat3(self.base_url.as_str(), "/", index);
        push_str(&mut r, "/_search");
        proof {
            reveal_strlit("/");
        }
        r
    }
}

/// The body of the export search: the query and the number of documents.
pub fn search_body(query: JsonValue, size: u32) -> (r: JsonValue)
    ensures
        r is Object,
        r->Object_0@.len() == 2,
        r->Object_0@[0].0@ == "query"@ && r->Object_0@[0].1 == query,
        r->Object_0@[1].0@ == "size"@ && r->Object_0@[1].1 == JsonValue::Number(JsonNumber::PosInt(size as u64)),
{
    let mut entries: Vec<(String, JsonValue)> = Vec::new();
    entries.push((to_owned_string("query"), query));
    entries.push((to_owned_string("size"), JsonValue::Number(JsonNumber::PosInt(size as u64))));
    JsonValue::Object(entries)
}

/// The connection test of the export tool: success when the status is
/// 2xx; otherwise the status and the reply text.
pub fn finish_test_connection(status: u16, text: String) -> (r: Result<(), ExportError>)
    ensures
        is_success_spec(status) <==> r is Ok,
        r matches Err(e) ==> (e matches ExportError::ConnectionFailed(s, t) && s == status && t == text),
{
    if is_success(status) {
        Ok(())
    } else {
        Err(ExportError::ConnectionFailed(status, text))
    }
}

/// The `_source` objects of the hits, in order; other hits are skipped.
pub open spec fn source_objects(hits: Seq<JsonValue>) -> Seq<JsonValue>
    decreases hits.len(),
{
    if hits.len() == 0 {
        Seq::<JsonValue>::empty()
    } else if field_spec(hits.last(), "_source"@) is Object {
        source_objects(hits.drop_last()).push(field_spec(hits.last(), "_source"@))
    } else {
        source_objects(hits.drop_last())
    }
}

/// The exported documents are exactly the object `_source` values of the
/// hits, in order: a hit whose `_source` is an object adds that object at
/// the end, any other hit adds nothing; so every document is an object and
/// there are never more documents than hits.
pub proof fn law_exported_documents_follow_hits(hits: Seq<JsonValue>, hit: JsonValue)
    ensures
        field_spec(hit, "_source"@) is Object ==> source_objects(hits.push(hit)) == source_objects(hits).push(field_spec(hit, "_source"@)),
        !(field_spec(hit, "_source"@) is Object) ==> source_objects(hits.push(hit)) == source_objects(hits),
        source_objects(hits).len() <= hits.len(),
        forall|k: int| 0 <= k < source_objects(hits).len() ==> #[trigger] source_objects(hits)[k] is Object,
    decreases hits.len(),
{
    assert(hits.push(hit).drop_last() =~= hits);
    if hits.len() > 0 {
        law_exported_documents_follow_hits(hits.drop_last(), hits.last());
        assert(hits.drop_last().push(hits.last()) =~= hits);
    }
}

/// The documents of an export search reply: the `_source` of each hit
/// that is an object.
pub fn finish_search(status: u16, text: String, reply: Option<JsonValue>) -> (r: Result<Vec<JsonValue>, ExportError>)
    ensures
        !is_success_spec(status) ==> (r matches Err(ExportError::SearchFailed(s, t)) && s == status && t == text),
        is_success_spec(status) && reply is None ==> r matches Err(ExportError::InvalidJson),
        is_success_spec(status) && reply is Some ==> match field_spec(field_spec(reply->Some_0, "hits"@), "hits"@) {
            JsonValue::Array(hits) => r is Ok && r->Ok_0@ == source_objects(hits@),
            _ => r matches Err(ExportError::InvalidSearchResponse),
        },
{
    if !is_success(status) {
        return Err(ExportError::SearchFailed(status, text));
    }
    let reply = match reply {
        Some(v) => v,
        None => return Err(ExportError::InvalidJson),
    };
    let hits = match into_array(take_field(take_field(reply, "hits"), "hits")) {
        Some(h) => h,
        None => return Err(ExportError::InvalidSearchResponse),
    };
    let ghost all = hits@;
    let mut hits = hits;
    let mut docs: Vec<JsonValue> = Vec::new();
    let mut taken: usize = 0;
    let total = hits.len();
    while hits.len() > 0
        invariant
            total == all.len(),
            taken + hits@.len() == all.len(),
            hits@ == all.subrange(taken as int, all.len() as int),
            docs@ == source_objects(all.take(taken as int)),
        decreases hits@.len(),
    {
        let hit = hits.remove(0);
        proof {
            assert(all.take(taken + 1).drop_last() =~= all.take(taken as int));
            assert(all.take(taken + 1).last() == hit);
        }
        let source = take_field(hit, "_source");
        match source {
            JsonValue::Object(_) => {
                docs.push(source);
            },
            _ => {},
        }
        taken = taken + 1;
    }
    proof {
        assert(all.take(all.len() as int) =~= all);
    }
    Ok(docs)
}

/// What a spreadsheet cell holds: text, a number, a boolean, nothing, or
/// a JSON value written as its JSON text.
#[derive(Debug)]
pub enum CellValue {
    Text(String),
    Number(JsonNumber),
    Boolean(bool),
    Empty,
    Json(JsonValue),
}

/// One written cell: its row, its column, and what it holds.
#[derive(Debug)]
pub struct ExcelCell {
    pub row: u32,
    pub col: u16,
    pub value: CellValue,
}

/// A spreadsheet: the header row (row 0, one column per key) and the
/// cells below it.
#[derive(Debug)]
pub struct SheetLayout {
    pub headers: Vec<String>,
    pub cells: Vec<ExcelCell>,
}

/// What a JSON value is written as: a string as text, a number as a
/// number, a boolean as a boolean, `null` as empty text, and an array or
/// object as its JSON text.
pub open spec fn cell_value_of(v: JsonValue) -> CellValue {
    match v {
        JsonValue::String(s) => CellValue::Text(s),
        JsonValue::Number(n) => CellValue::Number(n),
        JsonValue::Bool(b) => CellValue::Boolean(b),
        JsonValue::Null => CellValue::Empty,
        _ => CellValue::Json(v),
    }
}

fn to_cell_value(v: JsonValue) -> (r: CellValue)
    ensures
        r == cell_value_of(v),
{
    match v {
        JsonValue::String(s) => CellValue::Text(s),
        JsonValue::Number(n) => CellValue::Number(n),
        JsonValue::Bool(b) => CellValue::Boolean(b),
        JsonValue::Null => CellValue::Empty,
        other => CellValue::Json(other),
    }
}

/// The keys of object entries, in order.
pub open spec fn entry_key_views(entries: Seq<(String, JsonValue)>) -> Seq<Seq<char>> {
    Seq::new(entries.len(), |i: int| entries[i].0@)
}

/// `acc` with each of `keys` appended that it does not hold yet.
pub open spec fn add_keys(acc: Seq<Seq<char>>, keys: Seq<Seq<char>>) -> Seq<Seq<char>>
    decreases keys.len(),
{
    if keys.len() == 0 {
        acc
    } else {
        let a = add_keys(acc, keys.drop_last());
        if a.contains(keys.last()) {
            a
        } else {
            a.push(keys.last())
        }
    }
}

/// Every key of the object documents, once each, in the order first seen.
pub open spec fn all_keys(docs: Seq<JsonValue>) -> Seq<Seq<char>>
    decreases docs.len(),
{
    if docs.len() == 0 {
        Seq::<Seq<char>>::empty()
    } else {
        match docs.last() {
            JsonValue::Object(e) => add_keys(all_keys(docs.drop_last()), entry_key_views(e@)),
            _ => all_keys(docs.drop_last()),
        }
    }
}

/// The cells of one document in row `row`: for each header that the
/// document has, in header order, its value in the header's column.
pub open spec fn doc_cells(row: u32, headers: Seq<Seq<char>>, entries: Seq<(String, JsonValue)>) -> Seq<ExcelCell>
    decreases headers.len(),
{
    if headers.len() == 0 {
        Seq::<ExcelCell>::empty()
    } else {
        doc_cells(row, headers.drop_last(), entries) + match entries_get(entries, headers.last()) {
            Some(v) => seq![ExcelCell { row, col: (headers.len() - 1) as u16, value: cell_value_of(v) }],
            None => Seq::<ExcelCell>::empty(),
        }
    }
}

/// The cells of all documents: document `i` fills row `i + 1`; documents
/// that are not objects leave their row empty.
pub open spec fn sheet_cells(headers: Seq<Seq<char>>, docs: Seq<JsonValue>) -> Seq<ExcelCell>
    decreases docs.len(),
{
    if docs.len() == 0 {
        Seq::<ExcelCell>::empty()
    } else {
        sheet_cells(headers, docs.drop_last()) + match docs.last() {
            JsonValue::Object(e) => doc_cells(docs.len() as u32, headers, e@),
            _ => Seq::<ExcelCell>::empty(),
        }
    }
}

/// Whether no key appears twice.
pub open spec fn distinct_keys(keys: Seq<Seq<char>>) -> bool {
    forall|a: int, b: int| 0 <= a < b < keys.len() ==> keys[a] != keys[b]
}

/// `add_keys` keeps what it had, adds each key, adds nothing twice, and
/// adds only the given keys.
pub proof fn lemma_add_keys(acc: Seq<Seq<char>>, keys: Seq<Seq<char>>)
    requires
        distinct_keys(acc),
    ensures
        distinct_keys(add_keys(acc, keys)),
        add_keys(acc, keys).len() >= acc.len(),
        add_keys(acc, keys).take(acc.len() as int) == acc,
        forall|i: int| 0 <= i < keys.len() ==> add_keys(acc, keys).contains(#[trigger] keys[i]),
        forall|k: Seq<char>| add_keys(acc, keys).contains(k) ==> acc.contains(k) || keys.contains(k),
    decreases keys.len(),
{
    if keys.len() > 0 {
        lemma_add_keys(acc, keys.drop_last());
        let a = add_keys(acc, keys.drop_last());
        assert forall|i: int| 0 <= i < keys.len() implies add_keys(acc, keys).contains(#[trigger] keys[i]) by {
            if i < keys.len() - 1 {
                assert(keys.drop_last()[i] == keys[i]);
                assert(a.contains(keys[i]));
                if !a.contains(keys.last()) {
                    let j = choose|j: int| 0 <= j < a.len() && a[j] == keys[i];
                    assert(a.push(keys.last())[j] == keys[i]);
                }
            } else {
                if !a.contains(keys.last()) {
                    assert(a.push(keys.last())[a.len() as int] == keys.last());
                }
            }
        }
        assert forall|k: Seq<char>| add_keys(acc, keys).contains(k) implies acc.contains(k) || keys.contains(k) by {
            if a.contains(k) {
                if keys.drop_last().contains(k) {
                    let j = choose|j: int| 0 <= j < keys.drop_last().len() && keys.drop_last()[j] == k;
                    assert(keys[j] == k);
                }
            } else {
                assert(keys[keys.len() - 1] == k);
            }
        }
        if !a.contains(keys.last()) {
            assert(a.push(keys.last()).take(acc.len() as int) =~= a.take(acc.len() as int));
        }
    }
}

/// The headers hold each key of each object document, once, and nothing
/// else.
pub proof fn law_headers_complete_and_distinct(docs: Seq<JsonValue>)
    ensures
        distinct_keys(all_keys(docs)),
        forall|i: int, k: Seq<char>| #![trigger entry_key_views(docs[i]->Object_0@).contains(k)] 0 <= i < docs.len() && docs[i] is Object
            && entry_key_views(docs[i]->Object_0@).contains(k) ==> all_keys(docs).contains(k),
        forall|k: Seq<char>| all_keys(docs).contains(k) ==> exists|i: int| 0 <= i < docs.len() && (#[trigger] docs[i]) is Object
            && entry_key_views(docs[i]->Object_0@).contains(k),
    decreases docs.len(),
{
    if docs.len() > 0 {
        law_headers_complete_and_distinct(docs.drop_last());
        let prev = all_keys(docs.drop_last());
        match docs.last() {
            JsonValue::Object(e) => {
                lemma_add_keys(prev, entry_key_views(e@));
                assert forall|i: int, k: Seq<char>| #![trigger entry_key_views(docs[i]->Object_0@).contains(k)] 0 <= i < docs.len() && docs[i] is Object
                    && entry_key_views(docs[i]->Object_0@).contains(k) implies all_keys(docs).contains(k) by {
                    if i < docs.len() - 1 {
                        assert(docs.drop_last()[i] == docs[i]);
                        assert(prev.contains(k));
                        let j = choose|j: int| 0 <= j < prev.len() && prev[j] == k;
                        assert(all_keys(docs).take(prev.len() as int)[j] == k);
                    } else {
                        let j = choose|j: int| 0 <= j < entry_key_views(e@).len() && entry_key_views(e@)[j] == k;
                        assert(entry_key_views(e@)[j] == k);
                    }
                }
                assert forall|k: Seq<char>| all_keys(docs).contains(k) implies exists|i: int| 0 <= i < docs.len() && (#[trigger] docs[i]) is Object
                    && entry_key_views(docs[i]->Object_0@).contains(k) by {
                    if prev.contains(k) {
                        let i = choose|i: int| 0 <= i < docs.drop_last().len() && (#[trigger] docs.drop_last()[i]) is Object
                            && entry_key_views(docs.drop_last()[i]->Object_0@).contains(k);
                        assert(docs[i] == docs.drop_last()[i]);
                    } else {
                        assert(docs[docs.len() - 1] == docs.last());
                    }
                }
            },
            _ => {
                assert forall|i: int, k: Seq<char>| #![trigger entry_key_views(docs[i]->Object_0@).contains(k)] 0 <= i < docs.len() && docs[i] is Object
                    && entry_key_views(docs[i]->Object_0@).contains(k) implies all_keys(docs).contains(k) by {
                    assert(i < docs.len() - 1);
                    assert(docs.drop_last()[i] == docs[i]);
                }
                assert forall|k: Seq<char>| all_keys(docs).contains(k) implies exists|i: int| 0 <= i < docs.len() && (#[trigger] docs[i]) is Object
                    && entry_key_views(docs[i]->Object_0@).contains(k) by {
                    let i = choose|i: int| 0 <= i < docs.drop_last().len() && (#[trigger] docs.drop_last()[i]) is Object
                        && entry_key_views(docs.drop_last()[i]->Object_0@).contains(k);
                    assert(docs[i] == docs.drop_last()[i]);
                }
            },
        }
    }
}

/// The views of a list of strings.
pub open spec fn key_views(v: Seq<String>) -> Seq<Seq<char>> {
    Seq::new(v.len(), |i: int| v[i]@)
}

/// Whether a list of strings holds the key.
fn contains_key(keys: &Vec<String>, k: &str) -> (r: bool)
    ensures
        r == key_views(keys@).contains(k@),
{
    let mut i: usize = 0;
    while i < keys.len()
        invariant
            i <= keys@.len(),
            forall|j: int| 0 <= j < i ==> keys@[j]@ != k@,
        decreases keys@.len() - i,
    {
        if str_eq(keys[i].as_str(), k) {
            proof {
                assert(key_views(keys@)[i as int] == k@);
            }
            return true;
        }
        i = i + 1;
    }
    proof {
        if key_views(keys@).contains(k@) {
            let j = choose|j: int| 0 <= j < key_views(keys@).len() && key_views(keys@)[j] == k@;
            assert(keys@[j]@ == k@);
        }
    }
    false
}

/// The headers of the documents: every key of the object documents,
/// once, in the order first seen.
fn sheet_headers(documents: &Vec<JsonValue>) -> (r: Vec<String>)
    ensures
        key_views(r@) == all_keys(documents@),
{
    let mut headers: Vec<String> = Vec::new();
    let mut i: usize = 0;
    while i < documents.len()
        invariant
            i <= documents@.len(),
            key_views(headers@) == all_keys(documents@.take(i as int)),
        decreases documents@.len() - i,
    {
        proof {
            assert(documents@.take(i + 1).drop_last() =~= documents@.take(i as int));
            assert(documents@.take(i + 1).last() == documents@[i as int]);
        }
        match &documents[i] {
            JsonValue::Object(entries) => {
                let ghost base = all_keys(documents@.take(i as int));
                let mut j: usize = 0;
                proof {
                    assert(entry_key_views(entries@).take(0) =~= Seq::<Seq<char>>::empty());
                }
                while j < entries.len()
                    invariant
                        j <= entries@.len(),
                        key_views(headers@) == add_keys(base, entry_key_views(entries@).take(j as int)),
                    decreases entries@.len() - j,
                {
                    proof {
                        assert(entry_key_views(entries@).take(j + 1).drop_last() =~= entry_key_views(entries@).take(j as int));
                        assert(entry_key_views(entries@).take(j + 1).last() == entries@[j as int].0@);
                    }
                    if !contains_key(&headers, entries[j].0.as_str()) {
                        let ghost before = headers@;
                        let k = entries[j].0.clone();
                        headers.push(k);
                        proof {
                            assert(key_views(headers@) =~= key_views(before).push(k@));
                        }
                    }
                    j = j + 1;
                }
                proof {
                    assert(entry_key_views(entries@).take(entries@.len() as int) =~= entry_key_views(entries@));
                }
            },
            _ => {},
        }
        i = i + 1;
    }
    proof {
        assert(documents@.take(documents@.len() as int) =~= documents@);
    }
    headers
}

/// The cells of one document in a row.
fn document_cells(row: u32, headers: &Vec<String>, entries: Vec<(String, JsonValue)>, cells: &mut Vec<ExcelCell>)
    requires
        distinct_keys(key_views(headers@)),
    ensures
        final(cells)@ == old(cells)@ + doc_cells(row, key_views(headers@), entries@),
{
    let ghost initial = entries@;
    let ghost hs = key_views(headers@);
    let ghost start = cells@;
    let mut entries = entries;
    let mut j: usize = 0;
    proof {
        assert(hs.take(0) =~= Seq::<Seq<char>>::empty());
        assert(start + doc_cells(row, hs.take(0), initial) =~= start);
    }
    while j < headers.len()
        invariant
            j <= headers@.len(),
            hs == key_views(headers@),
            distinct_keys(hs),
            cells@ == start + doc_cells(row, hs.take(j as int), initial),
            forall|m: int| j <= m < headers@.len() ==> entries_get(entries@, #[trigger] hs[m]) == entries_get(initial, hs[m]),
        decreases headers@.len() - j,
    {
        let v = remove_field(&mut entries, headers[j].as_str());
        proof {
            assert forall|m: int| j + 1 <= m < headers@.len() implies entries_get(entries@, #[trigger] hs[m]) == entries_get(initial, hs[m]) by {
                assert(hs[m] != hs[j as int]);
            }
            assert(hs.take(j + 1).drop_last() =~= hs.take(j as int));
            assert(hs.take(j + 1).last() == hs[j as int]);
        }
        match v {
            Some(x) => {
                let cell = ExcelCell { row, col: j as u16, value: to_cell_value(x) };
                let ghost before = cells@;
                cells.push(cell);
                proof {
                    assert(cells@ =~= start + doc_cells(row, hs.take(j + 1), initial));
                }
            },
            None => {
                proof {
                    assert(cells@ =~= start + doc_cells(row, hs.take(j + 1), initial));
                }
            },
        }
        j = j + 1;
    }
    proof {
        assert(hs.take(headers@.len() as int) =~= hs);
    }
}

/// The spreadsheet of the documents: a header row with every key of the
/// object documents, once each, in the order first seen; then document
/// `i` in row `i + 1`, each of its values under its key's column.
pub fn excel_layout(documents: Vec<JsonValue>) -> (r: Result<SheetLayout, ExportError>)
    ensures
        documents@.len() == 0 ==> r matches Err(ExportError::NoDocuments),
        documents@.len() > 0 ==> r is Ok
            && key_views(r->Ok_0.headers@) == all_keys(documents@)
            && r->Ok_0.cells@ == sheet_cells(all_keys(documents@), documents@),
{
    if documents.len() == 0 {
        return Err(ExportError::NoDocuments);
    }
    let headers = sheet_headers(&documents);
    proof {
        law_headers_complete_and_distinct(documents@);
    }
    let ghost docs = documents@;
    let ghost hs = all_keys(docs);
    let mut cells: Vec<ExcelCell> = Vec::new();
    let mut remaining = documents;
    let mut taken: usize = 0;
    let total = remaining.len();
    while remaining.len() > 0
        invariant
            total == docs.len(),
            taken + remaining@.len() == docs.len(),
            remaining@ == docs.subrange(taken as int, docs.len() as int),
            hs == key_views(headers@),
            distinct_keys(hs),
            cells@ == sheet_cells(hs, docs.take(taken as int)),
        decreases remaining@.len(),
    {
        let doc = remaining.remove(0);
        proof {
            assert(docs.take(taken + 1).drop_last() =~= docs.take(taken as int));
            assert(docs.take(taken + 1).last() == doc);
        }
        let row = (taken + 1) as u32;
        match doc {
            JsonValue::Object(entries) => {
                document_cells(row, &headers, entries, &mut cells);
            },
            _ => {},
        }
        taken = taken + 1;
    }
    proof {
        assert(docs.take(docs.len() as int) =~= docs);
    }
    Ok(SheetLayout { headers, cells })
}

/// The formats the export tool writes.
#[derive(Debug, Clone, Copy, PartialEq, Eq, Structural)]
pub enum ExportFormat {
    Json,
    Excel,
    Both,
}

/// The format of a lower-case format name.
pub open spec fn export_format_of(name: Seq<char>) -> Option<ExportFormat> {
    if name == "json"@ {
        Some(ExportFormat::Json)
    } else if name == "excel"@ || name == "xlsx"@ {
        Some(ExportFormat::Excel)
    } else if name == "both"@ {
        Some(ExportFormat::Both)
    } else {
        None
    }
}

/// The format named, in any case: `json`, `excel` or `xlsx`, or `both`;
/// for any other name, the message that names the valid ones.
pub fn parse_export_format(format: &str) -> (r: Result<ExportFormat, String>)
    ensures
        match export_format_of(lowercased(format@)) {
            Some(f) => r is Ok && r->Ok_0 == f,
            None => r is Err && r->Err_0@ == "Invalid format '"@ + lowercased(format@) + "'. Use 'json', 'excel', or 'both'"@,
        },
{
    let lower = to_lowercase(format);
    if str_eq(lower.as_str(), "json") {
        Ok(ExportFormat::Json)
    } else if str_eq(lower.as_str(), "excel") || str_eq(lower.as_str(), "xlsx") {
        Ok(ExportFormat::Excel)
    } else if str_eq(lower.as_str(), "both") {
        Ok(ExportFormat::Both)
    } else {
        Err(concat3("Invalid format '", lower.as_str(), "'. Use 'json', 'excel', or 'both'"))
    }
}

} // verus!
