//! What the command-line client decides between reading its arguments
//! and printing: the profile a `connect` makes, the settings of a new
//! index, the documents an extraction keeps, and the statements of the
//! database commands.
use vstd::prelude::*;
use crate::models::{AuthType, ProfileConfig};
use crate::crypto::{Encryptor, EncryptError, encrypt_spec, decrypt_spec, string_result};
use crate::json::{JsonValue, JsonNumber, field_spec, take_field, into_array};
use crate::text::{push_str, concat2, u64_to_decimal, decimal, collect_chars, to_owned_string};
use crate::chars::{trim, trimmed};

verus! {

/// Why a command of the command-line client stopped.
#[derive(Debug)]
pub enum CliError {
    /// A credential could not be encrypted.
    Encryption(EncryptError),
    /// The search reply has no list of hits.
    InvalidSearchResponse,
    /// The system clock could not be read to date the profile.
    ClockUnavailable,
}

/// The authentication a `connect` uses: an API key when one is given,
/// else Basic.
pub fn connect_auth_type(api_key: &Option<String>) -> (r: AuthType)
    ensures
        api_key is Some ==> r == AuthType::ApiKey,
        api_key is None ==> r == AuthType::Basic,
{
    match api_key {
        Some(_) => AuthType::ApiKey,
        None => AuthType::Basic,
    }
}

/// The encryption of an optional credential.
fn encrypt_optional(encryptor: &Encryptor, secret: Option<String>) -> (r: Result<Option<String>, EncryptError>)
    ensures
        secret is None ==> r matches Ok(None),
        secret matches Some(s) ==> match encrypt_spec(encryptor.key(), s@) {
            Ok(h) => r matches Ok(Some(e)) && e@ == h,
            Err(err) => r matches Err(x) && x == err,
        },
        secret matches Some(s) ==> (r matches Ok(Some(e)) ==> decrypt_spec(encryptor.key(), e@) is Ok
            && decrypt_spec(encryptor.key(), e@)->Ok_0 == s@),
{
    match secret {
        Some(s) => {
            let e = encryptor.encrypt(s.as_str())?;
            Ok(Some(e))
        },
        None => Ok(None),
    }
}

/// The profile a `connect` saves: the name and host given, the given user,
/// the password and the API key encrypted (password first), API key
/// authentication when a key is given, SSL on, and certificate checks off
/// exactly when `insecure` is set.
pub fn connect_profile(
    name: String,
    host: String,
    user: Option<String>,
    password: Option<String>,
    api_key: Option<String>,
    insecure: bool,
    encryptor: &Encryptor,
) -> (r: Result<ProfileConfig, CliError>)
    ensures
        r matches Ok(p) ==> {
            &&& p.created_at >= 0
            &&& p.name == name
            &&& p.host == host
            &&& p.username == user
            &&& p.auth_type == (if api_key is Some { AuthType::ApiKey } else { AuthType::Basic })
            &&& p.use_ssl
            &&& p.verify_certificate == !insecure
            &&& p.created_at == p.updated_at
            &&& (password is None <==> p.password_encrypted is None)
            &&& (password matches Some(pw) ==> encrypt_spec(encryptor.key(), pw@) is Ok
                && p.password_encrypted->Some_0@ == encrypt_spec(encryptor.key(), pw@)->Ok_0)
            &&& (api_key is None <==> p.api_key_encrypted is None)
            &&& (api_key matches Some(k) ==> encrypt_spec(encryptor.key(), k@) is Ok
                && p.api_key_encrypted->Some_0@ == encrypt_spec(encryptor.key(), k@)->Ok_0)
            &&& (password matches Some(pw) ==> decrypt_spec(encryptor.key(), p.password_encrypted->Some_0@) is Ok
                && decrypt_spec(encryptor.key(), p.password_encrypted->Some_0@)->Ok_0 == pw@)
            &&& (api_key matches Some(k) ==> decrypt_spec(encryptor.key(), p.api_key_encrypted->Some_0@) is Ok
                && decrypt_spec(encryptor.key(), p.api_key_encrypted->Some_0@)->Ok_0 == k@)
        },
        ((password matches Some(pw) && encrypt_spec(encryptor.key(), pw@) is Err)
            || (api_key matches Some(k) && encrypt_spec(encryptor.key(), k@) is Err)) ==> r is Err && r->Err_0 is Encryption,
        r matches Err(e) ==> e is Encryption || e is ClockUnavailable,
        r is Err && r->Err_0 is Encryption ==> (password matches Some(pw) && encrypt_spec(encryptor.key(), pw@) is Err)
            || (api_key matches Some(k) && encrypt_spec(encryptor.key(), k@) is Err),
{
    let auth_type = connect_auth_type(&api_key);
    let password_encrypted = match encrypt_optional(encryptor, password) {
        Ok(p) => p,
        Err(e) => return Err(CliError::Encryption(e)),
    };
    let api_key_encrypted = match encrypt_optional(encryptor, api_key) {
        Ok(k) => k,
        Err(e) => return Err(CliError::Encryption(e)),
    };
    let mut profile = match ProfileConfig::new(name, host, auth_type) {
        Some(p) => p,
        None => return Err(CliError::ClockUnavailable),
    };
    profile.username = user;
    profile.password_encrypted = password_encrypted;
    profile.api_key_encrypted = api_key_encrypted;
    profile.verify_certificate = !insecure;
    Ok(profile)
}

/// The settings of an index that `index create` makes: the number of
/// replicas and of shards, keys in sorted order.
pub fn index_create_settings(shards: u32, replicas: u32) -> (r: JsonValue)
    ensures
        r is Object,
        r->Object_0@.len() == 2,
        r->Object_0@[0].0@ == "number_of_replicas"@ && r->Object_0@[0].1 == JsonValue::Number(JsonNumber::PosInt(replicas as u64)),
        r->Object_0@[1].0@ == "number_of_shards"@ && r->Object_0@[1].1 == JsonValue::Number(JsonNumber::PosInt(shards as u64)),
{
    let mut entries: Vec<(String, JsonValue)> = Vec::new();
    entries.push((to_owned_string("number_of_replicas"), JsonValue::Number(JsonNumber::PosInt(replicas as u64))));
    entries.push((to_owned_string("number_of_shards"), JsonValue::Number(JsonNumber::PosInt(shards as u64))));
    JsonValue::Object(entries)
}

/// The documents an extraction keeps from a search reply: the `_source`
/// of every hit, `null` where a hit has none.
pub fn search_hit_documents(result: JsonValue) -> (r: Result<Vec<JsonValue>, CliError>)
    ensures
        match field_spec(field_spec(result, "hits"@), "hits"@) {
            JsonValue::Array(hits) => r is Ok && r->Ok_0@.len() == hits@.len()
                && forall|i: int| 0 <= i < hits@.len() ==> #[trigger] r->Ok_0@[i] == field_spec(hits@[i], "_source"@),
            _ => r matches Err(CliError::InvalidSearchResponse),
        },
{
    let hits = match into_array(take_field(take_field(result, "hits"), "hits")) {
        Some(h) => h,
        None => return Err(CliError::InvalidSearchResponse),
    };
    let ghost all = hits@;
    let mut hits = hits;
    let mut docs: Vec<JsonValue> = Vec::new();
    let mut taken: usize = 0;
    let total = hits.len();
    while hits.len() > 0
        invariant
            total == all.len(),
            taken + hits@.len() == all.len(),
            hits@ == all.subrange(taken as int, all.len() as int),
            docs@.len() == taken,
            forall|i: int| 0 <= i < taken ==> #[trigger] docs@[i] == field_spec(all[i], "_source"@),
        decreases hits@.len(),
    {
        let hit = hits.remove(0);
        proof {
            assert(hit == all[taken as int]);
        }
        docs.push(take_field(hit, "_source"));
        taken = taken + 1;
    }
    Ok(docs)
}

/// What `connect` does once the connection has been tested.
#[derive(Debug, Clone, Copy, PartialEq, Eq, Structural)]
pub enum ConnectAction {
    /// The test passed: show the cluster, then save the profile.
    ShowClusterAndSave,
    /// The cluster answered with a failure: report it and save nothing.
    ReportFailure,
    /// The test could not be made: pass its error on and save nothing.
    PassError,
}

/// The error of a `connect` whose connection test failed.
pub const CONNECTION_TEST_FAILED: &'static str = "Connection test failed";

/// The step after the connection test of a `connect`, given its outcome
/// (`None` when the test could not be made): the profile is saved only
/// after a passed test.
pub fn after_connection_test(outcome: Option<bool>) -> (r: ConnectAction)
    ensures
        outcome == Some(true) ==> r == ConnectAction::ShowClusterAndSave,
        outcome == Some(false) ==> r == ConnectAction::ReportFailure,
        outcome is None ==> r == ConnectAction::PassError,
{
    match outcome {
        Some(true) => ConnectAction::ShowClusterAndSave,
        Some(false) => ConnectAction::ReportFailure,
        None => ConnectAction::PassError,
    }
}

/// A database subcommand that runs one statement: `query` with its SQL,
/// `show` with a table and a row limit, `drop` with a table.
#[derive(Debug)]
pub enum DbCommand {
    Query(String),
    Show(String, usize),
    Drop(String),
}

/// The statement a database subcommand runs: the SQL as given for
/// `query`, the first rows of the table for `show`, the removal of the
/// table for `drop`.
pub fn db_command_sql(command: DbCommand) -> (r: String)
    ensures
        match command {
            DbCommand::Query(sql) => r@ == sql@,
            DbCommand::Show(table, limit) => r@ == "SELECT * FROM "@ + table@ + " LIMIT "@ + decimal(limit as nat),
            DbCommand::Drop(table) => r@ == "DROP TABLE IF EXISTS "@ + table@,
        },
{
    match command {
        DbCommand::Query(sql) => sql,
        DbCommand::Show(table, limit) => show_table_sql(table.as_str(), limit),
        DbCommand::Drop(table) => drop_table_sql(table.as_str()),
    }
}

/// The statement `db show` runs: the first `limit` rows of the table.
pub fn show_table_sql(table: &str, limit: usize) -> (r: String)
    ensures
        r@ == "SELECT * FROM "@ + table@ + " LIMIT "@ + decimal(limit as nat),
{
    let mut sql = concat2("SELECT * FROM ", table);
    push_str(&mut sql, " LIMIT ");
    let digits = u64_to_decimal(limit as u64);
    push_str(&mut sql, digits.as_str());
    sql
}

/// The statement `db drop` runs.
pub fn drop_table_sql(table: &str) -> (r: String)
    ensures
        r@ == "DROP TABLE IF EXISTS "@ + table@,
{
    concat2("DROP TABLE IF EXISTS ", table)
}

/// Whether an answer to the drop prompt confirms it: after trimming, a
/// single `y` of either case.
pub fn confirm_drop(answer: &str) -> (r: bool)
    ensures
        r == (trimmed(answer@) == seq!['y'] || trimmed(answer@) == seq!['Y']),
{
    let chars = collect_chars(trim(answer));
    let r = chars.len() == 1 && (chars[0] == 'y' || chars[0] == 'Y');
    proof {
        if chars@.len() == 1 {
            if chars@[0] == 'y' {
                assert(chars@ =~= seq!['y']);
            }
            if chars@[0] == 'Y' {
                assert(chars@ =~= seq!['Y']);
            }
        }
    }
    r
}

} // verus!
