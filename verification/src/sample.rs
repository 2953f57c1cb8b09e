//! Sample documents for the demonstration indices: catalogue products,
//! application log lines and user analytics events.
use vstd::prelude::*;
use vstd::arithmetic::power2::{pow2, lemma_pow2_unfold, lemma_pow2_adds, lemma2_to64, lemma2_to64_rest};
use vstd::arithmetic::div_mod::lemma_fundamental_div_mod_converse;
use crate::hexcodec::hex_digit_lower;
use crate::json::{JsonValue, JsonNumber};
use crate::clock::{rfc3339_seconds_ago, clock_now, rfc3339_at, rfc3339_utc};
use crate::text::{lemma_decimal_len, lemma_decimal_leading_digit, lemma_decimal_injective, str_eq, push_char, push_str, collect_chars, concat2, concat3, to_owned_string, u64_to_decimal, decimal};

verus! {

/// `n` zero digits.
pub open spec fn zeros(n: nat) -> Seq<char> {
    Seq::new(n, |i: int| '0')
}

/// Text padded on the left with zeros to at least `width` characters.
pub open spec fn zero_pad(s: Seq<char>, width: nat) -> Seq<char> {
    if s.len() >= width {
        s
    } else {
        zeros((width - s.len()) as nat) + s
    }
}

/// Lowercase hexadecimal notation of a natural number, without leading
/// zeros.
pub open spec fn hex_lower(n: nat) -> Seq<char>
    decreases n,
{
    if n < 16 {
        seq![hex_digit_lower(n as int)]
    } else {
        hex_lower(n / 16).push(hex_digit_lower((n % 16) as int))
    }
}

fn hex_digit(d: u64) -> (c: char)
    requires
        d < 16,
    ensures
        c == hex_digit_lower(d as int),
{
    if d < 10 {
        let b: u8 = 48u8 + (d as u8);
        b as char
    } else {
        let b: u8 = 87u8 + (d as u8);
        b as char
    }
}

/// Lowercase hexadecimal notation of an unsigned integer.
pub fn u64_to_hex(n: u64) -> (s: String)
    ensures
        s@ == hex_lower(n as nat),
    decreases n,
{
    if n < 16 {
        let mut s = String::new();
        push_char(&mut s, hex_digit(n));
        s
    } else {
        let mut s = u64_to_hex(n / 16);
        push_char(&mut s, hex_digit(n % 16));
        s
    }
}

/// The text padded on the left with zeros to at least `width` characters.
pub fn pad_zeros(s: &str, width: usize) -> (r: String)
    ensures
        r@ == zero_pad(s@, width as nat),
{
    let len = collect_chars(s).len();
    let mut r = String::new();
    if len < width {
        let mut k: usize = 0;
        while k < width - len
            invariant
                k <= width - len,
                r@ == zeros(k as nat),
            decreases width - len - k,
        {
            push_char(&mut r, '0');
            k = k + 1;
            proof {
                assert(r@ =~= zeros(k as nat));
            }
        }
    }
    push_str(&mut r, s);
    proof {
        if len >= width {
            assert(r@ =~= s@);
        }
    }
    r
}

/// Padding with zeros keeps apart texts that do not start with `0`.
pub proof fn lemma_zero_pad_injective(s: Seq<char>, t: Seq<char>, width: nat)
    requires
        s.len() >= 1,
        t.len() >= 1,
        s[0] != '0',
        t[0] != '0',
        zero_pad(s, width) == zero_pad(t, width),
    ensures
        s == t,
{
    let ps = zero_pad(s, width);
    let pt = zero_pad(t, width);
    if s.len() >= width && t.len() >= width {
    } else if s.len() < width && t.len() >= width {
        assert(ps[0] == '0');
    } else if s.len() >= width && t.len() < width {
        assert(pt[0] == '0');
    } else {
        if s.len() < t.len() {
            let k = width - t.len();
            assert(pt[k] == t[0]);
            assert(ps[k] == '0');
        } else if t.len() < s.len() {
            let k = width - s.len();
            assert(ps[k] == s[0]);
            assert(pt[k] == '0');
        } else {
            let k = width - s.len();
            assert(s =~= ps.subrange(k, width as int));
            assert(t =~= pt.subrange(k, width as int));
        }
    }
}

/// The letter in lower case, for an ASCII capital; any other character
/// unchanged.
pub open spec fn ascii_lower_char(c: char) -> char {
    if 'A' <= c <= 'Z' {
        ((c as u32) + 32) as char
    } else {
        c
    }
}

/// The text with its ASCII capitals in lower case.
pub open spec fn ascii_lower(s: Seq<char>) -> Seq<char> {
    s.map_values(|c: char| ascii_lower_char(c))
}

/// The text with its ASCII capitals in lower case.
pub fn to_ascii_lower(s: &str) -> (r: String)
    ensures
        r@ == ascii_lower(s@),
{
    let chars = collect_chars(s);
    let mut r = String::new();
    let mut i: usize = 0;
    while i < chars.len()
        invariant
            i <= chars@.len(),
            chars@ == s@,
            r@ == ascii_lower(s@.take(i as int)),
        decreases chars@.len() - i,
    {
        let c = chars[i];
        let code = c as u32;
        let lower = if 65 <= code && code <= 90 {
            let b: u8 = (code as u8) + 32;
            b as char
        } else {
            c
        };
        proof {
            assert(lower == ascii_lower_char(c));
        }
        push_char(&mut r, lower);
        proof {
            assert(ascii_lower(s@.take(i + 1)) =~= ascii_lower(s@.take(i as int)).push(lower));
        }
        i = i + 1;
    }
    proof {
        assert(s@.take(s@.len() as int) =~= s@);
    }
    r
}

/// Whether `bits`, read as an IEEE-754 double, is the number `v / 2`.
/// A positive normal double with biased exponent `e` and fraction `f` is
/// `(2^52 + f) * 2^(e - 1075)`; it is `v / 2` exactly when
/// `2^52 + f == v * 2^(1074 - e)`.
pub open spec fn double_bits_are_half_of(bits: u64, v: nat) -> bool {
    let e = bits / 0x10_0000_0000_0000u64;
    let f = bits % 0x10_0000_0000_0000u64;
    &&& 1 <= e <= 1074
    &&& 0x10_0000_0000_0000 + f == v * pow2((1074 - e) as nat)
}

/// The bits of the double `v / 2`.
fn half_as_double_bits(v: u64) -> (bits: u64)
    requires
        2 <= v < 0x20_0000_0000_0000u64,
    ensures
        double_bits_are_half_of(bits, v as nat),
{
    proof {
        lemma2_to64();
        lemma2_to64_rest();
    }
    // The highest power of two not above `v`.
    let mut p: u64 = 1;
    let mut k: u64 = 0;
    while p <= v / 2
        invariant
            1 <= p <= v,
            p == pow2(k as nat),
            k <= 52,
            v < 0x20_0000_0000_0000u64,
            pow2(53) == 0x20_0000_0000_0000u64,
        decreases v - p,
    {
        proof {
            lemma_pow2_unfold((k + 1) as nat);
            if k == 52 {
                assert(false);
            }
        }
        p = p * 2;
        k = k + 1;
    }
    assert(v < 2 * p);
    assert(k >= 1) by {
        if k == 0 {
            assert(false);
        }
    }
    // The scale that moves the leading bit of `v` to bit 52.
    let mut q: u64 = 1;
    let mut j: u64 = k;
    while j < 52
        invariant
            k <= j <= 52,
            q == pow2((j - k) as nat),
            q <= pow2((52 - k) as nat),
            pow2((52 - k) as nat) <= 0x10_0000_0000_0000u64,
        decreases 52 - j,
    {
        proof {
            lemma_pow2_unfold((j + 1 - k) as nat);
            lemma_pow2_adds((j + 1 - k) as nat, (51 - j) as nat);
            assert((j + 1 - k) + (51 - j) == 52 - k);
            vstd::arithmetic::power2::lemma_pow2_pos((51 - j) as nat);
            assert(pow2((j + 1 - k) as nat) <= pow2((52 - k) as nat)) by (nonlinear_arith)
                requires
                    pow2((52 - k) as nat) == pow2((j + 1 - k) as nat) * pow2((51 - j) as nat),
                    pow2((51 - j) as nat) > 0,
            ;
        }
        q = q * 2;
        j = j + 1;
    }
    proof {
        lemma_pow2_adds(k as nat, (52 - k) as nat);
        assert(p * q == 0x10_0000_0000_0000u64);
        assert((v - p) * q < p * q) by (nonlinear_arith)
            requires
                v - p < p,
                q > 0,
        ;
    }
    let frac: u64 = (v - p) * q;
    let bits: u64 = (k + 1022) * 0x10_0000_0000_0000u64 + frac;
    proof {
        lemma_fundamental_div_mod_converse(bits as int, 0x10_0000_0000_0000int, (k + 1022) as int, frac as int);
        assert(0x10_0000_0000_0000 + frac == v * q) by (nonlinear_arith)
            requires
                p * q == 0x10_0000_0000_0000int,
                frac == (v - p) * q,
        ;
        assert((1074 - (k + 1022)) as nat == (52 - k) as nat);
    }
    bits
}

/// Whether a JSON value is a string with the text.
pub open spec fn is_text(v: JsonValue, text: Seq<char>) -> bool {
    v matches JsonValue::String(s) && s@ == text
}

/// Whether an object entry has the key and a string value with the text.
pub open spec fn is_text_entry(e: (String, JsonValue), key: Seq<char>, text: Seq<char>) -> bool {
    e.0@ == key && is_text(e.1, text)
}

/// Whether an object entry has the key and the unsigned integer value `n`.
pub open spec fn is_count_entry(e: (String, JsonValue), key: Seq<char>, n: nat) -> bool {
    &&& e.0@ == key
    &&& e.1 matches JsonValue::Number(JsonNumber::PosInt(m))
    &&& m == n
}

/// Whether an object entry has the key and, as value, the double `v / 2`.
pub open spec fn is_half_entry(e: (String, JsonValue), key: Seq<char>, v: nat) -> bool {
    &&& e.0@ == key
    &&& e.1 matches JsonValue::Number(JsonNumber::Float(b))
    &&& double_bits_are_half_of(b, v)
}

/// Whether an object entry has the key and, as value, an array of strings
/// with the texts in order.
pub open spec fn is_text_list_entry(e: (String, JsonValue), key: Seq<char>, texts: Seq<Seq<char>>) -> bool {
    &&& e.0@ == key
    &&& e.1 matches JsonValue::Array(items)
    &&& items@.len() == texts.len()
    &&& forall|j: int| 0 <= j < texts.len() ==> is_text(#[trigger] items@[j], texts[j])
}

fn text_entry(key: &str, text: String) -> (e: (String, JsonValue))
    ensures
        is_text_entry(e, key@, text@),
{
    (to_owned_string(key), JsonValue::String(text))
}

fn count_entry(key: &str, n: u64) -> (e: (String, JsonValue))
    ensures
        is_count_entry(e, key@, n as nat),
{
    (to_owned_string(key), JsonValue::Number(JsonNumber::PosInt(n)))
}

fn text_list(texts: &[&str]) -> (r: JsonValue)
    ensures
        r matches JsonValue::Array(items) && items@.len() == texts@.len()
            && forall|j: int| 0 <= j < texts@.len() ==> is_text(#[trigger] items@[j], texts@[j]@),
{
    let mut items: Vec<JsonValue> = Vec::new();
    let mut i: usize = 0;
    while i < texts.len()
        invariant
            i <= texts@.len(),
            items@.len() == i,
            forall|j: int| 0 <= j < i ==> is_text(#[trigger] items@[j], texts@[j]@),
        decreases texts@.len() - i,
    {
        items.push(JsonValue::String(to_owned_string(texts[i])));
        i = i + 1;
    }
    JsonValue::Array(items)
}

/// The product categories, taken in turn.
pub open spec fn product_categories() -> Seq<Seq<char>> {
    seq!["Electronics"@, "Clothing"@, "Books"@, "Home"@, "Sports"@]
}

/// The product names, taken in turn.
pub open spec fn product_names() -> Seq<Seq<char>> {
    seq!["Laptop"@, "Smartphone"@, "T-Shirt"@, "Jeans"@, "Novel"@,
        "Coffee Maker"@, "Basketball"@, "Headphones"@, "Watch"@, "Backpack"@]
}

/// The tag lists of products, taken in turn.
pub open spec fn product_tag_lists() -> Seq<Seq<Seq<char>>> {
    seq![seq!["new"@, "featured"@], seq!["sale"@, "popular"@], seq!["bestseller"@],
        seq!["limited"@], seq!["premium"@, "featured"@]]
}

fn product_category(k: u64) -> (r: &'static str)
    requires
        k < 5,
    ensures
        r@ == product_categories()[k as int],
{
    if k == 0 { "Electronics" } else if k == 1 { "Clothing" } else if k == 2 { "Books" }
    else if k == 3 { "Home" } else { "Sports" }
}

fn product_name(k: u64) -> (r: &'static str)
    requires
        k < 10,
    ensures
        r@ == product_names()[k as int],
{
    if k == 0 { "Laptop" } else if k == 1 { "Smartphone" } else if k == 2 { "T-Shirt" }
    else if k == 3 { "Jeans" } else if k == 4 { "Novel" } else if k == 5 { "Coffee Maker" }
    else if k == 6 { "Basketball" } else if k == 7 { "Headphones" } else if k == 8 { "Watch" }
    else { "Backpack" }
}

fn product_tags(k: u64) -> (r: JsonValue)
    requires
        k < 5,
    ensures
        r matches JsonValue::Array(items) && items@.len() == product_tag_lists()[k as int].len()
            && forall|j: int| 0 <= j < items@.len() ==> is_text(#[trigger] items@[j], product_tag_lists()[k as int][j]),
{
    if k == 0 {
        let r = text_list(&["new", "featured"]);
        proof { assert(["new", "featured"]@ =~= seq!["new", "featured"]); }
        r
    } else if k == 1 {
        let r = text_list(&["sale", "popular"]);
        proof { assert(["sale", "popular"]@ =~= seq!["sale", "popular"]); }
        r
    } else if k == 2 {
        let r = text_list(&["bestseller"]);
        proof { assert(["bestseller"]@ =~= seq!["bestseller"]); }
        r
    } else if k == 3 {
        let r = text_list(&["limited"]);
        proof { assert(["limited"]@ =~= seq!["limited"]); }
        r
    } else {
        let r = text_list(&["premium", "featured"]);
        proof { assert(["premium", "featured"]@ =~= seq!["premium", "featured"]); }
        r
    }
}

/// Whether a document is the `i`-th (from 0) sample product, made at the
/// time written `now`: its entries in the order of their keys.
pub open spec fn is_product_document(doc: JsonValue, i: nat, now: Seq<char>) -> bool {
    let name = product_names()[(i % 10) as int];
    &&& doc matches JsonValue::Object(e)
    &&& e@.len() == 9
    &&& is_text_entry(e@[0], "category"@, product_categories()[(i % 5) as int])
    &&& is_text_entry(e@[1], "created_at"@, now)
    &&& is_text_entry(e@[2], "description"@, "High quality "@ + ascii_lower(name) + " for your needs"@)
    &&& is_text_entry(e@[3], "name"@, name + " "@ + decimal(i + 1))
    &&& is_half_entry(e@[4], "price"@, 20 + (11 * i) % 1000)
    &&& is_text_entry(e@[5], "product_id"@, product_id(i))
    &&& is_count_entry(e@[6], "stock"@, (i * 7) % 100)
    &&& is_text_list_entry(e@[7], "tags"@, product_tag_lists()[(i % 5) as int])
    &&& is_text_entry(e@[8], "updated_at"@, now)
}

/// The product identifier of position `i` (from 0).
pub open spec fn product_id(i: nat) -> Seq<char> {
    "PROD-"@ + zero_pad(decimal(i + 1), 5)
}

/// Sample products at different positions have different identifiers.
pub proof fn law_product_ids_distinct(i: nat, j: nat)
    requires
        i != j,
    ensures
        product_id(i) != product_id(j),
{
    if product_id(i) == product_id(j) {
        reveal_strlit("PROD-");
        let a = zero_pad(decimal(i + 1), 5);
        let b = zero_pad(decimal(j + 1), 5);
        assert(a =~= product_id(i).subrange(5, product_id(i).len() as int));
        assert(b =~= product_id(j).subrange(5, product_id(j).len() as int));
        lemma_decimal_len(i + 1);
        lemma_decimal_len(j + 1);
        lemma_decimal_leading_digit(i + 1);
        lemma_decimal_leading_digit(j + 1);
        lemma_zero_pad_injective(decimal(i + 1), decimal(j + 1), 5);
        lemma_decimal_injective(i + 1, j + 1);
    }
}

/// Whether a document is the `i`-th (from 0) sample product, made at
/// some time.
pub open spec fn is_sample_product(doc: JsonValue, i: nat) -> bool {
    exists|t: Seq<char>| is_product_document(doc, i, t)
}

/// The `i`-th (from 0) sample product, made at the time written `now`:
/// price `10 + (5.5 * i) % 500`, stock `(7 * i) % 100`.
pub fn product_document(i: u64, now: &str) -> (r: JsonValue)
    requires
        i < 1_000_000_000_000,
    ensures
        is_product_document(r, i as nat, now@),
{
    let name = product_name(i % 10);
    let number = u64_to_decimal(i + 1);
    let lower = to_ascii_lower(name);
    let padded = pad_zeros(number.as_str(), 5);
    let price = half_as_double_bits(20 + (11 * i) % 1000);
    let tags = product_tags(i % 5);
    let mut e: Vec<(String, JsonValue)> = Vec::new();
    e.push(text_entry("category", to_owned_string(product_category(i % 5))));
    e.push(text_entry("created_at", to_owned_string(now)));
    e.push(text_entry("description", concat3("High quality ", lower.as_str(), " for your needs")));
    e.push(text_entry("name", concat3(name, " ", number.as_str())));
    e.push((to_owned_string("price"), JsonValue::Number(JsonNumber::Float(price))));
    e.push(text_entry("product_id", concat2("PROD-", padded.as_str())));
    e.push(count_entry("stock", (i * 7) % 100));
    e.push((to_owned_string("tags"), tags));
    e.push(text_entry("updated_at", to_owned_string(now)));
    JsonValue::Object(e)
}

/// `count` sample products, each made at the time of its making.
/// `None` where the clock cannot be read or a time lies out of chrono's
/// range.
pub fn generate_products(count: usize) -> (r: Option<Vec<JsonValue>>)
    requires
        count <= 1_000_000_000_000,
    ensures
        r matches Some(docs) ==> docs@.len() == count,
        r matches Some(docs) ==> forall|i: int| 0 <= i < count ==> #[trigger] is_sample_product(docs@[i], i as nat),
{
    let mut docs: Vec<JsonValue> = Vec::new();
    let mut i: usize = 0;
    while i < count
        invariant
            i <= count <= 1_000_000_000_000,
            docs@.len() == i,
            forall|j: int| 0 <= j < i ==> #[trigger] is_sample_product(docs@[j], j as nat),
        decreases count - i,
    {
        let now = match rfc3339_seconds_ago(0) {
            Some(t) => t,
            None => return None,
        };
        let doc = product_document(i as u64, now.as_str());
        proof {
            assert(is_product_document(doc, i as nat, now@));
        }
        docs.push(doc);
        i = i + 1;
    }
    Some(docs)
}

/// The log levels, taken in turn.
pub open spec fn log_levels() -> Seq<Seq<char>> {
    seq!["INFO"@, "WARN"@, "ERROR"@, "DEBUG"@]
}

/// The services that log, taken in turn.
pub open spec fn log_services() -> Seq<Seq<char>> {
    seq!["api-gateway"@, "auth-service"@, "user-service"@, "payment-service"@]
}

/// The hosts that log, taken in turn.
pub open spec fn log_hosts() -> Seq<Seq<char>> {
    seq!["host-01"@, "host-02"@, "host-03"@]
}

/// The log messages, taken in turn.
pub open spec fn log_messages() -> Seq<Seq<char>> {
    seq!["Request processed successfully"@, "Database connection timeout"@,
        "User authentication failed"@, "Payment processed"@, "Cache miss for key"@,
        "Rate limit exceeded"@, "Service health check passed"@]
}

fn log_level(k: u64) -> (r: &'static str)
    requires
        k < 4,
    ensures
        r@ == log_levels()[k as int],
{
    if k == 0 { "INFO" } else if k == 1 { "WARN" } else if k == 2 { "ERROR" } else { "DEBUG" }
}

fn log_service(k: u64) -> (r: &'static str)
    requires
        k < 4,
    ensures
        r@ == log_services()[k as int],
{
    if k == 0 { "api-gateway" } else if k == 1 { "auth-service" } else if k == 2 { "user-service" }
    else { "payment-service" }
}

fn log_host(k: u64) -> (r: &'static str)
    requires
        k < 3,
    ensures
        r@ == log_hosts()[k as int],
{
    if k == 0 { "host-01" } else if k == 1 { "host-02" } else { "host-03" }
}

fn log_message(k: u64) -> (r: &'static str)
    requires
        k < 7,
    ensures
        r@ == log_messages()[k as int],
{
    if k == 0 { "Request processed successfully" } else if k == 1 { "Database connection timeout" }
    else if k == 2 { "User authentication failed" } else if k == 3 { "Payment processed" }
    else if k == 4 { "Cache miss for key" } else if k == 5 { "Rate limit exceeded" }
    else { "Service health check passed" }
}

/// Whether a document is the `i`-th (from 0) sample log line, stamped
/// with the time written `timestamp`: its entries in the order of their
/// keys.
pub open spec fn is_log_document(doc: JsonValue, i: nat, timestamp: Seq<char>) -> bool {
    &&& doc matches JsonValue::Object(e)
    &&& e@.len() == 8
    &&& is_count_entry(e@[0], "duration_ms"@, (i * 13) % 5000)
    &&& is_text_entry(e@[1], "host"@, log_hosts()[(i % 3) as int])
    &&& is_text_entry(e@[2], "level"@, log_levels()[(i % 4) as int])
    &&& is_text_entry(e@[3], "message"@, log_messages()[(i % 7) as int] + " - Request #"@ + decimal(i + 1))
    &&& is_text_entry(e@[4], "request_id"@, "req-"@ + zero_pad(hex_lower(i), 8))
    &&& is_text_entry(e@[5], "service"@, log_services()[(i % 4) as int])
    &&& is_text_entry(e@[6], "timestamp"@, timestamp)
    &&& is_text_entry(e@[7], "user_id"@, "user_"@ + decimal(i % 50 + 1))
}

/// Whether a document is the `i`-th (from 0) sample log line, stamped
/// with some time.
pub open spec fn is_sample_log(doc: JsonValue, i: nat) -> bool {
    exists|t: Seq<char>| is_log_document(doc, i, t)
}

/// The `i`-th (from 0) sample log line, stamped with the time written
/// `timestamp`.
pub fn log_document(i: u64, timestamp: &str) -> (r: JsonValue)
    requires
        i < 1_000_000_000_000,
    ensures
        is_log_document(r, i as nat, timestamp@),
{
    let number = u64_to_decimal(i + 1);
    let hex = u64_to_hex(i);
    let padded = pad_zeros(hex.as_str(), 8);
    let user = u64_to_decimal(i % 50 + 1);
    let mut message = concat2(log_message(i % 7), " - Request #");
    push_str(&mut message, number.as_str());
    let mut e: Vec<(String, JsonValue)> = Vec::new();
    e.push(count_entry("duration_ms", (i * 13) % 5000));
    e.push(text_entry("host", to_owned_string(log_host(i % 3))));
    e.push(text_entry("level", to_owned_string(log_level(i % 4))));
    e.push(text_entry("message", message));
    e.push(text_entry("request_id", concat2("req-", padded.as_str())));
    e.push(text_entry("service", to_owned_string(log_service(i % 4))));
    e.push(text_entry("timestamp", to_owned_string(timestamp)));
    e.push(text_entry("user_id", concat2("user_", user.as_str())));
    JsonValue::Object(e)
}

/// Whether a document is the `i`-th sample log line, stamped with the RFC 3339
/// text of the instant `secs` whole seconds and `nanos` nanoseconds past
/// the Unix epoch.
pub open spec fn is_log_line_at(doc: JsonValue, i: int, secs: int, nanos: int) -> bool {
    &&& rfc3339_utc(secs, nanos) is Some
    &&& is_log_document(doc, i as nat, rfc3339_utc(secs, nanos)->Some_0)
}

/// Whether each of the documents is the sample log line of its position, stamped
/// 60 seconds per position before the instant of `secs` whole seconds
/// and `nanos` nanoseconds past the Unix epoch: document `i` at
/// `secs - 60 * i`.
pub open spec fn logs_stamped_from(docs: Seq<JsonValue>, secs: int, nanos: int) -> bool {
    forall|i: int| 0 <= i < docs.len() ==> #[trigger] is_log_line_at(docs[i], i, secs - 60 * i, nanos)
}

/// Appending the next document, stamped at its place, keeps the documents
/// stamped from the same instant.
proof fn lemma_logs_stamped_from_push(docs: Seq<JsonValue>, secs: int, nanos: int, doc: JsonValue, t: Seq<char>)
    requires
        logs_stamped_from(docs, secs, nanos),
        rfc3339_utc(secs - 60 * docs.len(), nanos) == Some(t),
        is_log_document(doc, docs.len(), t),
    ensures
        logs_stamped_from(docs.push(doc), secs, nanos),
{
    let d = docs.push(doc);
    assert forall|i: int| 0 <= i < d.len() implies #[trigger] is_log_line_at(d[i], i, secs - 60 * i, nanos) by {
        if i < docs.len() {
            assert(d[i] == docs[i]);
            assert(is_log_line_at(docs[i], i, secs - 60 * i, nanos));
        }
    }
}

/// Whether the documents are log lines stamped from one reading of the clock:
/// some instant at or after the Unix epoch.
pub open spec fn logs_from_one_reading(docs: Seq<JsonValue>) -> bool {
    exists|secs: int, nanos: int| 0 <= secs && 0 <= nanos < 1_000_000_000 && #[trigger] logs_stamped_from(docs, secs, nanos)
}

/// Consecutive documents stamped from one instant lie a minute apart: the one
/// at position `i + 1` is stamped 60 seconds before the one at `i`, with the
/// same nanoseconds; and the first is stamped at the instant itself.
pub proof fn law_log_lines_a_minute_apart(docs: Seq<JsonValue>, secs: int, nanos: int, i: int)
    requires
        logs_stamped_from(docs, secs, nanos),
        0 <= i,
        i + 1 < docs.len(),
    ensures
        is_log_line_at(docs[0], 0, secs, nanos),
        exists|t: int| #[trigger] is_log_line_at(docs[i], i, t, nanos) && is_log_line_at(docs[i + 1], i + 1, t - 60, nanos),
{
    assert(is_log_line_at(docs[0], 0, secs - 60 * 0, nanos));
    assert(is_log_line_at(docs[i], i, secs - 60 * i, nanos));
    assert(is_log_line_at(docs[i + 1], i + 1, secs - 60 * (i + 1), nanos));
    assert(secs - 60 * (i + 1) == (secs - 60 * i) - 60);
}

/// `count` sample log lines, the `i`-th stamped `i` minutes before one
/// reading of the clock.
/// `None` where the clock cannot be read or a time lies out of chrono's
/// range.
pub fn generate_logs(count: usize) -> (r: Option<Vec<JsonValue>>)
    requires
        count <= 133_333_333_333,
    ensures
        r matches Some(docs) ==> docs@.len() == count,
        r matches Some(docs) ==> forall|i: int| 0 <= i < count ==> #[trigger] is_sample_log(docs@[i], i as nat),
        r matches Some(docs) ==> logs_from_one_reading(docs@),
{
    let mut docs: Vec<JsonValue> = Vec::new();
    if count == 0 {
        proof {
            assert(logs_stamped_from(docs@, 0, 0));
            assert(logs_from_one_reading(docs@));
        }
        return Some(docs);
    }
    let (now_secs, now_nanos) = match clock_now() {
        Some(p) => p,
        None => return None,
    };
    let mut i: usize = 0;
    while i < count
        invariant
            i <= count <= 133_333_333_333,
            0 <= now_secs,
            now_nanos < 1_000_000_000,
            docs@.len() == i,
            forall|j: int| 0 <= j < i ==> #[trigger] is_sample_log(docs@[j], j as nat),
            logs_stamped_from(docs@, now_secs as int, now_nanos as int),
        decreases count - i,
    {
        let stamp = match rfc3339_at(now_secs - (i as i64) * 60, now_nanos) {
            Some(t) => t,
            None => return None,
        };
        let doc = log_document(i as u64, stamp.as_str());
        proof {
            assert(is_log_document(doc, i as nat, stamp@));
            assert((now_secs - (i as i64) * 60) as int == now_secs as int - 60 * docs@.len());
            lemma_logs_stamped_from_push(docs@, now_secs as int, now_nanos as int, doc, stamp@);
        }
        docs.push(doc);
        i = i + 1;
    }
    proof {
        assert(logs_stamped_from(docs@, now_secs as int, now_nanos as int));
        assert(logs_from_one_reading(docs@));
    }
    Some(docs)
}

/// The kinds of analytics events, taken in turn.
pub open spec fn event_types() -> Seq<Seq<char>> {
    seq!["page_view"@, "click"@, "purchase"@, "signup"@, "logout"@]
}

/// The pages of analytics events, taken in turn.
pub open spec fn event_pages() -> Seq<Seq<char>> {
    seq!["/home"@, "/products"@, "/cart"@, "/checkout"@, "/profile"@]
}

/// The referrers of analytics events, taken in turn.
pub open spec fn event_referrers() -> Seq<Seq<char>> {
    seq!["google.com"@, "facebook.com"@, "direct"@, "twitter.com"@]
}

/// The devices of analytics events, taken in turn.
pub open spec fn event_devices() -> Seq<Seq<char>> {
    seq!["desktop"@, "mobile"@, "tablet"@]
}

/// The browsers of analytics events, taken in turn.
pub open spec fn event_browsers() -> Seq<Seq<char>> {
    seq!["Chrome"@, "Firefox"@, "Safari"@, "Edge"@]
}

/// The countries of analytics events, taken in turn.
pub open spec fn event_countries() -> Seq<Seq<char>> {
    seq!["US"@, "UK"@, "JP"@, "DE"@, "FR"@]
}

/// The cities of analytics events, taken in turn.
pub open spec fn event_cities() -> Seq<Seq<char>> {
    seq!["New York"@, "London"@, "Tokyo"@, "Berlin"@, "Paris"@]
}

fn event_type(k: u64) -> (r: &'static str)
    requires
        k < 5,
    ensures
        r@ == event_types()[k as int],
{
    if k == 0 { "page_view" } else if k == 1 { "click" } else if k == 2 { "purchase" }
    else if k == 3 { "signup" } else { "logout" }
}

fn event_page(k: u64) -> (r: &'static str)
    requires
        k < 5,
    ensures
        r@ == event_pages()[k as int],
{
    if k == 0 { "/home" } else if k == 1 { "/products" } else if k == 2 { "/cart" }
    else if k == 3 { "/checkout" } else { "/profile" }
}

fn event_referrer(k: u64) -> (r: &'static str)
    requires
        k < 4,
    ensures
        r@ == event_referrers()[k as int],
{
    if k == 0 { "google.com" } else if k == 1 { "facebook.com" } else if k == 2 { "direct" }
    else { "twitter.com" }
}

fn event_device(k: u64) -> (r: &'static str)
    requires
        k < 3,
    ensures
        r@ == event_devices()[k as int],
{
    if k == 0 { "desktop" } else if k == 1 { "mobile" } else { "tablet" }
}

fn event_browser(k: u64) -> (r: &'static str)
    requires
        k < 4,
    ensures
        r@ == event_browsers()[k as int],
{
    if k == 0 { "Chrome" } else if k == 1 { "Firefox" } else if k == 2 { "Safari" } else { "Edge" }
}

fn event_country(k: u64) -> (r: &'static str)
    requires
        k < 5,
    ensures
        r@ == event_countries()[k as int],
{
    if k == 0 { "US" } else if k == 1 { "UK" } else if k == 2 { "JP" } else if k == 3 { "DE" } else { "FR" }
}

fn event_city(k: u64) -> (r: &'static str)
    requires
        k < 5,
    ensures
        r@ == event_cities()[k as int],
{
    if k == 0 { "New York" } else if k == 1 { "London" } else if k == 2 { "Tokyo" }
    else if k == 3 { "Berlin" } else { "Paris" }
}

/// Whether a document is the `i`-th (from 0) sample analytics event,
/// stamped with the time written `timestamp`: its entries in the order of
/// their keys. Five events in a row share a session.
pub open spec fn is_analytics_document(doc: JsonValue, i: nat, timestamp: Seq<char>) -> bool {
    &&& doc matches JsonValue::Object(e)
    &&& e@.len() == 10
    &&& is_text_entry(e@[0], "browser"@, event_browsers()[(i % 4) as int])
    &&& is_text_entry(e@[1], "city"@, event_cities()[(i % 5) as int])
    &&& is_text_entry(e@[2], "country"@, event_countries()[(i % 5) as int])
    &&& is_text_entry(e@[3], "device"@, event_devices()[(i % 3) as int])
    &&& is_text_entry(e@[4], "event_type"@, event_types()[(i % 5) as int])
    &&& is_text_entry(e@[5], "page_url"@, event_pages()[(i % 5) as int])
    &&& is_text_entry(e@[6], "referrer"@, event_referrers()[(i % 4) as int])
    &&& is_text_entry(e@[7], "session_id"@, "session_"@ + zero_pad(hex_lower(i / 5), 6))
    &&& is_text_entry(e@[8], "timestamp"@, timestamp)
    &&& is_text_entry(e@[9], "user_id"@, "user_"@ + decimal(i % 100 + 1))
}

/// Whether a document is the `i`-th (from 0) sample analytics event,
/// stamped with some time.
pub open spec fn is_sample_event(doc: JsonValue, i: nat) -> bool {
    exists|t: Seq<char>| is_analytics_document(doc, i, t)
}

/// The `i`-th (from 0) sample analytics event, stamped with the time
/// written `timestamp`.
pub fn analytics_document(i: u64, timestamp: &str) -> (r: JsonValue)
    ensures
        is_analytics_document(r, i as nat, timestamp@),
{
    let session = u64_to_hex(i / 5);
    let padded = pad_zeros(session.as_str(), 6);
    let user = u64_to_decimal(i % 100 + 1);
    let mut e: Vec<(String, JsonValue)> = Vec::new();
    e.push(text_entry("browser", to_owned_string(event_browser(i % 4))));
    e.push(text_entry("city", to_owned_string(event_city(i % 5))));
    e.push(text_entry("country", to_owned_string(event_country(i % 5))));
    e.push(text_entry("device", to_owned_string(event_device(i % 3))));
    e.push(text_entry("event_type", to_owned_string(event_type(i % 5))));
    e.push(text_entry("page_url", to_owned_string(event_page(i % 5))));
    e.push(text_entry("referrer", to_owned_string(event_referrer(i % 4))));
    e.push(text_entry("session_id", concat2("session_", padded.as_str())));
    e.push(text_entry("timestamp", to_owned_string(timestamp)));
    e.push(text_entry("user_id", concat2("user_", user.as_str())));
    JsonValue::Object(e)
}

/// Whether a document is the `i`-th sample analytics event, stamped with the RFC 3339
/// text of the instant `secs` whole seconds and `nanos` nanoseconds past
/// the Unix epoch.
pub open spec fn is_event_at(doc: JsonValue, i: int, secs: int, nanos: int) -> bool {
    &&& rfc3339_utc(secs, nanos) is Some
    &&& is_analytics_document(doc, i as nat, rfc3339_utc(secs, nanos)->Some_0)
}

/// Whether each of the documents is the sample analytics event of its position, stamped
/// 3600 seconds per position before the instant of `secs` whole seconds
/// and `nanos` nanoseconds past the Unix epoch: document `i` at
/// `secs - 3600 * i`.
pub open spec fn events_stamped_from(docs: Seq<JsonValue>, secs: int, nanos: int) -> bool {
    forall|i: int| 0 <= i < docs.len() ==> #[trigger] is_event_at(docs[i], i, secs - 3600 * i, nanos)
}

/// Appending the next document, stamped at its place, keeps the documents
/// stamped from the same instant.
proof fn lemma_events_stamped_from_push(docs: Seq<JsonValue>, secs: int, nanos: int, doc: JsonValue, t: Seq<char>)
    requires
        events_stamped_from(docs, secs, nanos),
        rfc3339_utc(secs - 3600 * docs.len(), nanos) == Some(t),
        is_analytics_document(doc, docs.len(), t),
    ensures
        events_stamped_from(docs.push(doc), secs, nanos),
{
    let d = docs.push(doc);
    assert forall|i: int| 0 <= i < d.len() implies #[trigger] is_event_at(d[i], i, secs - 3600 * i, nanos) by {
        if i < docs.len() {
            assert(d[i] == docs[i]);
            assert(is_event_at(docs[i], i, secs - 3600 * i, nanos));
        }
    }
}

/// Whether the documents are events stamped from one reading of the clock:
/// some instant at or after the Unix epoch.
pub open spec fn events_from_one_reading(docs: Seq<JsonValue>) -> bool {
    exists|secs: int, nanos: int| 0 <= secs && 0 <= nanos < 1_000_000_000 && #[trigger] events_stamped_from(docs, secs, nanos)
}

/// Consecutive documents stamped from one instant lie an hour apart: the one
/// at position `i + 1` is stamped 3600 seconds before the one at `i`, with the
/// same nanoseconds; and the first is stamped at the instant itself.
pub proof fn law_events_an_hour_apart(docs: Seq<JsonValue>, secs: int, nanos: int, i: int)
    requires
        events_stamped_from(docs, secs, nanos),
        0 <= i,
        i + 1 < docs.len(),
    ensures
        is_event_at(docs[0], 0, secs, nanos),
        exists|t: int| #[trigger] is_event_at(docs[i], i, t, nanos) && is_event_at(docs[i + 1], i + 1, t - 3600, nanos),
{
    assert(is_event_at(docs[0], 0, secs - 3600 * 0, nanos));
    assert(is_event_at(docs[i], i, secs - 3600 * i, nanos));
    assert(is_event_at(docs[i + 1], i + 1, secs - 3600 * (i + 1), nanos));
    assert(secs - 3600 * (i + 1) == (secs - 3600 * i) - 3600);
}

/// `count` sample analytics events, the `i`-th stamped `i` hours before
/// one reading of the clock.
/// `None` where the clock cannot be read or a time lies out of chrono's
/// range.
pub fn generate_analytics(count: usize) -> (r: Option<Vec<JsonValue>>)
    requires
        count <= 2_222_222_222,
    ensures
        r matches Some(docs) ==> docs@.len() == count,
        r matches Some(docs) ==> forall|i: int| 0 <= i < count ==> #[trigger] is_sample_event(docs@[i], i as nat),
        r matches Some(docs) ==> events_from_one_reading(docs@),
{
    let mut docs: Vec<JsonValue> = Vec::new();
    if count == 0 {
        proof {
            assert(events_stamped_from(docs@, 0, 0));
            assert(events_from_one_reading(docs@));
        }
        return Some(docs);
    }
    let (now_secs, now_nanos) = match clock_now() {
        Some(p) => p,
        None => return None,
    };
    let mut i: usize = 0;
    while i < count
        invariant
            i <= count <= 2_222_222_222,
            0 <= now_secs,
            now_nanos < 1_000_000_000,
            docs@.len() == i,
            forall|j: int| 0 <= j < i ==> #[trigger] is_sample_event(docs@[j], j as nat),
            events_stamped_from(docs@, now_secs as int, now_nanos as int),
        decreases count - i,
    {
        let stamp = match rfc3339_at(now_secs - (i as i64) * 3600, now_nanos) {
            Some(t) => t,
            None => return None,
        };
        let doc = analytics_document(i as u64, stamp.as_str());
        proof {
            assert(is_analytics_document(doc, i as nat, stamp@));
            assert((now_secs - (i as i64) * 3600) as int == now_secs as int - 3600 * docs@.len());
            lemma_events_stamped_from_push(docs@, now_secs as int, now_nanos as int, doc, stamp@);
        }
        docs.push(doc);
        i = i + 1;
    }
    proof {
        assert(events_stamped_from(docs@, now_secs as int, now_nanos as int));
        assert(events_from_one_reading(docs@));
    }
    Some(docs)
}

/// The sample index templates that can be loaded.
#[derive(Debug, Clone, Copy, PartialEq, Eq, Structural)]
pub enum SampleTemplate {
    EcommerceProducts,
    ApplicationLogs,
    UserAnalytics,
}

/// The answer to a request for a template that does not exist.
pub const INVALID_TEMPLATE_MESSAGE: &'static str = "Invalid template name";

/// The template of a name, if there is one of that name.
pub open spec fn template_of(name: Seq<char>) -> Option<SampleTemplate> {
    if name == "ecommerce_products"@ {
        Some(SampleTemplate::EcommerceProducts)
    } else if name == "application_logs"@ {
        Some(SampleTemplate::ApplicationLogs)
    } else if name == "user_analytics"@ {
        Some(SampleTemplate::UserAnalytics)
    } else {
        None
    }
}

/// The template of a name, if there is one of that name.
pub fn sample_template(name: &str) -> (r: Option<SampleTemplate>)
    ensures
        r == template_of(name@),
{
    if str_eq(name, "ecommerce_products") {
        Some(SampleTemplate::EcommerceProducts)
    } else if str_eq(name, "application_logs") {
        Some(SampleTemplate::ApplicationLogs)
    } else if str_eq(name, "user_analytics") {
        Some(SampleTemplate::UserAnalytics)
    } else {
        None
    }
}

/// The most documents a template makes in one go: the times written into
/// log lines and events must stay within the dates that can be held.
pub open spec fn sample_count_limit(template: SampleTemplate) -> nat {
    match template {
        SampleTemplate::EcommerceProducts => 1_000_000_000_000,
        SampleTemplate::ApplicationLogs => 133_333_333_333,
        SampleTemplate::UserAnalytics => 2_222_222_222,
    }
}

/// The most documents a template makes in one go.
pub fn max_sample_documents(template: SampleTemplate) -> (r: u64)
    ensures
        r == sample_count_limit(template),
{
    match template {
        SampleTemplate::EcommerceProducts => 1_000_000_000_000,
        SampleTemplate::ApplicationLogs => 133_333_333_333,
        SampleTemplate::UserAnalytics => 2_222_222_222,
    }
}

/// Whether a document is the `i`-th (from 0) sample document of the
/// template.
pub open spec fn is_sample_document(template: SampleTemplate, doc: JsonValue, i: nat) -> bool {
    match template {
        SampleTemplate::EcommerceProducts => is_sample_product(doc, i),
        SampleTemplate::ApplicationLogs => is_sample_log(doc, i),
        SampleTemplate::UserAnalytics => is_sample_event(doc, i),
    }
}

/// `count` sample documents of the template; `None` where the clock
/// cannot be read or a time lies out of chrono's range.
pub fn sample_documents(template: SampleTemplate, count: usize) -> (r: Option<Vec<JsonValue>>)
    requires
        count <= sample_count_limit(template),
    ensures
        r matches Some(docs) ==> docs@.len() == count,
        r matches Some(docs) ==> forall|i: int| 0 <= i < count ==> #[trigger] is_sample_document(template, docs@[i], i as nat),
{
    match template {
        SampleTemplate::EcommerceProducts => generate_products(count),
        SampleTemplate::ApplicationLogs => generate_logs(count),
        SampleTemplate::UserAnalytics => generate_analytics(count),
    }
}

/// The answer when the index of a sample template already exists.
pub fn sample_index_exists_message(index_name: &str) -> (r: String)
    ensures
        r@ == "Index '"@ + index_name@ + "' already exists"@,
{
    concat3("Index '", index_name, "' already exists")
}

/// The answer when a sample index has been made and filled.
pub fn sample_index_created_message(index_name: &str, inserted: u64) -> (r: String)
    ensures
        r@ == "Successfully created index '"@ + index_name@ + "' with "@ + decimal(inserted as nat) + " documents"@,
{
    let mut r = concat3("Successfully created index '", index_name, "' with ");
    let digits = u64_to_decimal(inserted);
    push_str(&mut r, digits.as_str());
    push_str(&mut r, " documents");
    r
}

} // verus!
