//! Where a request goes: the decisions between reading a request and
//! writing its response.

use vstd::prelude::*;
use vstd::string::*;
use crate::stats::TimeSeriesUnit;
use crate::storage::ADMIN;
use crate::text::{has_prefix, has_suffix};

verus! {

/// The part of the engine that answers a request, by its path.
#[derive(Debug, Clone, Copy, PartialEq, Eq, Structural)]
pub enum Route {
    /// An endpoint of a hosted application.
    Api,
    /// Signing in.
    Auth,
    /// The management of applications.
    Meta,
    Feedback,
    Status,
    /// The documentation, asked for without the closing slash.
    DocRedirect,
    /// A file of the documentation or of the user interface.
    File,
}

/// The part of the engine that answers a request for `path`.
pub open spec fn route_of(path: Seq<char>) -> Route {
    if "/a/"@.is_prefix_of(path) {
        Route::Api
    } else if "/auth/"@.is_prefix_of(path) {
        Route::Auth
    } else if "/meta/"@.is_prefix_of(path) {
        Route::Meta
    } else if "/feedback/"@.is_prefix_of(path) {
        Route::Feedback
    } else if path == "/status"@ {
        Route::Status
    } else if path == "/doc"@ {
        Route::DocRedirect
    } else {
        Route::File
    }
}

/// The part of the engine that answers a request for `path`.
pub fn route(path: &str) -> (r: Route)
    ensures
        r == route_of(path@),
{
    if has_prefix(path, "/a/") {
        Route::Api
    } else if has_prefix(path, "/auth/") {
        Route::Auth
    } else if has_prefix(path, "/meta/") {
        Route::Meta
    } else if has_prefix(path, "/feedback/") {
        Route::Feedback
    } else if path.eq("/status") {
        Route::Status
    } else if path.eq("/doc") {
        Route::DocRedirect
    } else {
        Route::File
    }
}

/// The file that answers a request which no other part of the engine
/// takes.
#[derive(Debug, PartialEq, Eq)]
pub enum StaticFile {
    /// A file of the documentation.
    Doc(String),
    /// A file of the user interface, if it exists, and the interface's
    /// entry page if it does not.
    Ui { candidate: String, fallback: String },
}

/// The file of the documentation that answers `path`, which begins with
/// `/doc/`: a directory is answered by its index page.
pub open spec fn doc_file(path: Seq<char>) -> Seq<char> {
    let rest = path.skip(5);
    if rest.len() == 0 || "/"@.is_suffix_of(rest) {
        "./doc/site/"@ + rest + "index.html"@
    } else {
        "./doc/site/"@ + rest
    }
}

/// The file that answers a request for `path`.
pub fn static_file(path: &str) -> (r: StaticFile)
    ensures
        match r {
            StaticFile::Doc(file) => "/doc/"@.is_prefix_of(path@) && file@ == doc_file(path@),
            StaticFile::Ui { candidate, fallback } => {
                &&& !"/doc/"@.is_prefix_of(path@)
                &&& candidate@ == "./ui/dist"@ + path@
                &&& fallback@ == "./ui/dist/index.html"@
            },
        },
{
    if has_prefix(path, "/doc/") {
        proof {
            reveal_strlit("/doc/");
        }
        let n = path.unicode_len();
        let sp = path.substring_char(5, n);
        assert(sp@ =~= path@.skip(5));
        let mut file = "./doc/site/".to_owned();
        file.append(sp);
        if sp.is_empty() || has_suffix(sp, "/") {
            file.append("index.html");
        }
        StaticFile::Doc(file)
    } else {
        let mut candidate = "./ui/dist".to_owned();
        candidate.append(path);
        StaticFile::Ui { candidate, fallback: "./ui/dist/index.html".to_owned() }
    }
}

/// The content type of a file, by the ending of its name.
pub open spec fn content_type_of(filename: Seq<char>) -> Seq<char> {
    if ".css"@.is_suffix_of(filename) {
        "text/css; charset=utf-8"@
    } else if ".js"@.is_suffix_of(filename) {
        "text/javascript; charset=utf-8"@
    } else if ".html"@.is_suffix_of(filename) {
        "text/html; charset=utf-8"@
    } else if ".png"@.is_suffix_of(filename) {
        "image/png"@
    } else if ".jpeg"@.is_suffix_of(filename) {
        "image/jpeg"@
    } else if ".gif"@.is_suffix_of(filename) {
        "image/gif"@
    } else {
        "text/plain"@
    }
}

/// The content type to send with the file `filename`.
pub fn guess_content_type(filename: &str) -> (r: &'static str)
    ensures
        r@ == content_type_of(filename@),
{
    if has_suffix(filename, ".css") {
        "text/css; charset=utf-8"
    } else if has_suffix(filename, ".js") {
        "text/javascript; charset=utf-8"
    } else if has_suffix(filename, ".html") {
        "text/html; charset=utf-8"
    } else if has_suffix(filename, ".png") {
        "image/png"
    } else if has_suffix(filename, ".jpeg") {
        "image/jpeg"
    } else if has_suffix(filename, ".gif") {
        "image/gif"
    } else {
        "text/plain"
    }
}

/// What a request below an application's path asks for.
#[derive(Debug, Clone, Copy, PartialEq, Eq, Structural)]
pub enum ApiRoute {
    Status,
    Stats,
    QueryCount,
    /// The users of the application.
    Auth,
    /// An endpoint that the application declares.
    Endpoint,
}

/// What a request for `api_path` below an application's path asks for.
pub open spec fn api_route_of(api_path: Seq<char>) -> ApiRoute {
    if api_path == "/__oct_status"@ {
        ApiRoute::Status
    } else if api_path == "/__oct_stats"@ {
        ApiRoute::Stats
    } else if api_path == "/__oct_query_count"@ {
        ApiRoute::QueryCount
    } else if "/auth"@.is_prefix_of(api_path) {
        ApiRoute::Auth
    } else {
        ApiRoute::Endpoint
    }
}

/// What a request for `api_path` below an application's path asks for.
pub fn api_route(api_path: &str) -> (r: ApiRoute)
    ensures
        r == api_route_of(api_path@),
{
    if api_path.eq("/__oct_status") {
        ApiRoute::Status
    } else if api_path.eq("/__oct_stats") {
        ApiRoute::Stats
    } else if api_path.eq("/__oct_query_count") {
        ApiRoute::QueryCount
    } else if has_prefix(api_path, "/auth") {
        ApiRoute::Auth
    } else {
        ApiRoute::Endpoint
    }
}

/// What a request to a model endpoint does.
#[derive(Debug, Clone, Copy, PartialEq, Eq, Structural)]
pub enum ModelOperation {
    /// List the rows, or get one by its id.
    Read,
    Create,
    Update,
    Delete,
}

/// What a request with the method `method` does to a model; no other
/// method than these four is supported.
pub open spec fn model_operation_of(method: Seq<char>) -> Option<ModelOperation> {
    if method == "GET"@ {
        Some(ModelOperation::Read)
    } else if method == "POST"@ {
        Some(ModelOperation::Create)
    } else if method == "PUT"@ {
        Some(ModelOperation::Update)
    } else if method == "DELETE"@ {
        Some(ModelOperation::Delete)
    } else {
        None
    }
}

/// What a request with the method `method` does to a model.
pub fn model_operation(method: &str) -> (r: Option<ModelOperation>)
    ensures
        r == model_operation_of(method@),
{
    if method.eq("GET") {
        Some(ModelOperation::Read)
    } else if method.eq("POST") {
        Some(ModelOperation::Create)
    } else if method.eq("PUT") {
        Some(ModelOperation::Update)
    } else if method.eq("DELETE") {
        Some(ModelOperation::Delete)
    } else {
        None
    }
}

/// The primary keys that a delete request names: those of its list, then
/// its single one.
pub open spec fn delete_keys_of(id: Option<i64>, pks: Option<Seq<i64>>) -> Seq<i64> {
    let list = match pks {
        Some(keys) => keys,
        None => Seq::empty(),
    };
    match id {
        Some(key) => list.push(key),
        None => list,
    }
}

/// The primary keys that a delete request names.
pub fn delete_keys(id: Option<i64>, pks: Option<Vec<i64>>) -> (r: Vec<i64>)
    ensures
        r@ == delete_keys_of(
            id,
            match pks {
                Some(keys) => Some(keys@),
                None => None,
            },
        ),
{
    let mut keys = match pks {
        Some(keys) => keys,
        None => Vec::new(),
    };
    if let Some(key) = id {
        keys.push(key);
    }
    keys
}

/// What a request to a query endpoint does.
#[derive(Debug, Clone, Copy, PartialEq, Eq, Structural)]
pub enum GraphqlOperation {
    /// Run the query that the request carries.
    Execute,
    /// Reserved: nothing answers it yet.
    NotImplemented,
}

/// What a request with the method `method` does to a query endpoint; no
/// other method than `GET` and `POST` is supported.
pub fn graphql_operation(method: &str) -> (r: Option<GraphqlOperation>)
    ensures
        r == if method@ == "GET"@ {
            Some(GraphqlOperation::Execute)
        } else if method@ == "POST"@ {
            Some(GraphqlOperation::NotImplemented)
        } else {
            None::<GraphqlOperation>
        },
{
    if method.eq("GET") {
        Some(GraphqlOperation::Execute)
    } else if method.eq("POST") {
        Some(GraphqlOperation::NotImplemented)
    } else {
        None
    }
}

/// What a request below an application's `/auth` path does.
#[derive(Debug, Clone, Copy, PartialEq, Eq, Structural)]
pub enum UserOperation {
    /// List the users of the application.
    List,
    /// Create a user of the application.
    Create,
    /// Nothing answers on the path.
    NotFound,
    /// The method is not supported.
    Unsupported,
    /// The caller is not the administrator.
    Denied,
}

/// What a request below an application's `/auth` path does: only the
/// administrator may list and create users.
pub open spec fn user_operation_of(api_path: Seq<char>, method: Seq<char>, uid: Option<i64>) -> UserOperation {
    if uid != Some(ADMIN) {
        UserOperation::Denied
    } else if method == "GET"@ {
        if api_path == "/auth/user"@ {
            UserOperation::List
        } else {
            UserOperation::NotFound
        }
    } else if method == "POST"@ {
        if api_path == "/auth/user"@ {
            UserOperation::Create
        } else {
            UserOperation::NotFound
        }
    } else {
        UserOperation::Unsupported
    }
}

/// What a request below an application's `/auth` path does.
pub fn user_operation(api_path: &str, method: &str, uid: Option<i64>) -> (r: UserOperation)
    ensures
        r == user_operation_of(api_path@, method@, uid),
{
    let admin = match uid {
        Some(id) => id == ADMIN,
        None => false,
    };
    if !admin {
        return UserOperation::Denied;
    }
    let known = api_path.eq("/auth/user");
    if method.eq("GET") {
        if known {
            UserOperation::List
        } else {
            UserOperation::NotFound
        }
    } else if method.eq("POST") {
        if known {
            UserOperation::Create
        } else {
            UserOperation::NotFound
        }
    } else {
        UserOperation::Unsupported
    }
}

/// The prefix of the counters of the application `handle`.
pub fn stats_prefix(handle: &str) -> (r: String)
    ensures
        r@ == "api."@ + handle@ + "."@,
{
    let mut out = "api.".to_owned();
    out.append(handle);
    out.append(".");
    out
}

/// The counter that counts the requests with the method `method` to the
/// endpoint `endpoint` of the application `handle`.
pub fn metric_name(handle: &str, endpoint: &str, method: &str) -> (r: String)
    ensures
        r@ == "api."@ + handle@ + "."@ + endpoint@ + "."@ + method@,
{
    let mut out = stats_prefix(handle);
    out.append(endpoint);
    out.append(".");
    out.append(method);
    out
}

/// The resolution that a request for the query counts asks for: per hour
/// unless it says otherwise, per day for `day`, and per minute for anything
/// else but `hour`.
pub fn query_unit(unit: Option<&str>) -> (r: TimeSeriesUnit)
    ensures
        r == (match unit {
            Some(x) => if x@ == "hour"@ {
                TimeSeriesUnit::Hourly
            } else if x@ == "day"@ {
                TimeSeriesUnit::Daily
            } else {
                TimeSeriesUnit::Minutely
            },
            None => TimeSeriesUnit::Hourly,
        }),
{
    match unit {
        Some(x) => {
            if x.eq("hour") {
                TimeSeriesUnit::Hourly
            } else if x.eq("day") {
                TimeSeriesUnit::Daily
            } else {
                TimeSeriesUnit::Minutely
            }
        },
        None => TimeSeriesUnit::Hourly,
    }
}

/// The pattern of the path of a request to a hosted application: `/a/`,
/// the application's handle in upper-case letters, and the path below it.
pub open spec fn api_path_pattern() -> Seq<char> {
    "/a/([A-Z]+)(/.*)"@
}

/// What the first two groups of the regular expression `pattern` capture
/// at its first match in `text`, if it matches.
pub uninterp spec fn captured_pair(pattern: Seq<char>, text: Seq<char>) -> Option<
    (Seq<char>, Seq<char>),
>;

/// `Regex::new` and `Regex::captures` of `regex`: the texts of the groups 1
/// and 2 of the leftmost match of `pattern` in `text`. Nothing is captured
/// where the pattern is not a regular expression, where it does not match,
/// or where one of the two groups took no part in the match.
#[verifier::external_body]
fn capture_pair(pattern: &str, text: &str) -> (r: Option<(String, String)>)
    ensures
        match r {
            Some(pair) => captured_pair(pattern@, text@) == Some((pair.0@, pair.1@)),
            None => captured_pair(pattern@, text@) is None,
        },
{
    let caps = regex::Regex::new(pattern).ok()?.captures(text)?;
    Some((caps.get(1)?.as_str().to_string(), caps.get(2)?.as_str().to_string()))
}

/// The handle of the application and the path below it that the path of a
/// request names.
pub fn split_api_path(path: &str) -> (r: Option<(String, String)>)
    ensures
        match r {
            Some(pair) => captured_pair(api_path_pattern(), path@) == Some((pair.0@, pair.1@)),
            None => captured_pair(api_path_pattern(), path@) is None,
        },
{
    capture_pair("/a/([A-Z]+)(/.*)", path)
}

/// The names and values that a query string holds, in order, with the
/// escapes of the URL encoding undone.
pub uninterp spec fn query_pairs(query: Seq<char>) -> Seq<(Seq<char>, Seq<char>)>;

/// `form_urlencoded::parse` of `url`, collected in order: the names and
/// values of a query string.
#[verifier::external_body]
fn parse_query_string(query: &str) -> (r: Vec<(String, String)>)
    ensures
        r@.len() == query_pairs(query@).len(),
        forall|i: int|
            0 <= i < r@.len() ==> (#[trigger] r@[i]).0@ == query_pairs(query@)[i].0 && r@[i].1@
                == query_pairs(query@)[i].1,
{
    url::form_urlencoded::parse(query.as_bytes()).into_owned().collect()
}

/// Whether `i` is the last position at which `pairs` holds the name `key`.
pub open spec fn is_last_named(pairs: Seq<(Seq<char>, Seq<char>)>, key: Seq<char>, i: int) -> bool {
    &&& 0 <= i < pairs.len()
    &&& pairs[i].0 == key
    &&& forall|j: int| i < j < pairs.len() ==> (#[trigger] pairs[j]).0 != key
}

/// The value that `pairs` holds for `key`: that of its last occurrence.
pub open spec fn last_value(pairs: Seq<(Seq<char>, Seq<char>)>, key: Seq<char>) -> Option<
    Seq<char>,
> {
    if exists|i: int| is_last_named(pairs, key, i) {
        Some(pairs[choose|i: int| is_last_named(pairs, key, i)].1)
    } else {
        None
    }
}

/// The value of the parameter `key` among `pairs`; where the name occurs
/// more than once, its last value counts.
pub fn find_param(pairs: &Vec<(String, String)>, key: &str) -> (r: Option<String>)
    ensures
        match r {
            Some(value) => last_value(
                Seq::new(pairs@.len(), |i: int| (pairs@[i].0@, pairs@[i].1@)),
                key@,
            ) == Some(value@),
            None => last_value(
                Seq::new(pairs@.len(), |i: int| (pairs@[i].0@, pairs@[i].1@)),
                key@,
            ) is None,
        },
{
    let ghost all = Seq::new(pairs@.len(), |i: int| (pairs@[i].0@, pairs@[i].1@));
    let mut i: usize = pairs.len();
    while i > 0
        invariant
            i <= pairs.len(),
            all == Seq::new(pairs@.len(), |i: int| (pairs@[i].0@, pairs@[i].1@)),
            forall|j: int| i <= j < pairs.len() ==> (#[trigger] all[j]).0 != key@,
        decreases i,
    {
        i -= 1;
        if pairs[i].0.as_str().eq(key) {
            proof {
                assert(is_last_named(all, key@, i as int));
                let k = choose|k: int| is_last_named(all, key@, k);
                if k < i {
                    assert(all[i as int].0 != key@);
                }
                if i < k {
                    assert(all[k].0 != key@);
                }
            }
            return Some(pairs[i].1.clone());
        }
    }
    assert forall|k: int| !is_last_named(all, key@, k) by {
        if is_last_named(all, key@, k) {
            assert(all[k].0 != key@);
        }
    }
    None
}

/// The value of the parameter `key` in the query string of a request, if
/// the request has a query string and it holds the parameter.
pub fn query_value(query: Option<&str>, key: &str) -> (r: Option<String>)
    ensures
        match query {
            Some(q) => match r {
                Some(value) => last_value(query_pairs(q@), key@) == Some(value@),
                None => last_value(query_pairs(q@), key@) is None,
            },
            None => r is None,
        },
{
    match query {
        Some(q) => {
            let pairs = parse_query_string(q);
            assert(Seq::new(pairs@.len(), |i: int| (pairs@[i].0@, pairs@[i].1@)) =~= query_pairs(
                q@,
            ));
            find_param(&pairs, key)
        },
        None => None,
    }
}

/// Whether `c` is a decimal digit.
pub open spec fn is_digit(c: char) -> bool {
    '0' <= c && c <= '9'
}

/// The number that the decimal digits `s` write.
pub open spec fn digits_value(s: Seq<char>) -> int
    decreases s.len(),
{
    if s.len() == 0 {
        0
    } else {
        10 * digits_value(s.drop_last()) + (s.last() as int - '0' as int)
    }
}

/// The digits of a decimal integer: what follows its sign, if it has one.
pub open spec fn digits_of(s: Seq<char>) -> Seq<char> {
    if s.len() > 0 && (s[0] == '-' || s[0] == '+') {
        s.skip(1)
    } else {
        s
    }
}

/// The integer that `s` writes in decimal: an optional sign and at least
/// one digit, nothing else, and a value that fits in 64 bits with a sign.
pub open spec fn integer_of(s: Seq<char>) -> Option<i64> {
    let digits = digits_of(s);
    let value = if s.len() > 0 && s[0] == '-' {
        -digits_value(digits)
    } else {
        digits_value(digits)
    };
    if digits.len() == 0 || !(forall|i: int| 0 <= i < digits.len() ==> is_digit(#[trigger] digits[i]))
        || value < i64::MIN || value > i64::MAX {
        None
    } else {
        Some(value as i64)
    }
}

/// The value of digits is not negative.
pub proof fn lemma_digits_not_negative(s: Seq<char>)
    requires
        forall|i: int| 0 <= i < s.len() ==> is_digit(#[trigger] s[i]),
    ensures
        0 <= digits_value(s),
    decreases s.len(),
{
    if s.len() > 0 {
        assert(is_digit(s[s.len() - 1]));
        assert forall|i: int| 0 <= i < s.drop_last().len() implies is_digit(
            #[trigger] s.drop_last()[i],
        ) by {
            assert(s.drop_last()[i] == s[i]);
        }
        lemma_digits_not_negative(s.drop_last());
    }
}

/// The integer that `text` writes in decimal.
pub fn parse_integer(text: &str) -> (r: Option<i64>)
    ensures
        r == integer_of(text@),
{
    let n = text.unicode_len();
    if n == 0 {
        return None;
    }
    let first = text.get_char(0);
    let negative = first == '-';
    let start: usize = if first == '-' || first == '+' {
        1
    } else {
        0
    };
    let ghost digits = digits_of(text@);
    assert(digits =~= text@.skip(start as int));
    if start == n {
        return None;
    }
    // the value so far, or a witness that it has left the range for good
    let mut value: u128 = 0;
    let limit: u128 = 9_223_372_036_854_775_808;
    let mut i: usize = start;
    assert(digits.take(0) =~= Seq::<char>::empty());
    while i < n
        invariant
            start <= i <= n,
            n == text@.len(),
            digits == text@.skip(start as int),
            digits == digits_of(text@),
            limit == 9_223_372_036_854_775_808,
            forall|j: int| 0 <= j < i - start ==> is_digit(#[trigger] digits[j]),
            value <= limit ==> value == digits_value(digits.take(i - start)),
            value > limit ==> value == limit + 1 && digits_value(digits.take(i - start)) > limit,
        decreases n - i,
    {
        let c = text.get_char(i);
        assert(c == digits[i - start]);
        if !('0' <= c && c <= '9') {
            assert(!is_digit(digits[i - start]));
            return None;
        }
        proof {
            assert(digits.take(i - start + 1).drop_last() =~= digits.take(i - start));
            assert(digits.take(i - start + 1).last() == c);
        }
        if value <= limit {
            value = value * 10 + ((c as u32 - '0' as u32) as u128);
            if value > limit {
                value = limit + 1;
            }
        } else {
            proof {
                lemma_digits_not_negative(digits.take(i - start));
            }
        }
        i += 1;
    }
    assert(digits.take(n - start) =~= digits);
    if negative {
        if value > limit {
            None
        } else if value == limit {
            Some(i64::MIN)
        } else {
            Some(-(value as i64))
        }
    } else {
        if value >= limit {
            None
        } else {
            Some(value as i64)
        }
    }
}

/// The row that a read request names by its `id` parameter, if the
/// parameter is there and writes an integer.
pub fn requested_id(id: Option<&str>) -> (r: Option<i64>)
    ensures
        r == (match id {
            Some(text) => integer_of(text@),
            None => None,
        }),
{
    match id {
        Some(text) => parse_integer(text),
        None => None,
    }
}

} // verus!
