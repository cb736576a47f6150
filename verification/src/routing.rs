//! Routing of HTTP request paths to the pages, the API and the log files.

use vstd::prelude::*;
use vstd::string::*;

use crate::text::{find_from, lemma_find_from, str_eq, bytes_eq, find_char_from, substring_owned};

verus! {

/// A query against the schedule, addressed by the path below `/v1/query/`.
#[derive(Clone, Debug)]
pub struct Query {
    pub path: String,
}

#[derive(Clone, Debug)]
pub enum ApiRoute {
    Graphql,
    Graphiql,
    Status,
    Peers,
    Schedule,
    SchedulerInput,
    SchedulerDebugInfo,
    Election,
    Backups,
    Backup(String),
    PushAction,
    WaitAction,
    ActionIsPending(u64),
    PendingActions,
    RolesData,
    Query(Query),
    ForceRenderAll,
    RedirectByNodeName,
}

#[derive(Clone, Debug)]
pub enum LogRoute {
    Index(String),
    Global(String),
    Changes(String),
    Role(String),
    External(String),
}

/// Output format of an API reply.
#[derive(Clone, Debug, Copy, PartialEq, Eq, Structural)]
pub enum Format {
    Json,
    Gron,
    Plain,
}

#[derive(Clone, Debug)]
pub enum Route {
    CommonIndex,
    CommonStatic(String),
    AlterIndex(String),
    AlterStatic(String),
    Api(ApiRoute, Format),
    Log(LogRoute),
    WasmScheduler,
    WasmQuery,
    NotFound,
    BadContentType,
}

/// `ApiRoute` with its strings taken as character sequences.
pub enum ApiRouteView {
    Graphql,
    Graphiql,
    Status,
    Peers,
    Schedule,
    SchedulerInput,
    SchedulerDebugInfo,
    Election,
    Backups,
    Backup(Seq<char>),
    PushAction,
    WaitAction,
    ActionIsPending(u64),
    PendingActions,
    RolesData,
    Query(Seq<char>),
    ForceRenderAll,
    RedirectByNodeName,
}

/// `LogRoute` with its strings taken as character sequences.
pub enum LogRouteView {
    Index(Seq<char>),
    Global(Seq<char>),
    Changes(Seq<char>),
    Role(Seq<char>),
    External(Seq<char>),
}

/// `Route` with its strings taken as character sequences.
pub enum RouteView {
    CommonIndex,
    CommonStatic(Seq<char>),
    AlterIndex(Seq<char>),
    AlterStatic(Seq<char>),
    Api(ApiRouteView, Format),
    Log(LogRouteView),
    WasmScheduler,
    WasmQuery,
    NotFound,
    BadContentType,
}

impl View for ApiRoute {
    type V = ApiRouteView;

    open spec fn view(&self) -> ApiRouteView {
        match self {
            ApiRoute::Graphql => ApiRouteView::Graphql,
            ApiRoute::Graphiql => ApiRouteView::Graphiql,
            ApiRoute::Status => ApiRouteView::Status,
            ApiRoute::Peers => ApiRouteView::Peers,
            ApiRoute::Schedule => ApiRouteView::Schedule,
            ApiRoute::SchedulerInput => ApiRouteView::SchedulerInput,
            ApiRoute::SchedulerDebugInfo => ApiRouteView::SchedulerDebugInfo,
            ApiRoute::Election => ApiRouteView::Election,
            ApiRoute::Backups => ApiRouteView::Backups,
            ApiRoute::Backup(s) => ApiRouteView::Backup(s@),
            ApiRoute::PushAction => ApiRouteView::PushAction,
            ApiRoute::WaitAction => ApiRouteView::WaitAction,
            ApiRoute::ActionIsPending(n) => ApiRouteView::ActionIsPending(*n),
            ApiRoute::PendingActions => ApiRouteView::PendingActions,
            ApiRoute::RolesData => ApiRouteView::RolesData,
            ApiRoute::Query(q) => ApiRouteView::Query(q.path@),
            ApiRoute::ForceRenderAll => ApiRouteView::ForceRenderAll,
            ApiRoute::RedirectByNodeName => ApiRouteView::RedirectByNodeName,
        }
    }
}

impl View for LogRoute {
    type V = LogRouteView;

    open spec fn view(&self) -> LogRouteView {
        match self {
            LogRoute::Index(s) => LogRouteView::Index(s@),
            LogRoute::Global(s) => LogRouteView::Global(s@),
            LogRoute::Changes(s) => LogRouteView::Changes(s@),
            LogRoute::Role(s) => LogRouteView::Role(s@),
            LogRoute::External(s) => LogRouteView::External(s@),
        }
    }
}

impl View for Route {
    type V = RouteView;

    open spec fn view(&self) -> RouteView {
        match self {
            Route::CommonIndex => RouteView::CommonIndex,
            Route::CommonStatic(s) => RouteView::CommonStatic(s@),
            Route::AlterIndex(s) => RouteView::AlterIndex(s@),
            Route::AlterStatic(s) => RouteView::AlterStatic(s@),
            Route::Api(a, f) => RouteView::Api(a@, *f),
            Route::Log(l) => RouteView::Log(l@),
            Route::WasmScheduler => RouteView::WasmScheduler,
            Route::WasmQuery => RouteView::WasmQuery,
            Route::NotFound => RouteView::NotFound,
            Route::BadContentType => RouteView::BadContentType,
        }
    }
}

/// Where the first component starts: after one leading slash, if any.
pub open spec fn component_start(path: Seq<char>) -> int {
    if path.len() > 0 && path[0] == '/' { 1 } else { 0 }
}

/// Splits a path into its first component and the rest.
///
/// One leading slash is skipped. When a further slash follows, the
/// component ends there and the rest starts after it. Otherwise the
/// component ends at the first dot (the extension is dropped) and the rest
/// is empty.
pub open spec fn path_component_spec(path: Seq<char>) -> (Seq<char>, Seq<char>) {
    let b = component_start(path);
    let slash = find_from(path, '/', b);
    if slash < path.len() {
        (path.subrange(b, slash), path.subrange(slash + 1, path.len() as int))
    } else {
        let dot = find_from(path, '.', b);
        (path.subrange(b, dot), Seq::empty())
    }
}

/// Splits a path into its first component and the rest (see
/// `path_component_spec`).
pub fn path_component(path: &str) -> (r: (&str, &str))
    ensures
        (r.0@, r.1@) == path_component_spec(path@),
{
    let n = path.unicode_len();
    let b: usize = if n > 0 && path.get_char(0) == '/' { 1 } else { 0 };
    let slash = find_char_from(path, '/', b);
    proof { lemma_find_from(path@, '/', b as int); }
    if slash < n {
        (path.substring_char(b, slash), path.substring_char(slash + 1, n))
    } else {
        let dot = find_char_from(path, '.', b);
        proof { lemma_find_from(path@, '.', b as int); }
        (path.substring_char(b, dot), path.substring_char(n, n))
    }
}

/// Index of the last dot or slash before `end`, or -1 when there is none.
pub open spec fn last_separator(s: Seq<char>, end: int) -> int
    decreases end,
{
    if end <= 0 {
        -1
    } else if s[end - 1] == '.' || s[end - 1] == '/' {
        end - 1
    } else {
        last_separator(s, end - 1)
    }
}

pub proof fn lemma_last_separator(s: Seq<char>, end: int)
    requires
        0 <= end <= s.len(),
    ensures
        -1 <= last_separator(s, end) < end,
        last_separator(s, end) >= 0 ==> (s[last_separator(s, end)] == '.' || s[last_separator(
            s,
            end,
        )] == '/'),
    decreases end,
{
    if end > 0 && !(s[end - 1] == '.' || s[end - 1] == '/') {
        lemma_last_separator(s, end - 1);
    }
}

/// The extension of the last path component: what follows the last dot
/// when no slash comes after it, else nothing.
pub open spec fn suffix_spec(path: Seq<char>) -> Seq<char> {
    let i = last_separator(path, path.len() as int);
    if i >= 0 && path[i] == '.' {
        path.subrange(i + 1, path.len() as int)
    } else {
        Seq::empty()
    }
}

/// The extension of the last path component (see `suffix_spec`).
pub fn suffix(path: &str) -> (r: &str)
    ensures
        r@ == suffix_spec(path@),
{
    let n = path.unicode_len();
    let mut end = n;
    while end > 0
        invariant
            n == path@.len(),
            0 <= end <= n,
            last_separator(path@, n as int) == last_separator(path@, end as int),
        decreases end,
    {
        let c = path.get_char(end - 1);
        if c == '.' {
            return path.substring_char(end, n);
        }
        if c == '/' {
            return path.substring_char(n, n);
        }
        end = end - 1;
    }
    path.substring_char(n, n)
}

/// Reply format chosen by the extension of an API path.
pub open spec fn api_suffix_spec(path: Seq<char>) -> Format {
    let s = suffix_spec(path);
    if s == "pretty"@ {
        Format::Plain
    } else if s == "gron"@ {
        Format::Gron
    } else {
        Format::Json
    }
}

/// Reply format chosen by the extension of an API path: `.pretty` gives
/// indented JSON, `.gron` gives gron, anything else plain JSON.
pub fn api_suffix(path: &str) -> (r: Format)
    ensures
        r == api_suffix_spec(path@),
{
    let s = suffix(path);
    if str_eq(s, "pretty") {
        Format::Plain
    } else if str_eq(s, "gron") {
        Format::Gron
    } else {
        Format::Json
    }
}

/// A `..` component starting at index `i`.
pub open spec fn parent_dir_at(p: Seq<char>, i: int) -> bool {
    &&& 0 <= i
    &&& i + 2 <= p.len()
    &&& p[i] == '.'
    &&& p[i + 1] == '.'
    &&& (i == 0 || p[i - 1] == '/')
    &&& (i + 2 == p.len() || p[i + 2] == '/')
}

/// A relative path made of plain names only: it does not start at the
/// root, does not start with a `.` component and has no `..` component
/// (repeated slashes, inner `.` components and a trailing slash are
/// harmless, as they are for `std::path::Path::components`).
pub open spec fn valid_path_spec(p: Seq<char>) -> bool {
    &&& !(p.len() > 0 && p[0] == '/')
    &&& !(p.len() > 0 && p[0] == '.' && (p.len() == 1 || p[1] == '/'))
    &&& forall|i: int| !#[trigger] parent_dir_at(p, i)
}

/// Whether a path is a relative path made of plain names only (see
/// `valid_path_spec`).
pub fn validate_path(path: &str) -> (r: bool)
    ensures
        r == valid_path_spec(path@),
{
    let n = path.unicode_len();
    if n > 0 && path.get_char(0) == '/' {
        return false;
    }
    if n > 0 && path.get_char(0) == '.' && (n == 1 || path.get_char(1) == '/') {
        return false;
    }
    let mut i: usize = 0;
    while i < n
        invariant
            n == path@.len(),
            0 <= i <= n,
            forall|j: int| 0 <= j < i ==> !#[trigger] parent_dir_at(path@, j),
        decreases n - i,
    {
        if i + 1 < n && path.get_char(i) == '.' && path.get_char(i + 1) == '.' && (i == 0
            || path.get_char(i - 1) == '/') && (i + 2 == n || path.get_char(i + 2) == '/') {
            assert(parent_dir_at(path@, i as int));
            return false;
        }
        i = i + 1;
    }
    assert forall|j: int| !#[trigger] parent_dir_at(path@, j) by {
        if 0 <= j < n {
        }
    }
    true
}

/// Parses a log route: `index`, `global`, `changes`, `role` or `external`
/// followed by the path of the file, which must be a relative path of plain
/// names.
pub open spec fn parse_log_route_spec(path: Seq<char>) -> Option<LogRouteView> {
    if !valid_path_spec(path) {
        None
    } else {
        let (c, tail) = path_component_spec(path);
        if c == "index"@ {
            Some(LogRouteView::Index(tail))
        } else if c == "global"@ {
            Some(LogRouteView::Global(tail))
        } else if c == "changes"@ {
            Some(LogRouteView::Changes(tail))
        } else if c == "role"@ {
            Some(LogRouteView::Role(tail))
        } else if c == "external"@ {
            Some(LogRouteView::External(tail))
        } else {
            None
        }
    }
}

pub open spec fn opt_log_view(r: Option<LogRoute>) -> Option<LogRouteView> {
    match r {
        Some(l) => Some(l@),
        None => None,
    }
}

/// Parses a log route (see `parse_log_route_spec`).
pub fn parse_log_route(path: &str) -> (r: Option<LogRoute>)
    ensures
        opt_log_view(r) == parse_log_route_spec(path@),
{
    if !validate_path(path) {
        return None;
    }
    let (c, tail) = path_component(path);
    if str_eq(c, "index") {
        Some(LogRoute::Index(tail.to_owned()))
    } else if str_eq(c, "global") {
        Some(LogRoute::Global(tail.to_owned()))
    } else if str_eq(c, "changes") {
        Some(LogRoute::Changes(tail.to_owned()))
    } else if str_eq(c, "role") {
        Some(LogRoute::Role(tail.to_owned()))
    } else if str_eq(c, "external") {
        Some(LogRoute::External(tail.to_owned()))
    } else {
        None
    }
}

/// Whether a character is alphabetic or numeric in the Unicode sense, as
/// `char::is_alphanumeric` decides.
pub uninterp spec fn unicode_alphanumeric(c: char) -> bool;

/// Whether an ASCII character is a letter or a digit.
pub open spec fn ascii_alphanumeric(c: char) -> bool {
    (48 <= (c as u32) <= 57) || (65 <= (c as u32) <= 90) || (97 <= (c as u32) <= 122)
}

/// Calls `char::is_alphanumeric`; its answer depends on the character alone
/// and is named `unicode_alphanumeric`. Among ASCII characters it holds of
/// the letters and digits only: the ASCII part of Unicode's Alphabetic and
/// Numeric properties.
#[verifier::external_body]
fn is_alphanumeric(c: char) -> (r: bool)
    ensures
        r == unicode_alphanumeric(c),
        (c as u32) < 128 ==> (r == ascii_alphanumeric(c)),
{
    c.is_alphanumeric()
}

/// A backup name: letters, digits and dashes only.
pub open spec fn backup_name_spec(name: Seq<char>) -> bool {
    forall|i: int| 0 <= i < name.len() ==> unicode_alphanumeric(#[trigger] name[i]) || name[i] == '-'
}

fn is_backup_name(name: &str) -> (r: bool)
    ensures
        r == backup_name_spec(name@),
{
    let n = name.unicode_len();
    let mut i: usize = 0;
    while i < n
        invariant
            n == name@.len(),
            0 <= i <= n,
            forall|j: int| 0 <= j < i ==> unicode_alphanumeric(#[trigger] name@[j]) || name@[j] == '-',
        decreases n - i,
    {
        let c = name.get_char(i);
        if !(is_alphanumeric(c) || c == '-') {
            assert(!(unicode_alphanumeric(name@[i as int]) || name@[i as int] == '-'));
            return false;
        }
        i = i + 1;
    }
    true
}

pub open spec fn is_decimal_digit(c: char) -> bool {
    '0' <= c <= '9'
}

/// Every character is a decimal digit.
pub open spec fn all_decimal_digits(d: Seq<char>) -> bool {
    forall|i: int| 0 <= i < d.len() ==> is_decimal_digit(#[trigger] d[i])
}

/// Value of a string of decimal digits.
pub open spec fn decimal_value(d: Seq<char>) -> int
    decreases d.len(),
{
    if d.len() == 0 {
        0
    } else {
        decimal_value(d.drop_last()) * 10 + (d.last() as int - '0' as int)
    }
}

/// What `u64::from_str` accepts: an optional `+`, then one or more decimal
/// digits denoting a value that fits in 64 bits.
pub open spec fn parse_u64_spec(s: Seq<char>) -> Option<u64> {
    let d = if s.len() > 0 && s[0] == '+' { s.drop_first() } else { s };
    if d.len() > 0 && all_decimal_digits(d) && decimal_value(d) <= u64::MAX {
        Some(decimal_value(d) as u64)
    } else {
        None
    }
}

/// Extending a string of decimal digits never lowers its value.
proof fn lemma_decimal_value_prefix(d: Seq<char>, k: int)
    requires
        0 <= k <= d.len(),
        all_decimal_digits(d),
    ensures
        decimal_value(d.subrange(0, k)) <= decimal_value(d),
        0 <= decimal_value(d),
    decreases d.len(),
{
    if d.len() > 0 {
        let init = d.drop_last();
        assert forall|i: int| 0 <= i < init.len() implies is_decimal_digit(#[trigger] init[i]) by {
            assert(init[i] == d[i]);
        }
        if k < d.len() {
            lemma_decimal_value_prefix(init, k);
            assert(init.subrange(0, k) =~= d.subrange(0, k));
        } else {
            lemma_decimal_value_prefix(init, 0);
            assert(d.subrange(0, k) =~= d);
        }
        assert(is_decimal_digit(d[d.len() - 1]));
    }
}

/// Parses a decimal `u64` as `u64::from_str` does (see `parse_u64_spec`).
pub(crate) fn parse_u64(s: &str) -> (r: Option<u64>)
    ensures
        r == parse_u64_spec(s@),
{
    let n = s.unicode_len();
    let start: usize = if n > 0 && s.get_char(0) == '+' { 1 } else { 0 };
    let ghost d = if s@.len() > 0 && s@[0] == '+' { s@.drop_first() } else { s@ };
    assert(d =~= s@.subrange(start as int, n as int));
    if start == n {
        return None;
    }
    let mut acc: u64 = 0;
    let mut i: usize = start;
    while i < n
        invariant
            n == s@.len(),
            start <= i <= n,
            d == (if s@.len() > 0 && s@[0] == '+' { s@.drop_first() } else { s@ }),
            d == s@.subrange(start as int, n as int),
            forall|j: int| 0 <= j < i - start ==> is_decimal_digit(#[trigger] d[j]),
            acc as int == decimal_value(d.subrange(0, i - start)),
        decreases n - i,
    {
        let c = s.get_char(i);
        assert(c == d[i - start]);
        if !('0' <= c && c <= '9') {
            assert(!is_decimal_digit(d[i - start]));
            assert(!all_decimal_digits(d));
            return None;
        }
        let digit: u64 = (c as u32 - '0' as u32) as u64;
        let ghost next = d.subrange(0, i - start + 1);
        assert(next.drop_last() =~= d.subrange(0, i - start));
        assert(next.last() == c);
        assert(digit as int == c as int - '0' as int);
        assert(decimal_value(next) == acc as int * 10 + digit as int);
        if acc > (u64::MAX - digit) / 10 {
            proof {
                assert(acc * 10 + digit > u64::MAX) by (nonlinear_arith)
                    requires acc > (u64::MAX - digit) / 10, digit <= 9;
                if all_decimal_digits(d) {
                    lemma_decimal_value_prefix(d, i - start + 1);
                    assert(decimal_value(d) > u64::MAX);
                }
            }
            return None;
        }
        assert(acc * 10 + digit <= u64::MAX) by (nonlinear_arith)
            requires acc <= (u64::MAX - digit) / 10, digit <= 9;
        acc = acc * 10 + digit;
        i = i + 1;
    }
    assert(d.subrange(0, n - start) =~= d);
    Some(acc)
}

/// The content type that marks a JSON request body.
pub open spec fn is_json_content(content_type: Option<Seq<u8>>) -> bool {
    content_type == Some("application/json".spec_bytes())
}

pub open spec fn opt_bytes_view(b: Option<&[u8]>) -> Option<Seq<u8>> {
    match b {
        Some(x) => Some(x@),
        None => None,
    }
}

fn is_json_content_type(content_type: Option<&[u8]>) -> (r: bool)
    ensures
        r == is_json_content(opt_bytes_view(content_type)),
{
    match content_type {
        Some(ct) => bytes_eq(ct, "application/json".as_bytes()),
        None => false,
    }
}

/// Parses the part of an API path below `/v1/`; the content type decides
/// whether requests that carry a body are accepted.
pub open spec fn parse_api_spec(path: Seq<char>, content_type: Option<Seq<u8>>) -> Option<RouteView> {
    let (c, t) = path_component_spec(path);
    let f = api_suffix_spec(path);
    let json = is_json_content(content_type);
    if c == "status"@ && t.len() == 0 {
        Some(RouteView::Api(ApiRouteView::Status, f))
    } else if c == "graphql"@ && t.len() == 0 {
        Some(RouteView::Api(ApiRouteView::Graphql, f))
    } else if c == "graphiql"@ && t.len() == 0 {
        Some(RouteView::Api(ApiRouteView::Graphiql, f))
    } else if c == "leader-redirect-by-node-name"@ && t.len() == 0 {
        Some(RouteView::Api(ApiRouteView::RedirectByNodeName, Format::Plain))
    } else if c == "peers"@ && t.len() == 0 {
        Some(RouteView::Api(ApiRouteView::Peers, f))
    } else if c == "schedule"@ && t.len() == 0 {
        Some(RouteView::Api(ApiRouteView::Schedule, f))
    } else if c == "scheduler_input"@ && t.len() == 0 {
        Some(RouteView::Api(ApiRouteView::SchedulerInput, f))
    } else if c == "scheduler_debug_info"@ && t.len() == 0 {
        Some(RouteView::Api(ApiRouteView::SchedulerDebugInfo, Format::Plain))
    } else if c == "election"@ && t.len() == 0 {
        Some(RouteView::Api(ApiRouteView::Election, f))
    } else if c == "backups"@ && t.len() == 0 {
        Some(RouteView::Api(ApiRouteView::Backups, f))
    } else if c == "backup"@ {
        if backup_name_spec(t) {
            Some(RouteView::Api(ApiRouteView::Backup(t), f))
        } else {
            None
        }
    } else if c == "action"@ && t.len() == 0 {
        if json {
            Some(RouteView::Api(ApiRouteView::PushAction, f))
        } else {
            Some(RouteView::BadContentType)
        }
    } else if c == "wait_action"@ && t.len() == 0 {
        if json {
            Some(RouteView::Api(ApiRouteView::WaitAction, f))
        } else {
            Some(RouteView::BadContentType)
        }
    } else if c == "force_render_all"@ && t.len() == 0 {
        Some(RouteView::Api(ApiRouteView::ForceRenderAll, Format::Plain))
    } else if c == "action_is_pending"@ {
        match parse_u64_spec(t) {
            Some(x) => Some(RouteView::Api(ApiRouteView::ActionIsPending(x), f)),
            None => None,
        }
    } else if c == "pending_actions"@ && t.len() == 0 {
        Some(RouteView::Api(ApiRouteView::PendingActions, f))
    } else if c == "roles_data"@ && t.len() == 0 {
        Some(RouteView::Api(ApiRouteView::RolesData, f))
    } else if c == "query"@ {
        if json {
            Some(RouteView::Api(ApiRouteView::Query(t), f))
        } else {
            Some(RouteView::BadContentType)
        }
    } else if c == "log"@ {
        match parse_log_route_spec(t) {
            Some(l) => Some(RouteView::Log(l)),
            None => None,
        }
    } else if c == "wasm"@ && t == "scheduler.wasm"@ {
        Some(RouteView::WasmScheduler)
    } else if c == "wasm"@ && t == "query.wasm"@ {
        Some(RouteView::WasmQuery)
    } else {
        None
    }
}

pub open spec fn opt_route_view(r: Option<Route>) -> Option<RouteView> {
    match r {
        Some(x) => Some(x@),
        None => None,
    }
}

fn api(route: ApiRoute, format: Format) -> (r: Option<Route>)
    ensures
        opt_route_view(r) == Some(RouteView::Api(route@, format)),
{
    Some(Route::Api(route, format))
}

/// Parses the part of an API path below `/v1/` (see `parse_api_spec`).
pub fn parse_api(path: &str, content_type: Option<&[u8]>) -> (r: Option<Route>)
    ensures
        opt_route_view(r) == parse_api_spec(path@, opt_bytes_view(content_type)),
{
    let (c, t) = path_component(path);
    let f = api_suffix(path);
    let json = is_json_content_type(content_type);
    let empty = t.unicode_len() == 0;
    if str_eq(c, "status") && empty {
        api(ApiRoute::Status, f)
    } else if str_eq(c, "graphql") && empty {
        api(ApiRoute::Graphql, f)
    } else if str_eq(c, "graphiql") && empty {
        api(ApiRoute::Graphiql, f)
    } else if str_eq(c, "leader-redirect-by-node-name") && empty {
        api(ApiRoute::RedirectByNodeName, Format::Plain)
    } else if str_eq(c, "peers") && empty {
        api(ApiRoute::Peers, f)
    } else if str_eq(c, "schedule") && empty {
        api(ApiRoute::Schedule, f)
    } else if str_eq(c, "scheduler_input") && empty {
        api(ApiRoute::SchedulerInput, f)
    } else if str_eq(c, "scheduler_debug_info") && empty {
        api(ApiRoute::SchedulerDebugInfo, Format::Plain)
    } else if str_eq(c, "election") && empty {
        api(ApiRoute::Election, f)
    } else if str_eq(c, "backups") && empty {
        api(ApiRoute::Backups, f)
    } else if str_eq(c, "backup") {
        if is_backup_name(t) {
            api(ApiRoute::Backup(t.to_owned()), f)
        } else {
            None
        }
    } else if str_eq(c, "action") && empty {
        if json {
            api(ApiRoute::PushAction, f)
        } else {
            Some(Route::BadContentType)
        }
    } else if str_eq(c, "wait_action") && empty {
        if json {
            api(ApiRoute::WaitAction, f)
        } else {
            Some(Route::BadContentType)
        }
    } else if str_eq(c, "force_render_all") && empty {
        api(ApiRoute::ForceRenderAll, Format::Plain)
    } else if str_eq(c, "action_is_pending") {
        match parse_u64(t) {
            Some(x) => api(ApiRoute::ActionIsPending(x), f),
            None => None,
        }
    } else if str_eq(c, "pending_actions") && empty {
        api(ApiRoute::PendingActions, f)
    } else if str_eq(c, "roles_data") && empty {
        api(ApiRoute::RolesData, f)
    } else if str_eq(c, "query") {
        if json {
            api(ApiRoute::Query(Query { path: t.to_owned() }), f)
        } else {
            Some(Route::BadContentType)
        }
    } else if str_eq(c, "log") {
        match parse_log_route(t) {
            Some(l) => Some(Route::Log(l)),
            None => None,
        }
    } else if str_eq(c, "wasm") && str_eq(t, "scheduler.wasm") {
        Some(Route::WasmScheduler)
    } else if str_eq(c, "wasm") && str_eq(t, "query.wasm") {
        Some(Route::WasmQuery)
    } else {
        None
    }
}

/// The path without its query string.
pub open spec fn strip_query(path: Seq<char>) -> Seq<char> {
    path.subrange(0, find_from(path, '?', 0))
}

/// The first component names an alternative frontend (`~name`).
pub open spec fn names_alternative(path: Seq<char>) -> bool {
    let c = path_component_spec(strip_query(path)).0;
    c.len() > 0 && c[0] == '~'
}

/// A path for an alternative frontend is cut after its first two bytes;
/// that needs at least two characters, the second of them ASCII, or the cut
/// would not fall on a character boundary.
pub open spec fn route_defined(path: Option<Seq<char>>) -> bool {
    match path {
        None => true,
        Some(p) => names_alternative(p) ==> {
            let q = strip_query(p);
            q.len() >= 2 && (q[1] as u32) < 128
        },
    }
}

/// Static asset directories of an alternative frontend.
pub open spec fn is_asset_dir(c: Seq<char>) -> bool {
    c == "js"@ || c == "css"@ || c == "fonts"@ || c == "img"@ || c == "files"@
}

/// Routes a request by its path (`None` when the request has none) and its
/// content type.
pub open spec fn route_spec(path: Option<Seq<char>>, content_type: Option<Seq<u8>>) -> RouteView {
    match path {
        None => RouteView::NotFound,
        Some(path) => {
            let p = strip_query(path);
            let (c, sfx) = path_component_spec(p);
            if c.len() == 0 {
                RouteView::CommonIndex
            } else if c == "v1"@ {
                match parse_api_spec(sfx, content_type) {
                    Some(r) => r,
                    None => RouteView::NotFound,
                }
            } else if c[0] == '~' {
                let rest = p.subrange(2, p.len() as int);
                if !valid_path_spec(rest) {
                    RouteView::NotFound
                } else if is_asset_dir(path_component_spec(sfx).0) {
                    RouteView::AlterStatic(rest)
                } else {
                    RouteView::AlterIndex(c.subrange(1, c.len() as int))
                }
            } else if c == "common"@ {
                if !valid_path_spec(sfx) {
                    RouteView::NotFound
                } else {
                    RouteView::CommonStatic(sfx)
                }
            } else {
                RouteView::CommonIndex
            }
        },
    }
}

pub open spec fn opt_str_view(s: Option<&str>) -> Option<Seq<char>> {
    match s {
        Some(x) => Some(x@),
        None => None,
    }
}

/// Routes a request by its path and its content type (see `route_spec`).
pub fn route(path: Option<&str>, content_type: Option<&[u8]>) -> (r: Route)
    requires
        route_defined(opt_str_view(path)),
    ensures
        r@ == route_spec(opt_str_view(path), opt_bytes_view(content_type)),
{
    let path = match path {
        Some(p) => p,
        None => return Route::NotFound,
    };
    let q = find_char_from(path, '?', 0);
    proof { lemma_find_from(path@, '?', 0); }
    let p = path.substring_char(0, q);
    let (c, sfx) = path_component(p);
    let n = p.unicode_len();
    let cn = c.unicode_len();
    if cn == 0 {
        Route::CommonIndex
    } else if str_eq(c, "v1") {
        match parse_api(sfx, content_type) {
            Some(r) => r,
            None => Route::NotFound,
        }
    } else if c.get_char(0) == '~' {
        let rest = p.substring_char(2, n);
        if !validate_path(rest) {
            return Route::NotFound;
        }
        let (c2, _) = path_component(sfx);
        if str_eq(c2, "js") || str_eq(c2, "css") || str_eq(c2, "fonts") || str_eq(c2, "img")
            || str_eq(c2, "files") {
            Route::AlterStatic(rest.to_owned())
        } else {
            Route::AlterIndex(substring_owned(c, 1, cn))
        }
    } else if str_eq(c, "common") {
        if !validate_path(sfx) {
            return Route::NotFound;
        }
        Route::CommonStatic(sfx.to_owned())
    } else {
        Route::CommonIndex
    }
}

/// ASCII lowercase of a byte.
pub open spec fn ascii_lower(b: u8) -> u8 {
    if 65 <= b <= 90 { (b + 32) as u8 } else { b }
}

/// ASCII case-insensitive equality of two byte strings.
pub open spec fn eq_ignore_ascii_case_spec(a: Seq<u8>, b: Seq<u8>) -> bool {
    a.len() == b.len() && forall|i: int| 0 <= i < a.len() ==> #[trigger] ascii_lower(a[i]) == ascii_lower(b[i])
}

fn eq_ignore_ascii_case(a: &[u8], b: &[u8]) -> (r: bool)
    ensures
        r == eq_ignore_ascii_case_spec(a@, b@),
{
    if a.len() != b.len() {
        return false;
    }
    let mut i: usize = 0;
    while i < a.len()
        invariant
            a@.len() == b@.len(),
            0 <= i <= a@.len(),
            forall|j: int| 0 <= j < i ==> #[trigger] ascii_lower(a@[j]) == ascii_lower(b@[j]),
        decreases a@.len() - i,
    {
        let x = if a[i] >= 65 && a[i] <= 90 { a[i] + 32 } else { a[i] };
        let y = if b[i] >= 65 && b[i] <= 90 { b[i] + 32 } else { b[i] };
        if x != y {
            assert(ascii_lower(a@[i as int]) != ascii_lower(b@[i as int]));
            return false;
        }
        i = i + 1;
    }
    true
}

/// A header named `Content-Type`, in any ASCII case.
pub open spec fn is_content_type_header(h: (&str, &[u8])) -> bool {
    eq_ignore_ascii_case_spec(h.0.spec_bytes(), "Content-Type".spec_bytes())
}

/// The value of the first `Content-Type` header, whatever the case of its
/// name.
pub fn find_content_type<'a>(headers: &Vec<(&'a str, &'a [u8])>) -> (r: Option<&'a [u8]>)
    ensures
        r is None <==> forall|i: int| 0 <= i < headers@.len() ==> !is_content_type_header(#[trigger] headers@[i]),
        r matches Some(v) ==> exists|i: int|
            0 <= i < headers@.len() && is_content_type_header(#[trigger] headers@[i]) && v@ == headers@[i].1@
                && forall|j: int| 0 <= j < i ==> !is_content_type_header(#[trigger] headers@[j]),
{
    let name = "Content-Type".as_bytes();
    let mut i: usize = 0;
    while i < headers.len()
        invariant
            name@ == "Content-Type".spec_bytes(),
            0 <= i <= headers@.len(),
            forall|j: int| 0 <= j < i ==> !is_content_type_header(#[trigger] headers@[j]),
        decreases headers@.len() - i,
    {
        let (hname, value) = headers[i];
        if eq_ignore_ascii_case(hname.as_bytes(), name) {
            assert(is_content_type_header(headers@[i as int]));
            return Some(value);
        }
        i = i + 1;
    }
    None
}

/// The content type an API reply is sent with: JSON, except for the
/// `gron` format.
pub fn reply_content_type(format: Format) -> (r: &'static str)
    ensures
        r@ == match format {
            Format::Gron => "text/x-gron"@,
            _ => "application/json"@,
        },
{
    match format {
        Format::Json => "application/json",
        Format::Gron => "text/x-gron",
        Format::Plain => "application/json",
    }
}

/// The path component under `/v1/` that names an API route.
pub open spec fn api_name(r: ApiRouteView) -> Seq<char> {
    match r {
        ApiRouteView::Graphql => "graphql"@,
        ApiRouteView::Graphiql => "graphiql"@,
        ApiRouteView::Status => "status"@,
        ApiRouteView::Peers => "peers"@,
        ApiRouteView::Schedule => "schedule"@,
        ApiRouteView::SchedulerInput => "scheduler_input"@,
        ApiRouteView::SchedulerDebugInfo => "scheduler_debug_info"@,
        ApiRouteView::Election => "election"@,
        ApiRouteView::Backups => "backups"@,
        ApiRouteView::Backup(_) => "backup"@,
        ApiRouteView::PushAction => "action"@,
        ApiRouteView::WaitAction => "wait_action"@,
        ApiRouteView::ActionIsPending(_) => "action_is_pending"@,
        ApiRouteView::PendingActions => "pending_actions"@,
        ApiRouteView::RolesData => "roles_data"@,
        ApiRouteView::Query(_) => "query"@,
        ApiRouteView::ForceRenderAll => "force_render_all"@,
        ApiRouteView::RedirectByNodeName => "leader-redirect-by-node-name"@,
    }
}

/// Law: an API route is the one its path names. Whatever API route a path
/// below `/v1/` gives, its first component is that route's own name; the
/// routes without arguments take no further components; and the reply
/// format is the one the path's extension asks for, except for the routes
/// that always answer in plain text.
pub proof fn api_route_is_the_one_named(path: Seq<char>, content_type: Option<Seq<u8>>)
    ensures
        parse_api_spec(path, content_type) matches Some(RouteView::Api(r, _))
            ==> path_component_spec(path).0 == api_name(r),
        parse_api_spec(path, content_type) matches Some(RouteView::Api(r, _))
            ==> (r is Backup || r is ActionIsPending || r is Query || path_component_spec(path).1.len() == 0),
        parse_api_spec(path, content_type) matches Some(RouteView::Api(r, f)) ==> f == (
            if r is RedirectByNodeName || r is SchedulerDebugInfo || r is ForceRenderAll {
                Format::Plain
            } else {
                api_suffix_spec(path)
            }),
{
}

/// Law: each API route without arguments is reached by its own name. A
/// path below `/v1/` whose only component is the name of such a route gives
/// that route (`action` and `wait_action` given a JSON body).
pub proof fn api_name_reaches_its_route(path: Seq<char>, content_type: Option<Seq<u8>>, r: ApiRouteView)
    requires
        !(r is Backup || r is ActionIsPending || r is Query),
        (r is PushAction || r is WaitAction) ==> is_json_content(content_type),
        path_component_spec(path).0 == api_name(r),
        path_component_spec(path).1.len() == 0,
    ensures
        parse_api_spec(path, content_type) matches Some(RouteView::Api(r2, _)) && r2 == r,
{
    match r {
        ApiRouteView::Graphql => {
            reveal_strlit("graphql");
            reveal_strlit("status");
            assert("graphql"@.len() != "status"@.len());
        },
        ApiRouteView::Graphiql => {
            reveal_strlit("graphiql");
            reveal_strlit("status");
            assert("graphiql"@.len() != "status"@.len());
            reveal_strlit("graphql");
            assert("graphiql"@.len() != "graphql"@.len());
        },
        ApiRouteView::Status => {
            reveal_strlit("status");
        },
        ApiRouteView::Peers => {
            reveal_strlit("peers");
            reveal_strlit("status");
            assert("peers"@.len() != "status"@.len());
            reveal_strlit("graphql");
            assert("peers"@.len() != "graphql"@.len());
            reveal_strlit("graphiql");
            assert("peers"@.len() != "graphiql"@.len());
            reveal_strlit("leader-redirect-by-node-name");
            assert("peers"@.len() != "leader-redirect-by-node-name"@.len());
        },
        ApiRouteView::Schedule => {
            reveal_strlit("schedule");
            reveal_strlit("status");
            assert("schedule"@.len() != "status"@.len());
            reveal_strlit("graphql");
            assert("schedule"@.len() != "graphql"@.len());
            reveal_strlit("graphiql");
            assert("schedule"@[0] != "graphiql"@[0]);
            reveal_strlit("leader-redirect-by-node-name");
            assert("schedule"@.len() != "leader-redirect-by-node-name"@.len());
            reveal_strlit("peers");
            assert("schedule"@.len() != "peers"@.len());
        },
        ApiRouteView::SchedulerInput => {
            reveal_strlit("scheduler_input");
            reveal_strlit("status");
            assert("scheduler_input"@.len() != "status"@.len());
            reveal_strlit("graphql");
            assert("scheduler_input"@.len() != "graphql"@.len());
            reveal_strlit("graphiql");
            assert("scheduler_input"@.len() != "graphiql"@.len());
            reveal_strlit("leader-redirect-by-node-name");
            assert("scheduler_input"@.len() != "leader-redirect-by-node-name"@.len());
            reveal_strlit("peers");
            assert("scheduler_input"@.len() != "peers"@.len());
            reveal_strlit("schedule");
            assert("scheduler_input"@.len() != "schedule"@.len());
        },
        ApiRouteView::SchedulerDebugInfo => {
            reveal_strlit("scheduler_debug_info");
            reveal_strlit("status");
            assert("scheduler_debug_info"@.len() != "status"@.len());
            reveal_strlit("graphql");
            assert("scheduler_debug_info"@.len() != "graphql"@.len());
            reveal_strlit("graphiql");
            assert("scheduler_debug_info"@.len() != "graphiql"@.len());
            reveal_strlit("leader-redirect-by-node-name");
            assert("scheduler_debug_info"@.len() != "leader-redirect-by-node-name"@.len());
            reveal_strlit("peers");
            assert("scheduler_debug_info"@.len() != "peers"@.len());
            reveal_strlit("schedule");
            assert("scheduler_debug_info"@.len() != "schedule"@.len());
            reveal_strlit("scheduler_input");
            assert("scheduler_debug_info"@.len() != "scheduler_input"@.len());
        },
        ApiRouteView::Election => {
            reveal_strlit("election");
            reveal_strlit("status");
            assert("election"@.len() != "status"@.len());
            reveal_strlit("graphql");
            assert("election"@.len() != "graphql"@.len());
            reveal_strlit("graphiql");
            assert("election"@[0] != "graphiql"@[0]);
            reveal_strlit("leader-redirect-by-node-name");
            assert("election"@.len() != "leader-redirect-by-node-name"@.len());
            reveal_strlit("peers");
            assert("election"@.len() != "peers"@.len());
            reveal_strlit("schedule");
            assert("election"@[0] != "schedule"@[0]);
            reveal_strlit("scheduler_input");
            assert("election"@.len() != "scheduler_input"@.len());
            reveal_strlit("scheduler_debug_info");
            assert("election"@.len() != "scheduler_debug_info"@.len());
        },
        ApiRouteView::Backups => {
            reveal_strlit("backups");
            reveal_strlit("status");
            assert("backups"@.len() != "status"@.len());
            reveal_strlit("graphql");
            assert("backups"@[0] != "graphql"@[0]);
            reveal_strlit("graphiql");
            assert("backups"@.len() != "graphiql"@.len());
            reveal_strlit("leader-redirect-by-node-name");
            assert("backups"@.len() != "leader-redirect-by-node-name"@.len());
            reveal_strlit("peers");
            assert("backups"@.len() != "peers"@.len());
            reveal_strlit("schedule");
            assert("backups"@.len() != "schedule"@.len());
            reveal_strlit("scheduler_input");
            assert("backups"@.len() != "scheduler_input"@.len());
            reveal_strlit("scheduler_debug_info");
            assert("backups"@.len() != "scheduler_debug_info"@.len());
            reveal_strlit("election");
            assert("backups"@.len() != "election"@.len());
        },
        ApiRouteView::PushAction => {
            reveal_strlit("action");
            reveal_strlit("status");
            assert("action"@[0] != "status"@[0]);
            reveal_strlit("graphql");
            assert("action"@.len() != "graphql"@.len());
            reveal_strlit("graphiql");
            assert("action"@.len() != "graphiql"@.len());
            reveal_strlit("leader-redirect-by-node-name");
            assert("action"@.len() != "leader-redirect-by-node-name"@.len());
            reveal_strlit("peers");
            assert("action"@.len() != "peers"@.len());
            reveal_strlit("schedule");
            assert("action"@.len() != "schedule"@.len());
            reveal_strlit("scheduler_input");
            assert("action"@.len() != "scheduler_input"@.len());
            reveal_strlit("scheduler_debug_info");
            assert("action"@.len() != "scheduler_debug_info"@.len());
            reveal_strlit("election");
            assert("action"@.len() != "election"@.len());
            reveal_strlit("backups");
            assert("action"@.len() != "backups"@.len());
            reveal_strlit("backup");
            assert("action"@[0] != "backup"@[0]);
        },
        ApiRouteView::WaitAction => {
            reveal_strlit("wait_action");
            reveal_strlit("status");
            assert("wait_action"@.len() != "status"@.len());
            reveal_strlit("graphql");
            assert("wait_action"@.len() != "graphql"@.len());
            reveal_strlit("graphiql");
            assert("wait_action"@.len() != "graphiql"@.len());
            reveal_strlit("leader-redirect-by-node-name");
            assert("wait_action"@.len() != "leader-redirect-by-node-name"@.len());
            reveal_strlit("peers");
            assert("wait_action"@.len() != "peers"@.len());
            reveal_strlit("schedule");
            assert("wait_action"@.len() != "schedule"@.len());
            reveal_strlit("scheduler_input");
            assert("wait_action"@.len() != "scheduler_input"@.len());
            reveal_strlit("scheduler_debug_info");
            assert("wait_action"@.len() != "scheduler_debug_info"@.len());
            reveal_strlit("election");
            assert("wait_action"@.len() != "election"@.len());
            reveal_strlit("backups");
            assert("wait_action"@.len() != "backups"@.len());
            reveal_strlit("backup");
            assert("wait_action"@.len() != "backup"@.len());
            reveal_strlit("action");
            assert("wait_action"@.len() != "action"@.len());
        },
        ApiRouteView::PendingActions => {
            reveal_strlit("pending_actions");
            reveal_strlit("status");
            assert("pending_actions"@.len() != "status"@.len());
            reveal_strlit("graphql");
            assert("pending_actions"@.len() != "graphql"@.len());
            reveal_strlit("graphiql");
            assert("pending_actions"@.len() != "graphiql"@.len());
            reveal_strlit("leader-redirect-by-node-name");
            assert("pending_actions"@.len() != "leader-redirect-by-node-name"@.len());
            reveal_strlit("peers");
            assert("pending_actions"@.len() != "peers"@.len());
            reveal_strlit("schedule");
            assert("pending_actions"@.len() != "schedule"@.len());
            reveal_strlit("scheduler_input");
            assert("pending_actions"@[0] != "scheduler_input"@[0]);
            reveal_strlit("scheduler_debug_info");
            assert("pending_actions"@.len() != "scheduler_debug_info"@.len());
            reveal_strlit("election");
            assert("pending_actions"@.len() != "election"@.len());
            reveal_strlit("backups");
            assert("pending_actions"@.len() != "backups"@.len());
            reveal_strlit("backup");
            assert("pending_actions"@.len() != "backup"@.len());
            reveal_strlit("action");
            assert("pending_actions"@.len() != "action"@.len());
            reveal_strlit("wait_action");
            assert("pending_actions"@.len() != "wait_action"@.len());
            reveal_strlit("force_render_all");
            assert("pending_actions"@.len() != "force_render_all"@.len());
            reveal_strlit("action_is_pending");
            assert("pending_actions"@.len() != "action_is_pending"@.len());
        },
        ApiRouteView::RolesData => {
            reveal_strlit("roles_data");
            reveal_strlit("status");
            assert("roles_data"@.len() != "status"@.len());
            reveal_strlit("graphql");
            assert("roles_data"@.len() != "graphql"@.len());
            reveal_strlit("graphiql");
            assert("roles_data"@.len() != "graphiql"@.len());
            reveal_strlit("leader-redirect-by-node-name");
            assert("roles_data"@.len() != "leader-redirect-by-node-name"@.len());
            reveal_strlit("peers");
            assert("roles_data"@.len() != "peers"@.len());
            reveal_strlit("schedule");
            assert("roles_data"@.len() != "schedule"@.len());
            reveal_strlit("scheduler_input");
            assert("roles_data"@.len() != "scheduler_input"@.len());
            reveal_strlit("scheduler_debug_info");
            assert("roles_data"@.len() != "scheduler_debug_info"@.len());
            reveal_strlit("election");
            assert("roles_data"@.len() != "election"@.len());
            reveal_strlit("backups");
            assert("roles_data"@.len() != "backups"@.len());
            reveal_strlit("backup");
            assert("roles_data"@.len() != "backup"@.len());
            reveal_strlit("action");
            assert("roles_data"@.len() != "action"@.len());
            reveal_strlit("wait_action");
            assert("roles_data"@.len() != "wait_action"@.len());
            reveal_strlit("force_render_all");
            assert("roles_data"@.len() != "force_render_all"@.len());
            reveal_strlit("action_is_pending");
            assert("roles_data"@.len() != "action_is_pending"@.len());
            reveal_strlit("pending_actions");
            assert("roles_data"@.len() != "pending_actions"@.len());
        },
        ApiRouteView::ForceRenderAll => {
            reveal_strlit("force_render_all");
            reveal_strlit("status");
            assert("force_render_all"@.len() != "status"@.len());
            reveal_strlit("graphql");
            assert("force_render_all"@.len() != "graphql"@.len());
            reveal_strlit("graphiql");
            assert("force_render_all"@.len() != "graphiql"@.len());
            reveal_strlit("leader-redirect-by-node-name");
            assert("force_render_all"@.len() != "leader-redirect-by-node-name"@.len());
            reveal_strlit("peers");
            assert("force_render_all"@.len() != "peers"@.len());
            reveal_strlit("schedule");
            assert("force_render_all"@.len() != "schedule"@.len());
            reveal_strlit("scheduler_input");
            assert("force_render_all"@.len() != "scheduler_input"@.len());
            reveal_strlit("scheduler_debug_info");
            assert("force_render_all"@.len() != "scheduler_debug_info"@.len());
            reveal_strlit("election");
            assert("force_render_all"@.len() != "election"@.len());
            reveal_strlit("backups");
            assert("force_render_all"@.len() != "backups"@.len());
            reveal_strlit("backup");
            assert("force_render_all"@.len() != "backup"@.len());
            reveal_strlit("action");
            assert("force_render_all"@.len() != "action"@.len());
            reveal_strlit("wait_action");
            assert("force_render_all"@.len() != "wait_action"@.len());
        },
        ApiRouteView::RedirectByNodeName => {
            reveal_strlit("leader-redirect-by-node-name");
            reveal_strlit("status");
            assert("leader-redirect-by-node-name"@.len() != "status"@.len());
            reveal_strlit("graphql");
            assert("leader-redirect-by-node-name"@.len() != "graphql"@.len());
            reveal_strlit("graphiql");
            assert("leader-redirect-by-node-name"@.len() != "graphiql"@.len());
        },
        _ => {},
    }
}

/// Law: the query string plays no part in routing. A path routes as the
/// part of it before the first `?` does, and may be routed exactly when that
/// part may.
pub proof fn route_ignores_query_string(path: Seq<char>, content_type: Option<Seq<u8>>)
    ensures
        route_spec(Some(path), content_type) == route_spec(Some(strip_query(path)), content_type),
        route_defined(Some(path)) == route_defined(Some(strip_query(path))),
{
    lemma_find_from(path, '?', 0);
    let q = strip_query(path);
    lemma_find_from(q, '?', 0);
    if find_from(q, '?', 0) < q.len() {
        assert(q[find_from(q, '?', 0)] == path[find_from(q, '?', 0)]);
    }
    assert(strip_query(q) =~= q);
}

/// Law: the file a static route names is given by a relative path of plain
/// names.
pub proof fn static_routes_name_plain_paths(path: Option<Seq<char>>, content_type: Option<Seq<u8>>)
    ensures
        route_spec(path, content_type) matches RouteView::CommonStatic(p) ==> valid_path_spec(p),
        route_spec(path, content_type) matches RouteView::AlterStatic(p) ==> valid_path_spec(p),
{
}

} // verus!
