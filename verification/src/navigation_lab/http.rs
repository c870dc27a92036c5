//! The local-only HTTP gate of the laboratory's simulation server: which
//! request heads are served, how a run request is read, and which response a
//! request gets. Reading the socket and writing the response stay outside.

use vstd::prelude::*;

use super::scenario::{scenario_named, Scenario};
use super::text::{
    chars_of, copy_range, eq_ignore_ascii_case, eq_ignore_ascii_case_chars, lines, lines_of,
    parse_u32, parse_u32_spec, same_chars, split_chars, split_on, split_once, split_once_chars,
    strip_prefix, trim, trim_chars, views, words, words_of,
};

verus! {

broadcast use vstd::string::group_string_axioms;

/// The index of the first empty line of `ls`, or its length if none is.
pub open spec fn first_blank(ls: Seq<Seq<char>>) -> int {
    if exists|j: int| 0 <= j < ls.len() && ls[j].len() == 0 {
        choose|j: int|
            0 <= j < ls.len() && ls[j].len() == 0 && forall|k: int| 0 <= k < j ==> ls[k].len() > 0
    } else {
        ls.len() as int
    }
}

/// The header lines of a request head: the lines after the request line, up
/// to the first empty one.
pub open spec fn header_block(h: Seq<char>) -> Seq<Seq<char>> {
    let ls = lines(h);
    if ls.len() == 0 {
        Seq::empty()
    } else {
        let rest = ls.drop_first();
        rest.take(first_blank(rest))
    }
}

/// A header line is acceptable: it has a name and a value, a `Host` names
/// this server by loopback address or `localhost`, an `Origin` is this
/// server's, a `Content-Length` is zero and there is no `Transfer-Encoding`.
/// Names compare without ASCII case; values are trimmed of whitespace.
#[verifier::opaque]
pub open spec fn header_line_ok(line: Seq<char>) -> bool {
    match split_once(line, ':') {
        None => false,
        Some((key, raw)) => {
            let value = trim(raw);
            &&& eq_ignore_ascii_case(key, "host"@) ==> (value == "127.0.0.1:8777"@ || value
                == "localhost:8777"@)
            &&& eq_ignore_ascii_case(key, "origin"@) ==> (value == "http://127.0.0.1:8777"@
                || value == "http://localhost:8777"@)
            &&& eq_ignore_ascii_case(key, "content-length"@) ==> value == "0"@
            &&& !eq_ignore_ascii_case(key, "transfer-encoding"@)
        },
    }
}

/// The line is a `Host` header.
#[verifier::opaque]
pub open spec fn is_host_line(line: Seq<char>) -> bool {
    match split_once(line, ':') {
        Some((key, _)) => eq_ignore_ascii_case(key, "host"@),
        None => false,
    }
}

/// How many of the lines are `Host` headers.
pub open spec fn host_count(ls: Seq<Seq<char>>) -> nat
    decreases ls.len(),
{
    if ls.len() == 0 {
        0
    } else {
        host_count(ls.drop_last()) + if is_host_line(ls.last()) {
            1nat
        } else {
            0nat
        }
    }
}

/// A request head is served when every header line is acceptable and there
/// is exactly one `Host` header.
pub open spec fn head_authorized(h: Seq<char>) -> bool {
    let block = header_block(h);
    &&& forall|i: int| 0 <= i < block.len() ==> header_line_ok(#[trigger] block[i])
    &&& host_count(block) == 1
}

/// Facts about the first empty line.
pub proof fn lemma_first_blank(ls: Seq<Seq<char>>, j: int)
    requires
        0 <= j <= ls.len(),
        forall|k: int| 0 <= k < j ==> (#[trigger] ls[k]).len() > 0,
        j < ls.len() ==> ls[j].len() == 0,
    ensures
        first_blank(ls) == j,
{
    if j < ls.len() {
        let b = first_blank(ls);
        assert(0 <= j < ls.len() && ls[j].len() == 0);
        assert(0 <= b < ls.len() && ls[b].len() == 0 && forall|k: int| 0 <= k < b ==> ls[k].len() > 0);
        if b < j {
            assert(ls[b].len() > 0);
        }
        if j < b {
            assert(ls[j].len() > 0);
        }
    } else {
        assert forall|k: int| 0 <= k < ls.len() implies ls[k].len() != 0 by {
            assert(ls[k].len() > 0);
        }
    }
}

/// Whether the trimmed header value `v` is one of two accepted values.
fn value_is_one_of(v: &[char], a: &str, b: &str) -> (ok: bool)
    ensures
        ok == (v@ == a@ || v@ == b@),
{
    same_chars(v, a) || same_chars(v, b)
}

/// Whether one header line is acceptable, and whether it is a `Host` line.
fn check_header_line(line: &[char]) -> (out: (bool, bool))
    ensures
        out.0 == header_line_ok(line@),
        out.1 == is_host_line(line@),
{
    reveal(header_line_ok);
    reveal(is_host_line);
    match split_once_chars(line, ':') {
        None => (false, false),
        Some((key, raw)) => {
            let value = trim_chars(raw.as_slice());
            let k = key.as_slice();
            let v = value.as_slice();
            let host = eq_ignore_ascii_case_chars(k, "host");
            let host_ok = !host || value_is_one_of(v, "127.0.0.1:8777", "localhost:8777");
            let origin_ok = !eq_ignore_ascii_case_chars(k, "origin") || value_is_one_of(
                v,
                "http://127.0.0.1:8777",
                "http://localhost:8777",
            );
            let length_ok = !eq_ignore_ascii_case_chars(k, "content-length") || same_chars(v, "0");
            let chunked = eq_ignore_ascii_case_chars(k, "transfer-encoding");
            (host_ok && origin_ok && length_ok && !chunked, host)
        },
    }
}

/// Whether the server answers a request with this head: only requests
/// addressed to this loopback server, from its own origin, without a body.
pub fn authorized_head(head: &str) -> (ok: bool)
    ensures
        ok == head_authorized(head@),
{
    let cs = chars_of(head);
    let ls = lines_of(cs.as_slice());
    let ghost lv = views(ls@);
    if ls.len() == 0 {
        assert(header_block(head@) =~= Seq::<Seq<char>>::empty());
        return false;
    }
    let ghost rest = lv.drop_first();
    let mut hosts: usize = 0;
    let mut all_ok = true;
    let mut i: usize = 1;
    assert(rest.take(0) =~= Seq::<Seq<char>>::empty());
    while i < ls.len() && ls[i].len() > 0
        invariant
            lv == views(ls@),
            lv == lines(head@),
            lv.len() >= 1,
            rest == lv.drop_first(),
            1 <= i <= lv.len(),
            forall|k: int| 0 <= k < i - 1 ==> (#[trigger] rest[k]).len() > 0,
            all_ok == forall|k: int| 0 <= k < i - 1 ==> header_line_ok(#[trigger] rest[k]),
            hosts == host_count(rest.take(i - 1)),
            hosts <= i,
        decreases lv.len() - i,
    {
        assert(ls@[i as int]@ == rest[i - 1]);
        let (line_ok, is_host) = check_header_line(ls[i].as_slice());
        assert(rest.take(i as int).drop_last() =~= rest.take(i - 1));
        if is_host {
            hosts = hosts + 1;
        }
        all_ok = all_ok && line_ok;
        i = i + 1;
    }
    proof {
        if i < lv.len() {
            assert(rest[i - 1].len() == 0);
        }
        lemma_first_blank(rest, i - 1);
        let block = rest.take(i - 1);
        assert(header_block(head@) =~= block);
        if all_ok {
            assert forall|k: int| 0 <= k < block.len() implies header_line_ok(#[trigger] block[k]) by {
                assert(block[k] == rest[k]);
            }
        } else {
            let k = choose|k: int| 0 <= k < i - 1 && !header_line_ok(#[trigger] rest[k]);
            assert(block[k] == rest[k]);
        }
    }
    all_ok && hosts == 1
}

/// The value of the query field `f` if it is `key=value`.
pub open spec fn field_value(f: Seq<char>, key: Seq<char>) -> Option<Seq<char>> {
    match split_once(f, '=') {
        Some((k, v)) => if k == key {
            Some(v)
        } else {
            None
        },
        None => None,
    }
}

/// The run requested by a scenario field and a seed field.
pub open spec fn run_of_fields(scenario_field: Seq<char>, seed_field: Seq<char>) -> Option<
    (Scenario, u32),
> {
    match (field_value(scenario_field, "scenario"@), field_value(seed_field, "seed"@)) {
        (Some(name), Some(number)) => match (scenario_named(name), parse_u32_spec(number)) {
            (Some(s), Some(n)) => Some((s, n)),
            _ => None,
        },
        _ => None,
    }
}

/// The run a request path asks for: `/api/run?` followed by exactly one
/// `scenario=` field naming a scenario and one `seed=` field holding a
/// `u32`, in either order, separated by `&`, and nothing else.
pub open spec fn run_request(path: Seq<char>) -> Option<(Scenario, u32)> {
    match strip_prefix(path, "/api/run?"@) {
        None => None,
        Some(query) => {
            let fields = split_on(query, '&');
            if fields.len() != 2 {
                None
            } else if field_value(fields[0], "scenario"@) is Some {
                run_of_fields(fields[0], fields[1])
            } else {
                run_of_fields(fields[1], fields[0])
            }
        },
    }
}

/// The value of `f` if it is the field `key=value`.
fn field_value_chars(f: &[char], key: &str) -> (out: Option<Vec<char>>)
    ensures
        (out is Some) == (field_value(f@, key@) is Some),
        out matches Some(v) ==> field_value(f@, key@) == Some(v@),
{
    match split_once_chars(f, '=') {
        Some((k, v)) => {
            if same_chars(k.as_slice(), key) {
                Some(v)
            } else {
                None
            }
        },
        None => None,
    }
}

/// The run requested by a scenario field and a seed field.
fn run_of_field_chars(scenario_field: &[char], seed_field: &[char]) -> (out: Option<
    (Scenario, u32),
>)
    ensures
        out == run_of_fields(scenario_field@, seed_field@),
{
    let name = match field_value_chars(scenario_field, "scenario") {
        Some(v) => v,
        None => return None,
    };
    let number = match field_value_chars(seed_field, "seed") {
        Some(v) => v,
        None => return None,
    };
    match (Scenario::parse_chars(name.as_slice()), parse_u32(number.as_slice())) {
        (Some(s), Some(n)) => Some((s, n)),
        _ => None,
    }
}

/// Whether `s` starts with the characters of `p`.
fn starts_with_chars(s: &[char], p: &str) -> (out: bool)
    ensures
        out == p@.is_prefix_of(s@),
{
    let pv = chars_of(p);
    if pv.len() > s.len() {
        return false;
    }
    let mut i: usize = 0;
    while i < pv.len()
        invariant
            pv@ == p@,
            pv@.len() <= s@.len(),
            i <= pv@.len(),
            forall|j: int| 0 <= j < i ==> pv@[j] == s@[j],
        decreases pv@.len() - i,
    {
        if pv[i] != s[i] {
            return false;
        }
        i = i + 1;
    }
    true
}

/// The scenario and seed a run request path asks for, if it is well formed.
pub fn request_run(path: &str) -> (out: Option<(Scenario, u32)>)
    ensures
        out == run_request(path@),
{
    let cs = chars_of(path);
    request_run_chars(cs.as_slice())
}

/// The scenario and seed a run request path, given by its characters, asks for.
pub fn request_run_chars(path: &[char]) -> (out: Option<(Scenario, u32)>)
    ensures
        out == run_request(path@),
{
    if !starts_with_chars(path, "/api/run?") {
        return None;
    }
    let skip = chars_of("/api/run?").len();
    let query = copy_range(path, skip, path.len());
    assert(query@ =~= path@.skip("/api/run?"@.len() as int));
    let fields = split_chars(query.as_slice(), '&');
    assert(views(fields@).len() == fields@.len());
    if fields.len() != 2 {
        return None;
    }
    assert(fields@[0]@ == split_on(query@, '&')[0]);
    assert(fields@[1]@ == split_on(query@, '&')[1]);
    let first = fields[0].as_slice();
    let second = fields[1].as_slice();
    if field_value_chars(first, "scenario").is_some() {
        run_of_field_chars(first, second)
    } else {
        run_of_field_chars(second, first)
    }
}

/// A line with a `Host` header exists wherever `Host` headers are counted.
proof fn lemma_host_line_exists(ls: Seq<Seq<char>>)
    requires
        host_count(ls) > 0,
    ensures
        exists|i: int| 0 <= i < ls.len() && is_host_line(#[trigger] ls[i]),
    decreases ls.len(),
{
    if is_host_line(ls.last()) {
        assert(is_host_line(ls[ls.len() - 1]));
    } else {
        lemma_host_line_exists(ls.drop_last());
        let i = choose|i: int| 0 <= i < ls.len() - 1 && is_host_line(#[trigger] ls.drop_last()[i]);
        assert(ls[i] == ls.drop_last()[i]);
    }
}

/// The trimmed value of a header line.
pub open spec fn header_value(line: Seq<char>) -> Seq<char> {
    match split_once(line, ':') {
        Some((_, raw)) => trim(raw),
        None => Seq::empty(),
    }
}

/// Every served head carries a `Host` header that names this server by its
/// loopback address or by `localhost`, so a rebound or foreign host name is
/// never served.
pub proof fn law_authorized_heads_name_this_server(h: Seq<char>)
    requires
        head_authorized(h),
    ensures
        exists|i: int|
            0 <= i < header_block(h).len() && is_host_line(#[trigger] header_block(h)[i]) && (header_value(
                header_block(h)[i],
            ) == "127.0.0.1:8777"@ || header_value(header_block(h)[i]) == "localhost:8777"@),
{
    let block = header_block(h);
    lemma_host_line_exists(block);
    let i = choose|i: int| 0 <= i < block.len() && is_host_line(#[trigger] block[i]);
    assert(header_line_ok(block[i]));
    reveal(header_line_ok);
    reveal(is_host_line);
}

/// A request is answered with anything but `Forbidden` only when its head is
/// authorized.
pub proof fn law_only_authorized_heads_are_served(h: Seq<char>)
    ensures
        route_of(h) != Route::Forbidden ==> head_authorized(h),
        !head_authorized(h) ==> route_of(h) == Route::Forbidden,
{
}

/// The response the simulation server gives a request.
#[derive(Clone, Copy, Debug, PartialEq, Eq, Structural)]
pub enum Route {
    /// The head is not addressed to this loopback server from its own origin.
    Forbidden,
    /// The request line is not `GET <path> HTTP/1.1`.
    MethodNotAllowed,
    /// The single-page interface.
    Page,
    /// The interface's script.
    Script,
    /// The interface's style sheet.
    Stylesheet,
    /// The precomputed evaluation report.
    Evaluation,
    /// The liveness probe.
    Health,
    /// One simulated run of a scenario from a seed.
    Run(Scenario, u32),
    /// A run path whose query is not one scenario and one seed.
    BadRunRequest,
    /// Any other path.
    NotFound,
}

/// The first line of a request head, or nothing.
pub open spec fn request_line(h: Seq<char>) -> Seq<char> {
    if lines(h).len() > 0 {
        lines(h)[0]
    } else {
        Seq::empty()
    }
}

/// The response a request path gets once the head is authorized and the
/// request line is a `GET`.
pub open spec fn route_of_path(p: Seq<char>) -> Route {
    if p == "/"@ {
        Route::Page
    } else if p == "/app.js"@ {
        Route::Script
    } else if p == "/style.css"@ {
        Route::Stylesheet
    } else if p == "/api/evaluate"@ {
        Route::Evaluation
    } else if p == "/health"@ {
        Route::Health
    } else if "/api/run?"@.is_prefix_of(p) {
        match run_request(p) {
            Some((s, n)) => Route::Run(s, n),
            None => Route::BadRunRequest,
        }
    } else {
        Route::NotFound
    }
}

/// The response a complete request head gets.
pub open spec fn route_of(h: Seq<char>) -> Route {
    if !head_authorized(h) {
        Route::Forbidden
    } else {
        let parts = words(request_line(h));
        if parts.len() != 3 || parts[0] != "GET"@ || parts[2] != "HTTP/1.1"@ {
            Route::MethodNotAllowed
        } else {
            route_of_path(parts[1])
        }
    }
}

/// The response a request path gets.
fn route_path(p: &[char]) -> (r: Route)
    ensures
        r == route_of_path(p@),
{
    if same_chars(p, "/") {
        Route::Page
    } else if same_chars(p, "/app.js") {
        Route::Script
    } else if same_chars(p, "/style.css") {
        Route::Stylesheet
    } else if same_chars(p, "/api/evaluate") {
        Route::Evaluation
    } else if same_chars(p, "/health") {
        Route::Health
    } else if starts_with_chars(p, "/api/run?") {
        match request_run_chars(p) {
            Some((s, n)) => Route::Run(s, n),
            None => Route::BadRunRequest,
        }
    } else {
        Route::NotFound
    }
}

/// Decide the response to a complete request head: forbidden unless the
/// head is authorized, then `GET` over HTTP/1.1 only, then by path.
pub fn route_request(head: &str) -> (r: Route)
    ensures
        r == route_of(head@),
{
    if !authorized_head(head) {
        return Route::Forbidden;
    }
    let cs = chars_of(head);
    let ls = lines_of(cs.as_slice());
    let first: Vec<char> = if ls.len() > 0 {
        assert(ls@[0]@ == lines(head@)[0]);
        copy_range(ls[0].as_slice(), 0, ls[0].len())
    } else {
        Vec::new()
    };
    assert(first@ =~= request_line(head@));
    let parts = words_of(first.as_slice());
    assert(views(parts@).len() == parts@.len());
    if parts.len() != 3 {
        return Route::MethodNotAllowed;
    }
    assert(parts@[0]@ == words(first@)[0]);
    assert(parts@[1]@ == words(first@)[1]);
    assert(parts@[2]@ == words(first@)[2]);
    if !same_chars(parts[0].as_slice(), "GET") || !same_chars(parts[2].as_slice(), "HTTP/1.1") {
        return Route::MethodNotAllowed;
    }
    route_path(parts[1].as_slice())
}

impl Route {
    /// The HTTP status line of the response.
    pub fn status(&self) -> (s: &'static str)
        ensures
            s@ == route_status(*self),
    {
        match self {
            Route::Forbidden => "403 Forbidden",
            Route::MethodNotAllowed => "405 Method Not Allowed",
            Route::BadRunRequest => "400 Bad Request",
            Route::NotFound => "404 Not Found",
            _ => "200 OK",
        }
    }
}

/// The status of the response to a route.
pub open spec fn route_status(r: Route) -> Seq<char> {
    match r {
        Route::Forbidden => "403 Forbidden"@,
        Route::MethodNotAllowed => "405 Method Not Allowed"@,
        Route::BadRunRequest => "400 Bad Request"@,
        Route::NotFound => "404 Not Found"@,
        _ => "200 OK"@,
    }
}

} // verus!
