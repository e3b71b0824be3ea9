//! Request routing, query parameters, and the status, body and content type
//! of each reply. Reading files, the database and the collector is the
//! server's part; it hands the results here.
use vstd::prelude::*;
use crate::assoc::StringMap;
use crate::collector::MemoryStat;
use crate::collector::engine::{SampleStream, stream_named};
use crate::collector::thermal::{ThermalStat, ThermalHistoryResponse};
use crate::collector::MemoryHistoryResponse;
use crate::ipc::{ConfigChanges, IpcResponse, retention_error, retention_error_text};
use crate::json::{json_err, json_object1, json_members, members_view, parsed_json_members};
use crate::num::{parse_i32, parse_i32_spec};
use crate::text::{
    chars_of, chars_eq, split_char, split_spec, starts_with, starts_with_spec, sub_vec,
    string_from_chars, first_index, first_index_spec, lemma_split_nonempty,
};

verus! {

broadcast use crate::views::lemma_char_vec_deep_view;

/// A reply: HTTP status, body, and content type.
#[derive(Debug)]
pub struct ApiReply {
    pub status: u16,
    pub body: String,
    pub content_type: String,
}

pub open spec fn reply_is(r: ApiReply, status: u16, body: Seq<char>, ct: Seq<char>) -> bool {
    r.status == status && r.body@ == body && r.content_type@ == ct
}

fn reply(status: u16, body: String, ct: &str) -> (r: ApiReply)
    ensures
        reply_is(r, status, body@, ct@),
{
    ApiReply { status, body, content_type: String::from_str(ct) }
}

// ---------------------------------------------------------------------------
// Static files
// ---------------------------------------------------------------------------

/// `Path::new(path).extension()`, as text.
pub uninterp spec fn path_extension(path: Seq<char>) -> Option<Seq<char>>;

/// The extension of a path as std's `Path::extension` finds it (the part of
/// the file name after its last `.`, if the name has a `.` other than a
/// leading one), converted to text. The contract names the result.
#[verifier::external_body]
fn extension_of(path: &str) -> (r: Option<String>)
    ensures
        match r {
            Some(e) => path_extension(path@) == Some(e@),
            None => path_extension(path@) is None,
        },
{
    std::path::Path::new(path).extension().and_then(|e| e.to_str()).map(|e| e.to_string())
}

/// The content type served for a file extension.
pub open spec fn mime_for(ext: Seq<char>) -> Seq<char> {
    if ext == "html"@ {
        "text/html; charset=utf-8"@
    } else if ext == "css"@ {
        "text/css; charset=utf-8"@
    } else if ext == "js"@ {
        "application/javascript; charset=utf-8"@
    } else if ext == "json"@ {
        "application/json"@
    } else if ext == "svg"@ {
        "image/svg+xml"@
    } else if ext == "png"@ {
        "image/png"@
    } else if ext == "jpg"@ || ext == "jpeg"@ {
        "image/jpeg"@
    } else if ext == "gif"@ {
        "image/gif"@
    } else if ext == "ico"@ {
        "image/x-icon"@
    } else if ext == "woff"@ {
        "font/woff"@
    } else if ext == "woff2"@ {
        "font/woff2"@
    } else if ext == "ttf"@ {
        "font/ttf"@
    } else if ext == "txt"@ {
        "text/plain; charset=utf-8"@
    } else {
        "application/octet-stream"@
    }
}

fn is(e: &[char], lit: &str) -> (b: bool)
    ensures
        b == (e@ == lit@),
{
    let l = chars_of(lit);
    chars_eq(e, l.as_slice())
}

/// The content type for a file, by its extension (none reads as empty).
pub fn content_type(path: &str) -> (r: &'static str)
    ensures
        r@ == mime_for(
            match path_extension(path@) {
                Some(e) => e,
                None => ""@,
            },
        ),
{
    match extension_of(path) {
        Some(e) => mime_for_ext(e.as_str()),
        None => mime_for_ext(""),
    }
}

/// The content type served for a file extension.
pub fn mime_for_ext(ext: &str) -> (r: &'static str)
    ensures
        r@ == mime_for(ext@),
{
    let ext = chars_of(ext);
    let e = ext.as_slice();
    if is(e, "html") {
        "text/html; charset=utf-8"
    } else if is(e, "css") {
        "text/css; charset=utf-8"
    } else if is(e, "js") {
        "application/javascript; charset=utf-8"
    } else if is(e, "json") {
        "application/json"
    } else if is(e, "svg") {
        "image/svg+xml"
    } else if is(e, "png") {
        "image/png"
    } else if is(e, "jpg") || is(e, "jpeg") {
        "image/jpeg"
    } else if is(e, "gif") {
        "image/gif"
    } else if is(e, "ico") {
        "image/x-icon"
    } else if is(e, "woff") {
        "font/woff"
    } else if is(e, "woff2") {
        "font/woff2"
    } else if is(e, "ttf") {
        "font/ttf"
    } else if is(e, "txt") {
        "text/plain; charset=utf-8"
    } else {
        "application/octet-stream"
    }
}

// ---------------------------------------------------------------------------
// Routing
// ---------------------------------------------------------------------------

/// What a request path asks for.
#[derive(Debug)]
pub enum Route {
    /// An `/api/` endpoint.
    Api,
    /// A file of the static directory, by its path relative to it.
    StaticFile(String),
    /// The frontend's index page.
    Index,
    NotFound,
}

/// `/static/x` serves `x` and `/assets/x` serves `assets/x` from the static
/// directory; `/` serves the index; `/api/` paths go to the API.
pub fn route_url(url: &str) -> (r: Route)
    ensures
        match r {
            Route::Api => starts_with_spec(url@, "/api/"@),
            Route::StaticFile(rel) => !starts_with_spec(url@, "/api/"@) && (if starts_with_spec(
                url@,
                "/static/"@,
            ) {
                rel@ == url@.skip(8)
            } else {
                starts_with_spec(url@, "/assets/"@) && rel@ == url@.skip(1)
            }),
            Route::Index => !starts_with_spec(url@, "/api/"@) && !starts_with_spec(
                url@,
                "/static/"@,
            ) && !starts_with_spec(url@, "/assets/"@) && url@ == "/"@,
            Route::NotFound => !starts_with_spec(url@, "/api/"@) && !starts_with_spec(
                url@,
                "/static/"@,
            ) && !starts_with_spec(url@, "/assets/"@) && url@ != "/"@,
        },
{
    proof {
        reveal_strlit("/static/");
    }
    let u = chars_of(url);
    let api = chars_of("/api/");
    let st = chars_of("/static/");
    let assets = chars_of("/assets/");
    let root = chars_of("/");
    if starts_with(u.as_slice(), api.as_slice()) {
        Route::Api
    } else if starts_with(u.as_slice(), st.as_slice()) {
        let rel = sub_vec(u.as_slice(), 8, u.len());
        assert(rel@ =~= url@.skip(8));
        Route::StaticFile(string_from_chars(rel.as_slice()))
    } else if starts_with(u.as_slice(), assets.as_slice()) {
        proof {
            reveal_strlit("/assets/");
        }
        let rel = sub_vec(u.as_slice(), 1, u.len());
        assert(rel@ =~= url@.skip(1));
        Route::StaticFile(string_from_chars(rel.as_slice()))
    } else if chars_eq(u.as_slice(), root.as_slice()) {
        Route::Index
    } else {
        Route::NotFound
    }
}

/// An API endpoint.
#[derive(Debug)]
pub enum ApiRoute {
    /// `POST /api/config`.
    ConfigPost,
    /// `GET /api/host`: the machine's short hostname.
    Host,
    /// `/api/<stream>/current`.
    Current(SampleStream),
    /// `/api/<stream>/history`.
    History(SampleStream),
    NotFound,
}

/// The path of a URL: everything before its first `?`.
pub open spec fn url_path(url: Seq<char>) -> Seq<char> {
    split_spec(url, '?')[0]
}

/// The endpoint that the path of `url` (matched by prefix, in this order)
/// and the method name.
pub open spec fn api_route_spec(url: Seq<char>, method: Seq<char>) -> ApiRoute {
    let p = url_path(url);
    if p == "/api/config"@ && method == "POST"@ {
        ApiRoute::ConfigPost
    } else if p == "/api/host"@ {
        ApiRoute::Host
    } else if starts_with_spec(p, "/api/memory/current"@) {
        ApiRoute::Current(SampleStream::Memory)
    } else if starts_with_spec(p, "/api/memory/history"@) {
        ApiRoute::History(SampleStream::Memory)
    } else if starts_with_spec(p, "/api/thermal/current"@) {
        ApiRoute::Current(SampleStream::Thermal)
    } else if starts_with_spec(p, "/api/thermal/history"@) {
        ApiRoute::History(SampleStream::Thermal)
    } else if starts_with_spec(p, "/api/compute/current"@) {
        ApiRoute::Current(SampleStream::Compute)
    } else if starts_with_spec(p, "/api/compute/history"@) {
        ApiRoute::History(SampleStream::Compute)
    } else if starts_with_spec(p, "/api/power/current"@) {
        ApiRoute::Current(SampleStream::Power)
    } else if starts_with_spec(p, "/api/power/history"@) {
        ApiRoute::History(SampleStream::Power)
    } else {
        ApiRoute::NotFound
    }
}

/// Two texts that differ at a position within both cannot both begin `p`.
proof fn lemma_prefix_excludes(p: Seq<char>, a: Seq<char>, b: Seq<char>, k: int)
    requires
        starts_with_spec(p, a),
        0 <= k < a.len(),
        k < b.len(),
        a[k] != b[k],
    ensures
        !starts_with_spec(p, b),
        p != b,
{
    assert(p.take(a.len() as int)[k] == p[k]);
    if starts_with_spec(p, b) {
        assert(p.take(b.len() as int)[k] == p[k]);
    }
}

/// The stream of a `current` endpoint is the stream its path names: a path
/// that begins `/api/<name>/current`, for the name of a sampled stream, is
/// routed to that stream's current reading, whatever the method.
pub proof fn law_current_route_names_its_stream(
    url: Seq<char>,
    method: Seq<char>,
    name: Seq<char>,
    s: SampleStream,
)
    requires
        stream_named(name) == Some(s),
        starts_with_spec(url_path(url), "/api/"@ + name + "/current"@),
    ensures
        api_route_spec(url, method) == ApiRoute::Current(s),
{
    let p = url_path(url);
    reveal_strlit("/api/");
    reveal_strlit("/current");
    reveal_strlit("memory");
    reveal_strlit("thermal");
    reveal_strlit("compute");
    reveal_strlit("power");
    reveal_strlit("/api/config");
    reveal_strlit("/api/host");
    reveal_strlit("/api/memory/current");
    reveal_strlit("/api/memory/history");
    reveal_strlit("/api/thermal/current");
    reveal_strlit("/api/thermal/history");
    reveal_strlit("/api/compute/current");
    reveal_strlit("/api/compute/history");
    reveal_strlit("/api/power/current");
    reveal_strlit("/api/power/history");
    let pre = "/api/"@ + name + "/current"@;
    match s {
        SampleStream::Memory => {
            assert(name == "memory"@);
            assert(pre =~= "/api/memory/current"@);
            lemma_prefix_excludes(p, pre, "/api/config"@, 5);
            lemma_prefix_excludes(p, pre, "/api/host"@, 5);
        },
        SampleStream::Thermal => {
            assert(name == "thermal"@);
            assert(pre =~= "/api/thermal/current"@);
            lemma_prefix_excludes(p, pre, "/api/config"@, 5);
            lemma_prefix_excludes(p, pre, "/api/host"@, 5);
            lemma_prefix_excludes(p, pre, "/api/memory/current"@, 5);
            lemma_prefix_excludes(p, pre, "/api/memory/history"@, 5);
        },
        SampleStream::Compute => {
            assert(name == "compute"@);
            assert(pre =~= "/api/compute/current"@);
            lemma_prefix_excludes(p, pre, "/api/config"@, 7);
            lemma_prefix_excludes(p, pre, "/api/host"@, 5);
            lemma_prefix_excludes(p, pre, "/api/memory/current"@, 5);
            lemma_prefix_excludes(p, pre, "/api/memory/history"@, 5);
            lemma_prefix_excludes(p, pre, "/api/thermal/current"@, 5);
            lemma_prefix_excludes(p, pre, "/api/thermal/history"@, 5);
        },
        SampleStream::Power => {
            assert(name == "power"@);
            assert(pre =~= "/api/power/current"@);
            lemma_prefix_excludes(p, pre, "/api/config"@, 5);
            lemma_prefix_excludes(p, pre, "/api/host"@, 5);
            lemma_prefix_excludes(p, pre, "/api/memory/current"@, 5);
            lemma_prefix_excludes(p, pre, "/api/memory/history"@, 5);
            lemma_prefix_excludes(p, pre, "/api/thermal/current"@, 5);
            lemma_prefix_excludes(p, pre, "/api/thermal/history"@, 5);
            lemma_prefix_excludes(p, pre, "/api/compute/current"@, 5);
            lemma_prefix_excludes(p, pre, "/api/compute/history"@, 5);
        },
    }
}

/// The stream of a `history` endpoint is the stream its path names: a path
/// that begins `/api/<name>/history`, for the name of a sampled stream, is
/// routed to that stream's history, whatever the method.
pub proof fn law_history_route_names_its_stream(
    url: Seq<char>,
    method: Seq<char>,
    name: Seq<char>,
    s: SampleStream,
)
    requires
        stream_named(name) == Some(s),
        starts_with_spec(url_path(url), "/api/"@ + name + "/history"@),
    ensures
        api_route_spec(url, method) == ApiRoute::History(s),
{
    let p = url_path(url);
    reveal_strlit("/api/");
    reveal_strlit("/history");
    reveal_strlit("memory");
    reveal_strlit("thermal");
    reveal_strlit("compute");
    reveal_strlit("power");
    reveal_strlit("/api/config");
    reveal_strlit("/api/host");
    reveal_strlit("/api/memory/current");
    reveal_strlit("/api/memory/history");
    reveal_strlit("/api/thermal/current");
    reveal_strlit("/api/thermal/history");
    reveal_strlit("/api/compute/current");
    reveal_strlit("/api/compute/history");
    reveal_strlit("/api/power/current");
    reveal_strlit("/api/power/history");
    let pre = "/api/"@ + name + "/history"@;
    match s {
        SampleStream::Memory => {
            assert(name == "memory"@);
            assert(pre =~= "/api/memory/history"@);
            lemma_prefix_excludes(p, pre, "/api/config"@, 5);
            lemma_prefix_excludes(p, pre, "/api/host"@, 5);
            lemma_prefix_excludes(p, pre, "/api/memory/current"@, 12);
        },
        SampleStream::Thermal => {
            assert(name == "thermal"@);
            assert(pre =~= "/api/thermal/history"@);
            lemma_prefix_excludes(p, pre, "/api/config"@, 5);
            lemma_prefix_excludes(p, pre, "/api/host"@, 5);
            lemma_prefix_excludes(p, pre, "/api/memory/current"@, 5);
            lemma_prefix_excludes(p, pre, "/api/memory/history"@, 5);
            lemma_prefix_excludes(p, pre, "/api/thermal/current"@, 13);
        },
        SampleStream::Compute => {
            assert(name == "compute"@);
            assert(pre =~= "/api/compute/history"@);
            lemma_prefix_excludes(p, pre, "/api/config"@, 7);
            lemma_prefix_excludes(p, pre, "/api/host"@, 5);
            lemma_prefix_excludes(p, pre, "/api/memory/current"@, 5);
            lemma_prefix_excludes(p, pre, "/api/memory/history"@, 5);
            lemma_prefix_excludes(p, pre, "/api/thermal/current"@, 5);
            lemma_prefix_excludes(p, pre, "/api/thermal/history"@, 5);
            lemma_prefix_excludes(p, pre, "/api/compute/current"@, 13);
        },
        SampleStream::Power => {
            assert(name == "power"@);
            assert(pre =~= "/api/power/history"@);
            lemma_prefix_excludes(p, pre, "/api/config"@, 5);
            lemma_prefix_excludes(p, pre, "/api/host"@, 5);
            lemma_prefix_excludes(p, pre, "/api/memory/current"@, 5);
            lemma_prefix_excludes(p, pre, "/api/memory/history"@, 5);
            lemma_prefix_excludes(p, pre, "/api/thermal/current"@, 5);
            lemma_prefix_excludes(p, pre, "/api/thermal/history"@, 5);
            lemma_prefix_excludes(p, pre, "/api/compute/current"@, 5);
            lemma_prefix_excludes(p, pre, "/api/compute/history"@, 5);
            lemma_prefix_excludes(p, pre, "/api/power/current"@, 11);
        },
    }
}

fn has_prefix(p: &[char], lit: &str) -> (b: bool)
    ensures
        b == starts_with_spec(p@, lit@),
{
    let l = chars_of(lit);
    starts_with(p, l.as_slice())
}

/// The API endpoint of a request.
pub fn api_route(url: &str, method: &str) -> (r: ApiRoute)
    ensures
        r == api_route_spec(url@, method@),
{
    let u = chars_of(url);
    let parts = split_char(u.as_slice(), '?');
    proof {
        lemma_split_nonempty(url@, '?');
    }
    assert(parts[0]@ == parts.deep_view()[0]);
    let p = parts[0].as_slice();
    let m = chars_of(method);
    if is(p, "/api/config") && is(m.as_slice(), "POST") {
        ApiRoute::ConfigPost
    } else if is(p, "/api/host") {
        ApiRoute::Host
    } else if has_prefix(p, "/api/memory/current") {
        ApiRoute::Current(SampleStream::Memory)
    } else if has_prefix(p, "/api/memory/history") {
        ApiRoute::History(SampleStream::Memory)
    } else if has_prefix(p, "/api/thermal/current") {
        ApiRoute::Current(SampleStream::Thermal)
    } else if has_prefix(p, "/api/thermal/history") {
        ApiRoute::History(SampleStream::Thermal)
    } else if has_prefix(p, "/api/compute/current") {
        ApiRoute::Current(SampleStream::Compute)
    } else if has_prefix(p, "/api/compute/history") {
        ApiRoute::History(SampleStream::Compute)
    } else if has_prefix(p, "/api/power/current") {
        ApiRoute::Current(SampleStream::Power)
    } else if has_prefix(p, "/api/power/history") {
        ApiRoute::History(SampleStream::Power)
    } else {
        ApiRoute::NotFound
    }
}

// ---------------------------------------------------------------------------
// Query parameters
// ---------------------------------------------------------------------------

/// `str::replace(pat, rep)` for a non-empty pattern: matches are replaced from
/// left to right, without overlapping.
pub open spec fn replace_spec(s: Seq<char>, pat: Seq<char>, rep: Seq<char>) -> Seq<char>
    decreases s.len(),
{
    if s.len() == 0 {
        Seq::empty()
    } else if pat.len() > 0 && starts_with_spec(s, pat) {
        rep + replace_spec(s.skip(pat.len() as int), pat, rep)
    } else {
        seq![s[0]] + replace_spec(s.drop_first(), pat, rep)
    }
}

fn replace(s: &[char], pat: &[char], rep: &[char]) -> (r: Vec<char>)
    requires
        pat@.len() > 0,
    ensures
        r@ == replace_spec(s@, pat@, rep@),
{
    let mut out: Vec<char> = Vec::new();
    let mut i: usize = 0;
    assert(s@.skip(0) =~= s@);
    while i < s.len()
        invariant
            i <= s@.len(),
            pat@.len() > 0,
            out@ + replace_spec(s@.skip(i as int), pat@, rep@) == replace_spec(s@, pat@, rep@),
        decreases s.len() - i,
    {
        let rest = sub_vec(s, i, s.len());
        assert(rest@ =~= s@.skip(i as int));
        if starts_with(rest.as_slice(), pat) {
            let ghost before = out@;
            let mut j: usize = 0;
            while j < rep.len()
                invariant
                    j <= rep@.len(),
                    out@ == before + rep@.take(j as int),
                decreases rep.len() - j,
            {
                out.push(rep[j]);
                j = j + 1;
                assert(out@ =~= before + rep@.take(j as int));
            }
            assert(rep@.take(rep@.len() as int) =~= rep@);
            assert(s@.skip(i as int).skip(pat@.len() as int) =~= s@.skip(i + pat@.len()));
            assert(out@ + replace_spec(s@.skip(i + pat@.len()), pat@, rep@) =~= before + (rep@
                + replace_spec(s@.skip(i as int).skip(pat@.len() as int), pat@, rep@)));
            i = i + pat.len();
        } else {
            let ghost before = out@;
            out.push(s[i]);
            assert(s@.skip(i as int).drop_first() =~= s@.skip(i + 1));
            assert(out@ + replace_spec(s@.skip(i + 1), pat@, rep@) =~= before + (seq![s@[i as int]]
                + replace_spec(s@.skip(i as int).drop_first(), pat@, rep@)));
            i = i + 1;
        }
    }
    assert(s@.skip(i as int) =~= Seq::<char>::empty());
    assert(out@ + Seq::<char>::empty() =~= out@);
    out
}

/// URL-decoding as far as the server goes: `%20` and `+` become spaces.
pub open spec fn urldecode_spec(s: Seq<char>) -> Seq<char> {
    replace_spec(replace_spec(s, "%20"@, " "@), "+"@, " "@)
}

pub fn urldecode(s: &str) -> (r: String)
    ensures
        r@ == urldecode_spec(s@),
{
    proof {
        reveal_strlit("%20");
        reveal_strlit("+");
    }
    let c = chars_of(s);
    let pct = chars_of("%20");
    let plus = chars_of("+");
    let sp = chars_of(" ");
    let a = replace(c.as_slice(), pct.as_slice(), sp.as_slice());
    let b = replace(a.as_slice(), plus.as_slice(), sp.as_slice());
    string_from_chars(b.as_slice())
}

/// The `key=value` pairs of a query, decoded; pieces without `=` are skipped.
pub open spec fn query_pairs(pieces: Seq<Seq<char>>) -> Seq<(Seq<char>, Seq<char>)>
    decreases pieces.len(),
{
    if pieces.len() == 0 {
        Seq::empty()
    } else {
        let prev = query_pairs(pieces.drop_last());
        let p = pieces.last();
        match first_index_spec(p, '=') {
            Some(i) => prev.push((urldecode_spec(p.take(i)), urldecode_spec(p.skip(i + 1)))),
            None => prev,
        }
    }
}

/// The pairs of a URL's query: the text between its first and second `?`,
/// split at `&`.
pub open spec fn url_query_pairs(url: Seq<char>) -> Seq<(Seq<char>, Seq<char>)> {
    let parts = split_spec(url, '?');
    if parts.len() < 2 {
        Seq::empty()
    } else {
        query_pairs(split_spec(parts[1], '&'))
    }
}

/// The assoc-map reading of a sequence of pairs: a later pair wins.
pub open spec fn pairs_map(s: Seq<(Seq<char>, Seq<char>)>) -> Map<Seq<char>, Seq<char>> {
    crate::assoc::assoc_map(s)
}

/// A repeated query parameter takes the value of its last occurrence, and a
/// key that no `key=value` piece has is absent.
pub proof fn law_query_last_value_wins(url: Seq<char>, k: Seq<char>, i: int)
    requires
        0 <= i < url_query_pairs(url).len(),
        url_query_pairs(url)[i].0 == k,
        forall|j: int| i < j < url_query_pairs(url).len() ==> (#[trigger] url_query_pairs(url)[j]).0 != k,
    ensures
        pairs_map(url_query_pairs(url)).contains_key(k),
        pairs_map(url_query_pairs(url))[k] == url_query_pairs(url)[i].1,
{
    crate::assoc::lemma_assoc_last(url_query_pairs(url), k, i);
}

/// The query parameters of a request.
pub type QueryParams = StringMap;

/// Parse the query parameters of a URL; for a repeated key the last value wins.
pub fn parse_query_params(url: &str) -> (params: QueryParams)
    ensures
        params@ == pairs_map(url_query_pairs(url@)),
{
    let mut params = StringMap::new();
    let u = chars_of(url);
    let parts = split_char(u.as_slice(), '?');
    if parts.len() < 2 {
        assert(params@ =~= pairs_map(url_query_pairs(url@)));
        return params;
    }
    assert(parts[1]@ == parts.deep_view()[1]);
    let pieces = split_char(parts[1].as_slice(), '&');
    let ghost pv = pieces.deep_view();
    let mut i: usize = 0;
    while i < pieces.len()
        invariant
            i <= pieces@.len(),
            pv == pieces.deep_view(),
            params@ == pairs_map(query_pairs(pv.take(i as int))),
        decreases pieces.len() - i,
    {
        assert(pieces[i as int]@ == pv[i as int]);
        assert(pv.take(i + 1).drop_last() =~= pv.take(i as int));
        assert(pv.take(i + 1).last() == pv[i as int]);
        let p = pieces[i].as_slice();
        match first_index(p, '=') {
            Some(k) => {
                assert(p@.len() == p.len());
                let ks = sub_vec(p, 0, k);
                let vs = sub_vec(p, k + 1, p.len());
                assert(ks@ =~= pv[i as int].take(k as int));
                assert(vs@ =~= pv[i as int].skip(k + 1));
                let key = urldecode(string_from_chars(ks.as_slice()).as_str());
                let value = urldecode(string_from_chars(vs.as_slice()).as_str());
                let kc = chars_of(key.as_str());
                let ghost q = query_pairs(pv.take(i as int));
                params.insert(kc.as_slice(), value);
                assert(query_pairs(pv.take(i + 1)) == q.push((key@, value@)));
                assert(q.push((key@, value@)).drop_last() =~= q);
            },
            None => {},
        }
        i = i + 1;
    }
    assert(pv.take(i as int) =~= pv);
    params
}

/// The `limit` or `offset` of a history request: the default when the
/// parameter is missing, its value when it parses as an `i32`, else `None`.
pub open spec fn param_value(v: Option<Seq<char>>, d: i32) -> Option<i32> {
    match v {
        Some(s) => parse_i32_spec(s),
        None => Some(d),
    }
}

pub open spec fn opt_str(o: Option<&str>) -> Option<Seq<char>> {
    match o {
        Some(s) => Some(s@),
        None => None,
    }
}

fn param_exec(v: Option<&str>, d: i32) -> (r: Option<i32>)
    ensures
        r == param_value(opt_str(v), d),
{
    match v {
        Some(s) => {
            let c = chars_of(s);
            parse_i32(c.as_slice())
        },
        None => Some(d),
    }
}

/// The paging of a history request: `limit` (default 100) within 1..=1000 and
/// `offset` (default 0) not negative; a parameter that is present but is not
/// an `i32`, or a value out of range, gets a 400 reply
/// `{"error":"invalid parameters"}`.
pub fn history_params(limit: Option<&str>, offset: Option<&str>) -> (r: Result<(i32, i32), ApiReply>)
    ensures
        ({
            let l = param_value(opt_str(limit), 100);
            let o = param_value(opt_str(offset), 0);
            if l matches Some(lv) && o matches Some(ov) && 1 <= lv <= 1000 && ov >= 0 {
                r == Ok::<(i32, i32), ApiReply>((l->0, o->0))
            } else {
                r matches Err(e) && reply_is(
                    e,
                    400,
                    json_object1("error"@, "invalid parameters"@),
                    "application/json"@,
                )
            }
        }),
{
    let l = param_exec(limit, 100);
    let o = param_exec(offset, 0);
    match (l, o) {
        (Some(lv), Some(ov)) => {
            if 1 <= lv && lv <= 1000 && ov >= 0 {
                return Ok((lv, ov));
            }
        },
        _ => {},
    }
    Err(reply(400, json_err("invalid parameters"), "application/json"))
}

// ---------------------------------------------------------------------------
// Replies
// ---------------------------------------------------------------------------

/// The reply to a `current` request, given the latest reading serialized
/// (`Ok(None)` when there is none; `Err` on a database error).
pub fn current_reply(latest: Result<Option<String>, ()>) -> (r: ApiReply)
    ensures
        match latest {
            Ok(Some(body)) => reply_is(r, 200, body@, "application/json"@),
            Ok(None) => reply_is(r, 503, "No data available"@, "text/plain"@),
            Err(()) => reply_is(
                r,
                500,
                json_object1("error"@, "database error"@),
                "application/json"@,
            ),
        },
{
    match latest {
        Ok(Some(body)) => reply(200, body, "application/json"),
        Ok(None) => reply(503, String::from_str("No data available"), "text/plain"),
        Err(()) => reply(500, json_err("database error"), "application/json"),
    }
}

/// The reply to a `history` request, given the page serialized (`Err` on a
/// database error).
pub fn history_reply(page: Result<String, ()>) -> (r: ApiReply)
    ensures
        match page {
            Ok(body) => reply_is(r, 200, body@, "application/json"@),
            Err(()) => reply_is(
                r,
                500,
                json_object1("error"@, "database error"@),
                "application/json"@,
            ),
        },
{
    match page {
        Ok(body) => reply(200, body, "application/json"),
        Err(()) => reply(500, json_err("database error"), "application/json"),
    }
}

/// A page of memory history: `count` is the number of rows on the page.
pub fn memory_history_response(data: Vec<MemoryStat>, total: i64) -> (r: MemoryHistoryResponse)
    ensures
        r.count == data@.len() as i64,
        r.total == total,
        r.data@ == data@,
{
    let count = data.len() as i64;
    MemoryHistoryResponse { count, total, data }
}

/// A page of thermal history: `count` is the number of rows on the page.
pub fn thermal_history_response(data: Vec<ThermalStat>, total: i64) -> (r: ThermalHistoryResponse)
    ensures
        r.count == data@.len() as i64,
        r.total == total,
        r.data@ == data@,
{
    let count = data.len() as i64;
    ThermalHistoryResponse { count, total, data }
}

/// The reply for a static file: its content with the type of its extension,
/// or 404 when it cannot be read.
pub fn static_file_reply(content: Option<String>, file_path: &str) -> (r: ApiReply)
    ensures
        match content {
            Some(c) => r.status == 200 && r.body@ == c@ && r.content_type@ == mime_for(
                match path_extension(file_path@) {
                    Some(e) => e,
                    None => ""@,
                },
            ),
            None => reply_is(r, 404, "Static file not found"@, "text/plain"@),
        },
{
    match content {
        Some(c) => reply(200, c, content_type(file_path)),
        None => reply(404, String::from_str("Static file not found"), "text/plain"),
    }
}

/// The reply for the index page, or 503 when the frontend is not built.
pub fn index_reply(content: Option<String>) -> (r: ApiReply)
    ensures
        match content {
            Some(c) => reply_is(r, 200, c@, "text/html; charset=utf-8"@),
            None => reply_is(
                r,
                503,
                "Frontend not built. Run: cd frontend && npm run build"@,
                "text/plain"@,
            ),
        },
{
    match content {
        Some(c) => reply(200, c, "text/html; charset=utf-8"),
        None => reply(
            503,
            String::from_str("Frontend not built. Run: cd frontend && npm run build"),
            "text/plain",
        ),
    }
}

/// The reply for a path that names nothing.
pub fn not_found_reply() -> (r: ApiReply)
    ensures
        reply_is(r, 404, "Not Found"@, "text/plain"@),
{
    reply(404, String::from_str("Not Found"), "text/plain")
}

/// The reply for an unknown API endpoint.
pub fn endpoint_not_found_reply() -> (r: ApiReply)
    ensures
        reply_is(r, 404, "Endpoint not found"@, "application/json"@),
{
    reply(404, String::from_str("Endpoint not found"), "application/json")
}

/// The reply when the database cannot be opened, with the error's text.
pub fn database_open_error_reply(err: &str) -> (r: ApiReply)
    ensures
        reply_is(
            r,
            500,
            json_object1("error"@, "database read error: "@ + err@),
            "application/json"@,
        ),
{
    let mut m = String::from_str("database read error: ");
    m.append(err);
    reply(500, json_err(m.as_str()), "application/json")
}

// ---------------------------------------------------------------------------
// POST /api/config
// ---------------------------------------------------------------------------

/// The settings that `POST /api/config` may change.
pub open spec fn is_config_key(k: Seq<char>) -> bool {
    ||| k == "retention_days"@
    ||| k == "memory_interval_secs"@
    ||| k == "thermal_interval_secs"@
    ||| k == "compute_interval_secs"@
    ||| k == "power_interval_secs"@
}

/// The first member whose key is not a setting.
pub open spec fn first_unknown_key(ms: Seq<(Seq<char>, Option<u64>)>) -> Option<Seq<char>>
    decreases ms.len(),
{
    if ms.len() == 0 {
        None
    } else if !is_config_key(ms[0].0) {
        Some(ms[0].0)
    } else {
        first_unknown_key(ms.drop_first())
    }
}

/// The `u64` value of member `key`, if it has one.
pub open spec fn member_u64(ms: Seq<(Seq<char>, Option<u64>)>, key: Seq<char>) -> Option<u64>
    decreases ms.len(),
{
    if ms.len() == 0 {
        None
    } else if ms[0].0 == key {
        ms[0].1
    } else {
        member_u64(ms.drop_first(), key)
    }
}

/// The changes that the members of a body ask for (a retention is read as a
/// `u32`; `config_body_outcome` refuses one beyond it first).
pub open spec fn changes_from_members(ms: Seq<(Seq<char>, Option<u64>)>) -> ConfigChanges {
    ConfigChanges {
        retention_days: match member_u64(ms, "retention_days"@) {
            Some(v) => Some(v as u32),
            None => None,
        },
        memory_interval_secs: member_u64(ms, "memory_interval_secs"@),
        thermal_interval_secs: member_u64(ms, "thermal_interval_secs"@),
        compute_interval_secs: member_u64(ms, "compute_interval_secs"@),
        power_interval_secs: member_u64(ms, "power_interval_secs"@),
    }
}

/// What is wrong with a member's value, if anything: a value that is not a
/// non-negative integer, or a retention beyond `u32`, which is out of bounds.
pub open spec fn value_error(m: (Seq<char>, Option<u64>)) -> Option<Seq<char>> {
    match m.1 {
        None => Some(m.0 + " must be a non-negative integer"@),
        Some(v) => if m.0 == "retention_days"@ && v > u32::MAX {
            Some(retention_error())
        } else {
            None
        },
    }
}

/// The error of the first member whose value is wrong.
pub open spec fn first_value_error(ms: Seq<(Seq<char>, Option<u64>)>) -> Option<Seq<char>>
    decreases ms.len(),
{
    if ms.len() == 0 {
        None
    } else if value_error(ms[0]) is Some {
        value_error(ms[0])
    } else {
        first_value_error(ms.drop_first())
    }
}

/// A 400 reply carrying `{"error":"<msg>"}`.
pub open spec fn bad_request(r: ApiReply, msg: Seq<char>) -> bool {
    reply_is(r, 400, json_object1("error"@, msg), "application/json"@)
}

/// What a `POST /api/config` body comes to, given how it parses.
pub open spec fn config_body_outcome(
    parsed: Result<Option<Seq<(Seq<char>, Option<u64>)>>, Seq<char>>,
    r: Result<ConfigChanges, ApiReply>,
) -> bool {
    match parsed {
        Err(e) => r matches Err(rep) && bad_request(rep, "invalid JSON body: "@ + e),
        Ok(None) => r matches Err(rep) && bad_request(
            rep,
            "expected a JSON object of config changes"@,
        ),
        Ok(Some(ms)) => match first_unknown_key(ms) {
            Some(k) => r matches Err(rep) && bad_request(
                rep,
                "unknown config key '"@ + k + "'"@,
            ),
            None => if ms.len() == 0 {
                r matches Err(rep) && bad_request(rep, "no config changes provided"@)
            } else {
                match first_value_error(ms) {
                    Some(e) => r matches Err(rep) && bad_request(rep, e),
                    None => match changes_from_members(ms).first_error() {
                        Some(e) => r matches Err(rep) && bad_request(rep, e),
                        None => r == Ok::<ConfigChanges, ApiReply>(changes_from_members(ms)),
                    },
                }
            },
        },
    }
}

fn member_of(ms: &Vec<(String, Option<u64>)>, key: &str) -> (r: Option<u64>)
    ensures
        r == member_u64(ms.deep_view(), key@),
{
    let ghost mv = ms.deep_view();
    let k = chars_of(key);
    let mut i: usize = 0;
    assert(mv.skip(0) =~= mv);
    while i < ms.len()
        invariant
            i <= ms@.len(),
            mv == ms.deep_view(),
            k@ == key@,
            member_u64(mv, key@) == member_u64(mv.skip(i as int), key@),
        decreases ms.len() - i,
    {
        let mk = chars_of(ms[i].0.as_str());
        assert(mv.skip(i as int)[0] == mv[i as int]);
        assert(mv[i as int].0 == ms@[i as int].0@);
        if chars_eq(mk.as_slice(), k.as_slice()) {
            return ms[i].1;
        }
        assert(mv.skip(i as int).drop_first() =~= mv.skip(i + 1));
        i = i + 1;
    }
    None
}

/// Whether a key names a setting.
fn is_config_key_exec(k: &str) -> (b: bool)
    ensures
        b == is_config_key(k@),
{
    let c = chars_of(k);
    is(c.as_slice(), "retention_days") || is(c.as_slice(), "memory_interval_secs") || is(
        c.as_slice(),
        "thermal_interval_secs",
    ) || is(c.as_slice(), "compute_interval_secs") || is(c.as_slice(), "power_interval_secs")
}

fn value_error_exec(key: &str, value: Option<u64>) -> (r: Option<String>)
    ensures
        match r {
            Some(m) => value_error((key@, value)) == Some(m@),
            None => value_error((key@, value)) is None,
        },
{
    match value {
        None => {
            let mut m = String::from_str(key);
            m.append(" must be a non-negative integer");
            Some(m)
        },
        Some(v) => {
            let k = chars_of(key);
            if is(k.as_slice(), "retention_days") && v > 0xffff_ffffu64 {
                Some(retention_error_text())
            } else {
                None
            }
        },
    }
}

/// Read a `POST /api/config` body: a JSON object whose members are all
/// settings (at least one), each a non-negative integer to apply, every value
/// within bounds. Anything else is answered with a 400 reply that says why.
pub fn config_changes_from_body(body: &str) -> (r: Result<ConfigChanges, ApiReply>)
    ensures
        config_body_outcome(parsed_json_members(body@), r),
{
    config_changes_from_members(json_members(body))
}

/// The outcome of a `POST /api/config` body, given how it parsed: the parser's
/// error, a value that is not an object (`None`), or the object's members.
pub fn config_changes_from_members(parsed: Result<Option<Vec<(String, Option<u64>)>>, String>) -> (r:
    Result<ConfigChanges, ApiReply>)
    ensures
        config_body_outcome(members_view(parsed), r),
{
    let ghost pv = members_view(parsed);
    match parsed {
        Err(e) => {
            let mut m = String::from_str("invalid JSON body: ");
            m.append(e.as_str());
            Err(reply(400, json_err(m.as_str()), "application/json"))
        },
        Ok(None) => Err(
            reply(400, json_err("expected a JSON object of config changes"), "application/json"),
        ),
        Ok(Some(ms)) => {
            let ghost mv = ms.deep_view();
            let mut i: usize = 0;
            assert(mv.skip(0) =~= mv);
            while i < ms.len()
                invariant
                    i <= ms@.len(),
                    mv == ms.deep_view(),
                    pv == Ok::<_, Seq<char>>(Some(mv)),
                    pv == members_view(parsed),
                    first_unknown_key(mv) == first_unknown_key(mv.skip(i as int)),
                decreases ms.len() - i,
            {
                assert(mv.skip(i as int)[0] == mv[i as int]);
                assert(mv[i as int].0 == ms@[i as int].0@);
                if !is_config_key_exec(ms[i].0.as_str()) {
                    let mut m = String::from_str("unknown config key '");
                    m.append(ms[i].0.as_str());
                    m.append("'");
                    return Err(reply(400, json_err(m.as_str()), "application/json"));
                }
                assert(mv.skip(i as int).drop_first() =~= mv.skip(i + 1));
                i = i + 1;
            }
            assert(mv.skip(i as int) =~= Seq::<(Seq<char>, Option<u64>)>::empty());
            if ms.len() == 0 {
                return Err(reply(400, json_err("no config changes provided"), "application/json"));
            }
            let mut j: usize = 0;
            assert(mv.skip(0) =~= mv);
            while j < ms.len()
                invariant
                    j <= ms@.len(),
                    mv == ms.deep_view(),
                    pv == Ok::<_, Seq<char>>(Some(mv)),
                    pv == members_view(parsed),
                    first_unknown_key(mv) is None,
                    ms@.len() > 0,
                    first_value_error(mv) == first_value_error(mv.skip(j as int)),
                decreases ms.len() - j,
            {
                assert(mv.skip(j as int)[0] == mv[j as int]);
                assert(mv[j as int] == (ms@[j as int].0@, ms@[j as int].1));
                if let Some(m) = value_error_exec(ms[j].0.as_str(), ms[j].1) {
                    return Err(reply(400, json_err(m.as_str()), "application/json"));
                }
                assert(mv.skip(j as int).drop_first() =~= mv.skip(j + 1));
                j = j + 1;
            }
            assert(mv.skip(j as int) =~= Seq::<(Seq<char>, Option<u64>)>::empty());
            let retention = member_of(&ms, "retention_days");
            proof {
                lemma_member_fits(mv, "retention_days"@);
            }
            let retention_days = match retention {
                Some(v) => Some(v as u32),
                None => None,
            };
            let memory_interval_secs = member_of(&ms, "memory_interval_secs");
            let thermal_interval_secs = member_of(&ms, "thermal_interval_secs");
            let compute_interval_secs = member_of(&ms, "compute_interval_secs");
            let power_interval_secs = member_of(&ms, "power_interval_secs");
            let changes = ConfigChanges {
                retention_days,
                memory_interval_secs,
                thermal_interval_secs,
                compute_interval_secs,
                power_interval_secs,
            };
            assert(changes == changes_from_members(mv));
            match changes.validate() {
                Err(e) => Err(reply(400, json_err(e.as_str()), "application/json")),
                Ok(()) => Ok(changes),
            }
        },
    }
}

/// With no value error, a retention member fits in `u32`.
proof fn lemma_member_fits(ms: Seq<(Seq<char>, Option<u64>)>, key: Seq<char>)
    requires
        first_value_error(ms) is None,
        key == "retention_days"@,
    ensures
        member_u64(ms, key) matches Some(v) ==> v <= u32::MAX,
    decreases ms.len(),
{
    if ms.len() > 0 {
        lemma_member_fits(ms.drop_first(), key);
    }
}

/// The reply once the collector has been asked to apply the changes: 200
/// `{"ok":true}` when it accepted them, 502 with its error when it refused
/// them, 503 when it could not be reached.
pub fn config_post_reply(outcome: Result<IpcResponse, String>) -> (r: ApiReply)
    ensures
        match outcome {
            Ok(resp) => if resp.ok {
                reply_is(r, 200, "{\"ok\":true}"@, "application/json"@)
            } else {
                reply_is(
                    r,
                    502,
                    json_object1(
                        "error"@,
                        match resp.error {
                            Some(e) => e@,
                            None => "collector rejected config change"@,
                        },
                    ),
                    "application/json"@,
                )
            },
            Err(e) => reply_is(
                r,
                503,
                json_object1("error"@, "collector unreachable: "@ + e@),
                "application/json"@,
            ),
        },
{
    match outcome {
        Ok(resp) => if resp.ok {
            reply(200, String::from_str("{\"ok\":true}"), "application/json")
        } else {
            let e = match resp.error {
                Some(e) => e,
                None => String::from_str("collector rejected config change"),
            };
            reply(502, json_err(e.as_str()), "application/json")
        },
        Err(e) => {
            let mut m = String::from_str("collector unreachable: ");
            m.append(e.as_str());
            reply(503, json_err(m.as_str()), "application/json")
        },
    }
}

} // verus!
