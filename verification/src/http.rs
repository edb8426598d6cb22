use vstd::prelude::*;

use crate::text::{
    chars_of, contains_chars, dec, decimal, is_space, is_whitespace, lower, lower_chars,
    occurs_in, same_chars, string_of, all_digits, digits_value, lemma_dec_digits,
};

verus! {

/// A slice of `v`: the characters from `from` up to `to`.
pub fn sub_chars(v: &Vec<char>, from: usize, to: usize) -> (r: Vec<char>)
    requires
        from <= to <= v.len(),
    ensures
        r@ == v@.subrange(from as int, to as int),
{
    let mut r: Vec<char> = Vec::new();
    let mut k: usize = from;
    while k < to
        invariant
            from <= k <= to <= v.len(),
            r@ == v@.subrange(from as int, k as int),
        decreases to - k,
    {
        r.push(v[k]);
        assert(v@.subrange(from as int, k + 1) == v@.subrange(from as int, k as int).push(v@[k as int]));
        k = k + 1;
    }
    r
}

/// The position of the first `c` in `s` at or after `i`, or `s.len()` where there is none.
pub open spec fn find_from(s: Seq<char>, c: char, i: int) -> int
    decreases s.len() - i,
{
    if i < 0 || i >= s.len() || s[i] == c {
        i
    } else {
        find_from(s, c, i + 1)
    }
}

/// The position of the first character at or after `i` that is not white space.
pub open spec fn skip_spaces(s: Seq<char>, i: int) -> int
    decreases s.len() - i,
{
    if i < 0 || i >= s.len() || !is_space(s[i]) {
        i
    } else {
        skip_spaces(s, i + 1)
    }
}

/// The position of the first white space at or after `i`.
pub open spec fn word_end(s: Seq<char>, i: int) -> int
    decreases s.len() - i,
{
    if i < 0 || i >= s.len() || is_space(s[i]) {
        i
    } else {
        word_end(s, i + 1)
    }
}

fn find_char(v: &Vec<char>, c: char, start: usize) -> (r: usize)
    requires
        start <= v.len(),
    ensures
        r == find_from(v@, c, start as int),
        start <= r <= v.len(),
{
    let mut i = start;
    while i < v.len() && v[i] != c
        invariant
            start <= i <= v.len(),
            find_from(v@, c, i as int) == find_from(v@, c, start as int),
        decreases v.len() - i,
    {
        i = i + 1;
    }
    i
}

fn skip_whitespace(v: &Vec<char>, start: usize) -> (r: usize)
    requires
        start <= v.len(),
    ensures
        r == skip_spaces(v@, start as int),
        start <= r <= v.len(),
{
    let mut i = start;
    while i < v.len() && is_whitespace(v[i])
        invariant
            start <= i <= v.len(),
            skip_spaces(v@, i as int) == skip_spaces(v@, start as int),
        decreases v.len() - i,
    {
        i = i + 1;
    }
    i
}

fn find_word_end(v: &Vec<char>, start: usize) -> (r: usize)
    requires
        start <= v.len(),
    ensures
        r == word_end(v@, start as int),
        start <= r <= v.len(),
{
    let mut i = start;
    while i < v.len() && !is_whitespace(v[i])
        invariant
            start <= i <= v.len(),
            word_end(v@, i as int) == word_end(v@, start as int),
        decreases v.len() - i,
    {
        i = i + 1;
    }
    i
}

/// The first line of `t`, as `t.lines().next().unwrap_or_default()` gives it: up to the
/// first `\n`, without the `\r` before that `\n`.
pub open spec fn first_line(t: Seq<char>) -> Seq<char> {
    let e = find_from(t, '\n', 0);
    let l = t.subrange(0, e);
    if e < t.len() && l.len() > 0 && l.last() == '\r' {
        l.drop_last()
    } else {
        l
    }
}

/// The first word of `s` (runs of characters that are not white space), if any.
pub open spec fn first_word(s: Seq<char>) -> Option<Seq<char>> {
    let a = skip_spaces(s, 0);
    if a >= s.len() {
        None
    } else {
        Some(s.subrange(a, word_end(s, a)))
    }
}

/// The second word of `s`, if any.
pub open spec fn second_word(s: Seq<char>) -> Option<Seq<char>> {
    let a = skip_spaces(s, 0);
    let b = skip_spaces(s, word_end(s, a));
    if b >= s.len() {
        None
    } else {
        Some(s.subrange(b, word_end(s, b)))
    }
}

/// `s` without its leading `/` characters.
pub open spec fn strip_slashes(s: Seq<char>) -> Seq<char>
    decreases s.len(),
{
    if s.len() > 0 && s[0] == '/' {
        strip_slashes(s.drop_first())
    } else {
        s
    }
}

/// `s` with every `/` turned into `\`.
pub open spec fn backslashed(s: Seq<char>) -> Seq<char> {
    s.map_values(|c: char| if c == '/' { '\\' } else { c })
}

/// What the frontend server does with a request, decided from the request alone.
pub ghost enum RouteSpec {
    NoReply,
    Reject { status: u16, head_only: bool },
    Index { head_only: bool },
    StaticFile { rel_path: Seq<char>, head_only: bool },
}

pub open spec fn get_word() -> Seq<char> {
    seq!['g', 'e', 't']
}

pub open spec fn head_word() -> Seq<char> {
    seq!['h', 'e', 'a', 'd']
}

pub open spec fn index_path() -> Seq<char> {
    seq!['/', 'i', 'n', 'd', 'e', 'x', '.', 'h', 't', 'm', 'l']
}

pub open spec fn parent_marker() -> Seq<char> {
    seq!['.', '.']
}

/// How the frontend server answers a request whose first line is `line`.
pub open spec fn route_line(line: Seq<char>) -> RouteSpec {
    let method = match first_word(line) {
        Some(w) => w,
        None => Seq::<char>::empty(),
    };
    let raw_path = match second_word(line) {
        Some(w) => w,
        None => seq!['/'],
    };
    let is_head = lower(method) == head_word();
    if lower(method) != get_word() && !is_head {
        RouteSpec::Reject { status: 405, head_only: is_head }
    } else {
        let path = raw_path.subrange(0, find_from(raw_path, '?', 0));
        if occurs_in(path, parent_marker()) {
            RouteSpec::Reject { status: 400, head_only: is_head }
        } else if path == seq!['/'] || path == index_path() {
            RouteSpec::Index { head_only: is_head }
        } else {
            RouteSpec::StaticFile { rel_path: backslashed(strip_slashes(path)), head_only: is_head }
        }
    }
}

/// How the frontend server answers the request whose text is `t`.
pub open spec fn route(t: Seq<char>) -> RouteSpec {
    route_line(first_line(t))
}

/// What the frontend server does with a request.
#[derive(Debug)]
pub enum RequestPlan {
    /// The client sent nothing: close without an answer.
    NoReply,
    /// Answer with this status and its reason phrase as a plain-text body.
    Reject { status: u16, head_only: bool },
    /// Answer with the index page.
    Index { head_only: bool },
    /// Answer with this file under the dist directory where it is a file, else with the
    /// index page.
    StaticFile { rel_path: String, head_only: bool },
}

impl View for RequestPlan {
    type V = RouteSpec;

    open spec fn view(&self) -> RouteSpec {
        match self {
            RequestPlan::NoReply => RouteSpec::NoReply,
            RequestPlan::Reject { status, head_only } => RouteSpec::Reject { status: *status, head_only: *head_only },
            RequestPlan::Index { head_only } => RouteSpec::Index { head_only: *head_only },
            RequestPlan::StaticFile { rel_path, head_only } => RouteSpec::StaticFile { rel_path: rel_path@, head_only: *head_only },
        }
    }
}

fn first_line_chars(v: &Vec<char>) -> (r: Vec<char>)
    ensures
        r@ == first_line(v@),
{
    let e = find_char(v, '\n', 0);
    if e < v.len() && e > 0 && v[e - 1] == '\r' {
        sub_chars(v, 0, e - 1)
    } else {
        sub_chars(v, 0, e)
    }
}

fn strip_slashes_chars(v: &Vec<char>) -> (r: Vec<char>)
    ensures
        r@ == backslashed(strip_slashes(v@)),
{
    let n = v.len();
    let mut i: usize = 0;
    assert(v@.subrange(0, n as int) == v@);
    while i < n && v[i] == '/'
        invariant
            i <= n == v.len(),
            strip_slashes(v@.subrange(i as int, n as int)) == strip_slashes(v@),
        decreases n - i,
    {
        assert(v@.subrange(i as int, n as int).drop_first() == v@.subrange(i + 1, n as int));
        i = i + 1;
    }
    let ghost s = v@.subrange(i as int, n as int);
    assert(strip_slashes(v@) == s);
    let mut r: Vec<char> = Vec::new();
    let mut k: usize = i;
    while k < n
        invariant
            i <= k <= n == v.len(),
            s == v@.subrange(i as int, n as int),
            r@ == backslashed(v@.subrange(i as int, k as int)),
        decreases n - k,
    {
        let c = v[k];
        if c == '/' {
            r.push('\\');
        } else {
            r.push(c);
        }
        assert(v@.subrange(i as int, k + 1) == v@.subrange(i as int, k as int).push(c));
        k = k + 1;
    }
    assert(v@.subrange(i as int, n as int) == s);
    r
}

/// How the frontend server answers the request whose text is `text`.
pub fn route_request(text: &str) -> (r: RequestPlan)
    ensures
        r@ == route(text@),
{
    let v = chars_of(text);
    let line = first_line_chars(&v);
    let a = skip_whitespace(&line, 0);
    let e = find_word_end(&line, a);
    let b = skip_whitespace(&line, e);
    let f = find_word_end(&line, b);
    let method = if a < line.len() {
        sub_chars(&line, a, e)
    } else {
        Vec::new()
    };
    let raw_path = if b < line.len() {
        sub_chars(&line, b, f)
    } else {
        vec!['/']
    };
    assert(raw_path@ == match second_word(line@) {
        Some(w) => w,
        None => seq!['/'],
    });
    let lowered = lower_chars(&method);
    let head: Vec<char> = vec!['h', 'e', 'a', 'd'];
    let get: Vec<char> = vec!['g', 'e', 't'];
    assert(head@ == head_word());
    assert(get@ == get_word());
    let is_head = same_chars(&lowered, &head);
    if !same_chars(&lowered, &get) && !is_head {
        return RequestPlan::Reject { status: 405, head_only: is_head };
    }
    let q = find_char(&raw_path, '?', 0);
    let path = sub_chars(&raw_path, 0, q);
    let marker: Vec<char> = vec!['.', '.'];
    assert(marker@ == parent_marker());
    if contains_chars(&path, &marker) {
        return RequestPlan::Reject { status: 400, head_only: is_head };
    }
    let root: Vec<char> = vec!['/'];
    let index: Vec<char> = vec!['/', 'i', 'n', 'd', 'e', 'x', '.', 'h', 't', 'm', 'l'];
    assert(root@ == seq!['/']);
    assert(index@ == index_path());
    if same_chars(&path, &root) || same_chars(&path, &index) {
        return RequestPlan::Index { head_only: is_head };
    }
    let rel = strip_slashes_chars(&path);
    RequestPlan::StaticFile { rel_path: string_of(&rel), head_only: is_head }
}

} // verus!
verus! {

/// The text that `String::from_utf8_lossy` makes of `bytes`.
pub uninterp spec fn utf8_lossy(bytes: Seq<u8>) -> Seq<char>;

/// `String::from_utf8_lossy`: the text of `bytes`, with each invalid sequence replaced
/// by U+FFFD. The contract names the result, and states that valid UTF-8 is decoded
/// unchanged; the replacement rules for invalid bytes are not stated.
#[verifier::external_body]
fn decode_lossy(bytes: &[u8]) -> (s: String)
    ensures
        s@ == utf8_lossy(bytes@),
        vstd::utf8::valid_utf8(bytes@) ==> s@ == vstd::utf8::decode_utf8(bytes@),
{
    String::from_utf8_lossy(bytes).into_owned()
}

/// How the frontend server answers the request whose bytes (as read) are `request`.
pub fn handle_frontend_request(request: &[u8]) -> (r: RequestPlan)
    ensures
        request@.len() == 0 ==> r@ == RouteSpec::NoReply,
        request@.len() > 0 ==> r@ == route(utf8_lossy(request@)),
        request@.len() > 0 && vstd::utf8::valid_utf8(request@) ==> r@ == route(vstd::utf8::decode_utf8(request@)),
{
    if request.len() == 0 {
        return RequestPlan::NoReply;
    }
    let text = decode_lossy(request);
    route_request(text.as_str())
}

/// The media type of the frontend server's plain-text answers.
pub const PLAIN_TEXT: &'static str = "text/plain; charset=utf-8";

/// The media type of the index page.
pub const HTML_TEXT: &'static str = "text/html; charset=utf-8";

/// The reason phrase that the frontend server sends with `status`.
pub open spec fn reason(status: u16) -> Seq<char> {
    if status == 200 {
        "OK"@
    } else if status == 400 {
        "Bad Request"@
    } else if status == 405 {
        "Method Not Allowed"@
    } else if status == 500 {
        "Internal Server Error"@
    } else {
        "OK"@
    }
}

/// The reason phrase that the frontend server sends with `status`.
pub fn status_text(status: u16) -> (r: &'static str)
    ensures
        r@ == reason(status),
{
    match status {
        200 => "OK",
        400 => "Bad Request",
        405 => "Method Not Allowed",
        500 => "Internal Server Error",
        _ => "OK",
    }
}

/// The head of a response: status line and the three header fields.
pub open spec fn response_head(status: u16, content_type: Seq<char>, body_len: nat) -> Seq<char> {
    "HTTP/1.1 "@ + dec(status as nat) + " "@ + reason(status) + "\r\nContent-Type: "@ + content_type
        + "\r\nContent-Length: "@ + dec(body_len) + "\r\nConnection: close\r\n\r\n"@
}

/// The bytes of a response: the head, then the body unless only the head is asked for.
/// `Content-Length` gives the length of the body either way.
pub open spec fn response_bytes(status: u16, content_type: Seq<char>, body: Seq<u8>, head_only: bool) -> Seq<u8> {
    let head = vstd::utf8::encode_utf8(response_head(status, content_type, body.len()));
    if head_only {
        head
    } else {
        head + body
    }
}

/// The bytes that the frontend server writes for a response.
pub fn write_simple_response(status: u16, content_type: &str, body: &[u8], head_only: bool) -> (r: Vec<u8>)
    ensures
        r@ == response_bytes(status, content_type@, body@, head_only),
{
    let mut head = String::from_str("HTTP/1.1 ");
    let code = decimal(status as u64);
    head.append(code.as_str());
    head.append(" ");
    head.append(status_text(status));
    head.append("\r\nContent-Type: ");
    head.append(content_type);
    head.append("\r\nContent-Length: ");
    let len = decimal(body.len() as u64);
    head.append(len.as_str());
    head.append("\r\nConnection: close\r\n\r\n");
    let head_str = head.as_str();
    let mut r = vstd::slice::slice_to_vec(head_str.as_bytes());
    assert(r@ == vstd::utf8::encode_utf8(response_head(status, content_type@, body@.len())));
    if !head_only {
        let ghost before = r@;
        for i in 0..body.len()
            invariant
                r@ == before + body@.take(i as int),
        {
            r.push(body[i]);
            assert(body@.take(i + 1) == body@.take(i as int).push(body@[i as int]));
        }
        assert(body@.take(body@.len() as int) == body@);
    }
    r
}

} // verus!
verus! {

pub open spec fn is_separator(c: char) -> bool {
    c == '/' || c == '\\'
}

/// The position just after the last separator in `s` before `j` (0 where there is none).
pub open spec fn after_last_separator(s: Seq<char>, j: int) -> int
    decreases j,
{
    if j <= 0 {
        0
    } else if is_separator(s[j - 1]) {
        j
    } else {
        after_last_separator(s, j - 1)
    }
}

/// The last component of the path `s` (its prefix already taken off), with both `/` and
/// `\` as separators: trailing separators and `.` components are passed over, and a
/// final `..` (or no component at all) has no file name.
pub open spec fn last_component(s: Seq<char>) -> Option<Seq<char>>
    decreases s.len(),
{
    if s.len() == 0 {
        None
    } else if is_separator(s.last()) {
        last_component(s.drop_last())
    } else {
        let k = after_last_separator(s, s.len() as int);
        let comp = s.subrange(k, s.len() as int);
        if comp == seq!['.'] {
            if k <= 0 || k >= s.len() {
                None
            } else {
                last_component(s.subrange(0, k))
            }
        } else if comp == parent_marker() {
            None
        } else {
            Some(comp)
        }
    }
}

/// The extension of a file name, as `Path::extension` finds it: the text after the last
/// `.`, where that `.` is not the first character.
pub open spec fn name_extension(name: Seq<char>) -> Option<Seq<char>> {
    let d = after_last_dot(name, name.len() as int);
    if d <= 1 {
        None
    } else {
        Some(name.subrange(d, name.len() as int))
    }
}

/// The position just after the last `.` in `s` before `j` (0 where there is none).
pub open spec fn after_last_dot(s: Seq<char>, j: int) -> int
    decreases j,
{
    if j <= 0 {
        0
    } else if s[j - 1] == '.' {
        j
    } else {
        after_last_dot(s, j - 1)
    }
}

pub open spec fn is_ascii_alpha(c: char) -> bool {
    ('a' <= c <= 'z') || ('A' <= c <= 'Z')
}

/// The position of the first separator in `s` at or after `i`, or `s.len()`.
pub open spec fn separator_from(s: Seq<char>, i: int) -> int
    decreases s.len() - i,
{
    if i < 0 || i >= s.len() || is_separator(s[i]) {
        i
    } else {
        separator_from(s, i + 1)
    }
}

/// The position of the first `\` in `s` at or after `i`, or `s.len()`.
pub open spec fn backslash_from(s: Seq<char>, i: int) -> int
    decreases s.len() - i,
{
    if i < 0 || i >= s.len() || s[i] == '\\' {
        i
    } else {
        backslash_from(s, i + 1)
    }
}

/// Whether the path `s` begins with the verbatim marker `\\?\` (written with `\` only).
pub open spec fn is_verbatim(s: Seq<char>) -> bool {
    s.len() >= 4 && s[0] == '\\' && s[1] == '\\' && s[2] == '?' && s[3] == '\\'
}

/// The length of a verbatim prefix: `\\?\UNC\server\share` (the `\` after `UNC` may
/// also be `/`) or `\\?\` and one component (such as `C:`); within it only `\`
/// separates.
pub open spec fn verbatim_prefix_len(s: Seq<char>) -> int {
    if s.len() >= 8 && s[4] == 'U' && s[5] == 'N' && s[6] == 'C' && is_separator(s[7]) {
        let e1 = backslash_from(s, 8);
        if e1 >= s.len() {
            e1
        } else {
            let e2 = backslash_from(s, e1 + 1);
            if e2 == e1 + 1 {
                e1
            } else {
                e2
            }
        }
    } else {
        backslash_from(s, 4)
    }
}

/// The length of the Windows prefix of the path `s`, as `Path` parses it: a drive
/// (`C:`), a UNC share (`\\server\share`, either separator), a device (`\\.\name`) or
/// a verbatim prefix (`\\?\...`); 0 where there is none.
pub open spec fn prefix_len(s: Seq<char>) -> int {
    if s.len() >= 2 && is_ascii_alpha(s[0]) && s[1] == ':' {
        2
    } else if is_verbatim(s) {
        verbatim_prefix_len(s)
    } else if s.len() >= 2 && is_separator(s[0]) && is_separator(s[1]) {
        if s.len() >= 4 && s[2] == '.' && is_separator(s[3]) {
            separator_from(s, 4)
        } else {
            let e1 = separator_from(s, 2);
            if e1 == 2 || e1 >= s.len() {
                0
            } else {
                let e2 = separator_from(s, e1 + 1);
                if e2 == e1 + 1 {
                    0
                } else {
                    e2
                }
            }
        }
    } else {
        0
    }
}

/// The position just after the last `\` in `s` before `j` (0 where there is none).
pub open spec fn after_last_backslash(s: Seq<char>, j: int) -> int
    decreases j,
{
    if j <= 0 {
        0
    } else if s[j - 1] == '\\' {
        j
    } else {
        after_last_backslash(s, j - 1)
    }
}

/// The last component of a verbatim path `s` (its prefix already taken off): only `\`
/// separates, trailing separators are passed over, and a final `.` or `..` has no file
/// name.
pub open spec fn last_verbatim_component(s: Seq<char>) -> Option<Seq<char>>
    decreases s.len(),
{
    if s.len() == 0 {
        None
    } else if s.last() == '\\' {
        last_verbatim_component(s.drop_last())
    } else {
        let comp = s.subrange(after_last_backslash(s, s.len() as int), s.len() as int);
        if comp == seq!['.'] || comp == parent_marker() {
            None
        } else {
            Some(comp)
        }
    }
}

/// The file name of the path `s`, as `Path::file_name` finds it on Windows: the last
/// component after the prefix.
pub open spec fn file_name(s: Seq<char>) -> Option<Seq<char>> {
    let rest = s.subrange(prefix_len(s), s.len() as int);
    if is_verbatim(s) {
        last_verbatim_component(rest)
    } else {
        last_component(rest)
    }
}

pub open spec fn path_extension(path: Seq<char>) -> Option<Seq<char>> {
    match file_name(path) {
        Some(name) => name_extension(name),
        None => None,
    }
}

/// The media type that the frontend server sends for a file with extension `ext`
/// (already in lower case).
pub open spec fn media_type(ext: Seq<char>) -> Seq<char> {
    if ext == seq!['h', 't', 'm', 'l'] {
        "text/html; charset=utf-8"@
    } else if ext == seq!['j', 's'] || ext == seq!['m', 'j', 's'] {
        "application/javascript; charset=utf-8"@
    } else if ext == seq!['c', 's', 's'] {
        "text/css; charset=utf-8"@
    } else if ext == seq!['j', 's', 'o', 'n'] {
        "application/json; charset=utf-8"@
    } else if ext == seq!['s', 'v', 'g'] {
        "image/svg+xml"@
    } else if ext == seq!['p', 'n', 'g'] {
        "image/png"@
    } else if ext == seq!['j', 'p', 'g'] || ext == seq!['j', 'p', 'e', 'g'] {
        "image/jpeg"@
    } else if ext == seq!['g', 'i', 'f'] {
        "image/gif"@
    } else if ext == seq!['i', 'c', 'o'] {
        "image/x-icon"@
    } else if ext == seq!['w', 'a', 's', 'm'] {
        "application/wasm"@
    } else if ext == seq!['t', 'x', 't'] {
        "text/plain; charset=utf-8"@
    } else {
        "application/octet-stream"@
    }
}

/// The media type for the file at `path`, chosen by its extension in any letter case.
pub open spec fn content_type(path: Seq<char>) -> Seq<char> {
    match path_extension(path) {
        Some(ext) => media_type(lower(ext)),
        None => "application/octet-stream"@,
    }
}

fn last_component_chars(v: &Vec<char>) -> (r: Option<Vec<char>>)
    ensures
        match r {
            Some(n) => last_component(v@) == Some(n@),
            None => last_component(v@) is None,
        },
{
    let mut j: usize = v.len();
    assert(v@.subrange(0, j as int) == v@);
    loop
        invariant
            j <= v.len(),
            last_component(v@.subrange(0, j as int)) == last_component(v@),
        decreases j,
    {
        let ghost s = v@.subrange(0, j as int);
        if j == 0 {
            return None;
        }
        if v[j - 1] == '/' || v[j - 1] == '\\' {
            assert(s.drop_last() == v@.subrange(0, j - 1));
            j = j - 1;
        } else {
            let mut k: usize = j;
            while k > 0 && !(v[k - 1] == '/' || v[k - 1] == '\\')
                invariant
                    k <= j <= v.len(),
                    s == v@.subrange(0, j as int),
                    after_last_separator(s, k as int) == after_last_separator(s, j as int),
                decreases k,
            {
                assert(s[k - 1] == v@[k - 1]);
                k = k - 1;
            }
            assert(k > 0 ==> s[k - 1] == v@[k - 1]);
            assert(after_last_separator(s, k as int) == k);
            let comp = sub_chars(v, k, j);
            assert(comp@ == s.subrange(k as int, j as int));
            let dot: Vec<char> = vec!['.'];
            let dots: Vec<char> = vec!['.', '.'];
            assert(dot@ == seq!['.']);
            assert(dots@ == parent_marker());
            if same_chars(&comp, &dot) {
                if k == 0 {
                    return None;
                }
                assert(s.subrange(0, k as int) == v@.subrange(0, k as int));
                j = k;
            } else if same_chars(&comp, &dots) {
                return None;
            } else {
                return Some(comp);
            }
        }
    }
}

fn extension_chars(name: &Vec<char>) -> (r: Option<Vec<char>>)
    ensures
        match r {
            Some(e) => name_extension(name@) == Some(e@),
            None => name_extension(name@) is None,
        },
{
    let n = name.len();
    let mut d: usize = n;
    while d > 0 && name[d - 1] != '.'
        invariant
            d <= n == name.len(),
            after_last_dot(name@, d as int) == after_last_dot(name@, n as int),
        decreases d,
    {
        d = d - 1;
    }
    if d <= 1 {
        None
    } else {
        Some(sub_chars(name, d, n))
    }
}

fn separator_at_or_after(v: &Vec<char>, start: usize) -> (r: usize)
    requires
        start <= v.len(),
    ensures
        r == separator_from(v@, start as int),
        start <= r <= v.len(),
{
    let mut i = start;
    while i < v.len() && !(v[i] == '/' || v[i] == '\\')
        invariant
            start <= i <= v.len(),
            separator_from(v@, i as int) == separator_from(v@, start as int),
        decreases v.len() - i,
    {
        i = i + 1;
    }
    i
}

fn backslash_at_or_after(v: &Vec<char>, start: usize) -> (r: usize)
    requires
        start <= v.len(),
    ensures
        r == backslash_from(v@, start as int),
        start <= r <= v.len(),
{
    let mut i = start;
    while i < v.len() && v[i] != '\\'
        invariant
            start <= i <= v.len(),
            backslash_from(v@, i as int) == backslash_from(v@, start as int),
        decreases v.len() - i,
    {
        i = i + 1;
    }
    i
}

fn starts_verbatim(v: &Vec<char>) -> (r: bool)
    ensures
        r == is_verbatim(v@),
{
    v.len() >= 4 && v[0] == '\\' && v[1] == '\\' && v[2] == '?' && v[3] == '\\'
}

fn prefix_length(v: &Vec<char>) -> (r: usize)
    ensures
        r == prefix_len(v@),
        r <= v.len(),
{
    let n = v.len();
    if n >= 2 && (('a' <= v[0] && v[0] <= 'z') || ('A' <= v[0] && v[0] <= 'Z')) && v[1] == ':' {
        return 2;
    }
    if starts_verbatim(v) {
        if n >= 8 && v[4] == 'U' && v[5] == 'N' && v[6] == 'C' && (v[7] == '/' || v[7] == '\\') {
            let e1 = backslash_at_or_after(v, 8);
            if e1 >= n {
                return e1;
            }
            let e2 = backslash_at_or_after(v, e1 + 1);
            if e2 == e1 + 1 {
                return e1;
            }
            return e2;
        }
        return backslash_at_or_after(v, 4);
    }
    if n >= 2 && (v[0] == '/' || v[0] == '\\') && (v[1] == '/' || v[1] == '\\') {
        if n >= 4 && v[2] == '.' && (v[3] == '/' || v[3] == '\\') {
            return separator_at_or_after(v, 4);
        }
        let e1 = separator_at_or_after(v, 2);
        if e1 == 2 || e1 >= n {
            return 0;
        }
        let e2 = separator_at_or_after(v, e1 + 1);
        if e2 == e1 + 1 {
            return 0;
        }
        return e2;
    }
    0
}

fn last_verbatim_component_chars(v: &Vec<char>) -> (r: Option<Vec<char>>)
    ensures
        match r {
            Some(n) => last_verbatim_component(v@) == Some(n@),
            None => last_verbatim_component(v@) is None,
        },
{
    let mut j: usize = v.len();
    assert(v@.subrange(0, j as int) == v@);
    while j > 0 && v[j - 1] == '\\'
        invariant
            j <= v.len(),
            last_verbatim_component(v@.subrange(0, j as int)) == last_verbatim_component(v@),
        decreases j,
    {
        assert(v@.subrange(0, j as int).drop_last() == v@.subrange(0, j - 1));
        j = j - 1;
    }
    if j == 0 {
        return None;
    }
    let ghost s = v@.subrange(0, j as int);
    let mut k: usize = j;
    while k > 0 && v[k - 1] != '\\'
        invariant
            k <= j <= v.len(),
            s == v@.subrange(0, j as int),
            after_last_backslash(s, k as int) == after_last_backslash(s, j as int),
        decreases k,
    {
        assert(s[k - 1] == v@[k - 1]);
        k = k - 1;
    }
    assert(k > 0 ==> s[k - 1] == v@[k - 1]);
    assert(after_last_backslash(s, k as int) == k);
    let comp = sub_chars(v, k, j);
    assert(comp@ == s.subrange(k as int, j as int));
    let dot: Vec<char> = vec!['.'];
    let dots: Vec<char> = vec!['.', '.'];
    assert(dot@ == seq!['.']);
    assert(dots@ == parent_marker());
    if same_chars(&comp, &dot) || same_chars(&comp, &dots) {
        None
    } else {
        Some(comp)
    }
}

/// The media type that the frontend server sends for the file at `path`.
pub fn content_type_for(path: &str) -> (r: &'static str)
    ensures
        r@ == content_type(path@),
{
    let v = chars_of(path);
    let start = prefix_length(&v);
    let rest = sub_chars(&v, start, v.len());
    let last = if starts_verbatim(&v) {
        last_verbatim_component_chars(&rest)
    } else {
        last_component_chars(&rest)
    };
    let name = match last {
        Some(n) => n,
        None => return "application/octet-stream",
    };
    let ext = match extension_chars(&name) {
        Some(e) => e,
        None => return "application/octet-stream",
    };
    let e = lower_chars(&ext);
    let w_html: Vec<char> = vec!['h', 't', 'm', 'l'];
    assert(w_html@ == seq!['h', 't', 'm', 'l']);
    let w_js: Vec<char> = vec!['j', 's'];
    assert(w_js@ == seq!['j', 's']);
    let w_mjs: Vec<char> = vec!['m', 'j', 's'];
    assert(w_mjs@ == seq!['m', 'j', 's']);
    let w_css: Vec<char> = vec!['c', 's', 's'];
    assert(w_css@ == seq!['c', 's', 's']);
    let w_json: Vec<char> = vec!['j', 's', 'o', 'n'];
    assert(w_json@ == seq!['j', 's', 'o', 'n']);
    let w_svg: Vec<char> = vec!['s', 'v', 'g'];
    assert(w_svg@ == seq!['s', 'v', 'g']);
    let w_png: Vec<char> = vec!['p', 'n', 'g'];
    assert(w_png@ == seq!['p', 'n', 'g']);
    let w_jpg: Vec<char> = vec!['j', 'p', 'g'];
    assert(w_jpg@ == seq!['j', 'p', 'g']);
    let w_jpeg: Vec<char> = vec!['j', 'p', 'e', 'g'];
    assert(w_jpeg@ == seq!['j', 'p', 'e', 'g']);
    let w_gif: Vec<char> = vec!['g', 'i', 'f'];
    assert(w_gif@ == seq!['g', 'i', 'f']);
    let w_ico: Vec<char> = vec!['i', 'c', 'o'];
    assert(w_ico@ == seq!['i', 'c', 'o']);
    let w_wasm: Vec<char> = vec!['w', 'a', 's', 'm'];
    assert(w_wasm@ == seq!['w', 'a', 's', 'm']);
    let w_txt: Vec<char> = vec!['t', 'x', 't'];
    assert(w_txt@ == seq!['t', 'x', 't']);
    if same_chars(&e, &w_html) {
        "text/html; charset=utf-8"
    } else if same_chars(&e, &w_js) || same_chars(&e, &w_mjs) {
        "application/javascript; charset=utf-8"
    } else if same_chars(&e, &w_css) {
        "text/css; charset=utf-8"
    } else if same_chars(&e, &w_json) {
        "application/json; charset=utf-8"
    } else if same_chars(&e, &w_svg) {
        "image/svg+xml"
    } else if same_chars(&e, &w_png) {
        "image/png"
    } else if same_chars(&e, &w_jpg) || same_chars(&e, &w_jpeg) {
        "image/jpeg"
    } else if same_chars(&e, &w_gif) {
        "image/gif"
    } else if same_chars(&e, &w_ico) {
        "image/x-icon"
    } else if same_chars(&e, &w_wasm) {
        "application/wasm"
    } else if same_chars(&e, &w_txt) {
        "text/plain; charset=utf-8"
    } else {
        "application/octet-stream"
    }
}

} // verus!
verus! {

/// The text of the request with which the launcher asks `127.0.0.1:port` for `path`.
pub open spec fn get_request(port: u16, path: Seq<char>) -> Seq<char> {
    "GET "@ + path + " HTTP/1.1\r\nHost: 127.0.0.1:"@ + dec(port as nat) + "\r\nConnection: close\r\n\r\n"@
}

/// The text of the request with which the launcher asks `127.0.0.1:port` for `path`.
pub fn http_get_request(port: u16, path: &str) -> (r: String)
    ensures
        r@ == get_request(port, path@),
{
    let mut r = String::from_str("GET ");
    r.append(path);
    r.append(" HTTP/1.1\r\nHost: 127.0.0.1:");
    let p = decimal(port as u64);
    r.append(p.as_str());
    r.append("\r\nConnection: close\r\n\r\n");
    r
}

pub open spec fn status_ok_marker() -> Seq<char> {
    seq!['2', '0', '0']
}

/// A service counts as ready when it answered, the answer holds `200`, and it holds
/// `word` as well (`word` compared with the answer in lower case where `fold_case`).
pub open spec fn answer_ready(response: Option<Seq<char>>, word: Seq<char>, fold_case: bool) -> bool {
    match response {
        Some(t) => occurs_in(t, status_ok_marker()) && occurs_in(
            if fold_case {
                lower(t)
            } else {
                t
            },
            word,
        ),
        None => false,
    }
}

pub open spec fn str_opt_view(o: Option<&str>) -> Option<Seq<char>> {
    match o {
        Some(s) => Some(s@),
        None => None,
    }
}

fn answer_holds(response: Option<&str>, word: Vec<char>, fold_case: bool) -> (r: bool)
    ensures
        r == answer_ready(str_opt_view(response), word@, fold_case),
{
    match response {
        Some(t) => {
            let v = chars_of(t);
            let ok: Vec<char> = vec!['2', '0', '0'];
            assert(ok@ == status_ok_marker());
            if !contains_chars(&v, &ok) {
                return false;
            }
            if fold_case {
                let l = lower_chars(&v);
                contains_chars(&l, &word)
            } else {
                contains_chars(&v, &word)
            }
        },
        None => false,
    }
}

/// Whether jimeng-api answered `/ping` as a running API does. `response` is the answer,
/// or `None` where the port is closed or the request failed.
pub fn is_api_ready(response: Option<&str>) -> (r: bool)
    ensures
        r == answer_ready(str_opt_view(response), seq!['p', 'o', 'n', 'g'], true),
{
    let w: Vec<char> = vec!['p', 'o', 'n', 'g'];
    assert(w@ == seq!['p', 'o', 'n', 'g']);
    answer_holds(response, w, true)
}

/// Whether the localserver answered `/ping` as a running localserver does. `response` is
/// the answer, or `None` where the port is closed or the request failed.
pub fn is_localserver_ready(response: Option<&str>) -> (r: bool)
    ensures
        r == answer_ready(str_opt_view(response), seq!['r', 'u', 'n', 'n', 'i', 'n', 'g'], true),
{
    let w: Vec<char> = vec!['r', 'u', 'n', 'n', 'i', 'n', 'g'];
    assert(w@ == seq!['r', 'u', 'n', 'n', 'i', 'n', 'g']);
    answer_holds(response, w, true)
}

/// Whether the frontend answered `/` with the Tapnow page. `response` is the answer, or
/// `None` where the port is closed or the request failed.
pub fn is_frontend_ready(response: Option<&str>) -> (r: bool)
    ensures
        r == answer_ready(str_opt_view(response), seq!['T', 'a', 'p', 'n', 'o', 'w'], false),
{
    let w: Vec<char> = vec!['T', 'a', 'p', 'n', 'o', 'w'];
    assert(w@ == seq!['T', 'a', 'p', 'n', 'o', 'w']);
    answer_holds(response, w, false)
}

} // verus!
verus! {

proof fn lemma_strip_slashes_suffix(s: Seq<char>)
    ensures
        exists|k: int| 0 <= k <= s.len() && strip_slashes(s) == #[trigger] s.subrange(k, s.len() as int),
    decreases s.len(),
{
    if s.len() > 0 && s[0] == '/' {
        lemma_strip_slashes_suffix(s.drop_first());
        let k = choose|k: int| 0 <= k <= s.drop_first().len() && strip_slashes(s.drop_first()) == #[trigger] s.drop_first().subrange(k, s.drop_first().len() as int);
        assert(s.drop_first().subrange(k, s.drop_first().len() as int) == s.subrange(k + 1, s.len() as int));
    } else {
        assert(s.subrange(0, s.len() as int) == s);
    }
}

/// The file that the frontend server looks for lies under its dist directory by the
/// request's words: the relative path it joins holds no `..` and no `/`.
pub proof fn lemma_static_path_has_no_parent_step(t: Seq<char>)
    ensures
        route(t) matches RouteSpec::StaticFile { rel_path, .. } ==> !occurs_in(rel_path, parent_marker())
            && forall|i: int| 0 <= i < rel_path.len() ==> rel_path[i] != '/',
{
    if let RouteSpec::StaticFile { rel_path, .. } = route(t) {
        let line = first_line(t);
        let raw_path = match second_word(line) {
            Some(w) => w,
            None => seq!['/'],
        };
        let path = raw_path.subrange(0, find_from(raw_path, '?', 0));
        assert(!occurs_in(path, parent_marker()));
        let s = strip_slashes(path);
        lemma_strip_slashes_suffix(path);
        let k = choose|k: int| 0 <= k <= path.len() && s == #[trigger] path.subrange(k, path.len() as int);
        assert(rel_path == backslashed(s));
        if occurs_in(rel_path, parent_marker()) {
            let i = choose|i: int| 0 <= i && i + 2 <= rel_path.len() && #[trigger] rel_path.subrange(i, i + 2) == parent_marker();
            assert(rel_path.subrange(i, i + 2)[0] == '.');
            assert(rel_path.subrange(i, i + 2)[1] == '.');
            assert(s[i] == '.');
            assert(s[i + 1] == '.');
            assert(path.subrange(k + i, k + i + 2) == parent_marker());
            assert(false);
        }
    }
}

} // verus!

verus! {

/// The frontend server answers the launcher's own readiness request (`GET /`) with the
/// index page, whatever the port.
pub proof fn lemma_probe_gets_index(port: u16)
    ensures
        route(get_request(port, "/"@)) == (RouteSpec::Index { head_only: false }),
{
    reveal_strlit("GET ");
    reveal_strlit("/");
    reveal_strlit(" HTTP/1.1\r\nHost: 127.0.0.1:");
    let t = get_request(port, "/"@);
    let line = seq!['G', 'E', 'T', ' ', '/', ' ', 'H', 'T', 'T', 'P', '/', '1', '.', '1'];
    assert(t.len() >= 16);
    assert forall|i: int| 0 <= i < 14 implies t[i] == line[i] && t[i] != '\n' by {}
    assert(t[14] == '\r');
    assert(t[15] == '\n');
    assert(find_from(t, '\n', 0) == 15) by {
        reveal_with_fuel(find_from, 17);
    }
    assert(first_line(t) =~= line);
    assert(skip_spaces(line, 0) == 0);
    assert(word_end(line, 0) == 3) by {
        reveal_with_fuel(word_end, 4);
    }
    assert(skip_spaces(line, 3) == 4) by {
        reveal_with_fuel(skip_spaces, 2);
    }
    assert(word_end(line, 4) == 5) by {
        reveal_with_fuel(word_end, 2);
    }
    let method = line.subrange(0, 3);
    let raw = line.subrange(4, 5);
    assert(first_word(line) == Some(method));
    assert(second_word(line) == Some(raw));
    assert(lower(method) =~= get_word());
    assert(raw =~= seq!['/']);
    assert(find_from(raw, '?', 0) == 1) by {
        reveal_with_fuel(find_from, 2);
    }
    assert(raw.subrange(0, 1) =~= raw);
    assert(!occurs_in(raw, parent_marker()));
}

} // verus!

verus! {

pub open spec fn file_view(file: Option<(&str, &[u8])>) -> Option<(Seq<char>, Seq<u8>)> {
    match file {
        Some((p, b)) => Some((p@, b@)),
        None => None,
    }
}

/// The bytes with which the frontend server answers according to `plan`: the reason
/// phrase as plain text for a rejection; the index page; for a static file, the file with
/// the media type of its path where `file` holds it (its path and its bytes, as read),
/// else the index page. `None`: no answer.
pub open spec fn answer(plan: RouteSpec, index: Seq<u8>, file: Option<(Seq<char>, Seq<u8>)>) -> Option<Seq<u8>> {
    match plan {
        RouteSpec::NoReply => None,
        RouteSpec::Reject { status, head_only } => Some(
            response_bytes(status, PLAIN_TEXT@, vstd::utf8::encode_utf8(reason(status)), head_only),
        ),
        RouteSpec::Index { head_only } => Some(response_bytes(200, HTML_TEXT@, index, head_only)),
        RouteSpec::StaticFile { head_only, .. } => match file {
            Some((path, bytes)) => Some(response_bytes(200, content_type(path), bytes, head_only)),
            None => Some(response_bytes(200, HTML_TEXT@, index, head_only)),
        },
    }
}

/// The bytes with which the frontend server answers according to `plan`. `index` is the
/// index page; `file` is, for a static file that is a file, its path and its bytes.
pub fn response_for(plan: &RequestPlan, index: &[u8], file: Option<(&str, &[u8])>) -> (r: Option<Vec<u8>>)
    ensures
        plan@ is NoReply <==> r is None,
        r matches Some(b) ==> answer(plan@, index@, file_view(file)) == Some(b@),
{
    match plan {
        RequestPlan::NoReply => None,
        RequestPlan::Reject { status, head_only } => {
            Some(write_simple_response(*status, PLAIN_TEXT, status_text(*status).as_bytes(), *head_only))
        },
        RequestPlan::Index { head_only } => Some(write_simple_response(200, HTML_TEXT, index, *head_only)),
        RequestPlan::StaticFile { head_only, .. } => match file {
            Some((path, bytes)) => Some(write_simple_response(200, content_type_for(path), bytes, *head_only)),
            None => Some(write_simple_response(200, HTML_TEXT, index, *head_only)),
        },
    }
}

/// `plan` with only the head of the answer asked for (`head_only` set).
pub open spec fn head_of(plan: RouteSpec) -> RouteSpec {
    match plan {
        RouteSpec::NoReply => RouteSpec::NoReply,
        RouteSpec::Reject { status, .. } => RouteSpec::Reject { status, head_only: true },
        RouteSpec::Index { .. } => RouteSpec::Index { head_only: true },
        RouteSpec::StaticFile { rel_path, .. } => RouteSpec::StaticFile { rel_path, head_only: true },
    }
}

/// `plan` with the whole answer asked for (`head_only` cleared).
pub open spec fn whole_of(plan: RouteSpec) -> RouteSpec {
    match plan {
        RouteSpec::NoReply => RouteSpec::NoReply,
        RouteSpec::Reject { status, .. } => RouteSpec::Reject { status, head_only: false },
        RouteSpec::Index { .. } => RouteSpec::Index { head_only: false },
        RouteSpec::StaticFile { rel_path, .. } => RouteSpec::StaticFile { rel_path, head_only: false },
    }
}

/// The head-only answer to a plan is its whole answer without the body: the same status
/// line and header fields (`Content-Length` still the length of the whole body), and no
/// body.
pub proof fn lemma_head_answer_drops_body(plan: RouteSpec, index: Seq<u8>, file: Option<(Seq<char>, Seq<u8>)>)
    requires
        !(plan is NoReply),
    ensures
        exists|head: Seq<u8>, body: Seq<u8>|
            #![trigger head + body]
            answer(head_of(plan), index, file) == Some(head) && answer(whole_of(plan), index, file) == Some(
                head + body,
            ),
{
    let (status, ct, body) = match plan {
        RouteSpec::Reject { status, .. } => (status, PLAIN_TEXT@, vstd::utf8::encode_utf8(reason(status))),
        RouteSpec::Index { .. } => (200u16, HTML_TEXT@, index),
        RouteSpec::StaticFile { .. } => match file {
            Some((path, bytes)) => (200u16, content_type(path), bytes),
            None => (200u16, HTML_TEXT@, index),
        },
        RouteSpec::NoReply => (0u16, Seq::<char>::empty(), Seq::<u8>::empty()),
    };
    let head = vstd::utf8::encode_utf8(response_head(status, ct, body.len()));
    assert(answer(head_of(plan), index, file) == Some(head));
    assert(answer(whole_of(plan), index, file) == Some(head + body));
}

} // verus!
verus! {

proof fn lemma_find_from_bounds(s: Seq<char>, c: char, i: int)
    requires
        0 <= i <= s.len(),
    ensures
        i <= find_from(s, c, i) <= s.len(),
    decreases s.len() - i,
{
    if i < s.len() && s[i] != c {
        lemma_find_from_bounds(s, c, i + 1);
    }
}

proof fn lemma_find_from_shift(m: Seq<char>, r: Seq<char>, c: char, j: int)
    requires
        0 <= j <= r.len(),
    ensures
        find_from(m + r, c, m.len() + j) == m.len() + find_from(r, c, j),
    decreases r.len() - j,
{
    if j < r.len() {
        assert((m + r)[m.len() + j] == r[j]);
        if r[j] != c {
            lemma_find_from_shift(m, r, c, j + 1);
        }
    }
}

proof fn lemma_find_from_past(m: Seq<char>, r: Seq<char>, c: char, i: int)
    requires
        0 <= i <= m.len(),
        forall|k: int| 0 <= k < m.len() ==> m[k] != c,
    ensures
        find_from(m + r, c, i) == find_from(m + r, c, m.len() as int),
    decreases m.len() - i,
{
    if i < m.len() {
        assert((m + r)[i] == m[i]);
        lemma_find_from_past(m, r, c, i + 1);
    }
}

proof fn lemma_skip_spaces_shift(m: Seq<char>, r: Seq<char>, j: int)
    requires
        0 <= j <= r.len(),
    ensures
        skip_spaces(m + r, m.len() + j) == m.len() + skip_spaces(r, j),
    decreases r.len() - j,
{
    if j < r.len() {
        assert((m + r)[m.len() + j] == r[j]);
        if is_space(r[j]) {
            lemma_skip_spaces_shift(m, r, j + 1);
        }
    }
}

proof fn lemma_word_end_shift(m: Seq<char>, r: Seq<char>, j: int)
    requires
        0 <= j <= r.len(),
    ensures
        word_end(m + r, m.len() + j) == m.len() + word_end(r, j),
    decreases r.len() - j,
{
    if j < r.len() {
        assert((m + r)[m.len() + j] == r[j]);
        if !is_space(r[j]) {
            lemma_word_end_shift(m, r, j + 1);
        }
    }
}

proof fn lemma_word_end_past(m: Seq<char>, r: Seq<char>, i: int)
    requires
        0 <= i <= m.len(),
        forall|k: int| 0 <= k < m.len() ==> !is_space(m[k]),
    ensures
        word_end(m + r, i) == word_end(m + r, m.len() as int),
    decreases m.len() - i,
{
    if i < m.len() {
        assert((m + r)[i] == m[i]);
        lemma_word_end_past(m, r, i + 1);
    }
}

/// A method word is made of letters: no white space in it.
proof fn lemma_letters(m: Seq<char>, w: Seq<char>)
    requires
        lower(m) == w,
        forall|k: int| 0 <= k < w.len() ==> 'a' <= #[trigger] w[k] <= 'z',
    ensures
        forall|k: int| 0 <= k < m.len() ==> !is_space(#[trigger] m[k]) && m[k] != '\n' && m[k] != '\r',
{
    assert forall|k: int| 0 <= k < m.len() implies !is_space(#[trigger] m[k]) && m[k] != '\n' && m[k] != '\r' by {
        assert(lower(m)[k] == crate::text::lower_char(m[k]));
        assert('a' <= w[k] <= 'z');
    }
}

proof fn lemma_first_line_after_word(m: Seq<char>, rest: Seq<char>)
    requires
        m.len() > 0,
        forall|k: int| 0 <= k < m.len() ==> m[k] != '\n',
        m.last() != '\r',
    ensures
        first_line(m + rest) == m + first_line(rest),
{
    let t = m + rest;
    lemma_find_from_past(m, rest, '\n', 0);
    lemma_find_from_shift(m, rest, '\n', 0);
    lemma_find_from_bounds(rest, '\n', 0);
    let e = find_from(rest, '\n', 0);
    assert(find_from(t, '\n', 0) == m.len() + e);
    let l = t.subrange(0, m.len() + e);
    assert(l == m + rest.subrange(0, e));
    if e == 0 {
        assert(l.last() == m.last());
        assert(rest.subrange(0, 0) == Seq::<char>::empty());
        assert(first_line(rest) == Seq::<char>::empty());
        assert(l == m + first_line(rest));
    } else {
        assert(l.last() == rest.subrange(0, e).last());
        if e < rest.len() && rest.subrange(0, e).last() == '\r' {
            assert(l.drop_last() == m + rest.subrange(0, e).drop_last());
        }
    }
}

/// The word after the first: the second word of `m + l` for a first word `m`.
pub open spec fn word_after(l: Seq<char>) -> Option<Seq<char>> {
    let b = skip_spaces(l, 0);
    if b >= l.len() {
        None
    } else {
        Some(l.subrange(b, word_end(l, b)))
    }
}

proof fn lemma_skip_spaces_bounds(s: Seq<char>, i: int)
    requires
        0 <= i <= s.len(),
    ensures
        i <= skip_spaces(s, i) <= s.len(),
    decreases s.len() - i,
{
    if i < s.len() && is_space(s[i]) {
        lemma_skip_spaces_bounds(s, i + 1);
    }
}

proof fn lemma_word_end_bounds(s: Seq<char>, i: int)
    requires
        0 <= i <= s.len(),
    ensures
        i <= word_end(s, i) <= s.len(),
    decreases s.len() - i,
{
    if i < s.len() && !is_space(s[i]) {
        lemma_word_end_bounds(s, i + 1);
    }
}

proof fn lemma_skip_spaces_past(p: Seq<char>, r: Seq<char>, i: int)
    requires
        0 <= i <= p.len(),
        forall|k: int| 0 <= k < p.len() ==> is_space(p[k]),
    ensures
        skip_spaces(p + r, i) == skip_spaces(p + r, p.len() as int),
    decreases p.len() - i,
{
    if i < p.len() {
        assert((p + r)[i] == p[i]);
        lemma_skip_spaces_past(p, r, i + 1);
    }
}

proof fn lemma_word_end_within(p: Seq<char>, r: Seq<char>, lo: int, i: int)
    requires
        0 <= lo <= i <= p.len(),
        forall|k: int| lo <= k < p.len() ==> !is_space(p[k]),
    ensures
        word_end(p + r, i) == word_end(p + r, p.len() as int),
    decreases p.len() - i,
{
    if i < p.len() {
        assert((p + r)[i] == p[i]);
        lemma_word_end_within(p, r, lo, i + 1);
    }
}

proof fn lemma_words_of_line(ws: Seq<char>, m: Seq<char>, l: Seq<char>)
    requires
        m.len() > 0,
        forall|k: int| 0 <= k < ws.len() ==> is_space(ws[k]),
        forall|k: int| 0 <= k < m.len() ==> !is_space(m[k]),
        l.len() == 0 || is_space(l[0]),
    ensures
        first_word(ws + m + l) == Some(m),
        second_word(ws + m + l) == word_after(l),
{
    let p = ws + m;
    let t = p + l;
    assert(ws + m + l == t);
    assert forall|k: int| 0 <= k < ws.len() implies is_space(#[trigger] (ws + (m + l))[k]) by {}
    lemma_skip_spaces_past(ws, m + l, 0);
    assert(ws + (m + l) == t);
    assert(t[ws.len() as int] == m[0]);
    assert(skip_spaces(t, ws.len() as int) == ws.len());
    assert(skip_spaces(t, 0) == ws.len());
    assert forall|k: int| ws.len() <= k < p.len() implies !is_space(#[trigger] p[k]) by {
        assert(p[k] == m[k - ws.len()]);
    }
    lemma_word_end_within(p, l, ws.len() as int, ws.len() as int);
    lemma_word_end_shift(p, l, 0);
    if l.len() > 0 {
        assert(word_end(l, 0) == 0);
    }
    assert(word_end(t, ws.len() as int) == p.len());
    assert(t.subrange(ws.len() as int, p.len() as int) == m);
    lemma_skip_spaces_shift(p, l, 0);
    lemma_skip_spaces_bounds(l, 0);
    let b = skip_spaces(l, 0);
    lemma_word_end_shift(p, l, b);
    lemma_word_end_bounds(l, b);
    if b < l.len() {
        assert(t.subrange(p.len() + b, p.len() + word_end(l, b)) == l.subrange(b, word_end(l, b)));
    }
}

proof fn lemma_first_line_starts_with_space(rest: Seq<char>)
    requires
        rest.len() == 0 || is_space(rest[0]),
    ensures
        first_line(rest).len() == 0 || is_space(first_line(rest)[0]),
{
    lemma_find_from_bounds(rest, '\n', 0);
}

/// A HEAD request is routed as the same request with GET, with only the head of the
/// answer asked for; the GET form asks for the whole answer. `ws` is white space (no line
/// break) before the method, `get` and `head` are the method words in any letter case,
/// and `rest` the request after the method.
pub proof fn lemma_head_request_routes_like_get(ws: Seq<char>, get: Seq<char>, head: Seq<char>, rest: Seq<char>)
    requires
        forall|k: int| 0 <= k < ws.len() ==> is_space(#[trigger] ws[k]) && ws[k] != '\n',
        lower(get) == get_word(),
        lower(head) == head_word(),
        rest.len() == 0 || is_space(rest[0]),
    ensures
        route(ws + get + rest) == whole_of(route(ws + get + rest)),
        route(ws + head + rest) == head_of(route(ws + get + rest)),
        !(route(ws + get + rest) is NoReply),
{
    assert(get_word().len() == 3);
    assert(head_word().len() == 4);
    assert(forall|k: int| 0 <= k < get_word().len() ==> 'a' <= #[trigger] get_word()[k] <= 'z');
    assert(forall|k: int| 0 <= k < head_word().len() ==> 'a' <= #[trigger] head_word()[k] <= 'z');
    lemma_letters(get, get_word());
    lemma_letters(head, head_word());
    let pg = ws + get;
    let ph = ws + head;
    assert forall|k: int| 0 <= k < pg.len() implies pg[k] != '\n' by {
        if k >= ws.len() {
            assert(pg[k] == get[k - ws.len()]);
        }
    }
    assert forall|k: int| 0 <= k < ph.len() implies ph[k] != '\n' by {
        if k >= ws.len() {
            assert(ph[k] == head[k - ws.len()]);
        }
    }
    assert(pg.last() == get.last());
    assert(ph.last() == head.last());
    lemma_first_line_after_word(pg, rest);
    lemma_first_line_after_word(ph, rest);
    assert(ws + get + rest == pg + rest);
    assert(ws + head + rest == ph + rest);
    lemma_first_line_starts_with_space(rest);
    let l = first_line(rest);
    assert(pg + l == ws + get + l);
    assert(ph + l == ws + head + l);
    lemma_words_of_line(ws, get, l);
    lemma_words_of_line(ws, head, l);
    assert(lower(get) != head_word());
    assert(lower(head) != get_word());
}

/// The same law on the bytes that the frontend server reads: for a request sent as UTF-8,
/// the answer to the HEAD form is the answer to the GET form without its body (the same
/// status line and header fields, `Content-Length` still the length of the whole body),
/// whatever the index page and the file read.
pub proof fn lemma_head_request_bytes_get_answer_without_body(
    ws: Seq<char>,
    get: Seq<char>,
    head: Seq<char>,
    rest: Seq<char>,
    index: Seq<u8>,
    file: Option<(Seq<char>, Seq<u8>)>,
)
    requires
        forall|k: int| 0 <= k < ws.len() ==> is_space(#[trigger] ws[k]) && ws[k] != '\n',
        lower(get) == get_word(),
        lower(head) == head_word(),
        rest.len() == 0 || is_space(rest[0]),
    ensures
        ({
            let g = vstd::utf8::encode_utf8(ws + get + rest);
            let h = vstd::utf8::encode_utf8(ws + head + rest);
            &&& g.len() > 0 && h.len() > 0
            &&& vstd::utf8::valid_utf8(g) && vstd::utf8::valid_utf8(h)
            &&& exists|head_bytes: Seq<u8>, body: Seq<u8>|
                #![trigger head_bytes + body]
                answer(route(vstd::utf8::decode_utf8(h)), index, file) == Some(head_bytes) && answer(
                    route(vstd::utf8::decode_utf8(g)),
                    index,
                    file,
                ) == Some(head_bytes + body)
        }),
{
    broadcast use vstd::utf8::encode_utf8_valid_utf8, vstd::utf8::encode_utf8_decode_utf8;

    let tg = ws + get + rest;
    let th = ws + head + rest;
    assert(get.len() == 3 && head.len() == 4) by {
        assert(lower(get).len() == get.len());
        assert(lower(head).len() == head.len());
    }
    assert(tg.len() > 0 && th.len() > 0);
    lemma_encode_nonempty(tg);
    lemma_encode_nonempty(th);
    lemma_head_request_routes_like_get(ws, get, head, rest);
    lemma_head_answer_drops_body(route(tg), index, file);
    assert(whole_of(route(tg)) == route(tg));
}

proof fn lemma_encode_nonempty(t: Seq<char>)
    requires
        t.len() > 0,
    ensures
        vstd::utf8::encode_utf8(t).len() > 0,
{
    broadcast use vstd::utf8::encode_utf8_decode_utf8;

    if vstd::utf8::encode_utf8(t).len() == 0 {
        assert(vstd::utf8::decode_utf8(vstd::utf8::encode_utf8(t)) == t);
        assert(vstd::utf8::encode_utf8(t) =~= Seq::<u8>::empty());
        assert(vstd::utf8::decode_utf8(Seq::<u8>::empty()) =~= Seq::<char>::empty()) by {
            reveal_with_fuel(vstd::utf8::decode_utf8, 1);
        }
    }
}

} // verus!
verus! {

proof fn lemma_after_last_dot_bounds(s: Seq<char>, j: int)
    requires
        0 <= j <= s.len(),
    ensures
        0 <= after_last_dot(s, j) <= j,
        after_last_dot(s, j) > 0 ==> s[after_last_dot(s, j) - 1] == '.',
        forall|k: int| after_last_dot(s, j) <= k < j ==> s[k] != '.',
    decreases j,
{
    if j > 0 && s[j - 1] != '.' {
        lemma_after_last_dot_bounds(s, j - 1);
    }
}

/// The extension of a file name never holds a `.`: it is what follows the last one.
pub proof fn lemma_extension_has_no_dot(name: Seq<char>)
    ensures
        name_extension(name) matches Some(e) ==> forall|k: int| 0 <= k < e.len() ==> e[k] != '.',
        name_extension(name) matches Some(e) ==> e.len() < name.len() && name.subrange(
            name.len() - e.len() - 1,
            name.len() as int,
        ) == seq!['.'] + e,
{
    lemma_after_last_dot_bounds(name, name.len() as int);
    if let Some(e) = name_extension(name) {
        let d = after_last_dot(name, name.len() as int);
        assert forall|k: int| 0 <= k < e.len() implies e[k] != '.' by {
            assert(e[k] == name[d + k]);
        }
        assert(name.subrange(name.len() - e.len() - 1, name.len() as int) =~= seq!['.'] + e);
    }
}

/// A file name made of a non-empty stem, a `.` and a text without `.` has that text as
/// its extension, whatever dots the stem holds (`jquery.min.js` has the extension `js`).
pub proof fn lemma_extension_after_last_dot(stem: Seq<char>, ext: Seq<char>)
    requires
        stem.len() > 0,
        forall|k: int| 0 <= k < ext.len() ==> ext[k] != '.',
    ensures
        name_extension(stem + seq!['.'] + ext) == Some(ext),
{
    let n = stem + seq!['.'] + ext;
    let m: int = stem.len() as int + 1;
    assert(n[m - 1] == '.');
    assert forall|k: int| m <= k < n.len() implies n[k] != '.' by {
        assert(n[k] == ext[k - m]);
    }
    lemma_after_last_dot_bounds(n, n.len() as int);
    let d = after_last_dot(n, n.len() as int);
    if d > m {
        assert(n[d - 1] == '.');
    }
    if d < m {
        assert(n[m - 1] != '.');
    }
    assert(d == m);
    assert(n.subrange(m, n.len() as int) =~= ext);
}

proof fn lemma_after_last_separator_bounds(s: Seq<char>, j: int)
    requires
        0 <= j <= s.len(),
    ensures
        0 <= after_last_separator(s, j) <= j,
        after_last_separator(s, j) > 0 ==> is_separator(s[after_last_separator(s, j) - 1]),
        forall|k: int| after_last_separator(s, j) <= k < j ==> !is_separator(s[k]),
    decreases j,
{
    if j > 0 && !is_separator(s[j - 1]) {
        lemma_after_last_separator_bounds(s, j - 1);
    }
}

/// A script in the `dist` directory, whatever its stem (dots included), is sent as
/// JavaScript.
pub proof fn lemma_script_in_dist_is_javascript(stem: Seq<char>)
    requires
        stem.len() > 0,
        forall|k: int| 0 <= k < stem.len() ==> !is_separator(#[trigger] stem[k]),
    ensures
        content_type("dist/"@ + stem + ".js"@) == "application/javascript; charset=utf-8"@,
{
    reveal_strlit("dist/");
    reveal_strlit(".js");
    let path = "dist/"@ + stem + ".js"@;
    let name = stem + ".js"@;
    assert(path[0] == 'd' && path[1] == 'i' && path[4] == '/');
    assert(prefix_len(path) == 0);
    assert(path.subrange(0, path.len() as int) =~= path);
    assert(path.last() == 's');
    lemma_after_last_separator_bounds(path, path.len() as int);
    let k = after_last_separator(path, path.len() as int);
    assert forall|i: int| 5 <= i < path.len() implies !is_separator(path[i]) by {
        if i < 5 + stem.len() {
            assert(path[i] == stem[i - 5]);
        }
    }
    if k > 5 {
        assert(is_separator(path[k - 1]));
    }
    if k < 5 {
        assert(!is_separator(path[4]));
    }
    assert(k == 5);
    assert(path.subrange(5, path.len() as int) =~= name);
    assert(name.len() >= 4);
    assert(name != seq!['.'] && name != parent_marker());
    assert(last_component(path) == Some(name));
    assert(file_name(path) == Some(name));
    assert(name =~= stem + seq!['.'] + seq!['j', 's']);
    lemma_extension_after_last_dot(stem, seq!['j', 's']);
    assert(lower(seq!['j', 's']) =~= seq!['j', 's']);
}

/// The `Content-Length` field of every answer is the length of the whole body: the head
/// ends with `Content-Length: `, a run of decimal digits whose value is `body_len`, and
/// the last field; no bound is put on the length.
pub proof fn lemma_content_length_is_body_length(status: u16, content_type: Seq<char>, body_len: nat)
    ensures
        exists|front: Seq<char>, digits: Seq<char>|
            #![trigger front + digits]
            response_head(status, content_type, body_len) == front + "\r\nContent-Length: "@ + digits
                + "\r\nConnection: close\r\n\r\n"@ && digits.len() > 0 && all_digits(digits)
                && digits_value(digits, 0) == body_len,
{
    let front = "HTTP/1.1 "@ + dec(status as nat) + " "@ + reason(status) + "\r\nContent-Type: "@
        + content_type;
    let digits = dec(body_len);
    lemma_dec_digits(body_len);
    assert(response_head(status, content_type, body_len) == front + "\r\nContent-Length: "@ + digits
        + "\r\nConnection: close\r\n\r\n"@);
    assert(front + digits == front + digits);
}

} // verus!
