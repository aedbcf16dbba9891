//! Reading the bridge's HTTP requests: where the header ends, whether the whole body
//! arrived, and the method, path, headers and body of a request.

use vstd::prelude::*;
use crate::capture_bridge::HttpRequest;
use crate::chars::{is_white_space, lower_chars, trim_ws};

verus! {

pub open spec fn crlf2_at(buf: Seq<u8>, i: int) -> bool {
    0 <= i && i + 4 <= buf.len() && buf[i] == 13 && buf[i + 1] == 10 && buf[i + 2] == 13 && buf[i + 3] == 10
}

/// The first position from `i` where an empty line (`\r\n\r\n`) starts.
pub open spec fn first_crlf2(buf: Seq<u8>, i: int) -> Option<int>
    decreases buf.len() - i,
{
    if i < 0 || i + 4 > buf.len() {
        None
    } else if crlf2_at(buf, i) {
        Some(i)
    } else {
        first_crlf2(buf, i + 1)
    }
}

pub fn find_double_crlf(buf: &[u8]) -> (r: Option<usize>)
    ensures
        match r {
            Some(i) => first_crlf2(buf@, 0) == Some(i as int),
            None => first_crlf2(buf@, 0) is None,
        },
{
    let mut i: usize = 0;
    while buf.len() >= 4 && i <= buf.len() - 4
        invariant
            i <= buf@.len(),
            first_crlf2(buf@, 0) == first_crlf2(buf@, i as int),
        decreases buf@.len() - i,
    {
        if buf[i] == 13 && buf[i + 1] == 10 && buf[i + 2] == 13 && buf[i + 3] == 10 {
            return Some(i);
        }
        i = i + 1;
    }
    None
}

/// Leading white space dropped.
pub open spec fn skip_ws(s: Seq<char>) -> Seq<char>
    decreases s.len(),
{
    if s.len() > 0 && is_white_space(s[0]) { skip_ws(s.drop_first()) } else { s }
}

/// The characters before the first white space.
pub open spec fn token_prefix(s: Seq<char>) -> Seq<char>
    decreases s.len(),
{
    if s.len() == 0 || is_white_space(s[0]) { Seq::empty() } else { seq![s[0]] + token_prefix(s.drop_first()) }
}

/// The first two white-space separated words of a line, when there are two.
pub open spec fn first_two_words(line: Seq<char>) -> Option<(Seq<char>, Seq<char>)> {
    let a = token_prefix(skip_ws(line));
    let rest = skip_ws(line).skip(a.len() as int);
    let b = token_prefix(skip_ws(rest));
    if a.len() == 0 || b.len() == 0 { None } else { Some((a, b)) }
}

/// The header lines up to the first empty one, each split at its first `:` into a
/// lower-cased trimmed name and a trimmed value; none when a line has no `:`.
pub open spec fn header_lines(lines: Seq<Seq<char>>) -> Option<Seq<(Seq<char>, Seq<char>)>>
    decreases lines.len(),
{
    if lines.len() == 0 || lines[0].len() == 0 {
        Some(Seq::empty())
    } else {
        match crate::chars::first_index(lines[0], ':') {
            None => None,
            Some(i) => match header_lines(lines.drop_first()) {
                None => None,
                Some(rest) => Some(seq![(lower_chars(trim_ws(lines[0].take(i))), trim_ws(lines[0].skip(i + 1)))] + rest),
            },
        }
    }
}

pub open spec fn pairs_view(v: Seq<(String, String)>) -> Seq<(Seq<char>, Seq<char>)> {
    v.map_values(|p: (String, String)| (p.0@, p.1@))
}

/// A request read from `buf`: the header runs to the first empty line and must be UTF-8;
/// its first line holds the method and the path (cut at `?`); the body is what follows.
pub open spec fn parsed_request(buf: Seq<u8>) -> Option<(Seq<char>, Seq<char>, Seq<(Seq<char>, Seq<char>)>, Seq<u8>)> {
    match first_crlf2(buf, 0) {
        None => None,
        Some(end) => if !vstd::utf8::valid_utf8(buf.take(end + 4)) {
            None
        } else {
            let lines = crate::chars::split_on(vstd::utf8::decode_utf8(buf.take(end + 4)), "\r\n"@);
            match first_two_words(lines[0]) {
                None => None,
                Some((method, raw_path)) => match header_lines(lines.drop_first()) {
                    None => None,
                    Some(hs) => Some((method, crate::chars::before_first(raw_path, '?'), hs, buf.skip(end + 4))),
                },
            }
        },
    }
}

fn copy_bytes(buf: &[u8], a: usize, b: usize) -> (r: Vec<u8>)
    requires
        a <= b <= buf@.len(),
    ensures
        r@ == buf@.subrange(a as int, b as int),
{
    let mut out: Vec<u8> = Vec::new();
    let mut i: usize = a;
    while i < b
        invariant
            a <= i <= b <= buf@.len(),
            out@ == buf@.subrange(a as int, i as int),
        decreases b - i,
    {
        out.push(buf[i]);
        assert(out@ =~= buf@.subrange(a as int, i + 1));
        i = i + 1;
    }
    out
}

fn skip_ws_from(s: &[char], from: usize) -> (r: usize)
    requires
        from <= s@.len(),
    ensures
        from <= r <= s@.len(),
        s@.skip(r as int) == skip_ws(s@.skip(from as int)),
{
    let mut i = from;
    while i < s.len() && crate::chars::is_trimmed_char(s[i], crate::chars::TrimClass::WhiteSpace)
        invariant
            from <= i <= s@.len(),
            skip_ws(s@.skip(from as int)) == skip_ws(s@.skip(i as int)),
        decreases s@.len() - i,
    {
        assert(s@.skip(i as int).drop_first() =~= s@.skip(i + 1));
        i = i + 1;
    }
    proof { r_skip_done(s@, i as int); }
    i
}

proof fn r_skip_done(s: Seq<char>, i: int)
    requires
        0 <= i <= s.len(),
        i < s.len() ==> !is_white_space(s[i]),
    ensures
        skip_ws(s.skip(i)) == s.skip(i),
{
}

fn token_end(s: &[char], from: usize) -> (r: usize)
    requires
        from <= s@.len(),
    ensures
        from <= r <= s@.len(),
        s@.subrange(from as int, r as int) == token_prefix(s@.skip(from as int)),
{
    let mut i = from;
    while i < s.len() && !crate::chars::is_trimmed_char(s[i], crate::chars::TrimClass::WhiteSpace)
        invariant
            from <= i <= s@.len(),
            token_prefix(s@.skip(from as int)) == s@.subrange(from as int, i as int) + token_prefix(s@.skip(i as int)),
        decreases s@.len() - i,
    {
        assert(s@.skip(i as int).drop_first() =~= s@.skip(i + 1));
        assert(s@.subrange(from as int, i + 1) =~= s@.subrange(from as int, i as int) + seq![s@[i as int]]);
        i = i + 1;
    }
    assert(token_prefix(s@.skip(i as int)) =~= Seq::<char>::empty());
    assert(s@.subrange(from as int, i as int) + Seq::<char>::empty() =~= s@.subrange(from as int, i as int));
    i
}

fn two_words(line: &[char]) -> (r: Option<(Vec<char>, Vec<char>)>)
    ensures
        match first_two_words(line@) {
            Some((a, b)) => r matches Some((x, y)) && x@ == a && y@ == b,
            None => r is None,
        },
{
    let a0 = skip_ws_from(line, 0);
    assert(line@.skip(0) =~= line@);
    let a1 = token_end(line, a0);
    let b0 = skip_ws_from(line, a1);
    let b1 = token_end(line, b0);
    proof {
        let a = token_prefix(skip_ws(line@));
        assert(line@.subrange(a0 as int, a1 as int) == a);
        assert(skip_ws(line@).skip(a.len() as int) =~= line@.skip(a1 as int));
    }
    if a1 == a0 || b1 == b0 {
        return None;
    }
    Some((crate::chars::slice_chars(line, a0, a1), crate::chars::slice_chars(line, b0, b1)))
}

fn parse_headers(lines: &Vec<Vec<char>>) -> (r: Option<Vec<(String, String)>>)
    requires
        lines@.len() >= 1,
    ensures
        match header_lines(crate::chars::vecs_view(lines@).drop_first()) {
            Some(hs) => r matches Some(v) && pairs_view(v@) == hs,
            None => r is None,
        },
{
    let ghost all = crate::chars::vecs_view(lines@).drop_first();
    let mut out: Vec<(String, String)> = Vec::new();
    let mut i: usize = 1;
    assert(crate::chars::vecs_view(lines@).skip(1) =~= all);
    while i < lines.len()
        invariant
            1 <= i <= lines@.len(),
            all == crate::chars::vecs_view(lines@).drop_first(),
            header_lines(all) == match header_lines(crate::chars::vecs_view(lines@).skip(i as int)) {
                Some(rest) => Some(pairs_view(out@) + rest),
                None => None::<Seq<(Seq<char>, Seq<char>)>>,
            },
        decreases lines@.len() - i,
    {
        let ghost cur = crate::chars::vecs_view(lines@).skip(i as int);
        assert(cur[0] == lines@[i as int]@);
        assert(cur.drop_first() =~= crate::chars::vecs_view(lines@).skip(i + 1));
        let line = &lines[i];
        if line.len() == 0 {
            proof {
                assert(pairs_view(out@) + Seq::<(Seq<char>, Seq<char>)>::empty() =~= pairs_view(out@));
            }
            return Some(out);
        }
        let colon = match crate::chars::find_char(line.as_slice(), ':') {
            Some(c) => c,
            None => { return None; },
        };
        proof { crate::chars::lemma_first_index_bounds(line@, ':', 0); }
        let name_part = crate::chars::slice_chars(line.as_slice(), 0, colon);
        let value_part = crate::chars::slice_chars(line.as_slice(), colon + 1, line.len());
        let name = crate::chars::lower_ascii(crate::chars::trim_chars(name_part.as_slice(), crate::chars::TrimClass::WhiteSpace).as_slice());
        let value = crate::chars::trim_chars(value_part.as_slice(), crate::chars::TrimClass::WhiteSpace);
        let ghost before = pairs_view(out@);
        out.push((crate::chars::string_from_chars(name.as_slice()), crate::chars::string_from_chars(value.as_slice())));
        proof {
            assert(name_part@ =~= line@.take(colon as int));
            assert(value_part@ =~= line@.skip(colon + 1));
            assert(pairs_view(out@) =~= before.push((name@, value@)));
            let item = seq![(name@, value@)];
            match header_lines(crate::chars::vecs_view(lines@).skip(i + 1)) {
                Some(rest) => {
                    assert(before + (item + rest) =~= before.push((name@, value@)) + rest);
                },
                None => {},
            }
        }
        i = i + 1;
    }
    proof {
        assert(crate::chars::vecs_view(lines@).skip(i as int) =~= Seq::<Seq<char>>::empty());
        assert(pairs_view(out@) + Seq::<(Seq<char>, Seq<char>)>::empty() =~= pairs_view(out@));
    }
    Some(out)
}

/// The request in `buf`, or none when it is not a well-formed request head.
pub fn parse_http(buf: &[u8]) -> (r: Option<HttpRequest>)
    ensures
        match parsed_request(buf@) {
            Some((method, path, hs, body)) => r matches Some(req) && req.method@ == method && req.path@ == path
                && pairs_view(req.headers@) == hs && req.body@ == body,
            None => r is None,
        },
{
    let end = match find_double_crlf(buf) {
        Some(e) => e,
        None => { return None; },
    };
    let total: usize = buf.len();
    proof {
        lemma_first_crlf2_bounds(buf@, 0);
        assert(end + 4 <= total);
    }
    let head = copy_bytes(buf, 0, end + 4);
    assert(head@ =~= buf@.take(end + 4));
    let text = match crate::chars::string_from_utf8(head) {
        Some(t) => t,
        None => { return None; },
    };
    let chars = crate::text::chars_of(text.as_str());
    let sep: Vec<char> = vec!['\r', '\n'];
    proof { reveal_strlit("\r\n"); assert(sep@ =~= "\r\n"@); }
    let lines = crate::chars::split_text(chars.as_slice(), sep.as_slice());
    proof { lemma_split_nonempty(chars@, sep@); }
    let (method, raw_path) = match two_words(lines[0].as_slice()) {
        Some(w) => w,
        None => { return None; },
    };
    let headers = match parse_headers(&lines) {
        Some(h) => h,
        None => { return None; },
    };
    let path = crate::chars::prefix_before(raw_path.as_slice(), '?');
    let body = copy_bytes(buf, end + 4, buf.len());
    assert(body@ =~= buf@.skip(end + 4));
    Some(HttpRequest {
        method: crate::chars::string_from_chars(method.as_slice()),
        path: crate::chars::string_from_chars(path.as_slice()),
        headers,
        body,
    })
}

proof fn lemma_first_crlf2_bounds(buf: Seq<u8>, i: int)
    requires
        i >= 0,
    ensures
        first_crlf2(buf, i) matches Some(e) ==> i <= e && e + 4 <= buf.len(),
    decreases buf.len() - i,
{
    if i + 4 <= buf.len() && !crlf2_at(buf, i) {
        lemma_first_crlf2_bounds(buf, i + 1);
    }
}

proof fn lemma_split_nonempty(s: Seq<char>, sep: Seq<char>)
    ensures
        crate::chars::split_on(s, sep).len() >= 1,
    decreases s.len(),
{
    if sep.len() > 0 {
        match crate::chars::find_sub_from(s, sep, 0) {
            Some(i) => if i + sep.len() <= s.len() && i >= 0 {
            } else {
            },
            None => {},
        }
    }
}

pub open spec fn has_prefix(s: Seq<char>, p: Seq<char>) -> bool {
    s.len() >= p.len() && s.take(p.len() as int) == p
}

fn starts_with_chars(s: &[char], p: &[char]) -> (r: bool)
    ensures
        r == has_prefix(s@, p@),
{
    if s.len() < p.len() {
        return false;
    }
    let mut i: usize = 0;
    while i < p.len()
        invariant
            p@.len() <= s@.len(),
            i <= p@.len(),
            forall|k: int| 0 <= k < i ==> s@[k] == p@[k],
        decreases p@.len() - i,
    {
        if s[i] != p[i] {
            assert(s@.take(p@.len() as int)[i as int] != p@[i as int]);
            return false;
        }
        i = i + 1;
    }
    assert(s@.take(p@.len() as int) =~= p@);
    true
}

/// A line of `str::lines`: a `\r` before the line's `\n` is dropped.
pub open spec fn line_text(pieces: Seq<Seq<char>>, i: int) -> Seq<char> {
    let l = pieces[i];
    if i < pieces.len() - 1 && l.len() > 0 && l.last() == '\r' { l.drop_last() } else { l }
}

/// The length the first `content-length:` line (any case) announces, read from position `i`
/// of the newline-separated pieces; none when no line announces one or its value is no
/// number.
pub open spec fn content_length_from(pieces: Seq<Seq<char>>, i: int) -> Option<usize>
    decreases pieces.len() - i,
{
    if i < 0 || i >= pieces.len() {
        None
    } else {
        let l = line_text(pieces, i);
        if has_prefix(lower_chars(l), "content-length:"@) {
            match crate::chars::first_index(l, ':') {
                Some(c) => crate::numbers::parse_usize_spec(trim_ws(l.skip(c + 1))),
                None => None,
            }
        } else {
            content_length_from(pieces, i + 1)
        }
    }
}

/// The announced body length of a request head.
pub fn extract_content_length(headers: &str) -> (r: Option<usize>)
    ensures
        r == content_length_from(crate::chars::split_on(headers@, "\n"@), 0),
{
    let chars = crate::text::chars_of(headers);
    let nl: Vec<char> = vec!['\n'];
    proof { reveal_strlit("\n"); assert(nl@ =~= "\n"@); }
    let pieces = crate::chars::split_text(chars.as_slice(), nl.as_slice());
    let ghost pv = crate::chars::vecs_view(pieces@);
    let prefix = crate::text::chars_of("content-length:");
    let mut i: usize = 0;
    while i < pieces.len()
        invariant
            i <= pieces@.len(),
            pv == crate::chars::vecs_view(pieces@),
            pv == crate::chars::split_on(headers@, "\n"@),
            prefix@ == "content-length:"@,
            content_length_from(pv, 0) == content_length_from(pv, i as int),
        decreases pieces@.len() - i,
    {
        let piece = &pieces[i];
        let n = piece.len();
        let line: Vec<char> = if i + 1 < pieces.len() && n > 0 && piece[n - 1] == '\r' {
            crate::chars::slice_chars(piece.as_slice(), 0, n - 1)
        } else {
            crate::chars::slice_chars(piece.as_slice(), 0, n)
        };
        proof {
            assert(pv[i as int] == piece@);
            if i + 1 < pieces@.len() && n > 0 && piece@[n - 1] == '\r' {
                assert(line@ =~= piece@.drop_last());
            } else {
                assert(line@ =~= piece@);
            }
        }
        let lower = crate::chars::lower_ascii(line.as_slice());
        if starts_with_chars(lower.as_slice(), prefix.as_slice()) {
            let c = match crate::chars::find_char(line.as_slice(), ':') {
                Some(c) => c,
                None => { return None; },
            };
            proof { crate::chars::lemma_first_index_bounds(line@, ':', 0); }
            let value = crate::chars::slice_chars(line.as_slice(), c + 1, line.len());
            let trimmed = crate::chars::trim_chars(value.as_slice(), crate::chars::TrimClass::WhiteSpace);
            let text = crate::chars::string_from_chars(trimmed.as_slice());
            proof { assert(value@ =~= line@.skip(c + 1)); }
            return crate::numbers::parse_usize(text.as_str());
        }
        i = i + 1;
    }
    None
}

/// Whether the whole request arrived: its head is complete and as many body bytes as its
/// `content-length` announces (none when it announces none) follow.
pub open spec fn request_complete(buf: Seq<u8>) -> bool {
    match first_crlf2(buf, 0) {
        None => false,
        Some(end) => {
            let head = if vstd::utf8::valid_utf8(buf.take(end + 4)) { vstd::utf8::decode_utf8(buf.take(end + 4)) } else { Seq::empty() };
            let len = match content_length_from(crate::chars::split_on(head, "\n"@), 0) { Some(n) => n as int, None => 0 };
            buf.len() >= end + 4 + len
        },
    }
}

pub fn has_complete_http_request(buf: &[u8]) -> (r: bool)
    ensures
        r == request_complete(buf@),
{
    let end = match find_double_crlf(buf) {
        Some(e) => e,
        None => { return false; },
    };
    let total: usize = buf.len();
    proof {
        lemma_first_crlf2_bounds(buf@, 0);
        assert(end + 4 <= total);
    }
    let head = copy_bytes(buf, 0, end + 4);
    assert(head@ =~= buf@.take(end + 4));
    let text = match crate::chars::string_from_utf8(head) {
        Some(t) => t,
        None => String::new(),
    };
    let announced: usize = match extract_content_length(text.as_str()) {
        Some(n) => n,
        None => 0,
    };
    (total as u128) >= (end as u128) + 4 + (announced as u128)
}

pub const EXTENSION_SCHEME: &'static str = "chrome-extension://";

pub open spec fn is_origin_stop(c: char) -> bool {
    c == '/' || c == '?' || c == '#'
}

/// The text before the first `/`, `?` or `#`.
pub open spec fn before_stop(s: Seq<char>) -> Seq<char>
    decreases s.len(),
{
    if s.len() == 0 || is_origin_stop(s[0]) { Seq::empty() } else { seq![s[0]] + before_stop(s.drop_first()) }
}

/// An extension origin: after trimming, `chrome-extension://` and a non-blank host (the
/// text up to the first `/`, `?` or `#`, trimmed); gives the origin and the host.
pub open spec fn extension_origin(value: Seq<char>) -> Option<(Seq<char>, Seq<char>)> {
    let t = trim_ws(value);
    let p = EXTENSION_SCHEME@;
    if !has_prefix(t, p) {
        None
    } else {
        let host = trim_ws(before_stop(t.skip(p.len() as int)));
        if host.len() == 0 { None } else { Some((p + host, host)) }
    }
}

pub fn parse_extension_origin(value: &str) -> (r: Option<(String, String)>)
    ensures
        match extension_origin(value@) {
            Some((o, h)) => r matches Some((x, y)) && x@ == o && y@ == h,
            None => r is None,
        },
{
    let chars = crate::text::chars_of(value);
    let t = crate::chars::trim_chars(chars.as_slice(), crate::chars::TrimClass::WhiteSpace);
    let p = crate::text::chars_of(EXTENSION_SCHEME);
    if !starts_with_chars(t.as_slice(), p.as_slice()) {
        return None;
    }
    let mut i: usize = p.len();
    assert(t@.skip(i as int) == t@.skip(p@.len() as int));
    while i < t.len() && !(t[i] == '/' || t[i] == '?' || t[i] == '#')
        invariant
            p@.len() <= i <= t@.len(),
            before_stop(t@.skip(p@.len() as int)) == t@.subrange(p@.len() as int, i as int) + before_stop(t@.skip(i as int)),
        decreases t@.len() - i,
    {
        assert(t@.skip(i as int).drop_first() =~= t@.skip(i + 1));
        assert(t@.subrange(p@.len() as int, i + 1) =~= t@.subrange(p@.len() as int, i as int) + seq![t@[i as int]]);
        i = i + 1;
    }
    assert(before_stop(t@.skip(i as int)) =~= Seq::<char>::empty());
    assert(t@.subrange(p@.len() as int, i as int) + Seq::<char>::empty() =~= t@.subrange(p@.len() as int, i as int));
    let seg = crate::chars::slice_chars(t.as_slice(), p.len(), i);
    let host = crate::chars::trim_chars(seg.as_slice(), crate::chars::TrimClass::WhiteSpace);
    if host.len() == 0 {
        return None;
    }
    let origin = crate::chars::concat_chars(p.as_slice(), host.as_slice());
    Some((crate::chars::string_from_chars(origin.as_slice()), crate::chars::string_from_chars(host.as_slice())))
}

/// The origin a header value names when its extension host is the client.
pub open spec fn origin_for_client(value: Option<Seq<char>>, client: Seq<char>) -> Option<Seq<char>> {
    match value {
        Some(v) => match extension_origin(v) {
            Some((o, h)) => if h == client { Some(o) } else { None },
            None => None,
        },
        None => None,
    }
}

/// The extension origin a pairing request may be answered for: the client header must be
/// there and not blank; the `origin`, then the `referer`, then the extension-origin header
/// is tried, and the first naming the client's extension gives the origin.
pub open spec fn allowed_origin(hs: Seq<(String, String)>) -> Option<Seq<char>> {
    match crate::capture_bridge::nonempty_header(hs, crate::capture_bridge::AUTH_HEADER_CLIENT@) {
        None => None,
        Some(client) => {
            let from_origin = origin_for_client(crate::capture_bridge::header_of(hs, "origin"@), client);
            let from_referer = origin_for_client(crate::capture_bridge::header_of(hs, "referer"@), client);
            if from_origin is Some {
                from_origin
            } else if from_referer is Some {
                from_referer
            } else {
                origin_for_client(crate::capture_bridge::header_of(hs, crate::capture_bridge::AUTH_HEADER_EXTENSION_ORIGIN@), client)
            }
        },
    }
}

fn origin_matching(value: Option<&String>, client: &str) -> (r: Option<String>)
    ensures
        crate::model::opt_text(r) == origin_for_client(
            match value { Some(v) => Some(v@), None => None },
            client@,
        ),
{
    match value {
        Some(v) => match parse_extension_origin(v.as_str()) {
            Some((o, h)) => if crate::text::str_equal(h.as_str(), client) { Some(o) } else { None },
            None => None,
        },
        None => None,
    }
}

pub fn allowed_extension_origin(request: &HttpRequest) -> (r: Option<String>)
    ensures
        crate::model::opt_text(r) == allowed_origin(request.headers@),
{
    let hs = &request.headers;
    let client = match crate::capture_bridge::header_value(hs, crate::capture_bridge::AUTH_HEADER_CLIENT) {
        Some(v) => match crate::download_ops::non_empty(v.clone()) {
            Some(c) => c,
            None => { return None; },
        },
        None => { return None; },
    };
    if let Some(o) = origin_matching(crate::capture_bridge::header_value(hs, "origin"), client.as_str()) {
        return Some(o);
    }
    if let Some(o) = origin_matching(crate::capture_bridge::header_value(hs, "referer"), client.as_str()) {
        return Some(o);
    }
    origin_matching(crate::capture_bridge::header_value(hs, crate::capture_bridge::AUTH_HEADER_EXTENSION_ORIGIN), client.as_str())
}

/// Where the bridge sends a request.
#[derive(Clone, Copy, Debug, PartialEq, Eq, Structural)]
pub enum BridgeRoute {
    Preflight,
    Health,
    Pair,
    Focus,
    Capture,
    NotFound,
}

pub open spec fn route_spec(method: Seq<char>, path: Seq<char>) -> BridgeRoute {
    if method == "OPTIONS"@ {
        BridgeRoute::Preflight
    } else if method == "GET"@ && path == "/health"@ {
        BridgeRoute::Health
    } else if method == "GET"@ && path == "/pair"@ {
        BridgeRoute::Pair
    } else if method == "GET"@ && path == "/focus"@ {
        BridgeRoute::Focus
    } else if method == "POST"@ && path == "/capture"@ {
        BridgeRoute::Capture
    } else {
        BridgeRoute::NotFound
    }
}

/// The route of a request, by its exact method and path.
pub fn route_request(request: &HttpRequest) -> (r: BridgeRoute)
    ensures
        r == route_spec(request.method@, request.path@),
{
    let m = request.method.as_str();
    let p = request.path.as_str();
    if crate::text::str_equal(m, "OPTIONS") {
        BridgeRoute::Preflight
    } else if crate::text::str_equal(m, "GET") && crate::text::str_equal(p, "/health") {
        BridgeRoute::Health
    } else if crate::text::str_equal(m, "GET") && crate::text::str_equal(p, "/pair") {
        BridgeRoute::Pair
    } else if crate::text::str_equal(m, "GET") && crate::text::str_equal(p, "/focus") {
        BridgeRoute::Focus
    } else if crate::text::str_equal(m, "POST") && crate::text::str_equal(p, "/capture") {
        BridgeRoute::Capture
    } else {
        BridgeRoute::NotFound
    }
}

/// A captured URL must use http or https.
pub open spec fn capture_url_allowed_spec(url: Seq<char>) -> bool {
    has_prefix(url, "http://"@) || has_prefix(url, "https://"@)
}

pub fn capture_url_allowed(url: &str) -> (r: bool)
    ensures
        r == capture_url_allowed_spec(url@),
{
    let u = crate::text::chars_of(url);
    let a = crate::text::chars_of("http://");
    let b = crate::text::chars_of("https://");
    starts_with_chars(u.as_slice(), a.as_slice()) || starts_with_chars(u.as_slice(), b.as_slice())
}


/// Why the bridge refuses a request with a plain-text reply.
#[derive(Clone, Copy, Debug, PartialEq, Eq, Structural)]
pub enum BridgeRefusal {
    /// The bytes were no HTTP request.
    BadRequest,
    /// A pairing request from no paired extension origin.
    Forbidden,
    /// A capture without valid authentication (answered with a JSON body).
    Unauthorized,
    /// A capture whose body is no capture payload.
    InvalidJson,
    /// A capture of a URL that is not http(s).
    UrlNotHttp,
    /// Any other request.
    NotFound,
}

pub open spec fn refusal_status_spec(r: BridgeRefusal) -> u16 {
    match r {
        BridgeRefusal::BadRequest => 400,
        BridgeRefusal::Forbidden => 403,
        BridgeRefusal::Unauthorized => 401,
        BridgeRefusal::InvalidJson => 400,
        BridgeRefusal::UrlNotHttp => 422,
        BridgeRefusal::NotFound => 404,
    }
}

pub open spec fn refusal_reason_spec(r: BridgeRefusal) -> Seq<char> {
    match r {
        BridgeRefusal::BadRequest => "Bad Request"@,
        BridgeRefusal::Forbidden => "Forbidden"@,
        BridgeRefusal::Unauthorized => "Unauthorized"@,
        BridgeRefusal::InvalidJson => "Bad Request"@,
        BridgeRefusal::UrlNotHttp => "Unprocessable Entity"@,
        BridgeRefusal::NotFound => "Not Found"@,
    }
}

pub open spec fn refusal_body_spec(r: BridgeRefusal) -> Seq<char> {
    match r {
        BridgeRefusal::BadRequest => "bad request"@,
        BridgeRefusal::Forbidden => "forbidden"@,
        BridgeRefusal::Unauthorized => "capture bridge authentication required"@,
        BridgeRefusal::InvalidJson => "invalid json"@,
        BridgeRefusal::UrlNotHttp => "url must be http(s)"@,
        BridgeRefusal::NotFound => "not found"@,
    }
}

impl BridgeRefusal {
    /// The HTTP status of the reply.
    pub fn status(&self) -> (r: u16)
        ensures
            r == refusal_status_spec(*self),
    {
        match self {
            BridgeRefusal::BadRequest => 400,
            BridgeRefusal::Forbidden => 403,
            BridgeRefusal::Unauthorized => 401,
            BridgeRefusal::InvalidJson => 400,
            BridgeRefusal::UrlNotHttp => 422,
            BridgeRefusal::NotFound => 404,
        }
    }

    /// The reason phrase of the reply.
    pub fn reason(&self) -> (r: &'static str)
        ensures
            r@ == refusal_reason_spec(*self),
    {
        match self {
            BridgeRefusal::BadRequest => "Bad Request",
            BridgeRefusal::Forbidden => "Forbidden",
            BridgeRefusal::Unauthorized => "Unauthorized",
            BridgeRefusal::InvalidJson => "Bad Request",
            BridgeRefusal::UrlNotHttp => "Unprocessable Entity",
            BridgeRefusal::NotFound => "Not Found",
        }
    }

    /// The body of the reply (for an unauthorized capture, the error field of its JSON body).
    pub fn body(&self) -> (r: &'static str)
        ensures
            r@ == refusal_body_spec(*self),
    {
        match self {
            BridgeRefusal::BadRequest => "bad request",
            BridgeRefusal::Forbidden => "forbidden",
            BridgeRefusal::Unauthorized => "capture bridge authentication required",
            BridgeRefusal::InvalidJson => "invalid json",
            BridgeRefusal::UrlNotHttp => "url must be http(s)",
            BridgeRefusal::NotFound => "not found",
        }
    }
}

/// What the bridge does with a parsed request.
#[derive(Debug)]
pub enum RouteAnswer {
    /// Answer the CORS preflight.
    CorsPreflight,
    /// Report health, saying whether the request was authenticated.
    Health { authorized: bool },
    /// Hand the pairing details to the extension at `origin`.
    Pairing { origin: String },
    /// Bring the main window forward.
    Focus,
    /// Read the body as a capture payload and hand it to [`answer_capture`].
    DecodeCapture,
    /// Refuse with a plain reply.
    Refuse(BridgeRefusal),
}

/// The answer to a parsed request, given whether it was authenticated: preflights, health,
/// pairing (only for a paired extension origin), focus, and captures (only authenticated
/// ones) are served; anything else is not found.
pub fn answer_route(request: &HttpRequest, authorized: bool) -> (r: RouteAnswer)
    ensures
        match route_spec(request.method@, request.path@) {
            BridgeRoute::Preflight => r is CorsPreflight,
            BridgeRoute::Health => r == RouteAnswer::Health { authorized },
            BridgeRoute::Pair => match allowed_origin(request.headers@) {
                Some(o) => r matches RouteAnswer::Pairing { origin } && origin@ == o,
                None => r == RouteAnswer::Refuse(BridgeRefusal::Forbidden),
            },
            BridgeRoute::Focus => r is Focus,
            BridgeRoute::Capture => if authorized { r is DecodeCapture } else { r == RouteAnswer::Refuse(BridgeRefusal::Unauthorized) },
            BridgeRoute::NotFound => r == RouteAnswer::Refuse(BridgeRefusal::NotFound),
        },
{
    match route_request(request) {
        BridgeRoute::Preflight => RouteAnswer::CorsPreflight,
        BridgeRoute::Health => RouteAnswer::Health { authorized },
        BridgeRoute::Pair => match allowed_extension_origin(request) {
            Some(origin) => RouteAnswer::Pairing { origin },
            None => RouteAnswer::Refuse(BridgeRefusal::Forbidden),
        },
        BridgeRoute::Focus => RouteAnswer::Focus,
        BridgeRoute::Capture => if authorized { RouteAnswer::DecodeCapture } else { RouteAnswer::Refuse(BridgeRefusal::Unauthorized) },
        BridgeRoute::NotFound => RouteAnswer::Refuse(BridgeRefusal::NotFound),
    }
}

/// The answer to an authenticated capture once its body was read: a body that is no
/// payload is invalid JSON, a URL that is not http(s) is refused, anything else is accepted.
pub fn answer_capture(payload: Option<&crate::capture_bridge::CapturePayload>) -> (r: Result<(), BridgeRefusal>)
    ensures
        match payload {
            None => r == Err::<(), BridgeRefusal>(BridgeRefusal::InvalidJson),
            Some(p) => if capture_url_allowed_spec(p.url@) { r is Ok } else { r == Err::<(), BridgeRefusal>(BridgeRefusal::UrlNotHttp) },
        },
{
    match payload {
        None => Err(BridgeRefusal::InvalidJson),
        Some(p) => if capture_url_allowed(p.url.as_str()) { Ok(()) } else { Err(BridgeRefusal::UrlNotHttp) },
    }
}

} // verus!
