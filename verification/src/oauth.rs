//! Parsing of the local OAuth callback request and the HTML page shown in
//! the browser afterwards. The HTTP listener that receives the request and
//! writes the response back lives outside the library; what it hands in and
//! what it gets back is fully specified here.

use vstd::prelude::*;
use crate::numfmt::dec_nat;

verus! {

use vstd::string::StrSliceExecFns;
use vstd::string::StringExecFns;
use vstd::utf8::encode_utf8;

/// The callback parameters carried by the OAuth redirect.
#[derive(Debug, Clone)]
pub struct OAuthCallback {
    pub provider: Option<String>,
    pub access_token: Option<String>,
    pub refresh_token: Option<String>,
    pub member_id: Option<String>,
    pub nickname: Option<String>,
    pub email: Option<String>,
    pub error: Option<String>,
}

#[verifier::ext_equal]
pub struct OAuthCallbackView {
    pub provider: Option<Seq<char>>,
    pub access_token: Option<Seq<char>>,
    pub refresh_token: Option<Seq<char>>,
    pub member_id: Option<Seq<char>>,
    pub nickname: Option<Seq<char>>,
    pub email: Option<Seq<char>>,
    pub error: Option<Seq<char>>,
}

impl View for OAuthCallback {
    type V = OAuthCallbackView;

    open spec fn view(&self) -> OAuthCallbackView {
        OAuthCallbackView {
            provider: match self.provider {
                Some(s) => Some(s@),
                None => None,
            },
            access_token: match self.access_token {
                Some(s) => Some(s@),
                None => None,
            },
            refresh_token: match self.refresh_token {
                Some(s) => Some(s@),
                None => None,
            },
            member_id: match self.member_id {
                Some(s) => Some(s@),
                None => None,
            },
            nickname: match self.nickname {
                Some(s) => Some(s@),
                None => None,
            },
            email: match self.email {
                Some(s) => Some(s@),
                None => None,
            },
            error: match self.error {
                Some(s) => Some(s@),
                None => None,
            },
        }
    }
}

pub open spec fn empty_callback() -> OAuthCallbackView {
    OAuthCallbackView {
        provider: None,
        access_token: None,
        refresh_token: None,
        member_id: None,
        nickname: None,
        email: None,
        error: None,
    }
}

// ---------------------------------------------------------------------------
// Trusted decoding
// ---------------------------------------------------------------------------
/// What `urlencoding::decode` returns on a given character sequence (with an
/// input that does not decode to UTF-8 collapsing to the empty string).
pub uninterp spec fn url_decode_of(s: Seq<char>) -> Seq<char>;

/// Relies on `urlencoding::decode`: percent-decoding is a function of the
/// input characters alone, and an input without a percent sign comes back
/// unchanged.
#[verifier::external_body]
fn decode_component(s: &str) -> (r: String)
    ensures
        r@ == url_decode_of(s@),
        !s@.contains('%') ==> r@ == s@,
{
    match urlencoding::decode(s) {
        Ok(c) => c.into_owned(),
        Err(_) => String::new(),
    }
}

// ---------------------------------------------------------------------------
// Request-line scanning
// ---------------------------------------------------------------------------
/// ASCII whitespace, as it separates the tokens of an HTTP request line.
pub open spec fn is_sp(c: char) -> bool {
    c == ' ' || c == '\t' || c == '\n' || c == '\r' || c == '\u{000B}' || c == '\u{000C}'
}

/// Index of the first occurrence of `c` at or after `from`, or the length.
pub open spec fn find_char_from(s: Seq<char>, c: char, from: int) -> int
    decreases s.len() - from
        when from <= s.len()
{
    if from < 0 || from >= s.len() {
        s.len() as int
    } else if s[from] == c {
        from
    } else {
        find_char_from(s, c, from + 1)
    }
}

pub proof fn lemma_find_char_bounds(s: Seq<char>, c: char, from: int)
    requires
        0 <= from <= s.len(),
    ensures
        from <= find_char_from(s, c, from) <= s.len(),
        find_char_from(s, c, from) < s.len() ==> s[find_char_from(s, c, from)] == c,
        forall|i: int| from <= i < find_char_from(s, c, from) ==> s[i] != c,
    decreases s.len() - from,
{
    if from < s.len() && s[from] != c {
        lemma_find_char_bounds(s, c, from + 1);
    }
}

/// Index of the first non-whitespace character at or after `from`, or the
/// length.
pub open spec fn skip_spaces(s: Seq<char>, from: int) -> int
    decreases s.len() - from
        when from <= s.len()
{
    if from < 0 || from >= s.len() {
        s.len() as int
    } else if is_sp(s[from]) {
        skip_spaces(s, from + 1)
    } else {
        from
    }
}

pub proof fn lemma_skip_spaces_bounds(s: Seq<char>, from: int)
    requires
        0 <= from <= s.len(),
    ensures
        from <= skip_spaces(s, from) <= s.len(),
        skip_spaces(s, from) < s.len() ==> !is_sp(s[skip_spaces(s, from)]),
    decreases s.len() - from,
{
    if from < s.len() && is_sp(s[from]) {
        lemma_skip_spaces_bounds(s, from + 1);
    }
}

/// Index just past the token starting at `from`: the first whitespace
/// character at or after `from`, or the length.
pub open spec fn token_end(s: Seq<char>, from: int) -> int
    decreases s.len() - from
        when from <= s.len()
{
    if from < 0 || from >= s.len() {
        s.len() as int
    } else if !is_sp(s[from]) {
        token_end(s, from + 1)
    } else {
        from
    }
}

pub proof fn lemma_token_end_bounds(s: Seq<char>, from: int)
    requires
        0 <= from <= s.len(),
    ensures
        from <= token_end(s, from) <= s.len(),
    decreases s.len() - from,
{
    if from < s.len() && !is_sp(s[from]) {
        lemma_token_end_bounds(s, from + 1);
    }
}

/// The first line of the request: everything before the first newline, with
/// one trailing carriage return removed.
pub open spec fn first_line_of(s: Seq<char>) -> Seq<char> {
    let line = s.subrange(0, find_char_from(s, '\n', 0));
    if line.len() > 0 && line[line.len() - 1] == '\r' {
        line.drop_last()
    } else {
        line
    }
}

/// The second whitespace-separated token of the line — for a request line,
/// the path.
pub open spec fn second_token(line: Seq<char>) -> Option<Seq<char>> {
    let a0 = skip_spaces(line, 0);
    let e0 = token_end(line, a0);
    let a1 = skip_spaces(line, e0);
    let e1 = token_end(line, a1);
    if a1 < line.len() {
        Some(line.subrange(a1, e1))
    } else {
        None
    }
}

pub open spec fn callback_path_prefix() -> Seq<char> {
    seq!['/', 'c', 'a', 'l', 'l', 'b', 'a', 'c', 'k']
}

pub open spec fn path_is_callback(path: Seq<char>) -> bool {
    path.len() >= 9 && path.subrange(0, 9) == callback_path_prefix()
}

/// The query of the path: what stands between the first question mark and
/// the second one (or the end); empty when there is no question mark.
pub open spec fn query_of(path: Seq<char>) -> Seq<char> {
    let q1 = find_char_from(path, '?', 0);
    if q1 == path.len() {
        Seq::<char>::empty()
    } else {
        path.subrange(q1 + 1, find_char_from(path, '?', q1 + 1))
    }
}

// ---------------------------------------------------------------------------
// Parameter folding
// ---------------------------------------------------------------------------
/// Apply one `key=value` segment to the callback: a known key replaces its
/// field with the decoded value (or clears it when the segment has no `=`);
/// an unknown key changes nothing.
pub open spec fn apply_param(cb: OAuthCallbackView, p: Seq<char>) -> OAuthCallbackView {
    let eq = find_char_from(p, '=', 0);
    let key = p.subrange(0, eq);
    let value = if eq == p.len() {
        None
    } else {
        Some(url_decode_of(p.subrange(eq + 1, p.len() as int)))
    };
    if key == ("provider")@ {
        OAuthCallbackView { provider: value, ..cb }
    } else if key == ("accessToken")@ {
        OAuthCallbackView { access_token: value, ..cb }
    } else if key == ("refreshToken")@ {
        OAuthCallbackView { refresh_token: value, ..cb }
    } else if key == ("memberId")@ {
        OAuthCallbackView { member_id: value, ..cb }
    } else if key == ("nickname")@ {
        OAuthCallbackView { nickname: value, ..cb }
    } else if key == ("email")@ {
        OAuthCallbackView { email: value, ..cb }
    } else if key == ("error")@ {
        OAuthCallbackView { error: value, ..cb }
    } else {
        cb
    }
}

#[via_fn]
proof fn apply_params_decreases(cb: OAuthCallbackView, q: Seq<char>, from: int) {
    lemma_find_char_bounds(q, '&', from);
}

/// Fold every `&`-separated segment of the query into the callback, left to
/// right.
pub open spec fn apply_params(cb: OAuthCallbackView, q: Seq<char>, from: int) -> OAuthCallbackView
    decreases q.len() - from
        when 0 <= from <= q.len()
        via apply_params_decreases
{
    let e = find_char_from(q, '&', from);
    let cb2 = apply_param(cb, q.subrange(from, e));
    if e >= q.len() {
        cb2
    } else {
        apply_params(cb2, q, e + 1)
    }
}

/// What parsing an HTTP request into an OAuth callback yields: the second
/// token of the first line must be a `/callback` path, its query parameters
/// are folded into the callback, and the result only counts when it carries
/// an access token or an error.
pub open spec fn parse_oauth_callback_spec(req: Seq<char>) -> Option<OAuthCallbackView> {
    if req.len() == 0 {
        None
    } else {
        match second_token(first_line_of(req)) {
            None => None,
            Some(path) => {
                if !path_is_callback(path) {
                    None
                } else {
                    let cb = apply_params(empty_callback(), query_of(path), 0);
                    if cb.error is Some || cb.access_token is Some {
                        Some(cb)
                    } else {
                        None
                    }
                }
            },
        }
    }
}

// ---------------------------------------------------------------------------
// Executable scanning helpers
// ---------------------------------------------------------------------------
fn is_space_char(c: char) -> (r: bool)
    ensures
        r == is_sp(c),
{
    c == ' ' || c == '\t' || c == '\n' || c == '\r' || c == '\u{000B}' || c == '\u{000C}'
}

fn find_char(s: &str, c: char, from: usize) -> (r: usize)
    requires
        from <= s@.len(),
    ensures
        r == find_char_from(s@, c, from as int),
{
    let n = s.unicode_len();
    let mut i = from;
    while i < n
        invariant
            n == s@.len(),
            from <= i <= n,
            find_char_from(s@, c, from as int) == find_char_from(s@, c, i as int),
        decreases n - i,
    {
        if s.get_char(i) == c {
            return i;
        }
        i += 1;
    }
    n
}

fn skip_spaces_exec(s: &str, from: usize) -> (r: usize)
    requires
        from <= s@.len(),
    ensures
        r == skip_spaces(s@, from as int),
{
    let n = s.unicode_len();
    let mut i = from;
    while i < n
        invariant
            n == s@.len(),
            from <= i <= n,
            skip_spaces(s@, from as int) == skip_spaces(s@, i as int),
        decreases n - i,
    {
        if !is_space_char(s.get_char(i)) {
            return i;
        }
        i += 1;
    }
    n
}

fn token_end_exec(s: &str, from: usize) -> (r: usize)
    requires
        from <= s@.len(),
    ensures
        r == token_end(s@, from as int),
{
    let n = s.unicode_len();
    let mut i = from;
    while i < n
        invariant
            n == s@.len(),
            from <= i <= n,
            token_end(s@, from as int) == token_end(s@, i as int),
        decreases n - i,
    {
        if is_space_char(s.get_char(i)) {
            return i;
        }
        i += 1;
    }
    n
}

fn path_starts_with_callback(path: &str) -> (r: bool)
    ensures
        r == path_is_callback(path@),
{
    if path.unicode_len() < 9 {
        return false;
    }
    let m = path.get_char(0) == '/' && path.get_char(1) == 'c' && path.get_char(2) == 'a'
        && path.get_char(3) == 'l' && path.get_char(4) == 'l' && path.get_char(5) == 'b'
        && path.get_char(6) == 'a' && path.get_char(7) == 'c' && path.get_char(8) == 'k';
    proof {
        if m {
            assert(path@.subrange(0, 9) =~= callback_path_prefix());
        } else {
            assert(path@.subrange(0, 9) != callback_path_prefix()) by {
                if path@.subrange(0, 9) == callback_path_prefix() {
                    assert forall|i: int| 0 <= i < 9 implies path@[i] == callback_path_prefix()[i]
                    by {
                        assert(path@.subrange(0, 9)[i] == path@[i]);
                    }
                }
            }
        }
    }
    m
}

// ---------------------------------------------------------------------------
// Parsing
// ---------------------------------------------------------------------------
/// Parse an HTTP request into the OAuth callback it carries, if any: the
/// request path must be `/callback`, its query parameters fill the callback,
/// and a callback without an access token or an error is not one.
pub fn parse_oauth_callback(request: &str) -> (r: Option<OAuthCallback>)
    ensures
        match r {
            Some(cb) => parse_oauth_callback_spec(request@) == Some(cb@),
            None => parse_oauth_callback_spec(request@) is None,
        },
{
    let n = request.unicode_len();
    if n == 0 {
        return None;
    }
    let nl = find_char(request, '\n', 0);
    proof {
        lemma_find_char_bounds(request@, '\n', 0);
    }
    let line_end = if nl > 0 && request.get_char(nl - 1) == '\r' {
        nl - 1
    } else {
        nl
    };
    let line = request.substring_char(0, line_end);
    proof {
        if nl > 0 && request@[nl - 1] == '\r' {
            assert(request@.subrange(0, nl as int).drop_last() =~= request@.subrange(
                0,
                nl - 1 as int,
            ));
        }
        assert(line@ == first_line_of(request@));
    }
    let ln = line.unicode_len();
    proof {
        lemma_skip_spaces_bounds(line@, 0);
    }
    let a0 = skip_spaces_exec(line, 0);
    proof {
        lemma_token_end_bounds(line@, a0 as int);
    }
    let e0 = token_end_exec(line, a0);
    proof {
        lemma_skip_spaces_bounds(line@, e0 as int);
    }
    let a1 = skip_spaces_exec(line, e0);
    proof {
        lemma_token_end_bounds(line@, a1 as int);
    }
    let e1 = token_end_exec(line, a1);
    if a1 >= ln {
        return None;
    }
    let path = line.substring_char(a1, e1);
    proof {
        assert(second_token(line@) == Some(path@));
    }
    if !path_starts_with_callback(path) {
        return None;
    }
    let pn = path.unicode_len();
    let q1 = find_char(path, '?', 0);
    proof {
        lemma_find_char_bounds(path@, '?', 0);
    }
    let query = if q1 >= pn {
        path.substring_char(pn, pn)
    } else {
        proof {
            lemma_find_char_bounds(path@, '?', q1 + 1 as int);
        }
        let q2 = find_char(path, '?', q1 + 1);
        path.substring_char(q1 + 1, q2)
    };
    proof {
        assert(query@ =~= query_of(path@));
    }
    let mut cb = OAuthCallback {
        provider: None,
        access_token: None,
        refresh_token: None,
        member_id: None,
        nickname: None,
        email: None,
        error: None,
    };
    proof {
        assert(cb@ =~= empty_callback());
    }
    let qn = query.unicode_len();
    let mut from: usize = 0;
    loop
        invariant
            qn == query@.len(),
            0 <= from <= qn,
            apply_params(empty_callback(), query@, 0) == apply_params(cb@, query@, from as int),
        ensures
            apply_params(empty_callback(), query@, 0) == cb@,
        decreases qn - from,
    {
        let e = find_char(query, '&', from);
        proof {
            lemma_find_char_bounds(query@, '&', from as int);
        }
        let seg = query.substring_char(from, e);
        let seg_len = seg.unicode_len();
        let eqp = find_char(seg, '=', 0);
        proof {
            lemma_find_char_bounds(seg@, '=', 0);
        }
        let key = seg.substring_char(0, eqp);
        let value: Option<String> = if eqp >= seg_len {
            None
        } else {
            Some(decode_component(seg.substring_char(eqp + 1, seg_len)))
        };
        let ghost cb_pre = cb@;
        if crate::strutil::str_eq(key, "provider") {
            cb.provider = value;
        } else if crate::strutil::str_eq(key, "accessToken") {
            cb.access_token = value;
        } else if crate::strutil::str_eq(key, "refreshToken") {
            cb.refresh_token = value;
        } else if crate::strutil::str_eq(key, "memberId") {
            cb.member_id = value;
        } else if crate::strutil::str_eq(key, "nickname") {
            cb.nickname = value;
        } else if crate::strutil::str_eq(key, "email") {
            cb.email = value;
        } else if crate::strutil::str_eq(key, "error") {
            cb.error = value;
        }
        proof {
            assert(cb@ =~= apply_param(cb_pre, seg@));
        }
        if e >= qn {
            break;
        }
        from = e + 1;
    }
    if cb.error.is_some() || cb.access_token.is_some() {
        Some(cb)
    } else {
        None
    }
}

// ---------------------------------------------------------------------------
// The response page
// ---------------------------------------------------------------------------
pub open spec fn html_before_title() -> Seq<char> {
    ("<!DOCTYPE html>\n<html>\n<head>\n    <meta charset=\"UTF-8\">\n    <title>")@
}

pub open spec fn html_title_to_color() -> Seq<char> {
    ("</title>\n    <style>\n        * { margin: 0; padding: 0; box-sizing: border-box; }\n        body {\n            font-family: -apple-system, BlinkMacSystemFont, 'Segoe UI', Roboto, sans-serif;\n            display: flex;\n            align-items: center;\n            justify-content: center;\n            min-height: 100vh;\n            background: linear-gradient(135deg, #667eea 0%, #764ba2 100%);\n        }\n        .card {\n            background: white;\n            padding: 3rem;\n            border-radius: 1rem;\n            box-shadow: 0 25px 50px -12px rgba(0, 0, 0, 0.25);\n            text-align: center;\n            max-width: 400px;\n        }\n        .icon {\n            width: 80px;\n            height: 80px;\n            border-radius: 50%;\n            background: ")@
}

pub open spec fn html_color_to_title() -> Seq<char> {
    (";\n            display: flex;\n            align-items: center;\n            justify-content: center;\n            margin: 0 auto 1.5rem;\n        }\n        .icon svg {\n            width: 40px;\n            height: 40px;\n            color: white;\n        }\n        h1 {\n            color: #1f2937;\n            margin-bottom: 0.5rem;\n            font-size: 1.5rem;\n        }\n        p {\n            color: #6b7280;\n            line-height: 1.6;\n        }\n    </style>\n</head>\n<body>\n    <div class=\"card\">\n        <div class=\"icon\">\n            <svg fill=\"none\" stroke=\"currentColor\" viewBox=\"0 0 24 24\">\n                <path stroke-linecap=\"round\" stroke-linejoin=\"round\" stroke-width=\"2\" d=\"M5 13l4 4L19 7\"></path>\n            </svg>\n        </div>\n        <h1>")@
}

pub open spec fn html_title_to_message() -> Seq<char> {
    ("</h1>\n        <p>")@
}

pub open spec fn html_after_message() -> Seq<char> {
    ("</p>\n    </div>\n    <script>\n        setTimeout(() => window.close(), 3000);\n    </script>\n</body>\n</html>")@
}

/// The page shown in the browser: a success or failure card, with the title,
/// the accent color and the message chosen by whether the callback carries an
/// error.
pub open spec fn html_of(cb: OAuthCallbackView) -> Seq<char> {
    let failed = cb.error is Some;
    let title = if failed {
        ("로그인 실패")@
    } else {
        ("로그인 성공")@
    };
    let message = if failed {
        ("로그인에 실패했습니다. 앱으로 돌아가 다시 시도해주세요.")@
    } else {
        ("로그인이 완료되었습니다. 이 탭을 닫고 앱으로 돌아가세요.")@
    };
    let color = if failed {
        ("#ef4444")@
    } else {
        ("#22c55e")@
    };
    html_before_title() + title + html_title_to_color() + color + html_color_to_title() + title
        + html_title_to_message() + message + html_after_message()
}

/// The whole HTTP response: a success header whose content length is the
/// byte length of the page (as the machine measures it), then the page.
pub open spec fn http_response_of(cb: OAuthCallbackView) -> Seq<char> {
    ("HTTP/1.1 200 OK\r\nContent-Type: text/html; charset=utf-8\r\nContent-Length: ")@ + dec_nat(
        (encode_utf8(html_of(cb)).len() as usize) as nat,
    ) + ("\r\nConnection: close\r\n\r\n")@ + html_of(cb)
}

/// Build the HTTP response shown in the browser after the callback.
pub fn create_html_response(callback: &OAuthCallback) -> (r: String)
    ensures
        r@ == http_response_of(callback@),
{
    let failed = callback.error.is_some();
    let title = if failed {
        "로그인 실패"
    } else {
        "로그인 성공"
    };
    let message = if failed {
        "로그인에 실패했습니다. 앱으로 돌아가 다시 시도해주세요."
    } else {
        "로그인이 완료되었습니다. 이 탭을 닫고 앱으로 돌아가세요."
    };
    let color = if failed {
        "#ef4444"
    } else {
        "#22c55e"
    };
    let mut html = String::from_str("<!DOCTYPE html>\n<html>\n<head>\n    <meta charset=\"UTF-8\">\n    <title>");
    html.append(title);
    html.append("</title>\n    <style>\n        * { margin: 0; padding: 0; box-sizing: border-box; }\n        body {\n            font-family: -apple-system, BlinkMacSystemFont, 'Segoe UI', Roboto, sans-serif;\n            display: flex;\n            align-items: center;\n            justify-content: center;\n            min-height: 100vh;\n            background: linear-gradient(135deg, #667eea 0%, #764ba2 100%);\n        }\n        .card {\n            background: white;\n            padding: 3rem;\n            border-radius: 1rem;\n            box-shadow: 0 25px 50px -12px rgba(0, 0, 0, 0.25);\n            text-align: center;\n            max-width: 400px;\n        }\n        .icon {\n            width: 80px;\n            height: 80px;\n            border-radius: 50%;\n            background: ");
    html.append(color);
    html.append(";\n            display: flex;\n            align-items: center;\n            justify-content: center;\n            margin: 0 auto 1.5rem;\n        }\n        .icon svg {\n            width: 40px;\n            height: 40px;\n            color: white;\n        }\n        h1 {\n            color: #1f2937;\n            margin-bottom: 0.5rem;\n            font-size: 1.5rem;\n        }\n        p {\n            color: #6b7280;\n            line-height: 1.6;\n        }\n    </style>\n</head>\n<body>\n    <div class=\"card\">\n        <div class=\"icon\">\n            <svg fill=\"none\" stroke=\"currentColor\" viewBox=\"0 0 24 24\">\n                <path stroke-linecap=\"round\" stroke-linejoin=\"round\" stroke-width=\"2\" d=\"M5 13l4 4L19 7\"></path>\n            </svg>\n        </div>\n        <h1>");
    html.append(title);
    html.append("</h1>\n        <p>");
    html.append(message);
    html.append("</p>\n    </div>\n    <script>\n        setTimeout(() => window.close(), 3000);\n    </script>\n</body>\n</html>");
    proof {
        assert(html@ =~= html_of(callback@));
    }
    let byte_len = html.as_str().len();
    let len_str = crate::numfmt::u64_to_string(byte_len as u64);
    let mut out = String::from_str("HTTP/1.1 200 OK\r\nContent-Type: text/html; charset=utf-8\r\nContent-Length: ");
    out.append(len_str.as_str());
    out.append("\r\nConnection: close\r\n\r\n");
    out.append(html.as_str());
    proof {
        assert(out@ =~= http_response_of(callback@));
    }
    out
}

} // verus!
