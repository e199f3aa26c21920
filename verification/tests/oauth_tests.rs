use deskcal::oauth::{OAuthCallback, create_html_response, parse_oauth_callback};

#[test]
fn parse_accepts_a_full_callback_and_percent_decodes() {
    let request = "GET /callback?provider=google&accessToken=abc%20def&refreshToken=r1&memberId=m7&nickname=%EB%84%A4%EC%98%A4&email=neo%40example.com HTTP/1.1\r\nHost: 127.0.0.1\r\n\r\n";
    let cb = parse_oauth_callback(request).unwrap();
    assert_eq!(cb.provider, Some("google".to_string()));
    assert_eq!(cb.access_token, Some("abc def".to_string()));
    assert_eq!(cb.refresh_token, Some("r1".to_string()));
    assert_eq!(cb.member_id, Some("m7".to_string()));
    assert_eq!(cb.nickname, Some("네오".to_string()));
    assert_eq!(cb.email, Some("neo@example.com".to_string()));
    assert_eq!(cb.error, None);
}

#[test]
fn parse_accepts_an_error_callback() {
    let request = "GET /callback?error=access_denied HTTP/1.1\r\n\r\n";
    let cb = parse_oauth_callback(request).unwrap();
    assert_eq!(cb.error, Some("access_denied".to_string()));
    assert_eq!(cb.access_token, None);
}

#[test]
fn parse_rejects_other_paths_and_empty_requests() {
    assert!(parse_oauth_callback("").is_none());
    assert!(parse_oauth_callback("GET /favicon.ico HTTP/1.1\r\n\r\n").is_none());
    assert!(parse_oauth_callback("GET\r\n").is_none());
}

#[test]
fn parse_needs_a_token_or_an_error() {
    let request = "GET /callback?provider=google HTTP/1.1\r\n\r\n";
    assert!(parse_oauth_callback(request).is_none());
}

#[test]
fn parse_ignores_unknown_keys_and_later_values_win() {
    let request = "GET /callback?other=x&accessToken=one&accessToken=two HTTP/1.1\r\n\r\n";
    let cb = parse_oauth_callback(request).unwrap();
    assert_eq!(cb.access_token, Some("two".to_string()));
}

#[test]
fn parse_treats_a_key_without_value_as_clearing() {
    let request = "GET /callback?accessToken=tok&provider HTTP/1.1\r\n\r\n";
    let cb = parse_oauth_callback(request).unwrap();
    assert_eq!(cb.access_token, Some("tok".to_string()));
    assert_eq!(cb.provider, None);
}

fn callback(error: Option<&str>, token: Option<&str>) -> OAuthCallback {
    OAuthCallback {
        provider: None,
        access_token: token.map(|s| s.to_string()),
        refresh_token: None,
        member_id: None,
        nickname: None,
        email: None,
        error: error.map(|s| s.to_string()),
    }
}

#[test]
fn html_response_reports_success() {
    let response = create_html_response(&callback(None, Some("tok")));
    assert!(response.starts_with("HTTP/1.1 200 OK\r\nContent-Type: text/html; charset=utf-8\r\nContent-Length: "));
    assert!(response.contains("로그인 성공"));
    assert!(response.contains("로그인이 완료되었습니다. 이 탭을 닫고 앱으로 돌아가세요."));
    assert!(response.contains("#22c55e"));
    assert!(!response.contains("로그인 실패"));
}

#[test]
fn html_response_reports_failure() {
    let response = create_html_response(&callback(Some("denied"), None));
    assert!(response.contains("로그인 실패"));
    assert!(response.contains("로그인에 실패했습니다. 앱으로 돌아가 다시 시도해주세요."));
    assert!(response.contains("#ef4444"));
}

#[test]
fn html_response_content_length_matches_the_body() {
    let response = create_html_response(&callback(None, Some("tok")));
    let header_end = response.find("\r\n\r\n").unwrap();
    let body = &response[header_end + 4..];
    let marker = "Content-Length: ";
    let start = response.find(marker).unwrap() + marker.len();
    let end = response[start..].find('\r').unwrap() + start;
    let declared: usize = response[start..end].parse().unwrap();
    assert_eq!(declared, body.len());
}
