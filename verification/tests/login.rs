use twoblade_client::errors::LoginError;
use twoblade_client::errors::VaultError;
use twoblade_client::errors::VaultField;
use twoblade_client::login::complete_login;
use twoblade_client::login::fingerprint_header_list;
use twoblade_client::login::prepare_login_request;
use twoblade_client::login::remember_outcome;
use twoblade_client::login::HttpReply;

fn header_value<'a>(headers: &'a [(String, String)], name: &str) -> &'a str {
    for (n, v) in headers {
        if n == name {
            return v;
        }
    }
    panic!("header {} not present", name);
}

#[test]
fn request_targets_the_fixed_login_endpoint() {
    let r = prepare_login_request("alice", "hunter2", &None);
    assert_eq!(r.origin.as_str(), "https://twoblade.com");
    assert_eq!(r.url.as_str(), "https://twoblade.com/login");
}

#[test]
fn request_body_is_the_exact_form_encoding() {
    let r = prepare_login_request("alice", "hunter2", &None);
    assert_eq!(r.body.as_str(), "username=alice&password=hunter2");
}

#[test]
fn fingerprint_headers_match_the_represented_browser() {
    let headers = fingerprint_header_list();
    assert_eq!(headers.len(), 21);
    assert_eq!(header_value(&headers, "accept"), "application/json");
    assert_eq!(header_value(&headers, "content-type"), "application/x-www-form-urlencoded");
    assert_eq!(
        header_value(&headers, "sec-ch-ua"),
        "\"Chromium\";v=\"136\", \"Google Chrome\";v=\"136\", \"Not.A/Brand\";v=\"99\""
    );
    assert_eq!(header_value(&headers, "sec-ch-ua-full-version"), "\"136.0.7103.114\"");
    assert_eq!(header_value(&headers, "sec-ch-ua-platform"), "\"Windows\"");
    assert_eq!(header_value(&headers, "sec-fetch-site"), "same-origin");
    assert_eq!(header_value(&headers, "x-sveltekit-action"), "true");
    assert_eq!(header_value(&headers, "referer"), "https://twoblade.com/login");
    assert_eq!(header_value(&headers, "origin"), "https://twoblade.com");
}

#[test]
fn bypass_token_seeds_the_jar_cookie() {
    let r = prepare_login_request("alice", "hunter2", &Some("tok123".to_string()));
    assert_eq!(r.seed_cookie.as_deref(), Some("cf_clearance=tok123"));
    let none = prepare_login_request("alice", "hunter2", &None);
    assert!(none.seed_cookie.is_none());
}

#[test]
fn rejected_login_carries_exact_status_and_body_and_no_cookies() {
    let reply = HttpReply {
        status: 401,
        body: "invalid credentials".to_string(),
        cookie_header: "session=abc123".to_string(),
    };
    match complete_login(reply) {
        Err(LoginError::Rejected { status, body }) => {
            assert_eq!(status, 401);
            assert_eq!(body.as_str(), "invalid credentials");
        },
        other => panic!("expected a rejection, got {:?}", other),
    }
}

#[test]
fn successful_login_yields_the_set_cookie_session() {
    let reply = HttpReply {
        status: 200,
        body: String::new(),
        cookie_header: "session=abc123".to_string(),
    };
    let m = complete_login(reply).unwrap();
    assert_eq!(m.len(), 1);
    assert_eq!(m.get("session").unwrap().as_str(), "abc123");
}

#[test]
fn seeded_bypass_cookie_alone_comes_back_when_nothing_was_set() {
    let reply = HttpReply {
        status: 204,
        body: String::new(),
        cookie_header: "cf_clearance=tok123".to_string(),
    };
    let m = complete_login(reply).unwrap();
    assert_eq!(m.len(), 1);
    assert_eq!(m.get("cf_clearance").unwrap().as_str(), "tok123");
}

#[test]
fn empty_cookie_set_on_success_is_an_empty_mapping_not_an_error() {
    let reply = HttpReply { status: 200, body: String::new(), cookie_header: String::new() };
    let m = complete_login(reply).unwrap();
    assert_eq!(m.len(), 0);
}

#[test]
fn failing_vault_write_after_successful_login_is_an_error() {
    let session = complete_login(HttpReply {
        status: 200,
        body: String::new(),
        cookie_header: "session=abc123".to_string(),
    })
    .unwrap();
    let write_failure = VaultError::WriteFailed(
        VaultField::Password,
        "Failed to save password: store closed".to_string(),
    );
    let r = remember_outcome(session, Err(write_failure.clone()), true);
    assert_eq!(r.unwrap_err(), write_failure);
}

#[test]
fn login_still_succeeds_after_a_failed_remember() {
    let write_failure =
        VaultError::WriteFailed(VaultField::Username, "store closed".to_string());
    let first = complete_login(HttpReply {
        status: 200,
        body: String::new(),
        cookie_header: "session=abc123".to_string(),
    })
    .unwrap();
    assert!(remember_outcome(first, Err(write_failure), true).is_err());
    let again = complete_login(HttpReply {
        status: 200,
        body: String::new(),
        cookie_header: "session=def456".to_string(),
    })
    .unwrap();
    assert_eq!(again.get("session").unwrap().as_str(), "def456");
}

#[test]
fn remember_off_passes_the_session_through() {
    let session = complete_login(HttpReply {
        status: 200,
        body: String::new(),
        cookie_header: "session=abc123".to_string(),
    })
    .unwrap();
    let failure = VaultError::WriteFailed(VaultField::Username, "store closed".to_string());
    let r = remember_outcome(session, Err(failure), false);
    assert_eq!(r.unwrap().get("session").unwrap().as_str(), "abc123");
}
