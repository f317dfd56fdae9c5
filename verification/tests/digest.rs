use broquest::digest::{digest_next_step, DigestStep};

const CHALLENGE: &str = r#"Digest realm="http-auth@example.org", qop="auth, auth-int", algorithm=MD5, nonce="7ypf/xlj9XXwfDPEoM4URrv/xwf94BcCAzFZH4GiTo0v", opaque="FQhe/qaU925kfnzjCev0ciny7QMkPqMAFRtzCUYo5tdS""#;

#[test]
fn digest_challenge_is_answered_for_the_path() {
    match digest_next_step(401, Some(CHALLENGE), "http://example.org/dir/index.html", "Mufasa", "Circle of Life") {
        DigestStep::Retry { authorization } => {
            assert!(authorization.starts_with("Digest username=\"Mufasa\""));
            assert!(authorization.contains("uri=\"/dir/index.html\""));
            assert!(authorization.contains("realm=\"http-auth@example.org\""));
        }
        other => panic!("expected a retry, got {:?}", other),
    }
}

#[test]
fn digest_without_challenge_is_done() {
    assert_eq!(digest_next_step(200, Some(CHALLENGE), "http://e.com/", "u", "p"), DigestStep::Done);
    assert_eq!(digest_next_step(401, None, "http://e.com/", "u", "p"), DigestStep::Done);
    assert_eq!(digest_next_step(401, Some("Basic realm=\"x\""), "http://e.com/", "u", "p"), DigestStep::Done);
}

#[test]
fn digest_bad_challenge_fails() {
    match digest_next_step(401, Some("Digest nonce=\"abc\""), "http://e.com/", "u", "p") {
        DigestStep::Failed(e) => {
            assert_eq!(e.summary, "Failed to parse Digest challenge");
            assert!(e.details.starts_with("Failed to parse WWW-Authenticate header: "));
        }
        other => panic!("expected a failure, got {:?}", other),
    }
}

#[test]
fn digest_non_ascii_challenge_fails_to_parse() {
    match digest_next_step(401, Some("Digest aé=b, realm=\"x\", nonce=\"y\""), "http://e.com/", "u", "p") {
        DigestStep::Failed(e) => {
            assert_eq!(e.summary, "Failed to parse Digest challenge");
            assert!(e.details.starts_with("Failed to parse WWW-Authenticate header: "));
        }
        other => panic!("expected a failure, got {:?}", other),
    }
}

#[test]
fn digest_answer_quotes_user_and_uri() {
    match digest_next_step(401, Some(CHALLENGE), "https://example.org/a\"b?x=1", "Mu\"fa\\sa", "pw") {
        DigestStep::Retry { authorization } => {
            assert!(authorization.starts_with("Digest "));
            assert!(authorization.contains("username=\"Mu\\\"fa\\\\sa\""));
            assert!(authorization.contains("uri=\"/a\\\"b?x=1\""));
            assert!(!authorization.contains("pw"));
        }
        other => panic!("expected a retry, got {:?}", other),
    }
}

#[test]
fn digest_non_ascii_after_the_last_name_is_answered() {
    match digest_next_step(401, Some("Digest nonce=\"abc\", realm=\"café\""), "http://e.com/x", "u", "p") {
        DigestStep::Retry { authorization } => {
            assert!(authorization.contains("realm=\"café\""));
            assert!(authorization.contains("nonce=\"abc\""));
            assert!(authorization.contains("uri=\"/x\""));
            assert!(authorization.contains("response=\""));
        }
        other => panic!("expected a retry, got {:?}", other),
    }
}

#[test]
fn digest_answer_is_computed_from_the_password() {
    let step = digest_next_step(401, Some(CHALLENGE), "http://example.org/dir/index.html", "Mufasa", "Circle of Life");
    let authorization = match step {
        DigestStep::Retry { authorization } => authorization,
        other => panic!("expected a retry, got {:?}", other),
    };
    let start = authorization.find("cnonce=\"").unwrap() + 8;
    let end = start + authorization[start..].find('"').unwrap();
    let cnonce = authorization[start..end].to_string();
    let mut challenge = digest_auth::parse(CHALLENGE).unwrap();
    let mut context = digest_auth::AuthContext::new("Mufasa", "Circle of Life", "/dir/index.html");
    context.cnonce = Some(cnonce.clone().into());
    let expected = challenge.respond(&context).unwrap().to_string();
    assert_eq!(authorization, expected);
    let mut challenge = digest_auth::parse(CHALLENGE).unwrap();
    let mut wrong = digest_auth::AuthContext::new("Mufasa", "Mufasa", "/dir/index.html");
    wrong.cnonce = Some(cnonce.into());
    assert_ne!(authorization, challenge.respond(&wrong).unwrap().to_string());
}
