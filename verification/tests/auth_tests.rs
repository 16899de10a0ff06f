use budget_lib::auth::{
    issue_login_code, redeem_login_code, redeem_login_code_with, CodeStore, TokenStore,
    CODE_EXPIRATION_SECONDS, TOKEN_EXPIRATION_SECONDS,
};

const HELLO_SHA256: &str = "2cf24dba5fb0a30e26e83b2ac5b9e29e1b161e5c1fa7425e73043362938b9824";

#[test]
fn a_new_code_replaces_the_old_one_and_is_taken_once() {
    let mut codes = CodeStore::new();
    codes.issue("acct".to_string(), "111111".to_string(), (100, 0));
    codes.issue("other".to_string(), "222222".to_string(), (100, 0));
    codes.issue("acct".to_string(), "333333".to_string(), (200, 5));
    assert_eq!(codes.codes.len(), 2);
    assert_eq!(codes.take("acct"), Some(("333333".to_string(), (200, 5))));
    assert_eq!(codes.take("acct"), None);
    assert_eq!(codes.take("nobody"), None);
    assert_eq!(codes.take("other"), Some(("222222".to_string(), (100, 0))));
}

#[test]
fn codes_expire_after_ten_minutes() {
    assert_eq!(CODE_EXPIRATION_SECONDS, 600);
    let mut codes = CodeStore::new();
    codes.issue("old".to_string(), "1".to_string(), (1_000, 0));
    codes.issue("fresh".to_string(), "2".to_string(), (1_000, 1));
    codes.retain_fresh((1_600, 0));
    assert_eq!(codes.take("old"), None);
    assert_eq!(codes.take("fresh"), Some(("2".to_string(), (1_000, 1))));
}

#[test]
fn issued_codes_are_six_digits_keyed_by_the_email_hash() {
    let mut codes = CodeStore::new();
    let (hash, code) = issue_login_code(&mut codes, "hello");
    assert_eq!(hash, HELLO_SHA256);
    assert_eq!(code.len(), 6);
    let n: u32 = code.parse().unwrap();
    assert!((100_000..1_000_000).contains(&n));
    let (stored, _) = codes.take(HELLO_SHA256).unwrap();
    assert_eq!(stored, code);
}

#[test]
fn a_matching_code_opens_a_session() {
    let mut codes = CodeStore::new();
    let mut tokens = TokenStore::new();
    codes.issue("acct".to_string(), "123456".to_string(), (10, 0));
    let t = redeem_login_code_with(&mut codes, &mut tokens, "acct", "123456", "tok1".to_string(), (20, 0));
    assert_eq!(t, Some("tok1".to_string()));
    assert!(codes.take("acct").is_none());
    assert_eq!(tokens.login_count("acct", "tok1"), Some(1));
    assert_eq!(tokens.sessions[0].last_seen, (20, 0));
}

#[test]
fn a_wrong_code_is_refused_and_used_up() {
    let mut codes = CodeStore::new();
    let mut tokens = TokenStore::new();
    codes.issue("acct".to_string(), "123456".to_string(), (10, 0));
    let t = redeem_login_code_with(&mut codes, &mut tokens, "acct", "654321", "tok1".to_string(), (20, 0));
    assert_eq!(t, None);
    assert!(tokens.sessions.is_empty());
    let again = redeem_login_code_with(&mut codes, &mut tokens, "acct", "123456", "tok1".to_string(), (20, 0));
    assert_eq!(again, None);
}

#[test]
fn redeeming_hands_out_a_64_character_token() {
    let mut codes = CodeStore::new();
    let mut tokens = TokenStore::new();
    codes.issue("acct".to_string(), "123456".to_string(), (10, 0));
    let t = redeem_login_code(&mut codes, &mut tokens, "acct", "123456").unwrap();
    assert_eq!(t.len(), 64);
    assert!(t.chars().all(|c| c.is_ascii_alphanumeric()));
    assert_eq!(tokens.login_count("acct", &t), Some(1));
    assert_eq!(redeem_login_code(&mut codes, &mut tokens, "acct", "123456"), None);
}

#[test]
fn tokens_verify_only_for_their_account() {
    let mut tokens = TokenStore::new();
    tokens.grant("a".to_string(), "t1".to_string(), (1, 0));
    tokens.grant("a".to_string(), "t2".to_string(), (2, 0));
    tokens.grant("b".to_string(), "t3".to_string(), (3, 0));
    assert!(tokens.verify_token("a", "t1", (50, 0)));
    assert!(!tokens.verify_token("a", "t3", (60, 0)));
    assert!(!tokens.verify_token("c", "t1", (60, 0)));
    assert_eq!(tokens.login_count("a", "t2"), Some(2));
    assert_eq!(tokens.login_count("a", "t3"), None);
    let a = tokens.sessions.iter().find(|s| s.email_hash == "a").unwrap();
    assert_eq!(a.last_seen, (50, 0));
}

#[test]
fn granting_the_same_token_twice_keeps_one() {
    let mut tokens = TokenStore::new();
    tokens.grant("a".to_string(), "t1".to_string(), (1, 0));
    tokens.grant("a".to_string(), "t1".to_string(), (2, 0));
    assert_eq!(tokens.login_count("a", "t1"), Some(1));
}

#[test]
fn logout_ends_one_session_or_all() {
    let mut tokens = TokenStore::new();
    tokens.grant("a".to_string(), "t1".to_string(), (1, 0));
    tokens.grant("a".to_string(), "t2".to_string(), (1, 0));
    tokens.grant("a".to_string(), "t3".to_string(), (1, 0));
    assert!(!tokens.logout("a", "nope", false));
    assert!(tokens.logout("a", "t1", false));
    assert!(!tokens.verify_token("a", "t1", (2, 0)));
    assert_eq!(tokens.login_count("a", "t2"), Some(2));
    assert!(tokens.logout("a", "t2", true));
    assert!(!tokens.verify_token("a", "t3", (2, 0)));
    assert!(tokens.sessions.is_empty());
}

#[test]
fn logging_out_the_last_token_drops_the_account() {
    let mut tokens = TokenStore::new();
    tokens.grant("a".to_string(), "t1".to_string(), (1, 0));
    assert!(tokens.logout("a", "t1", false));
    assert!(tokens.sessions.is_empty());
    assert!(!tokens.logout("a", "t1", false));
}

#[test]
fn sessions_expire_a_week_after_last_use() {
    assert_eq!(TOKEN_EXPIRATION_SECONDS, 7 * 24 * 3600);
    let mut tokens = TokenStore::new();
    tokens.grant("stale".to_string(), "t1".to_string(), (0, 0));
    tokens.grant("live".to_string(), "t2".to_string(), (0, 0));
    assert!(tokens.verify_token("live", "t2", (10, 0)));
    tokens.retain_fresh((604_800, 0));
    assert!(!tokens.verify_token("stale", "t1", (604_800, 0)));
    assert!(tokens.verify_token("live", "t2", (604_800, 0)));
    assert_eq!(tokens.sessions.len(), 1);
}
