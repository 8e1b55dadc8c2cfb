use sanatio::{email, indexes, international_phone_number, max_txt, opt, pass, secure_url};

#[test]
fn pass_hands_values_through() {
    assert_eq!(pass::<i32>(7), Ok(7));
    assert_eq!(pass::<String>("x".to_string()), Ok("x".to_string()));
}

#[test]
fn bounded_text_trims_and_accepts() {
    assert_eq!(max_txt::<5>("  ab  ".to_string()), Ok("ab".to_string()));
}

#[test]
fn bounded_text_rejects_over_long() {
    assert_eq!(
        max_txt::<5>("toolong".to_string()),
        Err("expected at most 5 bytes, got 7 bytes".to_string())
    );
}

#[test]
fn bounded_text_rejects_blank() {
    assert!(max_txt::<5>("   ".to_string()).is_err());
}

#[test]
fn bounded_text_exact_bound_passes() {
    assert_eq!(max_txt::<7>("toolong".to_string()), Ok("toolong".to_string()));
}

#[test]
fn bounded_text_trims_unicode_whitespace() {
    assert_eq!(
        max_txt::<2>("\u{a0}ab\u{3000}".to_string()),
        Ok("ab".to_string())
    );
}

#[test]
fn bounded_text_is_idempotent() {
    let once = max_txt::<10>("  spaced out  ".to_string()).unwrap();
    let twice = max_txt::<10>(once.clone()).unwrap();
    assert_eq!(once, twice);
}

#[test]
fn indexes_sorts_and_dedups() {
    assert_eq!(indexes::<5>(vec![3, 1, 3, 0]), Ok(vec![0, 1, 3]));
}

#[test]
fn indexes_rejects_out_of_range() {
    assert_eq!(indexes::<3>(vec![5]), Err("bad index".to_string()));
    assert_eq!(indexes::<3>(vec![-1]), Err("bad index".to_string()));
}

#[test]
fn indexes_accepts_empty() {
    assert_eq!(indexes::<3>(vec![]), Ok(vec![]));
}

#[test]
fn email_accepts_plain_address() {
    assert_eq!(
        email("someone@example.com".to_string()),
        Ok("someone@example.com".to_string())
    );
}

#[test]
fn email_rejects_garbage() {
    assert!(email("not-an-address".to_string()).is_err());
}

#[test]
fn secure_url_accepts_https() {
    let u = url::Url::parse("https://x").unwrap();
    assert_eq!(secure_url(u.clone()), Ok(u));
}

#[test]
fn secure_url_rejects_http() {
    let u = url::Url::parse("http://x").unwrap();
    assert_eq!(secure_url(u), Err("not https".to_string()));
}

#[test]
fn optional_absent_always_succeeds() {
    let lifted = opt(secure_url);
    assert_eq!(lifted(None), Ok(None));

    fn always_fails(_: i32) -> Result<i32, String> {
        Err("no".to_string())
    }
    let lifted = opt(always_fails);
    assert_eq!(lifted(None), Ok(None));
}

#[test]
fn optional_present_follows_inner_validator() {
    let lifted = opt(secure_url);
    let good = url::Url::parse("https://x").unwrap();
    assert_eq!(lifted(Some(good.clone())), Ok(Some(good)));
    let bad = url::Url::parse("http://x").unwrap();
    assert_eq!(lifted(Some(bad)), Err("not https".to_string()));
}

#[test]
fn phone_number_default_region() {
    assert!(international_phone_number("+33612345678".to_string()).is_ok());
    assert!(international_phone_number("123".to_string()).is_err());
}
