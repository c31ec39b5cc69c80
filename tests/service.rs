use mailextract::access::{admits, authorize, keep_recent, parse_credentials, ExpectedFormat};
use mailextract::api::{get_macro, list_macros, ApiEmail};
use mailextract::config::{User, Users};
use mailextract::format::{FlexibleFormat, FlexibleFormatInner};
use mailextract::time::{signed_millis, unix_ms};
use mailextract::{flatten_serde_pair, Action, Email, Error, Macro, SerdeElement};

fn user(name: &str, pass: &str) -> User {
    User { username: name.to_string(), password: pass.to_string() }
}

fn t(s: &str) -> SerdeElement {
    SerdeElement::Text(s.to_string())
}

#[test]
fn flatten_takes_first_of_each_side() {
    let nested = SerdeElement::Pair(
        vec![SerdeElement::Pair(vec![t("a"), t("dropped")], vec![t("b")]), t("dropped too")],
        vec![t("c")],
    );
    let mut row = vec![t("before")];
    flatten_serde_pair(nested, &mut row);
    assert_eq!(row, vec![t("before"), t("a"), t("b"), t("c")]);
    let mut leaf = Vec::new();
    flatten_serde_pair(SerdeElement::Url("https://x.test/".to_string()), &mut leaf);
    assert_eq!(leaf, vec![SerdeElement::Url("https://x.test/".to_string())]);
    let mut empty = Vec::new();
    flatten_serde_pair(SerdeElement::Pair(vec![], vec![]), &mut empty);
    assert_eq!(empty, vec![]);
}

#[test]
fn authorize_single_and_many() {
    let single = Users::Single(user("alice", "pw"));
    assert!(authorize(&single, &"alice".to_string(), &"pw".to_string()).is_some());
    assert!(authorize(&single, &"alice".to_string(), &"bad".to_string()).is_none());
    let many = Users::Many(vec![user("bob", "1"), user("carol", "2")]);
    let found = authorize(&many, &"carol".to_string(), &"2".to_string()).unwrap();
    assert_eq!(found.user.username, "carol");
    assert!(authorize(&many, &"carol".to_string(), &"1".to_string()).is_none());
}

#[test]
fn credentials_split_at_first_colon() {
    let chars = |s: &str| s.chars().collect::<Vec<char>>();
    let (u, p) = parse_credentials(&chars("alice:pa:ss")).unwrap();
    assert_eq!(u, chars("alice"));
    assert_eq!(p, chars("pa:ss"));
    let (u, p) = parse_credentials(&chars("bob:")).unwrap();
    assert_eq!(u, chars("bob"));
    assert_eq!(p, chars(""));
    assert!(parse_credentials(&chars("nocolon")).is_none());
}

#[test]
fn expected_format_from_query() {
    let q = |pairs: &[(&str, &str)]| pairs.iter().map(|(k, v)| (k.to_string(), v.to_string())).collect::<Vec<_>>();
    assert_eq!(ExpectedFormat::from_query(&q(&[("format", "csv")])), ExpectedFormat::Csv);
    assert_eq!(ExpectedFormat::from_query(&q(&[("x", "1"), ("format", "json"), ("format", "csv")])), ExpectedFormat::Json);
    assert_eq!(ExpectedFormat::from_query(&q(&[])), ExpectedFormat::Json);
}

#[test]
fn ratelimit_window() {
    assert_eq!(keep_recent(&vec![10, 5000, 20, 999], 1000), vec![0, 2, 3]);
    assert!(admits(2, 3));
    assert!(!admits(3, 3));
}

#[test]
fn macro_listing_and_lookup() {
    let macros = vec![
        Macro { name: "a".to_string(), actions: vec![Action::TextToHtml] },
        Macro { name: "b".to_string(), actions: vec![] },
    ];
    assert_eq!(list_macros(&macros), vec!["a".to_string(), "b".to_string()]);
    assert_eq!(get_macro(&macros, &"a".to_string()).unwrap().actions, vec![Action::TextToHtml]);
    assert_eq!(get_macro(&macros, &"zzz".to_string()).err(), Some(Error::NotFound));
}

#[test]
fn api_email_keeps_fields() {
    let e = Email {
        id: "id1".to_string(),
        html: "p".to_string(),
        user: "u".to_string(),
        registered: 42,
        from_addr: "f".to_string(),
        to_addr: "t".to_string(),
        subject: "s".to_string(),
    };
    let a = ApiEmail::from_email(e);
    assert_eq!((a.id.as_str(), a.from_addr.as_str(), a.to_addr.as_str(), a.subject.as_str(), a.registered), ("id1", "f", "t", "s", 42));
}

#[test]
fn flexible_format_header() {
    let mut f: FlexibleFormat<u8, u32, fn(u8) -> Vec<u32>> = FlexibleFormat::from_vec(vec![1, 2]);
    f.include_header(false);
    let (inner, header) = f.into_parts();
    assert!(!header);
    match inner {
        FlexibleFormatInner::Vec(v) => assert_eq!(v, vec![1, 2]),
        FlexibleFormatInner::Complex(_) => panic!("expected rows"),
    }
    let c: FlexibleFormat<u8, u32, fn(u8) -> Vec<u32>> = FlexibleFormat::from_complex(7, |x| vec![x as u32]);
    let (inner, header) = c.into_parts();
    assert!(header);
    match inner {
        FlexibleFormatInner::Complex(c) => assert_eq!((c.processor)(c.data), vec![7]),
        FlexibleFormatInner::Vec(_) => panic!("expected structured data"),
    }
}

#[test]
fn time_in_millis() {
    assert!(unix_ms() > 1_600_000_000_000);
    assert_eq!(signed_millis(1500, true), 1500);
    assert_eq!(signed_millis(1500, false), -1500);
    assert_eq!(signed_millis(u128::MAX, true), i64::MAX);
}

#[test]
fn error_statuses() {
    assert_eq!(Error::InternalError.status(), 500);
    assert_eq!(Error::Unauthorized.status(), 401);
    assert_eq!(Error::InvalidInput("x".to_string()).status(), 400);
    assert_eq!(Error::NotFound.status(), 404);
    assert_eq!(Error::Ratelimited.status(), 429);
}

fn record(id: &str, user: &str) -> Email {
    Email {
        id: id.to_string(),
        html: format!("{}.html", id),
        user: user.to_string(),
        registered: 1,
        from_addr: "f".to_string(),
        to_addr: "t".to_string(),
        subject: "s".to_string(),
    }
}

#[test]
fn emails_selected_by_owner() {
    let all = vec![record("1", "ann"), record("2", "ben"), record("3", "ann")];
    let mine = mailextract::api::emails_of_user(all.clone(), &"ann".to_string());
    assert_eq!(mine, vec![record("1", "ann"), record("3", "ann")]);
    assert_eq!(mailextract::api::find_email(&all, &"2".to_string(), &"ben".to_string()), Some(&record("2", "ben")));
    assert_eq!(mailextract::api::find_email(&all, &"2".to_string(), &"ann".to_string()), None);
}

#[test]
fn email_lookups_and_errors() {
    let all = vec![record("1", "ann"), record("2", "ben")];
    let got = mailextract::api::get_email(&all, &"1".to_string(), &"ann".to_string()).unwrap();
    assert_eq!((got.id.as_str(), got.registered), ("1", 1));
    assert_eq!(
        mailextract::api::get_email(&all, &"1".to_string(), &"ben".to_string()).err(),
        Some(Error::InternalError)
    );
    assert_eq!(mailextract::api::view_email(&all, &"2".to_string(), &"ben".to_string()), Ok(&record("2", "ben")));
    assert_eq!(
        mailextract::api::view_email(&all, &"2".to_string(), &"ann".to_string()),
        Err(Error::Unauthorized)
    );
    let users = Users::Single(user("ann", "pw"));
    let who = authorize(&users, &"ann".to_string(), &"pw".to_string()).unwrap();
    assert!(mailextract::api::verify_auth(&who).verified);
    assert_eq!(mailextract::error::unauthorized(), Error::Unauthorized);
    assert_eq!(mailextract::error::internal_server_error(), Error::InternalError);
    assert_eq!(mailextract::error::not_found(), Error::NotFound);
    assert_eq!(mailextract::error::too_many_requests(), Error::Ratelimited);
}
