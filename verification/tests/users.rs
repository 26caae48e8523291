use chrono::{NaiveDate, NaiveDateTime};
use spirean::forms::user::{Group, User};
use spirean::models::user::{SqlGroup, SqlPermissionTokens, SqlUser};

fn moment(y: i32, m: u32, d: u32) -> NaiveDateTime {
    NaiveDate::from_ymd_opt(y, m, d).unwrap().and_hms_milli_opt(8, 0, 0, 0).unwrap()
}

fn row(email_id: Option<i32>, password: Option<Vec<u8>>) -> SqlUser {
    SqlUser {
        id: 7,
        email_id,
        anonymous: false,
        username: "ann".to_string(),
        display: "Ann".to_string(),
        password,
        first_name: "Ann".to_string(),
        last_name: "Lee".to_string(),
        lastactive: moment(2021, 1, 2),
        regdate: moment(2020, 5, 6),
        timezone: "CET".to_string(),
        loginattempts: 3,
        loginlasttry: moment(2020, 7, 8),
    }
}

fn strings(v: &[&str]) -> Vec<String> {
    v.iter().map(|s| s.to_string()).collect()
}

fn sorted(mut v: Vec<String>) -> Vec<String> {
    v.sort();
    v
}

#[test]
fn default_user_is_the_guest() {
    let u = User::default();
    let guest = NaiveDate::from_ymd_opt(2015, 6, 3).unwrap().and_hms_milli_opt(12, 34, 56, 789).unwrap();
    assert_eq!(u.id, 1);
    assert_eq!(u.email_id, 0);
    assert!(u.anonymous);
    assert_eq!(u.username, "Guest");
    assert_eq!(u.display, "Guest");
    assert_eq!(u.password, None);
    assert_eq!(u.first_name, "Guest");
    assert_eq!(u.last_name, "None");
    assert_eq!(u.lastactive, guest);
    assert_eq!(u.regdate, guest);
    assert_eq!(u.loginlasttry, guest);
    assert_eq!(u.timezone, "UTC");
    assert_eq!(u.loginattempts, 0);
    assert_eq!(u.tokens, strings(&["category:view"]));
    assert!(u.groups.is_empty());
    assert!(!u.is_authenticated());
    assert!(!u.is_active());
    assert!(u.is_anonymous());
}

#[test]
fn check_rights_needs_every_right() {
    let u = User::default();
    assert!(u.check_rights(&strings(&["category:view"])));
    assert!(u.check_rights(&[]));
    assert!(!u.check_rights(&strings(&["category:view", "category:edit"])));
    assert!(!u.check_rights(&strings(&["Category:View"])));
}

#[test]
fn every_user_has_admin_and_modify_permissions() {
    let u = User::default();
    assert!(u.has("Token::UseAdmin"));
    assert!(u.has("Token::ModifyUser"));
    assert!(!u.has("Token::UseAdmin "));
    assert!(!u.has("Token::Other"));
}

#[test]
fn into_user_copies_the_row() {
    let perms = vec![
        SqlPermissionTokens { token: "a".to_string() },
        SqlPermissionTokens { token: "b".to_string() },
        SqlPermissionTokens { token: "a".to_string() },
    ];
    let groups = vec![Group { id: 2, name: "staff".to_string(), display: "Staff".to_string(), tokens: vec![] }];
    let u = row(Some(42), Some(b"s3cr\xc3\xa9t".to_vec())).into_user("ann@x.org".to_string(), Some(perms), Some(groups));
    assert_eq!(u.id, 7);
    assert_eq!(u.email_id, 42);
    assert_eq!(u.email, "ann@x.org");
    assert!(!u.anonymous);
    assert!(u.is_authenticated());
    assert_eq!(u.username, "ann");
    assert_eq!(u.display, "Ann");
    assert_eq!(u.password, Some("s3cr\u{e9}t".to_string()));
    assert_eq!(u.first_name, "Ann");
    assert_eq!(u.last_name, "Lee");
    assert_eq!(u.lastactive, moment(2021, 1, 2));
    assert_eq!(u.regdate, moment(2021, 1, 2));
    assert_eq!(u.loginlasttry, moment(2021, 1, 2));
    assert_eq!(u.timezone, "CET");
    assert_eq!(u.loginattempts, 3);
    assert_eq!(sorted(u.tokens.clone()), strings(&["a", "b"]));
    assert_eq!(u.groups.len(), 1);
    assert_eq!(u.groups[0].name, "staff");
}

#[test]
fn into_user_without_extras() {
    let u = row(None, Some(vec![0xff, 0xfe])).into_user(String::new(), None, None);
    assert_eq!(u.email_id, 0);
    assert_eq!(u.password, None);
    assert!(u.tokens.is_empty());
    assert!(u.groups.is_empty());
    let u = row(None, None).into_user(String::new(), None, None);
    assert_eq!(u.password, None);
}

#[test]
fn into_group_holds_each_token_once() {
    let g = SqlGroup { id: 3, name: "admins".to_string(), display: "Admins".to_string() }
        .into_group(&strings(&["x", "y", "x", "z", "y"]));
    assert_eq!(g.id, 3);
    assert_eq!(g.name, "admins");
    assert_eq!(g.display, "Admins");
    assert_eq!(sorted(g.tokens), strings(&["x", "y", "z"]));
}

#[test]
fn into_group_without_tokens() {
    let g = SqlGroup { id: 1, name: "n".to_string(), display: "d".to_string() }.into_group(&[]);
    assert!(g.tokens.is_empty());
}
