use chrono::NaiveDate;
use spirean::extensions::state::{row_count_or_zero, row_count_query, users_from_rows};
use spirean::models::user::SqlUser;

fn row(id: i32) -> SqlUser {
    let t = NaiveDate::from_ymd_opt(2022, 3, 4).unwrap().and_hms_milli_opt(1, 2, 3, 4).unwrap();
    SqlUser {
        id,
        email_id: Some(id),
        anonymous: false,
        username: format!("u{}", id),
        display: format!("U{}", id),
        password: None,
        first_name: String::new(),
        last_name: String::new(),
        lastactive: t,
        regdate: t,
        timezone: "UTC".to_string(),
        loginattempts: 0,
        loginlasttry: t,
    }
}

#[test]
fn row_count_query_names_the_table() {
    assert_eq!(row_count_query("users"), "SELECT Count(*) FROM users");
}

#[test]
fn row_count_defaults_to_zero_and_truncates() {
    assert_eq!(row_count_or_zero(None), 0);
    assert_eq!(row_count_or_zero(Some(42)), 42);
    assert_eq!(row_count_or_zero(Some(5_000_000_000)), 705_032_704);
    assert_eq!(row_count_or_zero(Some(-1)), -1);
}

#[test]
fn users_from_rows_uses_fetched_or_fallback_email() {
    let users = users_from_rows(
        vec![row(1), row(2), row(3)],
        vec![Some("a@x.org".to_string()), None, Some("c@x.org".to_string())],
    );
    assert_eq!(users.len(), 3);
    assert_eq!(users[0].id, 1);
    assert_eq!(users[0].email, "a@x.org");
    assert_eq!(users[1].id, 2);
    assert_eq!(users[1].email, "spirean@spirean.com");
    assert_eq!(users[2].email, "c@x.org");
    assert_eq!(users[2].username, "u3");
    assert!(users[2].tokens.is_empty());
}

#[test]
fn users_from_no_rows() {
    assert!(users_from_rows(Vec::new(), Vec::new()).is_empty());
}
