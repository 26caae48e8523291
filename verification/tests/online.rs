use chrono::NaiveDate;
use spirean::forms::user::User;
use spirean::inits::serverstate::ServerState;

fn member(id: i32, display: &str) -> User {
    let mut u = User::default();
    u.id = id;
    u.display = display.to_string();
    u.anonymous = false;
    u.lastactive = NaiveDate::from_ymd_opt(2020, 1, 1).unwrap().and_hms_milli_opt(0, 0, 0, 0).unwrap();
    u
}

fn listed(s: &ServerState) -> Vec<(i64, String)> {
    let mut v: Vec<(i64, String)> = s.users_online().into_iter().map(|u| (u.id, u.display)).collect();
    v.sort();
    v
}

const SEC: u64 = 1_000_000_000;

#[test]
fn new_state_is_empty_and_cleans_in_an_hour() {
    let s = ServerState::new(1_000);
    assert!(s.online.is_empty());
    assert_eq!(s.clean_timer, 3_600_000_001_000);
    assert!(s.users_online().is_empty());
}

#[test]
fn seen_users_are_listed_and_guests_are_not() {
    let mut s = ServerState::new(0);
    s.set_active(&member(1, "Ann"), 10 * SEC);
    s.set_active(&member(2, "Bob"), 11 * SEC);
    s.set_active(&User::default(), 12 * SEC);
    assert_eq!(listed(&s), vec![(1, "Ann".to_string()), (2, "Bob".to_string())]);
}

#[test]
fn seeing_a_user_again_keeps_the_name_and_renews_the_time() {
    let mut s = ServerState::new(0);
    s.set_active(&member(1, "Ann"), 10 * SEC);
    s.set_active(&member(1, "Annie"), 20 * SEC);
    assert_eq!(listed(&s), vec![(1, "Ann".to_string())]);
    assert_eq!(s.online[&1].time, 20 * SEC);
}

#[test]
fn cleaning_drops_users_unseen_for_five_seconds() {
    let mut s = ServerState::new(0);
    s.set_active(&member(1, "Ann"), 10 * SEC);
    s.set_active(&member(2, "Bob"), 12 * SEC);
    s.set_active(&member(3, "Cy"), 20 * SEC);
    s.clean_list(15 * SEC);
    assert_eq!(listed(&s), vec![(2, "Bob".to_string()), (3, "Cy".to_string())]);
    s.clean_list(15 * SEC);
    assert_eq!(listed(&s), vec![(2, "Bob".to_string()), (3, "Cy".to_string())]);
    s.clean_list(17 * SEC);
    assert_eq!(listed(&s), vec![(3, "Cy".to_string())]);
}

#[test]
fn cleaning_keeps_a_user_seen_just_now() {
    let mut s = ServerState::new(0);
    s.set_active(&member(4, "Di"), 100 * SEC);
    s.clean_list(100 * SEC);
    assert_eq!(listed(&s), vec![(4, "Di".to_string())]);
    s.clean_list(99 * SEC);
    assert_eq!(listed(&s), vec![(4, "Di".to_string())]);
}

#[test]
fn cleaning_is_due_after_its_time_and_rescheduled_an_hour_later() {
    let mut s = ServerState::new(0);
    assert_eq!(s.clean_timer, 3_600_000_000_000);
    assert!(!s.cleaning_due(3_600_000_000_000));
    assert!(s.cleaning_due(3_600_000_000_001));
    s.set_active(&member(1, "Ann"), 0);
    s.schedule_cleaning(5);
    assert_eq!(s.clean_timer, 3_600_000_000_005);
    assert_eq!(listed(&s), vec![(1, "Ann".to_string())]);
}
