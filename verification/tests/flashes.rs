use spirean::extensions::flashes::{level_to_string, Flashes, Level};

fn store(f: &Flashes) -> Vec<(String, String)> {
    f.store.clone()
}

fn pair(a: &str, b: &str) -> (String, String) {
    (a.to_string(), b.to_string())
}

#[test]
fn level_names() {
    assert_eq!(level_to_string(&Level::Debug), "debug");
    assert_eq!(level_to_string(&Level::Info), "info");
    assert_eq!(level_to_string(&Level::Success), "success");
    assert_eq!(level_to_string(&Level::Warning), "warning");
    assert_eq!(level_to_string(&Level::Error), "error");
}

#[test]
fn adding_messages_keeps_order_and_count() {
    let mut f = Flashes::default();
    f.error("bad".to_string());
    f.field_error("name is empty".to_string());
    f.success("saved".to_string());
    f.info("note".to_string());
    f.debug("trace".to_string());
    assert_eq!(
        store(&f),
        vec![
            pair("error", "bad"),
            pair("error", "Field Error: name is empty"),
            pair("success", "saved"),
            pair("info", "note"),
            pair("debug", "trace"),
        ]
    );
    assert_eq!(f.error_count, 0);
}

#[test]
fn contains_ignores_case_and_surrounding_space() {
    let mut f = Flashes::default();
    f.error("Something BAD happened".to_string());
    f.success("All good".to_string());
    assert!(f.contains("  bad \n".to_string()));
    assert!(f.contains("SOMETHING".to_string()));
    assert!(!f.contains("good".to_string()));
    assert!(!f.contains("missing".to_string()));
}

#[test]
fn contains_on_empty_store_is_false() {
    let f = Flashes::default();
    assert!(!f.contains(String::new()));
}

#[test]
fn get_field_errors_returns_matching_errors_in_order() {
    let mut f = Flashes::default();
    f.field_error("Name is required".to_string());
    f.info("name changed".to_string());
    f.error("NAME taken".to_string());
    f.error("password weak".to_string());
    assert_eq!(
        f.get_field_errors(" name ".to_string()),
        vec![pair("error", "Field Error: Name is required"), pair("error", "NAME taken")]
    );
    assert!(f.get_field_errors("zzz".to_string()).is_empty());
}

#[test]
fn contains_agrees_with_get_field_errors() {
    let mut f = Flashes::default();
    f.error("Alpha".to_string());
    f.info("beta".to_string());
    for q in ["alpha", "ALPHA ", "beta", ""] {
        assert_eq!(f.contains(q.to_string()), !f.get_field_errors(q.to_string()).is_empty());
    }
}

#[test]
fn from_incoming_names_levels_and_counts_field_errors() {
    let f = Flashes::from_incoming(vec![
        (Level::Error, "Field Error: name".to_string()),
        (Level::Warning, "Field Error: not counted".to_string()),
        (Level::Error, "plain error".to_string()),
        (Level::Error, "Field Error: password".to_string()),
        (Level::Success, "done".to_string()),
    ]);
    assert_eq!(
        store(&f),
        vec![
            pair("error", "Field Error: name"),
            pair("warning", "Field Error: not counted"),
            pair("error", "plain error"),
            pair("error", "Field Error: password"),
            pair("success", "done"),
        ]
    );
    assert_eq!(f.error_count, 2);
}

#[test]
fn from_incoming_empty() {
    let f = Flashes::from_incoming(Vec::new());
    assert!(f.store.is_empty());
    assert_eq!(f.error_count, 0);
}

#[test]
fn field_errors_come_back_counted() {
    let mut f = Flashes::default();
    f.field_error("name".to_string());
    f.error("other".to_string());
    let incoming = f
        .store
        .iter()
        .map(|(_, text)| (Level::Error, text.clone()))
        .collect();
    let next = Flashes::from_incoming(incoming);
    assert_eq!(next.error_count, 1);
}

#[test]
fn added_error_is_found_by_its_words() {
    let mut f = Flashes::default();
    f.debug("Disk Full".to_string());
    assert!(!f.contains("disk".to_string()));
    f.error("Disk Full".to_string());
    assert!(f.contains(" DISK full ".to_string()));
}

#[test]
fn an_error_is_found_by_its_own_text() {
    for m in ["\u{2003}Hello\u{3000}", "  Disk Full  ", "", "\t\n", "ÄBC déf"] {
        let mut f = Flashes::default();
        f.success("unrelated".to_string());
        f.error(m.to_string());
        assert!(f.contains(m.to_string()));
    }
}
