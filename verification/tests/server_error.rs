use spirean::extensions::form_validator::ServerError;

fn answer(e: ServerError) -> (u16, String) {
    let r = e.into_response();
    (r.status, r.body)
}

#[test]
fn validation_error_is_framed_on_one_line() {
    assert_eq!(
        answer(ServerError::ValidationError("name: too short\npassword: empty".to_string())),
        (400, "Input validation error: [name: too short, password: empty]".to_string())
    );
}

#[test]
fn validation_error_without_line_breaks() {
    assert_eq!(
        answer(ServerError::ValidationError("x".to_string())),
        (400, "Input validation error: [x]".to_string())
    );
}

#[test]
fn validation_body_has_no_line_break() {
    let (_, body) = answer(ServerError::ValidationError("\n\n".to_string()));
    assert_eq!(body, "Input validation error: [, , ]");
    assert!(!body.contains('\n'));
}

#[test]
fn form_rejection_is_bad_request() {
    assert_eq!(
        answer(ServerError::AxumFormRejection("bad form\nbody".to_string())),
        (400, "bad form\nbody".to_string())
    );
}

#[test]
fn other_errors_are_internal() {
    let cases = vec![
        ServerError::SqlxErrors("db".to_string()),
        ServerError::AskamaError("tpl".to_string()),
        ServerError::IO("io".to_string()),
        ServerError::Format("fmt".to_string()),
        ServerError::SerdeJson("json".to_string()),
        ServerError::Session("session".to_string()),
        ServerError::TokioJoin("join".to_string()),
        ServerError::UTF8("utf8".to_string()),
        ServerError::FutureSpawn("spawn".to_string()),
    ];
    let texts = ["db", "tpl", "io", "fmt", "json", "session", "join", "utf8", "spawn"];
    for (e, t) in cases.into_iter().zip(texts) {
        assert_eq!(answer(e), (500, t.to_string()));
    }
}
