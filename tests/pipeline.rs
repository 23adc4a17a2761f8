use vdot::{
    request_action, request_url, Action, Args, FetchOutcome, JsonNumber, JsonValue, Run, RunError,
};

const ADDRESS: &str = "http://127.0.0.1:8200";

fn obj(members: Vec<(&str, JsonValue)>) -> JsonValue {
    JsonValue::Object(members.into_iter().map(|(k, v)| (k.to_string(), v)).collect())
}

fn text(s: &str) -> JsonValue {
    JsonValue::Str(s.to_string())
}

fn v2(secrets: Vec<(&str, JsonValue)>) -> JsonValue {
    obj(vec![(
        "data",
        obj(vec![
            ("metadata", obj(vec![("version", JsonValue::Number(JsonNumber::Int(3)))])),
            ("data", obj(secrets)),
        ]),
    )])
}

/// Drives a run to its end, answering each request through `respond`.
/// Returns the paths fetched, in order, and the last action.
fn drive(paths: &[&str], respond: &dyn Fn(&str) -> FetchOutcome) -> (Vec<String>, Action, Run) {
    let mut run = Run::new(ADDRESS.to_string(), paths.iter().map(|p| p.to_string()).collect());
    let mut fetched = Vec::new();
    let mut action = run.start();
    loop {
        match action {
            Action::Fetch { path, url } => {
                assert_eq!(url, format!("{}/v1/{}", ADDRESS, path));
                let outcome = respond(&path);
                fetched.push(path);
                action = run.resume(outcome);
            }
            other => return (fetched, other, run),
        }
    }
}

fn sorted_lines(contents: &str) -> Vec<String> {
    let mut lines: Vec<String> = contents.lines().map(|l| l.to_string()).collect();
    lines.sort();
    lines
}

fn two_paths(path: &str) -> FetchOutcome {
    match path {
        "secret/a" => FetchOutcome::Body(v2(vec![("X", text("1")), ("A", text("a"))])),
        _ => FetchOutcome::Body(v2(vec![("X", text("2")), ("B", JsonValue::Null)])),
    }
}

#[test]
fn pipeline_writes_merged_variables() {
    let (fetched, action, run) = drive(&["secret/a", "secret/b"], &two_paths);
    assert_eq!(fetched, vec!["secret/b".to_string(), "secret/a".to_string()]);
    match action {
        Action::Write { contents, count } => {
            assert_eq!(count, 3);
            assert_eq!(sorted_lines(&contents), vec!["A=a", "B=", "X=1"]);
        }
        other => panic!("unexpected action {:?}", other),
    }
    assert!(run.warnings().is_empty());
    assert_eq!(run.variables().get(&"X".to_string()), Some("1".to_string()));
}

#[test]
fn pipeline_first_path_takes_priority() {
    let respond = |path: &str| match path {
        "A" => FetchOutcome::Body(obj(vec![("data", obj(vec![("X", text("1"))]))])),
        _ => FetchOutcome::Body(obj(vec![("data", obj(vec![("X", text("2"))]))])),
    };
    let (_, action, _) = drive(&["A", "B"], &respond);
    match action {
        Action::Write { contents, .. } => assert_eq!(contents, "X=1\n"),
        other => panic!("unexpected action {:?}", other),
    }
}

#[test]
fn pipeline_twice_gives_same_output() {
    let (_, first, _) = drive(&["secret/a", "secret/b"], &two_paths);
    let (_, second, _) = drive(&["secret/a", "secret/b"], &two_paths);
    match (first, second) {
        (Action::Write { contents: c1, count: n1 }, Action::Write { contents: c2, count: n2 }) => {
            assert_eq!(c1, c2);
            assert_eq!(n1, n2);
        }
        other => panic!("unexpected actions {:?}", other),
    }
}

#[test]
fn pipeline_aborts_when_second_path_is_refused() {
    let respond = |path: &str| match path {
        "secret/two" => FetchOutcome::Status(403),
        _ => FetchOutcome::Body(v2(vec![("K", text("v"))])),
    };
    let (fetched, action, _) = drive(&["secret/one", "secret/two", "secret/three"], &respond);
    assert_eq!(fetched, vec!["secret/three".to_string(), "secret/two".to_string()]);
    match action {
        Action::Abort(RunError::Remote(e)) => {
            assert_eq!(e.status, 403);
            assert_eq!(e.path, "secret/two");
        }
        other => panic!("unexpected action {:?}", other),
    }
}

#[test]
fn pipeline_skips_nested_values_with_warning() {
    let respond = |_: &str| {
        FetchOutcome::Body(v2(vec![
            ("obj", obj(vec![("nested", JsonValue::Number(JsonNumber::Int(1)))])),
            ("sibling", text("kept")),
        ]))
    };
    let (_, action, run) = drive(&["secret/app"], &respond);
    match action {
        Action::Write { contents, count } => {
            assert_eq!(count, 1);
            assert_eq!(contents, "sibling=kept\n");
        }
        other => panic!("unexpected action {:?}", other),
    }
    let warnings = run.warnings();
    assert_eq!(warnings.len(), 1);
    assert_eq!(warnings[0].name, "obj");
    assert_eq!(warnings[0].path, "secret/app");
}

#[test]
fn pipeline_response_without_version_is_read_as_version_one() {
    let respond = |_: &str| {
        FetchOutcome::Body(obj(vec![(
            "data",
            obj(vec![("data", obj(vec![("obj", obj(vec![("nested", JsonValue::Number(JsonNumber::Int(1)))]))]))]),
        )]))
    };
    let (_, action, run) = drive(&["secret/app"], &respond);
    match action {
        Action::Write { contents, count } => {
            assert_eq!(count, 0);
            assert_eq!(contents, "");
        }
        other => panic!("unexpected action {:?}", other),
    }
    assert_eq!(run.warnings().len(), 1);
    assert_eq!(run.warnings()[0].name, "data");
}

#[test]
fn pipeline_multiline_value_is_escaped() {
    let respond = |_: &str| FetchOutcome::Body(v2(vec![("EXAMPLE", text("line1\nline2\nline3"))]));
    let (_, action, _) = drive(&["secret/app"], &respond);
    match action {
        Action::Write { contents, .. } => assert_eq!(contents, "EXAMPLE=\"line1\\nline2\\nline3\"\n"),
        other => panic!("unexpected action {:?}", other),
    }
}

#[test]
fn pipeline_without_paths_writes_empty_file() {
    let (fetched, action, _) = drive(&[], &two_paths);
    assert!(fetched.is_empty());
    match action {
        Action::Write { contents, count } => {
            assert_eq!(contents, "");
            assert_eq!(count, 0);
        }
        other => panic!("unexpected action {:?}", other),
    }
}

#[test]
fn pipeline_transport_failure_aborts() {
    let respond = |_: &str| FetchOutcome::Transport("connection refused".to_string());
    let (_, action, _) = drive(&["a", "b"], &respond);
    assert!(matches!(action, Action::Abort(RunError::Transport(m)) if m == "connection refused"));
}

#[test]
fn pipeline_decode_failure_aborts() {
    let respond = |_: &str| FetchOutcome::Decode("expected value".to_string());
    let (fetched, action, _) = drive(&["a", "b"], &respond);
    assert_eq!(fetched.len(), 1);
    assert!(matches!(action, Action::Abort(RunError::Decode(m)) if m == "expected value"));
}

#[test]
fn pipeline_shape_failure_aborts() {
    let respond = |_: &str| FetchOutcome::Body(obj(vec![("data", text("no object"))]));
    let (_, action, _) = drive(&["secret/x"], &respond);
    assert!(matches!(action, Action::Abort(RunError::Shape { path }) if path == "secret/x"));
}

#[test]
fn pipeline_invalid_address_aborts() {
    let mut run = Run::new("not a url".to_string(), vec!["secret/x".to_string()]);
    let action = run.start();
    assert!(matches!(action, Action::Abort(RunError::InvalidAddress { path }) if path == "secret/x"));
}

#[test]
fn request_url_joins_address_and_path() {
    assert_eq!(
        request_url("http://127.0.0.1:8200", "secret/foo"),
        Some("http://127.0.0.1:8200/v1/secret/foo".to_string())
    );
    assert_eq!(
        request_url("https://vault.example.com/", "secret/data/app"),
        Some("https://vault.example.com/v1/secret/data/app".to_string())
    );
    assert_eq!(request_url("no scheme", "secret/foo"), None);
}

#[test]
fn request_action_follows_url() {
    let fetch = request_action("p".to_string(), Some("http://h/v1/p".to_string()));
    assert!(matches!(fetch, Action::Fetch { path, url } if path == "p" && url == "http://h/v1/p"));
    let abort = request_action("p".to_string(), None);
    assert!(matches!(abort, Action::Abort(RunError::InvalidAddress { path }) if path == "p"));
}

#[test]
fn args_start_run_uses_paths_and_address() {
    let args = Args {
        paths: vec!["secret/a".to_string(), "secret/b".to_string()],
        output: ".env".to_string(),
        vault_kv_version: 2,
        vault_token: "hunter2".to_string(),
        vault_address: ADDRESS.to_string(),
        verbose: false,
    };
    let mut run = args.start_run();
    match run.start() {
        Action::Fetch { path, url } => {
            assert_eq!(path, "secret/b");
            assert_eq!(url, "http://127.0.0.1:8200/v1/secret/b");
        }
        other => panic!("unexpected action {:?}", other),
    }
}

#[test]
fn request_url_refuses_over_long_texts() {
    let long_path = format!("secret/{}", "a".repeat(3000));
    assert_eq!(request_url(ADDRESS, &long_path), None);
    let long_host = format!("http://{}{}", "a".repeat(3999), '\u{10628D}');
    assert_eq!(request_url(&long_host, "secret/foo"), None);
    let scheme_relative = format!("//{}%F4%86%8A%8D/x", "a".repeat(3999));
    assert_eq!(request_url(ADDRESS, &scheme_relative), None);
}

#[test]
fn pipeline_over_long_path_aborts() {
    let long_path = format!("secret/{}", "a".repeat(3000));
    let mut run = Run::new(ADDRESS.to_string(), vec![long_path.clone()]);
    let action = run.start();
    assert!(matches!(action, Action::Abort(RunError::InvalidAddress { path }) if path == long_path));
}

#[test]
fn request_url_refuses_texts_that_are_not_plain_ascii() {
    let mapped_host = format!("http://{}{}", "\u{FDFA}".repeat(215), '\u{10F45E}');
    assert_eq!(request_url(&mapped_host, "secret/foo"), None);
    let encoded_host = format!("http://{}%F4%8F%91%9E", "%EF%B7%BA".repeat(215));
    assert_eq!(request_url(&encoded_host, "secret/foo"), None);
    assert_eq!(request_url(ADDRESS, "secret/caf\u{e9}"), None);
    assert_eq!(request_url(ADDRESS, "secret/a%20b"), None);
    assert_eq!(
        request_url(ADDRESS, "secret/data/My-App_1.0"),
        Some("http://127.0.0.1:8200/v1/secret/data/My-App_1.0".to_string())
    );
}
