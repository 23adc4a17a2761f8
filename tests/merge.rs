use vdot::{merge_variables, JsonNumber, JsonValue, MergedVariableSet, PathSecrets};

fn text(s: &str) -> JsonValue {
    JsonValue::Str(s.to_string())
}

fn path(name: &str, secrets: Vec<(&str, JsonValue)>) -> PathSecrets {
    PathSecrets {
        path: name.to_string(),
        secrets: secrets.into_iter().map(|(k, v)| (k.to_string(), v)).collect(),
    }
}

#[test]
fn merge_first_listed_path_wins() {
    let paths = vec![
        path("secret/a", vec![("X", text("1"))]),
        path("secret/b", vec![("X", text("2"))]),
    ];
    let (vars, warnings) = merge_variables(&paths);
    assert_eq!(vars.len(), 1);
    assert_eq!(vars.get(&"X".to_string()), Some("1".to_string()));
    assert!(warnings.is_empty());
}

#[test]
fn merge_keeps_names_of_every_path() {
    let paths = vec![
        path("secret/a", vec![("A", text("a")), ("SHARED", text("from a"))]),
        path("secret/b", vec![("B", JsonValue::Bool(true)), ("SHARED", text("from b"))]),
        path("secret/c", vec![("C", JsonValue::Number(JsonNumber::Int(3)))]),
    ];
    let (vars, _) = merge_variables(&paths);
    assert_eq!(vars.len(), 4);
    assert_eq!(vars.get(&"A".to_string()), Some("a".to_string()));
    assert_eq!(vars.get(&"B".to_string()), Some("true".to_string()));
    assert_eq!(vars.get(&"C".to_string()), Some("3".to_string()));
    assert_eq!(vars.get(&"SHARED".to_string()), Some("from a".to_string()));
    assert_eq!(vars.get(&"D".to_string()), None);
}

#[test]
fn merge_skips_composites_and_warns() {
    let paths = vec![path(
        "secret/app",
        vec![
            ("obj", JsonValue::Object(vec![("nested".to_string(), JsonValue::Number(JsonNumber::Int(1)))])),
            ("list", JsonValue::Array(vec![])),
            ("plain", text("v")),
        ],
    )];
    let (vars, warnings) = merge_variables(&paths);
    assert_eq!(vars.len(), 1);
    assert_eq!(vars.get(&"plain".to_string()), Some("v".to_string()));
    assert_eq!(vars.get(&"obj".to_string()), None);
    assert_eq!(warnings.len(), 2);
    assert_eq!(warnings[0].name, "obj");
    assert_eq!(warnings[0].path, "secret/app");
    assert_eq!(warnings[1].name, "list");
}

#[test]
fn merge_composite_in_first_path_leaves_later_scalar() {
    let paths = vec![
        path("secret/a", vec![("X", JsonValue::Array(vec![]))]),
        path("secret/b", vec![("X", text("2"))]),
    ];
    let (vars, warnings) = merge_variables(&paths);
    assert_eq!(vars.get(&"X".to_string()), Some("2".to_string()));
    assert_eq!(warnings.len(), 1);
    assert_eq!(warnings[0].path, "secret/a");
}

#[test]
fn merge_of_no_paths_is_empty() {
    let (vars, warnings) = merge_variables(&vec![]);
    assert_eq!(vars.len(), 0);
    assert!(warnings.is_empty());
}

#[test]
fn variable_set_insert_overwrites_in_place() {
    let mut vars = MergedVariableSet::new();
    vars.insert("A".to_string(), "1".to_string());
    vars.insert("B".to_string(), "2".to_string());
    vars.insert("A".to_string(), "3".to_string());
    assert_eq!(vars.len(), 2);
    assert_eq!(vars.name_at(0), "A");
    assert_eq!(vars.value_at(0), "3");
    assert_eq!(vars.name_at(1), "B");
    assert_eq!(vars.value_at(1), "2");
}

#[test]
fn merge_repeated_name_last_occurrence_counts() {
    let paths = vec![path("secret/a", vec![("X", text("1")), ("X", JsonValue::Array(vec![]))])];
    let (vars, warnings) = merge_variables(&paths);
    assert_eq!(vars.get(&"X".to_string()), None);
    assert_eq!(vars.len(), 0);
    assert_eq!(warnings.len(), 1);
    assert_eq!(warnings[0].name, "X");

    let paths = vec![path("secret/a", vec![("X", JsonValue::Array(vec![])), ("X", text("2"))])];
    let (vars, warnings) = merge_variables(&paths);
    assert_eq!(vars.get(&"X".to_string()), Some("2".to_string()));
    assert!(warnings.is_empty());
}

#[test]
fn merge_repeated_composite_leaves_later_path_value() {
    let paths = vec![
        path("secret/a", vec![("X", text("1")), ("X", JsonValue::Array(vec![]))]),
        path("secret/b", vec![("X", text("2"))]),
    ];
    let (vars, _) = merge_variables(&paths);
    assert_eq!(vars.get(&"X".to_string()), Some("2".to_string()));
}
