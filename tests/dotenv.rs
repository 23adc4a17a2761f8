use vdot::{has_line_break, render_dotenv, MergedVariableSet};

fn set_of(pairs: &[(&str, &str)]) -> MergedVariableSet {
    let mut vars = MergedVariableSet::new();
    for (name, value) in pairs {
        vars.insert(name.to_string(), value.to_string());
    }
    vars
}

#[test]
fn dotenv_single_plain_variable() {
    let vars = set_of(&[("foo", "bar")]);
    assert_eq!(render_dotenv(&vars), "foo=bar\n");
}

#[test]
fn dotenv_escapes_line_breaks() {
    let vars = set_of(&[("EXAMPLE", "line1\nline2\nline3")]);
    assert_eq!(render_dotenv(&vars), "EXAMPLE=\"line1\\nline2\\nline3\"\n");
}

#[test]
fn dotenv_empty_set_is_empty_text() {
    let vars = MergedVariableSet::new();
    assert_eq!(render_dotenv(&vars), "");
}

#[test]
fn dotenv_quotes_are_not_escaped() {
    let vars = set_of(&[("Q", "say \"hi\"\nbye"), ("P", "a\"b")]);
    let text = render_dotenv(&vars);
    let mut lines: Vec<&str> = text.lines().collect();
    lines.sort();
    assert_eq!(lines, vec!["P=a\"b", "Q=\"say \"hi\"\\nbye\""]);
}

#[test]
fn dotenv_one_line_per_variable() {
    let vars = set_of(&[("A", "1"), ("B", ""), ("C", "x\n")]);
    let text = render_dotenv(&vars);
    let mut lines: Vec<&str> = text.lines().collect();
    lines.sort();
    assert_eq!(lines, vec!["A=1", "B=", "C=\"x\\n\""]);
    assert!(text.ends_with('\n'));
}

#[test]
fn dotenv_line_break_detection() {
    assert!(has_line_break("a\nb"));
    assert!(has_line_break("\n"));
    assert!(!has_line_break("a\rb"));
    assert!(!has_line_break(""));
}
