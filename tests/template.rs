use mcfg::strmap::StringMap;
use mcfg::template::{make_safe, var_string_replace};

fn vars(pairs: &[(&str, &str)]) -> StringMap {
    StringMap::from_pairs(&pairs.to_vec())
}

#[test]
fn test_make_safe() {
    assert_eq!(make_safe("hello simon"), r#"hello simon"#);
    assert_eq!(make_safe("hello \"simon\""), r#"hello \"simon\""#);
    assert_eq!(make_safe("\"hello\" simon"), r#"\"hello\" simon"#);
}

#[test]
fn make_safe_is_idempotent() {
    for s in ["say \"hi\"", "\"\"", "a\\\"b", "plain", ""] {
        let once = make_safe(s);
        assert_eq!(make_safe(&once), once);
    }
}

#[test]
fn make_safe_escapes_adjacent_quotes() {
    assert_eq!(make_safe("\"\""), r#"\"\""#);
    assert_eq!(make_safe("already \\\"done\\\""), "already \\\"done\\\"");
}

#[test]
fn test_replace_variables_in_string() {
    let replacements = vars(&[("name", "wallace")]);

    assert_eq!(var_string_replace("{{name}}", &replacements), "wallace");

    assert_eq!(
        var_string_replace("hello {{name}}!", &replacements),
        "hello wallace!"
    );

    assert_eq!(
        var_string_replace("{{salutation}} {{name}}!", &replacements),
        "salutation wallace!"
    );
}

#[test]
fn substitute_single_variable() {
    assert_eq!(var_string_replace("{{x}}", &vars(&[("x", "v")])), "v");
}

#[test]
fn missing_variable_degrades_to_name() {
    assert_eq!(var_string_replace("{{y}}", &vars(&[])), "y");
}

#[test]
fn malformed_placeholders_are_left_alone() {
    let v = vars(&[("a", "1")]);
    assert_eq!(var_string_replace("{{ a }}", &v), "{{ a }}");
    assert_eq!(var_string_replace("{{}}", &v), "{{}}");
    assert_eq!(var_string_replace("{{a}", &v), "{{a}");
    assert_eq!(var_string_replace("{{{a}}}", &v), "{1}");
    assert_eq!(var_string_replace("x{{a}}y{{a}}", &v), "x1y1");
}

#[test]
fn string_map_insert_replaces() {
    let mut m = StringMap::new();
    m.insert("k".to_string(), "1".to_string());
    m.insert("j".to_string(), "2".to_string());
    m.insert("k".to_string(), "3".to_string());
    assert_eq!(m.len(), 2);
    assert_eq!(m.get("k").unwrap(), "3");
    m.remove("k");
    assert!(!m.contains_key("k"));
    assert_eq!(m.len(), 1);
}
