use alixt::context::{Global, RunState};
use alixt::vars::VarMap;

#[test]
fn test_substitution() {
    let mut global = Global::new();
    global
        .env_variables
        .insert("one".to_string(), "Hello,_".to_string());

    let mut state = RunState::new(global);

    state
        .run_variables
        .insert("two".to_string(), "World!".to_string());

    let input = r"{{one}}{{two}}".to_string();

    let output = state.substitute_values_in_text(&input);

    assert_eq!("Hello,_World!".to_string(), output);
}

#[test]
fn no_tokens_come_back_unchanged() {
    let state = RunState::new(Global::new());
    let input = "plain text, no braces at all { } }{";
    assert_eq!(state.substitute_values_in_text(input), input.to_string());
}

#[test]
fn unresolved_placeholder_stays_verbatim() {
    let state = RunState::new(Global::new());
    assert_eq!(
        state.substitute_values_in_text("{{missing}}"),
        "{{missing}}".to_string()
    );
    assert_eq!(
        state.substitute_values_in_text("a {{missing}} b"),
        "a {{missing}} b".to_string()
    );
}

#[test]
fn run_local_shadows_global() {
    let mut global = Global::new();
    global
        .env_variables
        .insert("who".to_string(), "global".to_string());
    let mut state = RunState::new(global);
    state
        .run_variables
        .insert("who".to_string(), "local".to_string());

    assert_eq!(state.substitute_values_in_text("{{who}}"), "local");
    assert_eq!(state.substitute_values_in_text("{{env.who}}"), "global");
    assert_eq!(state.substitute_values_in_text("{{run.who}}"), "local");
    assert_eq!(state.resolve(&"who".to_string()), Some("local".to_string()));
}

#[test]
fn placeholder_name_is_trimmed() {
    let mut global = Global::new();
    global
        .env_variables
        .insert("name".to_string(), "value".to_string());
    let state = RunState::new(global);
    assert_eq!(state.substitute_values_in_text("{{  name  }}"), "value");
}

#[test]
fn placeholder_with_line_break_inside_name_is_literal() {
    let mut global = Global::new();
    global
        .env_variables
        .insert("a\nb".to_string(), "value".to_string());
    let state = RunState::new(global);
    assert_eq!(
        state.substitute_values_in_text("{{a\nb}}"),
        "{{a\nb}}".to_string()
    );
}

#[test]
fn capture_phase_substitutes_globals_only() {
    let mut global = Global::new();
    global
        .env_variables
        .insert("host".to_string(), "example.org".to_string());
    assert_eq!(
        global.substitute_values_in_text("https://{{host}}/x"),
        "https://example.org/x"
    );
}

#[test]
fn varmap_last_binding_wins() {
    let mut m = VarMap::new();
    m.insert("k".to_string(), "first".to_string());
    m.insert("k".to_string(), "second".to_string());
    assert_eq!(m.get(&"k".to_string()), Some(&"second".to_string()));
    assert!(m.contains(&"k".to_string()));
    assert!(!m.contains(&"other".to_string()));
    let copy = m.duplicate();
    assert_eq!(copy.get(&"k".to_string()), Some(&"second".to_string()));
}
