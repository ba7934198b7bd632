use grease::grease::{lint_source, module_key, module_search_paths, parse_program, use_statements};

#[test]
fn test_linter_unused_variables() {
    let source = "x = 42\ny = \"unused\"\nprint(x)";
    let result = lint_source(source);
    assert!(result.is_ok());
    let errors = result.unwrap();
    assert_eq!(errors.len(), 1);
    assert!(errors[0].message.contains("Unused variable 'y'"));
}

#[test]
fn test_linter_no_errors() {
    let source = "x = 42\nprint(x)";
    let result = lint_source(source);
    assert!(result.is_ok());
    let errors = result.unwrap();
    assert_eq!(errors.len(), 0);
}

#[test]
fn lint_reports_lexing_errors() {
    assert!(lint_source("x = \"open").is_err());
}

#[test]
fn unused_variable_position() {
    let errors = lint_source("a = 1\nb = 2\nprint(a)").unwrap();
    assert_eq!(errors.len(), 1);
    assert_eq!(errors[0].message, "Unused variable 'b'");
    assert_eq!(errors[0].line, 2);
}

#[test]
fn uses_are_collected_in_order() {
    let program = parse_program("use math\nuse strings as s\nx = 1").unwrap();
    let uses = use_statements(&program);
    assert_eq!(uses.len(), 2);
    assert_eq!(uses[0], ("math".to_string(), None));
    assert_eq!(uses[1], ("strings".to_string(), Some("s".to_string())));
}

#[test]
fn module_keys_prefer_the_alias() {
    assert_eq!(module_key("math", None), "math");
    let alias = "m".to_string();
    assert_eq!(module_key("math", Some(&alias)), "m");
}

#[test]
fn module_search_paths_in_order() {
    assert_eq!(
        module_search_paths("math"),
        vec!["math.grease".to_string(), "modules/math.grease".to_string(), "std/math.grease".to_string()]
    );
    assert_eq!(
        module_search_paths("./util"),
        vec!["util.grease".to_string(), "./util.grease".to_string(), "modules/./util.grease".to_string()]
    );
    assert_eq!(
        module_search_paths("../lib/x"),
        vec!["../lib/x.grease".to_string(), "../lib/x.grease".to_string(), "modules/../lib/x.grease".to_string()]
    );
    assert_eq!(
        module_search_paths(".hidden"),
        vec!["hidden.grease".to_string(), ".hidden.grease".to_string(), "modules/.hidden.grease".to_string(), "std/.hidden.grease".to_string()]
    );
}
