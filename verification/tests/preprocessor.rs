//! Macro table policies, conditional stack, and the diagnostic log.

use glsl_pp::{DefineMethod, Defined, Preprocessor, PreprocessorError};

#[test]
fn define_new_symbol_stores_under_any_policy() {
    for method in [
        DefineMethod::Override,
        DefineMethod::Preserve,
        DefineMethod::FailOnOverride,
    ] {
        let mut p = Preprocessor::new(method);
        p.define_sym("FOO".to_string(), Defined::Object("1".to_string()));
        assert_eq!(
            p.defined_value("FOO"),
            Some(&Defined::Object("1".to_string()))
        );
        assert!(p.errors().is_empty());
    }
}

#[test]
fn redefine_override_replaces_silently() {
    let mut p = Preprocessor::new(DefineMethod::Override);
    p.define_sym("FOO".to_string(), Defined::Object("1".to_string()));
    p.define_sym("FOO".to_string(), Defined::Object("2".to_string()));
    assert_eq!(
        p.defined_value("FOO"),
        Some(&Defined::Object("2".to_string()))
    );
    assert!(p.errors().is_empty());
}

#[test]
fn redefine_preserve_keeps_silently() {
    let mut p = Preprocessor::new(DefineMethod::Preserve);
    p.define_sym("FOO".to_string(), Defined::Object("1".to_string()));
    p.define_sym("FOO".to_string(), Defined::Object("2".to_string()));
    assert_eq!(
        p.defined_value("FOO"),
        Some(&Defined::Object("1".to_string()))
    );
    assert!(p.errors().is_empty());
}

#[test]
fn redefine_fail_on_override_records_one_diagnostic() {
    let mut p = Preprocessor::new(DefineMethod::FailOnOverride);
    p.define_sym("FOO".to_string(), Defined::Object("1".to_string()));
    p.define_sym("FOO".to_string(), Defined::Object("2".to_string()));
    assert_eq!(
        p.defined_value("FOO"),
        Some(&Defined::Object("1".to_string()))
    );
    assert_eq!(p.errors().len(), 1);
    assert_eq!(
        p.errors()[0],
        PreprocessorError::NotAuthorizedDefineOverride {
            ident: "FOO".to_string(),
            current_value: Defined::Object("1".to_string()),
            candidate_value: Defined::Object("2".to_string()),
        }
    );
}

#[test]
fn define_function_macro() {
    let mut p = Preprocessor::new(DefineMethod::Override);
    let value = Defined::Function {
        arg: vec!["x".to_string(), "y".to_string()],
        body: "((x) + (y))".to_string(),
    };
    p.define_sym("ADD".to_string(), value.clone());
    assert_eq!(p.defined_value("ADD"), Some(&value));
    assert!(p.errors().is_empty());
}

#[test]
fn defines_of_distinct_idents_do_not_interfere() {
    let mut p = Preprocessor::new(DefineMethod::FailOnOverride);
    p.define_sym("FOO".to_string(), Defined::Object("1".to_string()));
    p.define_sym("BAR".to_string(), Defined::Object("2".to_string()));
    assert_eq!(
        p.defined_value("FOO"),
        Some(&Defined::Object("1".to_string()))
    );
    assert_eq!(
        p.defined_value("BAR"),
        Some(&Defined::Object("2".to_string()))
    );
    assert_eq!(p.defined_value("BAZ"), None);
    assert!(p.errors().is_empty());
}

#[test]
fn undef_present_removes_silently() {
    let mut p = Preprocessor::new(DefineMethod::Override);
    p.define_sym("FOO".to_string(), Defined::Object("1".to_string()));
    p.undef_sym("FOO");
    assert_eq!(p.defined_value("FOO"), None);
    assert!(p.errors().is_empty());
}

#[test]
fn undef_absent_records_one_diagnostic() {
    let mut p = Preprocessor::new(DefineMethod::Override);
    p.define_sym("FOO".to_string(), Defined::Object("1".to_string()));
    p.undef_sym("BAR");
    assert_eq!(
        p.defined_value("FOO"),
        Some(&Defined::Object("1".to_string()))
    );
    assert_eq!(p.errors().len(), 1);
    assert_eq!(
        p.errors()[0],
        PreprocessorError::UndefineUnknownSymbol {
            ident: "BAR".to_string(),
        }
    );
}

#[test]
fn leave_on_empty_stack_records_one_diagnostic() {
    let mut p = Preprocessor::new(DefineMethod::Override);
    assert_eq!(p.leave_conditional(), None);
    assert_eq!(p.errors().len(), 1);
    assert_eq!(p.errors()[0], PreprocessorError::NonMatchingConditional);
}

#[test]
fn balanced_conditionals_return_lifo() {
    let mut p = Preprocessor::new(DefineMethod::Override);
    p.enter_conditional(true);
    p.enter_conditional(false);
    p.enter_conditional(true);
    assert_eq!(p.leave_conditional(), Some(true));
    assert_eq!(p.leave_conditional(), Some(false));
    assert_eq!(p.leave_conditional(), Some(true));
    assert!(p.errors().is_empty());
}

#[test]
fn is_ignoring_returns_top_of_stack_or_true() {
    let mut p = Preprocessor::new(DefineMethod::Override);
    assert_eq!(p.is_ignoring(), true);
    p.enter_conditional(false);
    assert_eq!(p.is_ignoring(), false);
    p.enter_conditional(true);
    assert_eq!(p.is_ignoring(), true);
    p.leave_conditional();
    assert_eq!(p.is_ignoring(), false);
    p.leave_conditional();
    assert_eq!(p.is_ignoring(), true);
}

#[test]
fn conditional_scenario_with_stray_close() {
    let mut p = Preprocessor::new(DefineMethod::Override);
    p.enter_conditional(true);
    p.enter_conditional(false);
    assert_eq!(p.is_ignoring(), false);
    assert_eq!(p.leave_conditional(), Some(false));
    assert_eq!(p.is_ignoring(), true);
    assert_eq!(p.leave_conditional(), Some(true));
    assert_eq!(p.leave_conditional(), None);
    assert_eq!(p.errors().len(), 1);
    assert_eq!(p.errors()[0], PreprocessorError::NonMatchingConditional);
}

#[test]
fn raise_error_appends_code_driven() {
    let mut p = Preprocessor::new(DefineMethod::Override);
    p.raise_error("unsupported target".to_string());
    assert_eq!(p.errors().len(), 1);
    assert_eq!(
        p.errors()[0],
        PreprocessorError::CodeDriven("unsupported target".to_string())
    );
}

#[test]
fn log_keeps_chronological_order() {
    let mut p = Preprocessor::new(DefineMethod::Override);
    p.undef_sym("GONE");
    p.raise_error("stop".to_string());
    assert_eq!(p.leave_conditional(), None);
    assert_eq!(p.errors().len(), 3);
    assert_eq!(
        p.errors()[0],
        PreprocessorError::UndefineUnknownSymbol {
            ident: "GONE".to_string(),
        }
    );
    assert_eq!(p.errors()[1], PreprocessorError::CodeDriven("stop".to_string()));
    assert_eq!(p.errors()[2], PreprocessorError::NonMatchingConditional);
}
