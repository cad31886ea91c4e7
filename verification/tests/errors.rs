use vextra::ast::ASTNode;
use vextra::error::CompileError;
use vextra::parser::Parser;

fn compile(src: &str) -> Result<ASTNode, CompileError> {
    let parser = Parser::new(src.to_string());
    let tokens = parser.tokenize()?;
    Parser::parse(&tokens)
}

#[test]
fn error_number_overflow() {
    assert_eq!(compile("app{>p:\"x\"%{max:40000}{}}"), Err(CompileError::NumberOverflow));
}

#[test]
fn error_expected_app() {
    assert_eq!(compile("hello{}"), Err(CompileError::ExpectedApp));
    assert_eq!(compile(""), Err(CompileError::ExpectedApp));
}

#[test]
fn error_expected_remember() {
    assert_eq!(compile("app{@foo{}}"), Err(CompileError::ExpectedRemember));
}

#[test]
fn error_expected_remember_block() {
    assert_eq!(compile("app{@remember x}"), Err(CompileError::ExpectedRememberBlock));
}

#[test]
fn error_expected_state_key() {
    assert_eq!(compile("app{@remember{1:2}}"), Err(CompileError::ExpectedStateKey));
}

#[test]
fn error_expected_colon_after_state_key() {
    assert_eq!(compile("app{@remember{x 5}}"), Err(CompileError::ExpectedColonAfterStateKey));
}

#[test]
fn error_expected_state_value() {
    assert_eq!(compile("app{@remember{x:>}}"), Err(CompileError::ExpectedStateValue));
}

#[test]
fn error_unexpected_token_in_list() {
    assert_eq!(compile("app{@remember{x:[>]}}"), Err(CompileError::UnexpectedTokenInList));
}

#[test]
fn error_expected_element() {
    assert_eq!(compile("app{5}"), Err(CompileError::ExpectedElement));
}

#[test]
fn error_expected_element_name() {
    assert_eq!(compile("app{>}"), Err(CompileError::ExpectedElementName));
}

#[test]
fn error_expected_binding_name() {
    assert_eq!(compile("app{>input~5{}}"), Err(CompileError::ExpectedBindingName));
}

#[test]
fn error_expected_event_name() {
    assert_eq!(compile("app{>b$5:\"x\"{}}"), Err(CompileError::ExpectedEventName));
}

#[test]
fn error_expected_colon_after_event() {
    assert_eq!(compile("app{>b$click\"x\"{}}"), Err(CompileError::ExpectedColonAfterEvent));
}

#[test]
fn error_expected_event_code() {
    assert_eq!(compile("app{>b$click:x{}}"), Err(CompileError::ExpectedEventCode));
}

#[test]
fn error_expected_value_literal() {
    assert_eq!(compile("app{>p:x{}}"), Err(CompileError::ExpectedValueLiteral));
}

#[test]
fn error_expected_style_block() {
    assert_eq!(compile("app{>p#x{}}"), Err(CompileError::ExpectedStyleBlock));
}

#[test]
fn error_expected_style_key() {
    assert_eq!(compile("app{>p#{5}{}}"), Err(CompileError::ExpectedStyleKey));
}

#[test]
fn error_expected_style_value() {
    assert_eq!(compile("app{>p#{k:>}{}}"), Err(CompileError::ExpectedStyleValue));
}

#[test]
fn error_expected_attr_block() {
    assert_eq!(compile("app{>p%x{}}"), Err(CompileError::ExpectedAttrBlock));
}

#[test]
fn error_expected_attr_key() {
    assert_eq!(compile("app{>p%{5}{}}"), Err(CompileError::ExpectedAttrKey));
}

#[test]
fn error_expected_colon_after_attr_key() {
    assert_eq!(compile("app{>p%{k k}{}}"), Err(CompileError::ExpectedColonAfterAttrKey));
}

#[test]
fn error_expected_attr_value() {
    assert_eq!(compile("app{>p%{k:>}{}}"), Err(CompileError::ExpectedAttrValue));
}

#[test]
fn error_expected_condition_block() {
    assert_eq!(compile("app{>p?x{}}"), Err(CompileError::ExpectedConditionBlock));
}

#[test]
fn error_expected_condition_left() {
    assert_eq!(compile("app{>p?{5==3}{}}"), Err(CompileError::ExpectedConditionLeft));
}

#[test]
fn error_expected_equals() {
    assert_eq!(compile("app{>p?{x=3}{}}"), Err(CompileError::ExpectedEquals));
}

#[test]
fn error_expected_condition_right() {
    assert_eq!(compile("app{>p?{x==>}{}}"), Err(CompileError::ExpectedConditionRight));
}

#[test]
fn error_expected_list_name() {
    assert_eq!(compile("app{[5]{}}"), Err(CompileError::ExpectedListName));
}

#[test]
fn error_messages_are_descriptive() {
    assert_eq!(CompileError::ExpectedApp.message(), "expected 'app'");
    assert_eq!(
        CompileError::NumberOverflow.message(),
        "number literal does not fit in 16 bits"
    );
}
