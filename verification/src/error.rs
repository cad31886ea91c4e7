//! The failure taxonomy of the compiler.
//!
//! Every lexing or parsing failure is fatal to the whole compilation:
//! no partial result is produced. Each variant corresponds to one
//! structurally required token that was missing or of the wrong kind,
//! or to a numeric literal outside the supported width.

use vstd::prelude::*;

verus! {

/// One fatal compilation failure.
#[derive(Debug, Clone, Copy, PartialEq, Eq, Structural)]
pub enum CompileError {
    /// A run of numeric characters is not a valid 16-bit signed integer.
    NumberOverflow,
    /// The first token is not the identifier `app`.
    ExpectedApp,
    /// The identifier after `@` is not `remember`.
    ExpectedRemember,
    /// No `{` after `@remember`.
    ExpectedRememberBlock,
    /// A state entry does not start with an identifier key.
    ExpectedStateKey,
    /// No `:` after a state key.
    ExpectedColonAfterStateKey,
    /// A state value is not an identifier, number, literal or list.
    ExpectedStateValue,
    /// A bracketed state list holds a token that is neither a literal
    /// nor a number.
    UnexpectedTokenInList,
    /// The tokens ended inside a `@remember` block.
    UnexpectedEndInRemember,
    /// No element construct where one was required.
    ExpectedElement,
    /// No identifier after the element sigil `>`.
    ExpectedElementName,
    /// No identifier after the input-binding sigil `~`.
    ExpectedBindingName,
    /// No identifier after the event sigil `$`.
    ExpectedEventName,
    /// No `:` after an event name.
    ExpectedColonAfterEvent,
    /// No literal after the `:` of an event binding.
    ExpectedEventCode,
    /// No literal after the value sigil `:`.
    ExpectedValueLiteral,
    /// No `{` after the style sigil `#`.
    ExpectedStyleBlock,
    /// A style entry does not start with an identifier key.
    ExpectedStyleKey,
    /// A style value is not an identifier or a number.
    ExpectedStyleValue,
    /// No `{` after the attribute sigil `%`.
    ExpectedAttrBlock,
    /// An attribute entry does not start with an identifier key.
    ExpectedAttrKey,
    /// No `:` after an attribute key.
    ExpectedColonAfterAttrKey,
    /// An attribute value is not an identifier or a number.
    ExpectedAttrValue,
    /// No `{` after the conditional sigil `?`.
    ExpectedConditionBlock,
    /// The left operand of a condition is not an identifier.
    ExpectedConditionLeft,
    /// No `==` between the operands of a condition.
    ExpectedEquals,
    /// The right operand of a condition is not a number, literal or
    /// identifier.
    ExpectedConditionRight,
    /// No identifier after the list sigil `[`.
    ExpectedListName,
}

impl CompileError {
    /// A human-readable description of the failure.
    pub fn message(&self) -> &'static str {
        match self {
            CompileError::NumberOverflow => "number literal does not fit in 16 bits",
            CompileError::ExpectedApp => "expected 'app'",
            CompileError::ExpectedRemember => "expected 'remember' after '@'",
            CompileError::ExpectedRememberBlock => "expected block after '@remember'",
            CompileError::ExpectedStateKey => "expected identifier for state key",
            CompileError::ExpectedColonAfterStateKey => "expected ':' after state key",
            CompileError::ExpectedStateValue => "expected state value",
            CompileError::UnexpectedTokenInList => "unexpected token in list",
            CompileError::UnexpectedEndInRemember => "unexpected end of tokens in '@remember' block",
            CompileError::ExpectedElement => "expected '>' at start of element",
            CompileError::ExpectedElementName => "expected identifier after '>'",
            CompileError::ExpectedBindingName => "expected identifier after '~'",
            CompileError::ExpectedEventName => "expected identifier after '$'",
            CompileError::ExpectedColonAfterEvent => "expected ':' after event key",
            CompileError::ExpectedEventCode => "expected literal after ':'",
            CompileError::ExpectedValueLiteral => "expected string literal after ':'",
            CompileError::ExpectedStyleBlock => "expected '{' after '#'",
            CompileError::ExpectedStyleKey => "expected style key identifier",
            CompileError::ExpectedStyleValue => "expected style value",
            CompileError::ExpectedAttrBlock => "expected '{' after '%'",
            CompileError::ExpectedAttrKey => "expected attribute key identifier",
            CompileError::ExpectedColonAfterAttrKey => "expected ':' after attribute key",
            CompileError::ExpectedAttrValue => "expected attribute value",
            CompileError::ExpectedConditionBlock => "expected '{' after '?'",
            CompileError::ExpectedConditionLeft => "expected identifier for left operand",
            CompileError::ExpectedEquals => "expected '=='",
            CompileError::ExpectedConditionRight => "expected number, literal or identifier right operand",
            CompileError::ExpectedListName => "expected identifier after '['",
        }
    }
}

} // verus!
