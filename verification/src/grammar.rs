//! The specification-level parser: a recursive-descent reading of the
//! token stream that yields the tree's model, or the first fatal
//! grammar failure.
//!
//! The executable parser is proved to return exactly what these
//! functions say. Positions are indices into the token sequence; every
//! function returns the position it stopped at.

use crate::ast::AstModel;
use crate::dict::Pairs;
use crate::dict::dict_put;
use crate::error::CompileError;
use crate::numfmt::int_str;
use crate::token::TokenModel;
use vstd::prelude::*;

verus! {

/// A token sequence under parsing.
pub type Toks = Seq<TokenModel>;

/// What the application body collects: the final position and the four
/// parts of the root node.
pub struct AppParts {
    pub pos: int,
    pub children: Seq<AstModel>,
    pub title: Seq<char>,
    pub state: Pairs,
    pub logic: Seq<char>,
}

/// One blind step of the cursor: past the end it stays put.
pub open spec fn adv(toks: Toks, i: int) -> int {
    if 0 <= i < toks.len() {
        i + 1
    } else {
        i
    }
}

/// The position just past the closing semicolon of a comment whose
/// opening semicolon was consumed before `i`, or the end.
pub open spec fn skip_comment(toks: Toks, i: int) -> int
    decreases toks.len() - i,
{
    if i < 0 || i >= toks.len() {
        toks.len() as int
    } else if toks[i] is Semicolon {
        i + 1
    } else {
        skip_comment(toks, i + 1)
    }
}

pub proof fn lemma_skip_comment_pos(toks: Toks, i: int)
    requires
        0 <= i <= toks.len(),
    ensures
        i <= skip_comment(toks, i) <= toks.len(),
    decreases toks.len() - i,
{
    if i < toks.len() && !(toks[i] is Semicolon) {
        lemma_skip_comment_pos(toks, i + 1);
    }
}

/// A bracketed state value: literals and numbers are appended verbatim
/// to the accumulated text until the closing bracket (or the end of
/// the tokens), which appends the final `]`.
pub open spec fn parse_state_list(toks: Toks, i: int, acc: Seq<char>) -> Result<
    (int, Seq<char>),
    CompileError,
>
    decreases toks.len() - i,
{
    if i < 0 || i >= toks.len() {
        Ok((if i < 0 { i } else { toks.len() as int }, acc + "]"@))
    } else {
        match toks[i] {
            TokenModel::RBracket => Ok((i + 1, acc + "]"@)),
            TokenModel::Literal(v) => parse_state_list(toks, i + 1, acc + v),
            TokenModel::Number(n) => parse_state_list(toks, i + 1, acc + int_str(n)),
            _ => Err(CompileError::UnexpectedTokenInList),
        }
    }
}

/// The entries of a `@remember` block, after its opening brace: each
/// is an identifier key, a colon, and a value that is an identifier, a
/// number, a literal or a bracketed list; entries may be separated by
/// commas, and the block ends at a closing brace. Running out of
/// tokens inside the block is fatal.
pub open spec fn parse_state_entries(toks: Toks, i: int, state: Pairs) -> Result<
    (int, Pairs),
    CompileError,
>
    decreases toks.len() - i, 0int,
{
    if i < 0 || i >= toks.len() {
        Err(CompileError::UnexpectedEndInRemember)
    } else {
        match toks[i] {
            TokenModel::RBrace => Ok((i + 1, state)),
            TokenModel::Identifier(k) => {
                if i + 1 >= toks.len() || !(toks[i + 1] is Colon) {
                    Err(CompileError::ExpectedColonAfterStateKey)
                } else if i + 2 >= toks.len() {
                    Err(CompileError::ExpectedStateValue)
                } else {
                    match toks[i + 2] {
                        TokenModel::Identifier(v) => state_entry_step(toks, i + 3, state, k, v),
                        TokenModel::Number(n) => state_entry_step(toks, i + 3, state, k, int_str(n)),
                        TokenModel::Literal(v) => state_entry_step(toks, i + 3, state, k, v),
                        TokenModel::LBracket => match parse_state_list(toks, i + 3, "["@) {
                            // the guard bounds the position for the termination
                            // check; the list parser never leaves the tokens
                            Ok((i2, content)) => {
                                if i < i2 <= toks.len() {
                                    state_entry_step(toks, i2, state, k, content)
                                } else {
                                    Err(CompileError::UnexpectedEndInRemember)
                                }
                            },
                            Err(e) => Err(e),
                        },
                        _ => Err(CompileError::ExpectedStateValue),
                    }
                }
            },
            _ => Err(CompileError::ExpectedStateKey),
        }
    }
}

/// Records one parsed state entry and continues after an optional
/// comma.
pub open spec fn state_entry_step(toks: Toks, i: int, state: Pairs, k: Seq<char>, v: Seq<char>) -> Result<
    (int, Pairs),
    CompileError,
>
    decreases toks.len() - i, 1int,
{
    let state2 = dict_put(state, k, v);
    let i2 = if 0 <= i < toks.len() && toks[i] is Comma {
        i + 1
    } else {
        i
    };
    parse_state_entries(toks, i2, state2)
}

/// The entries of a style block, after its opening brace: commas are
/// skipped, a key with a colon takes the following identifier or
/// number as its value, and a bare key is recorded with the value
/// `true`. The block ends at a closing brace or at the end of the
/// tokens.
pub open spec fn parse_style_entries(toks: Toks, i: int, styles: Pairs) -> Result<
    (int, Pairs),
    CompileError,
>
    decreases toks.len() - i,
{
    if i < 0 || i >= toks.len() {
        Ok((if i < 0 { i } else { toks.len() as int }, styles))
    } else {
        match toks[i] {
            TokenModel::RBrace => Ok((i + 1, styles)),
            TokenModel::Comma => parse_style_entries(toks, i + 1, styles),
            TokenModel::Identifier(k) => {
                if i + 1 < toks.len() && toks[i + 1] is Colon {
                    if i + 2 >= toks.len() {
                        Err(CompileError::ExpectedStyleValue)
                    } else {
                        match toks[i + 2] {
                            TokenModel::Identifier(v) => parse_style_entries(
                                toks,
                                i + 3,
                                dict_put(styles, k, v),
                            ),
                            TokenModel::Number(n) => parse_style_entries(
                                toks,
                                i + 3,
                                dict_put(styles, k, int_str(n)),
                            ),
                            _ => Err(CompileError::ExpectedStyleValue),
                        }
                    }
                } else {
                    parse_style_entries(toks, i + 1, dict_put(styles, k, "true"@))
                }
            },
            _ => Err(CompileError::ExpectedStyleKey),
        }
    }
}

/// The entries of an attribute block, after its opening brace: commas
/// are skipped and every key requires a colon and an identifier or
/// number value. The block ends at a closing brace or at the end of
/// the tokens.
pub open spec fn parse_attr_entries(toks: Toks, i: int, attrs: Pairs) -> Result<
    (int, Pairs),
    CompileError,
>
    decreases toks.len() - i,
{
    if i < 0 || i >= toks.len() {
        Ok((if i < 0 { i } else { toks.len() as int }, attrs))
    } else {
        match toks[i] {
            TokenModel::RBrace => Ok((i + 1, attrs)),
            TokenModel::Comma => parse_attr_entries(toks, i + 1, attrs),
            TokenModel::Identifier(k) => {
                if i + 1 >= toks.len() || !(toks[i + 1] is Colon) {
                    Err(CompileError::ExpectedColonAfterAttrKey)
                } else if i + 2 >= toks.len() {
                    Err(CompileError::ExpectedAttrValue)
                } else {
                    match toks[i + 2] {
                        TokenModel::Identifier(v) => parse_attr_entries(
                            toks,
                            i + 3,
                            dict_put(attrs, k, v),
                        ),
                        TokenModel::Number(n) => parse_attr_entries(
                            toks,
                            i + 3,
                            dict_put(attrs, k, int_str(n)),
                        ),
                        _ => Err(CompileError::ExpectedAttrValue),
                    }
                }
            },
            _ => Err(CompileError::ExpectedAttrKey),
        }
    }
}

/// The body of a conditional block, after its opening brace: an
/// identifier, `==`, and a number, literal or identifier; the pair is
/// recorded as the `data-if` attribute `left,right`. The block ends
/// at a closing brace or at the end of the tokens.
pub open spec fn parse_cond_entries(toks: Toks, i: int, attrs: Pairs) -> Result<
    (int, Pairs),
    CompileError,
>
    decreases toks.len() - i,
{
    if i < 0 || i >= toks.len() {
        Ok((if i < 0 { i } else { toks.len() as int }, attrs))
    } else {
        match toks[i] {
            TokenModel::RBrace => Ok((i + 1, attrs)),
            TokenModel::Identifier(l) => {
                if i + 1 >= toks.len() || !(toks[i + 1] is Equals) {
                    Err(CompileError::ExpectedEquals)
                } else if i + 2 >= toks.len() {
                    Err(CompileError::ExpectedConditionRight)
                } else {
                    match toks[i + 2] {
                        TokenModel::Number(n) => parse_cond_entries(
                            toks,
                            i + 3,
                            dict_put(attrs, "data-if"@, l + ","@ + int_str(n)),
                        ),
                        TokenModel::Literal(v) => parse_cond_entries(
                            toks,
                            i + 3,
                            dict_put(attrs, "data-if"@, l + ","@ + v),
                        ),
                        TokenModel::Identifier(v) => parse_cond_entries(
                            toks,
                            i + 3,
                            dict_put(attrs, "data-if"@, l + ","@ + v),
                        ),
                        _ => Err(CompileError::ExpectedConditionRight),
                    }
                }
            },
            _ => Err(CompileError::ExpectedConditionLeft),
        }
    }
}

/// The modifiers of an element, in any order, each before the first
/// opening brace: `~` binds an input to a state key (`data-model`),
/// `$` records an event handler (`on` plus the event name), `:` sets
/// the text value, `#` opens a style block, `%` an attribute block and
/// `?` a conditional block. The first token that starts none of these
/// ends the modifiers.
pub open spec fn parse_modifiers(
    toks: Toks,
    i: int,
    value: Seq<char>,
    styles: Pairs,
    attrs: Pairs,
) -> Result<(int, Seq<char>, Pairs, Pairs), CompileError>
    decreases toks.len() - i,
{
    if i < 0 || i >= toks.len() {
        Ok((if i < 0 { i } else { toks.len() as int }, value, styles, attrs))
    } else {
        match toks[i] {
            TokenModel::Tilde => {
                if i + 1 < toks.len() && toks[i + 1] is Identifier {
                    parse_modifiers(
                        toks,
                        i + 2,
                        value,
                        styles,
                        dict_put(attrs, "data-model"@, toks[i + 1]->Identifier_0),
                    )
                } else {
                    Err(CompileError::ExpectedBindingName)
                }
            },
            TokenModel::Dollar => {
                if !(i + 1 < toks.len() && toks[i + 1] is Identifier) {
                    Err(CompileError::ExpectedEventName)
                } else if i + 2 >= toks.len() || !(toks[i + 2] is Colon) {
                    Err(CompileError::ExpectedColonAfterEvent)
                } else if !(i + 3 < toks.len() && toks[i + 3] is Literal) {
                    Err(CompileError::ExpectedEventCode)
                } else {
                    parse_modifiers(
                        toks,
                        i + 4,
                        value,
                        styles,
                        dict_put(
                            attrs,
                            "on"@ + toks[i + 1]->Identifier_0,
                            toks[i + 3]->Literal_0,
                        ),
                    )
                }
            },
            TokenModel::Colon => {
                if i + 1 < toks.len() && toks[i + 1] is Literal {
                    parse_modifiers(toks, i + 2, toks[i + 1]->Literal_0, styles, attrs)
                } else {
                    Err(CompileError::ExpectedValueLiteral)
                }
            },
            TokenModel::Hash => {
                if i + 1 < toks.len() && toks[i + 1] is LBrace {
                    match parse_style_entries(toks, i + 2, styles) {
                        Ok((i2, styles2)) => {
                            // termination guard: the block never moves backwards
                            if i < i2 <= toks.len() {
                                parse_modifiers(toks, i2, value, styles2, attrs)
                            } else {
                                Err(CompileError::ExpectedStyleBlock)
                            }
                        },
                        Err(e) => Err(e),
                    }
                } else {
                    Err(CompileError::ExpectedStyleBlock)
                }
            },
            TokenModel::Percent => {
                if i + 1 < toks.len() && toks[i + 1] is LBrace {
                    match parse_attr_entries(toks, i + 2, attrs) {
                        Ok((i2, attrs2)) => {
                            // termination guard: the block never moves backwards
                            if i < i2 <= toks.len() {
                                parse_modifiers(toks, i2, value, styles, attrs2)
                            } else {
                                Err(CompileError::ExpectedAttrBlock)
                            }
                        },
                        Err(e) => Err(e),
                    }
                } else {
                    Err(CompileError::ExpectedAttrBlock)
                }
            },
            TokenModel::QuestionMark => {
                if i + 1 < toks.len() && toks[i + 1] is LBrace {
                    match parse_cond_entries(toks, i + 2, attrs) {
                        Ok((i2, attrs2)) => {
                            // termination guard: the block never moves backwards
                            if i < i2 <= toks.len() {
                                parse_modifiers(toks, i2, value, styles, attrs2)
                            } else {
                                Err(CompileError::ExpectedConditionBlock)
                            }
                        },
                        Err(e) => Err(e),
                    }
                } else {
                    Err(CompileError::ExpectedConditionBlock)
                }
            },
            _ => Ok((i, value, styles, attrs)),
        }
    }
}

/// One element construct. A comment before it is skipped. `>` starts
/// an element: a mandatory identifier name, the modifiers, and an
/// optional brace-delimited children block. A closing brace yields no
/// element and stays put. `[` starts a list block: a mandatory
/// identifier naming the iteration source, an optional style block,
/// and a braced template whose first element becomes the single child
/// of a synthetic `div` carrying the `data-list` attribute. Anything
/// else is fatal.
pub open spec fn parse_elem(toks: Toks, i: int) -> Result<
    (int, Option<AstModel>),
    CompileError,
>
    decreases toks.len() - i, 0int,
{
    let i1 = if 0 <= i < toks.len() && toks[i] is Semicolon {
        skip_comment(toks, i + 1)
    } else {
        i
    };
    if i1 < 0 || i1 >= toks.len() {
        Err(CompileError::ExpectedElement)
    } else {
        match toks[i1] {
            TokenModel::Gt => {
                if i1 + 1 < toks.len() && toks[i1 + 1] is Identifier {
                    let name = toks[i1 + 1]->Identifier_0;
                    match parse_modifiers(toks, i1 + 2, Seq::empty(), Seq::empty(), Seq::empty()) {
                        Ok((i2, value, styles, attrs)) => {
                            if i2 < toks.len() && toks[i2] is LBrace {
                                // termination guard: the modifiers never move backwards
                                if i2 + 1 > i {
                                    match parse_children(toks, i2 + 1, 1, Seq::empty()) {
                                        Ok((i3, kids)) => Ok(
                                            (
                                                i3,
                                                Some(
                                                    AstModel::Element {
                                                        name,
                                                        value,
                                                        children: kids,
                                                        styles,
                                                        attributes: attrs,
                                                    },
                                                ),
                                            ),
                                        ),
                                        Err(e) => Err(e),
                                    }
                                } else {
                                    Err(CompileError::ExpectedElement)
                                }
                            } else {
                                Ok(
                                    (
                                        i2,
                                        Some(
                                            AstModel::Element {
                                                name,
                                                value,
                                                children: Seq::empty(),
                                                styles,
                                                attributes: attrs,
                                            },
                                        ),
                                    ),
                                )
                            }
                        },
                        Err(e) => Err(e),
                    }
                } else {
                    Err(CompileError::ExpectedElementName)
                }
            },
            TokenModel::RBrace => Ok((i1, None)),
            TokenModel::LBracket => {
                if i1 + 1 < toks.len() && toks[i1 + 1] is Identifier {
                    let lname = toks[i1 + 1]->Identifier_0;
                    let i2 = adv(toks, i1 + 2);
                    let style_res: Result<(int, Pairs), CompileError> = if i2 < toks.len()
                        && toks[i2] is Hash {
                        if i2 + 1 < toks.len() && toks[i2 + 1] is LBrace {
                            parse_style_entries(toks, i2 + 2, Seq::empty())
                        } else {
                            Err(CompileError::ExpectedStyleBlock)
                        }
                    } else {
                        Ok((i2, Seq::empty()))
                    };
                    match style_res {
                        Ok((i3, styles)) => {
                            let i4 = adv(toks, i3);
                            // termination guard: the style block never leaves the tokens
                            if i < i4 <= toks.len() {
                                match parse_elem(toks, i4) {
                                    Ok((i5, child_opt)) => {
                                        let kids: Seq<AstModel> = match child_opt {
                                            Some(c) => seq![c],
                                            None => Seq::empty(),
                                        };
                                        let i6 = adv(toks, i5);
                                        Ok(
                                            (
                                                i6,
                                                Some(
                                                    AstModel::Element {
                                                        name: "div"@,
                                                        value: Seq::empty(),
                                                        children: kids,
                                                        styles,
                                                        attributes: seq![("data-list"@, lname)],
                                                    },
                                                ),
                                            ),
                                        )
                                    },
                                    Err(e) => Err(e),
                                }
                            } else {
                                Err(CompileError::ExpectedElement)
                            }
                        },
                        Err(e) => Err(e),
                    }
                } else {
                    Err(CompileError::ExpectedListName)
                }
            },
            _ => Err(CompileError::ExpectedElement),
        }
    }
}

/// The children region of an element, after its opening brace: nested
/// braces are tracked by depth so inner blocks are not mistaken for
/// the closing brace; every other token is handed to the element
/// parser. Running out of tokens ends the region silently.
pub open spec fn parse_children(toks: Toks, i: int, depth: int, acc: Seq<AstModel>) -> Result<
    (int, Seq<AstModel>),
    CompileError,
>
    decreases toks.len() - i, 1int,
{
    if i < 0 || i >= toks.len() {
        Ok((if i < 0 { i } else { toks.len() as int }, acc))
    } else {
        match toks[i] {
            TokenModel::LBrace => parse_children(toks, i + 1, depth + 1, acc),
            TokenModel::RBrace => {
                if depth == 1 {
                    Ok((i + 1, acc))
                } else {
                    parse_children(toks, i + 1, depth - 1, acc)
                }
            },
            _ => match parse_elem(toks, i) {
                Ok((i2, opt)) => {
                    let acc2 = match opt {
                        Some(n) => acc.push(n),
                        None => acc,
                    };
                    // termination guard: the element parser always advances here
                    if i < i2 <= toks.len() {
                        parse_children(toks, i2, depth, acc2)
                    } else {
                        Err(CompileError::ExpectedElement)
                    }
                },
                Err(e) => Err(e),
            },
        }
    }
}

/// The application body: a title after `:`, a comment, a stray brace,
/// a `@remember` block, a raw-logic payload after `$`, or an element
/// or list construct; a closing brace ends the body, and so does the
/// end of the tokens.
pub open spec fn parse_app_items(
    toks: Toks,
    i: int,
    children: Seq<AstModel>,
    title: Seq<char>,
    state: Pairs,
    logic: Seq<char>,
) -> Result<AppParts, CompileError>
    decreases toks.len() - i, 0int,
    via parse_app_items_decreases
{
    if i < 0 || i >= toks.len() {
        Ok(AppParts { pos: if i < 0 { i } else { toks.len() as int }, children, title, state, logic })
    } else {
        match toks[i] {
            TokenModel::Colon => {
                if i + 1 >= toks.len() {
                    parse_app_items(toks, i + 1, children, title, state, logic)
                } else if toks[i + 1] is Literal {
                    parse_app_items(
                        toks,
                        i + 2,
                        children,
                        toks[i + 1]->Literal_0,
                        state,
                        logic,
                    )
                } else {
                    parse_app_items(toks, i + 2, children, title, state, logic)
                }
            },
            TokenModel::RBrace => Ok(AppParts { pos: i + 1, children, title, state, logic }),
            TokenModel::Semicolon => parse_app_items(
                toks,
                skip_comment(toks, i + 1),
                children,
                title,
                state,
                logic,
            ),
            TokenModel::LBrace => parse_app_items(toks, i + 1, children, title, state, logic),
            TokenModel::At => {
                if i + 1 >= toks.len() {
                    parse_app_items(toks, i + 1, children, title, state, logic)
                } else {
                    match toks[i + 1] {
                        TokenModel::Identifier(id) => {
                            if id != "remember"@ {
                                Err(CompileError::ExpectedRemember)
                            } else if i + 2 >= toks.len() || !(toks[i + 2] is LBrace) {
                                Err(CompileError::ExpectedRememberBlock)
                            } else {
                                match parse_state_entries(toks, i + 3, state) {
                                    Ok((i2, state2)) => {
                                        // termination guard: the block never moves backwards
                                        if i < i2 <= toks.len() {
                                            parse_app_items(
                                                toks,
                                                i2,
                                                children,
                                                title,
                                                state2,
                                                logic,
                                            )
                                        } else {
                                            Err(CompileError::UnexpectedEndInRemember)
                                        }
                                    },
                                    Err(e) => Err(e),
                                }
                            }
                        },
                        _ => parse_app_items(toks, i + 2, children, title, state, logic),
                    }
                }
            },
            TokenModel::Dollar => {
                if i + 1 >= toks.len() {
                    parse_app_items(toks, i + 1, children, title, state, logic)
                } else if toks[i + 1] is Literal {
                    parse_app_items(toks, i + 2, children, title, state, toks[i + 1]->Literal_0)
                } else {
                    parse_app_items(toks, i + 2, children, title, state, logic)
                }
            },
            _ => match parse_elem(toks, i) {
                Ok((i2, opt)) => match opt {
                    Some(n) => {
                        // termination guard: the element parser always advances here
                        if i < i2 <= toks.len() {
                            parse_app_items(toks, i2, children.push(n), title, state, logic)
                        } else {
                            Err(CompileError::ExpectedElement)
                        }
                    },
                    None => {
                        // termination guard: the discarded token always advances
                        if i < adv(toks, i2) <= toks.len() {
                            parse_app_items(toks, adv(toks, i2), children, title, state, logic)
                        } else {
                            Err(CompileError::ExpectedElement)
                        }
                    },
                },
                Err(e) => Err(e),
            },
        }
    }
}

#[via_fn]
proof fn parse_app_items_decreases(
    toks: Toks,
    i: int,
    children: Seq<AstModel>,
    title: Seq<char>,
    state: Pairs,
    logic: Seq<char>,
) {
    if 0 <= i < toks.len() {
        lemma_skip_comment_pos(toks, i + 1);
    }
}

/// A whole program: the first token must be the identifier `app`; its
/// body builds the root node, whose title defaults to `Website`.
pub open spec fn parse_spec(toks: Toks) -> Result<AstModel, CompileError> {
    if toks.len() == 0 {
        Err(CompileError::ExpectedApp)
    } else {
        match toks[0] {
            TokenModel::Identifier(id) => {
                if id == "app"@ {
                    match parse_app_items(
                        toks,
                        1,
                        Seq::empty(),
                        "Website"@,
                        Seq::empty(),
                        Seq::empty(),
                    ) {
                        Ok(parts) => Ok(
                            AstModel::App {
                                children: parts.children,
                                title: parts.title,
                                state: parts.state,
                                logic_code: parts.logic,
                            },
                        ),
                        Err(e) => Err(e),
                    }
                } else {
                    Err(CompileError::ExpectedApp)
                }
            },
            _ => Err(CompileError::ExpectedApp),
        }
    }
}

} // verus!
