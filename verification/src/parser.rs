//! The executable front end: tokenizing source text and parsing the
//! token stream into the tree.
//!
//! A mutable cursor walks the immutable token buffer; every sub-parser
//! takes the cursor by exclusive reference, so one owner advances the
//! position. Each function is proved to return exactly what the
//! specification-level parser in `grammar` says.

use crate::ast::ASTNode;
use crate::ast::AstModel;
use crate::ast::Attributes;
use crate::ast::State;
use crate::ast::Styles;
use crate::ast::lemma_nodes_deep_view_push;
use crate::ast::nodes_deep_view;
use crate::dict::Pairs;
use crate::dict::dict_insert;
use crate::dict::dict_put;
use crate::error::CompileError;
use crate::grammar;
use crate::grammar::Toks;
use crate::lexer::lex;
use crate::lexer::lex_spec;
use crate::numfmt::i16_to_string;
use crate::text::eq_lit;
use crate::token::Token;
use crate::token::TokenModel;
use vstd::prelude::*;
use vstd::string::StringExecFns;

verus! {

/// Holds one source text to compile.
pub struct Parser {
    text: String,
}

impl View for Parser {
    type V = Seq<char>;

    closed spec fn view(&self) -> Seq<char> {
        self.text@
    }
}

/// A position-tracking cursor over an immutable token buffer: the
/// single owner of the read position, passed by exclusive reference to
/// every sub-parser.
pub struct Cursor<'a> {
    tokens: &'a Vec<Token>,
    pos: usize,
}

impl<'a> Cursor<'a> {
    /// The model of the buffer under the cursor.
    pub closed spec fn toks(&self) -> Toks {
        self.tokens.deep_view()
    }

    /// The current position.
    pub closed spec fn at(&self) -> int {
        self.pos as int
    }

    /// The position never leaves the buffer.
    pub closed spec fn wf(&self) -> bool {
        self.pos <= self.tokens@.len()
    }

    /// A cursor at the start of the buffer.
    pub fn new(tokens: &'a Vec<Token>) -> (c: Self)
        ensures
            c.toks() == tokens.deep_view(),
            c.at() == 0,
            c.wf(),
    {
        Cursor { tokens, pos: 0 }
    }

    /// The token at the cursor, if any; the cursor does not move.
    pub fn peek(&self) -> (r: Option<&'a Token>)
        requires
            self.wf(),
        ensures
            match r {
                Some(t) => self.at() < self.toks().len() && t.deep_view() == self.toks()[self.at()],
                None => self.at() == self.toks().len(),
            },
    {
        proof {
            assert(self.toks().len() == self.tokens@.len());
        }
        if self.pos < self.tokens.len() {
            let t = &self.tokens[self.pos];
            proof {
                assert(self.toks()[self.at()] == t.deep_view());
            }
            Some(t)
        } else {
            None
        }
    }

    /// One step forward; at the end of the buffer the cursor stays
    /// put.
    pub fn advance(&mut self)
        requires
            old(self).wf(),
        ensures
            final(self).wf(),
            final(self).toks() == old(self).toks(),
            final(self).at() == grammar::adv(old(self).toks(), old(self).at()),
    {
        proof {
            assert(self.toks().len() == self.tokens@.len());
        }
        if self.pos < self.tokens.len() {
            self.pos = self.pos + 1;
        }
    }
}

/// Consumes tokens up to and including the semicolon that closes a
/// comment whose opening semicolon was already consumed, or up to the
/// end of the buffer.
fn skip_comment(cur: &mut Cursor) -> (r: ())
    requires
        old(cur).wf(),
    ensures
        final(cur).wf(),
        final(cur).toks() == old(cur).toks(),
        final(cur).at() >= old(cur).at(),
        final(cur).at() == grammar::skip_comment(old(cur).toks(), old(cur).at()),
{
    let ghost toks = cur.toks();
    let ghost p0 = cur.at();
    loop
        invariant
            cur.wf(),
            cur.toks() == old(cur).toks(),
            toks == cur.toks(),
            p0 == old(cur).at(),
            p0 <= cur.at(),
            grammar::skip_comment(toks, p0) == grammar::skip_comment(toks, cur.at()),
        decreases toks.len() - cur.at(),
    {
        let ghost pp = cur.at();
        match cur.peek() {
            None => {
                proof {
                    assert(grammar::skip_comment(toks, pp) == toks.len() as int);
                }
                return ;
            },
            Some(t) => {
                cur.advance();
                if let Token::Semicolon = t {
                    proof {
                        assert(toks[pp] is Semicolon);
                        assert(grammar::skip_comment(toks, pp) == pp + 1);
                    }
                    return ;
                }
                proof {
                    assert(!(toks[pp] is Semicolon));
                    assert(grammar::skip_comment(toks, pp) == grammar::skip_comment(toks, pp + 1));
                }
            },
        }
    }
}

/// The body of a bracketed state value, after its opening bracket:
/// literals and numbers are appended to `content` until the closing
/// bracket or the end of the buffer, which appends the final `]`.
fn parse_state_list(cur: &mut Cursor, content: &mut String) -> (r: Result<(), CompileError>)
    requires
        old(cur).wf(),
    ensures
        final(cur).wf(),
        final(cur).toks() == old(cur).toks(),
        final(cur).at() >= old(cur).at(),
        match r {
            Ok(_) => grammar::parse_state_list(old(cur).toks(), old(cur).at(), old(content)@)
                == Ok::<(int, Seq<char>), CompileError>((final(cur).at(), final(content)@)),
            Err(e) => grammar::parse_state_list(old(cur).toks(), old(cur).at(), old(content)@)
                == Err::<(int, Seq<char>), CompileError>(e),
        },
{
    let ghost toks = cur.toks();
    let ghost p0 = cur.at();
    let ghost c0 = content@;
    loop
        invariant
            cur.wf(),
            cur.toks() == old(cur).toks(),
            toks == cur.toks(),
            p0 == old(cur).at(),
            p0 <= cur.at(),
            c0 == old(content)@,
            grammar::parse_state_list(toks, p0, c0) == grammar::parse_state_list(
                toks,
                cur.at(),
                content@,
            ),
        decreases toks.len() - cur.at(),
    {
        let ghost pp = cur.at();
        let ghost cc = content@;
        match cur.peek() {
            None => {
                content.append("]");
                proof {
                    assert(grammar::parse_state_list(toks, pp, cc) == Ok::<
                        (int, Seq<char>),
                        CompileError,
                    >((pp, content@)));
                }
                return Ok(());
            },
            Some(t) => match t {
                Token::RBracket => {
                    cur.advance();
                    content.append("]");
                    proof {
                        assert(toks[pp] is RBracket);
                        assert(grammar::parse_state_list(toks, pp, cc) == Ok::<
                            (int, Seq<char>),
                            CompileError,
                        >((pp + 1, content@)));
                    }
                    return Ok(());
                },
                Token::Literal(v) => {
                    content.append(v.as_str());
                    cur.advance();
                    proof {
                        assert(toks[pp] == TokenModel::Literal(v@));
                        assert(grammar::parse_state_list(toks, pp, cc)
                            == grammar::parse_state_list(toks, pp + 1, cc + v@));
                    }
                },
                Token::Number(n) => {
                    let ns = i16_to_string(*n);
                    content.append(ns.as_str());
                    cur.advance();
                    proof {
                        assert(toks[pp] == TokenModel::Number(*n as int));
                        assert(grammar::parse_state_list(toks, pp, cc)
                            == grammar::parse_state_list(toks, pp + 1, cc + ns@));
                    }
                },
                _ => {
                    proof {
                        assert(grammar::parse_state_list(toks, pp, cc) == Err::<
                            (int, Seq<char>),
                            CompileError,
                        >(CompileError::UnexpectedTokenInList));
                    }
                    return Err(CompileError::UnexpectedTokenInList);
                },
            },
        }
    }
}


/// The entries of a `@remember` block, after its opening brace: each
/// is an identifier key, a colon, and a value that is an identifier, a
/// number, a literal or a bracketed list, with an optional comma after
/// it; a closing brace ends the block, and running out of tokens
/// inside it is fatal.
fn parse_state_entries(cur: &mut Cursor, state: &mut State) -> (r: Result<(), CompileError>)
    requires
        old(cur).wf(),
    ensures
        final(cur).wf(),
        final(cur).toks() == old(cur).toks(),
        final(cur).at() >= old(cur).at(),
        match r {
            Ok(_) => grammar::parse_state_entries(old(cur).toks(), old(cur).at(), old(state)@)
                == Ok::<(int, Pairs), CompileError>((final(cur).at(), final(state)@)),
            Err(e) => grammar::parse_state_entries(old(cur).toks(), old(cur).at(), old(state)@)
                == Err::<(int, Pairs), CompileError>(e),
        },
{
    let ghost toks = cur.toks();
    let ghost p0 = cur.at();
    let ghost s0 = state@;
    loop
        invariant
            cur.wf(),
            cur.toks() == old(cur).toks(),
            toks == cur.toks(),
            p0 == old(cur).at(),
            p0 <= cur.at(),
            s0 == old(state)@,
            grammar::parse_state_entries(toks, p0, s0) == grammar::parse_state_entries(
                toks,
                cur.at(),
                state@,
            ),
        decreases toks.len() - cur.at(),
    {
        let ghost pp = cur.at();
        let ghost ss = state@;
        let key: String;
        match cur.peek() {
            None => {
                return Err(CompileError::UnexpectedEndInRemember);
            },
            Some(t) => match t {
                Token::RBrace => {
                    cur.advance();
                    return Ok(());
                },
                Token::Identifier(k) => {
                    key = k.clone();
                    proof {
                        assert(toks[pp] == TokenModel::Identifier(key@));
                    }
                },
                _ => {
                    return Err(CompileError::ExpectedStateKey);
                },
            },
        }
        cur.advance();
        match cur.peek() {
            Some(Token::Colon) => {},
            _ => {
                return Err(CompileError::ExpectedColonAfterStateKey);
            },
        }
        cur.advance();
        let val: String;
        match cur.peek() {
            None => {
                return Err(CompileError::ExpectedStateValue);
            },
            Some(t) => match t {
                Token::Identifier(v) => {
                    val = v.clone();
                    proof {
                        assert(toks[pp + 2] == TokenModel::Identifier(val@));
                    }
                    cur.advance();
                },
                Token::Number(n) => {
                    val = i16_to_string(*n);
                    proof {
                        assert(toks[pp + 2] == TokenModel::Number(*n as int));
                    }
                    cur.advance();
                },
                Token::Literal(v) => {
                    val = v.clone();
                    proof {
                        assert(toks[pp + 2] == TokenModel::Literal(val@));
                    }
                    cur.advance();
                },
                Token::LBracket => {
                    cur.advance();
                    let mut content = String::from_str("[");
                    match parse_state_list(cur, &mut content) {
                        Ok(_) => {
                            val = content;
                        },
                        Err(e) => {
                            return Err(e);
                        },
                    }
                },
                _ => {
                    return Err(CompileError::ExpectedStateValue);
                },
            },
        }
        let ghost pv = cur.at();
        proof {
            assert(grammar::parse_state_entries(toks, pp, ss) == grammar::state_entry_step(
                toks,
                pv,
                ss,
                key@,
                val@,
            ));
        }
        dict_insert(&mut state.0, key, val);
        if let Some(Token::Comma) = cur.peek() {
            cur.advance();
        }
    }
}

/// The entries of a style block, after its opening brace: commas are
/// skipped, a key with a colon takes the following identifier or
/// number value, and a bare key is recorded with the value `true`; a
/// closing brace or the end of the buffer ends the block.
fn parse_style_entries(cur: &mut Cursor, styles: &mut Styles) -> (r: Result<(), CompileError>)
    requires
        old(cur).wf(),
    ensures
        final(cur).wf(),
        final(cur).toks() == old(cur).toks(),
        final(cur).at() >= old(cur).at(),
        match r {
            Ok(_) => grammar::parse_style_entries(old(cur).toks(), old(cur).at(), old(styles)@)
                == Ok::<(int, Pairs), CompileError>((final(cur).at(), final(styles)@)),
            Err(e) => grammar::parse_style_entries(old(cur).toks(), old(cur).at(), old(styles)@)
                == Err::<(int, Pairs), CompileError>(e),
        },
{
    let ghost toks = cur.toks();
    let ghost p0 = cur.at();
    let ghost s0 = styles@;
    loop
        invariant
            cur.wf(),
            cur.toks() == old(cur).toks(),
            toks == cur.toks(),
            p0 == old(cur).at(),
            p0 <= cur.at(),
            s0 == old(styles)@,
            grammar::parse_style_entries(toks, p0, s0) == grammar::parse_style_entries(
                toks,
                cur.at(),
                styles@,
            ),
        decreases toks.len() - cur.at(),
    {
        let ghost pp = cur.at();
        let ghost ss = styles@;
        let key: String;
        match cur.peek() {
            None => {
                return Ok(());
            },
            Some(t) => match t {
                Token::RBrace => {
                    cur.advance();
                    return Ok(());
                },
                Token::Comma => {
                    cur.advance();
                    continue ;
                },
                Token::Identifier(k) => {
                    key = k.clone();
                    proof {
                        assert(toks[pp] == TokenModel::Identifier(key@));
                    }
                },
                _ => {
                    return Err(CompileError::ExpectedStyleKey);
                },
            },
        }
        cur.advance();
        let has_colon = match cur.peek() {
            Some(Token::Colon) => true,
            _ => false,
        };
        if has_colon {
            cur.advance();
            let val: String;
            match cur.peek() {
                None => {
                    return Err(CompileError::ExpectedStyleValue);
                },
                Some(t) => match t {
                    Token::Identifier(v) => {
                        val = v.clone();
                        proof {
                            assert(toks[pp + 2] == TokenModel::Identifier(val@));
                        }
                        cur.advance();
                    },
                    Token::Number(n) => {
                        val = i16_to_string(*n);
                        proof {
                            assert(toks[pp + 2] == TokenModel::Number(*n as int));
                        }
                        cur.advance();
                    },
                    _ => {
                        return Err(CompileError::ExpectedStyleValue);
                    },
                },
            }
            proof {
                assert(grammar::parse_style_entries(toks, pp, ss) == grammar::parse_style_entries(
                    toks,
                    pp + 3,
                    dict_put(ss, key@, val@),
                ));
            }
            dict_insert(&mut styles.0, key, val);
        } else {
            proof {
                assert(grammar::parse_style_entries(toks, pp, ss) == grammar::parse_style_entries(
                    toks,
                    pp + 1,
                    dict_put(ss, key@, "true"@),
                ));
            }
            dict_insert(&mut styles.0, key, String::from_str("true"));
        }
    }
}

/// The entries of an attribute block, after its opening brace: commas
/// are skipped and every key requires a colon and an identifier or
/// number value; a closing brace or the end of the buffer ends the
/// block.
fn parse_attr_entries(cur: &mut Cursor, attrs: &mut Attributes) -> (r: Result<(), CompileError>)
    requires
        old(cur).wf(),
    ensures
        final(cur).wf(),
        final(cur).toks() == old(cur).toks(),
        final(cur).at() >= old(cur).at(),
        match r {
            Ok(_) => grammar::parse_attr_entries(old(cur).toks(), old(cur).at(), old(attrs)@)
                == Ok::<(int, Pairs), CompileError>((final(cur).at(), final(attrs)@)),
            Err(e) => grammar::parse_attr_entries(old(cur).toks(), old(cur).at(), old(attrs)@)
                == Err::<(int, Pairs), CompileError>(e),
        },
{
    let ghost toks = cur.toks();
    let ghost p0 = cur.at();
    let ghost a0 = attrs@;
    loop
        invariant
            cur.wf(),
            cur.toks() == old(cur).toks(),
            toks == cur.toks(),
            p0 == old(cur).at(),
            p0 <= cur.at(),
            a0 == old(attrs)@,
            grammar::parse_attr_entries(toks, p0, a0) == grammar::parse_attr_entries(
                toks,
                cur.at(),
                attrs@,
            ),
        decreases toks.len() - cur.at(),
    {
        let ghost pp = cur.at();
        let ghost aa = attrs@;
        let key: String;
        match cur.peek() {
            None => {
                return Ok(());
            },
            Some(t) => match t {
                Token::RBrace => {
                    cur.advance();
                    return Ok(());
                },
                Token::Comma => {
                    cur.advance();
                    continue ;
                },
                Token::Identifier(k) => {
                    key = k.clone();
                    proof {
                        assert(toks[pp] == TokenModel::Identifier(key@));
                    }
                },
                _ => {
                    return Err(CompileError::ExpectedAttrKey);
                },
            },
        }
        cur.advance();
        match cur.peek() {
            Some(Token::Colon) => {},
            _ => {
                return Err(CompileError::ExpectedColonAfterAttrKey);
            },
        }
        cur.advance();
        let val: String;
        match cur.peek() {
            None => {
                return Err(CompileError::ExpectedAttrValue);
            },
            Some(t) => match t {
                Token::Identifier(v) => {
                    val = v.clone();
                    proof {
                        assert(toks[pp + 2] == TokenModel::Identifier(val@));
                    }
                    cur.advance();
                },
                Token::Number(n) => {
                    val = i16_to_string(*n);
                    proof {
                        assert(toks[pp + 2] == TokenModel::Number(*n as int));
                    }
                    cur.advance();
                },
                _ => {
                    return Err(CompileError::ExpectedAttrValue);
                },
            },
        }
        proof {
            assert(grammar::parse_attr_entries(toks, pp, aa) == grammar::parse_attr_entries(
                toks,
                pp + 3,
                dict_put(aa, key@, val@),
            ));
        }
        dict_insert(&mut attrs.0, key, val);
    }
}

/// The body of a conditional block, after its opening brace: an
/// identifier, `==`, and a number, literal or identifier, recorded as
/// the `data-if` attribute `left,right`; a closing brace or the end
/// of the buffer ends the block.
fn parse_cond_entries(cur: &mut Cursor, attrs: &mut Attributes) -> (r: Result<(), CompileError>)
    requires
        old(cur).wf(),
    ensures
        final(cur).wf(),
        final(cur).toks() == old(cur).toks(),
        final(cur).at() >= old(cur).at(),
        match r {
            Ok(_) => grammar::parse_cond_entries(old(cur).toks(), old(cur).at(), old(attrs)@)
                == Ok::<(int, Pairs), CompileError>((final(cur).at(), final(attrs)@)),
            Err(e) => grammar::parse_cond_entries(old(cur).toks(), old(cur).at(), old(attrs)@)
                == Err::<(int, Pairs), CompileError>(e),
        },
{
    let ghost toks = cur.toks();
    let ghost p0 = cur.at();
    let ghost a0 = attrs@;
    loop
        invariant
            cur.wf(),
            cur.toks() == old(cur).toks(),
            toks == cur.toks(),
            p0 == old(cur).at(),
            p0 <= cur.at(),
            a0 == old(attrs)@,
            grammar::parse_cond_entries(toks, p0, a0) == grammar::parse_cond_entries(
                toks,
                cur.at(),
                attrs@,
            ),
        decreases toks.len() - cur.at(),
    {
        let ghost pp = cur.at();
        let ghost aa = attrs@;
        let left: String;
        match cur.peek() {
            None => {
                return Ok(());
            },
            Some(t) => match t {
                Token::RBrace => {
                    cur.advance();
                    return Ok(());
                },
                Token::Identifier(l) => {
                    left = l.clone();
                    proof {
                        assert(toks[pp] == TokenModel::Identifier(left@));
                    }
                },
                _ => {
                    return Err(CompileError::ExpectedConditionLeft);
                },
            },
        }
        cur.advance();
        match cur.peek() {
            Some(Token::Equals) => {},
            _ => {
                return Err(CompileError::ExpectedEquals);
            },
        }
        cur.advance();
        let right: String;
        match cur.peek() {
            None => {
                return Err(CompileError::ExpectedConditionRight);
            },
            Some(t) => match t {
                Token::Number(n) => {
                    right = i16_to_string(*n);
                    proof {
                        assert(toks[pp + 2] == TokenModel::Number(*n as int));
                    }
                    cur.advance();
                },
                Token::Literal(v) => {
                    right = v.clone();
                    proof {
                        assert(toks[pp + 2] == TokenModel::Literal(right@));
                    }
                    cur.advance();
                },
                Token::Identifier(v) => {
                    right = v.clone();
                    proof {
                        assert(toks[pp + 2] == TokenModel::Identifier(right@));
                    }
                    cur.advance();
                },
                _ => {
                    return Err(CompileError::ExpectedConditionRight);
                },
            },
        }
        let mut cond = left;
        cond.append(",");
        cond.append(right.as_str());
        proof {
            assert(grammar::parse_cond_entries(toks, pp, aa) == grammar::parse_cond_entries(
                toks,
                pp + 3,
                dict_put(aa, "data-if"@, cond@),
            ));
        }
        dict_insert(&mut attrs.0, String::from_str("data-if"), cond);
    }
}


/// The modifiers of an element, in any order, each before the first
/// opening brace: `~` records an input binding, `$` an event binding,
/// `:` the text value, `#` a style block, `%` an attribute block and
/// `?` a conditional block. The first token that starts none of these
/// ends the modifiers.
fn parse_modifiers(
    cur: &mut Cursor,
    value: &mut String,
    styles: &mut Styles,
    attrs: &mut Attributes,
) -> (r: Result<(), CompileError>)
    requires
        old(cur).wf(),
    ensures
        final(cur).wf(),
        final(cur).toks() == old(cur).toks(),
        final(cur).at() >= old(cur).at(),
        match r {
            Ok(_) => grammar::parse_modifiers(
                old(cur).toks(),
                old(cur).at(),
                old(value)@,
                old(styles)@,
                old(attrs)@,
            ) == Ok::<(int, Seq<char>, Pairs, Pairs), CompileError>(
                (final(cur).at(), final(value)@, final(styles)@, final(attrs)@),
            ),
            Err(e) => grammar::parse_modifiers(
                old(cur).toks(),
                old(cur).at(),
                old(value)@,
                old(styles)@,
                old(attrs)@,
            ) == Err::<(int, Seq<char>, Pairs, Pairs), CompileError>(e),
        },
{
    let ghost toks = cur.toks();
    let ghost p0 = cur.at();
    let ghost v0 = value@;
    let ghost s0 = styles@;
    let ghost a0 = attrs@;
    loop
        invariant
            cur.wf(),
            cur.toks() == old(cur).toks(),
            toks == cur.toks(),
            p0 == old(cur).at(),
            p0 <= cur.at(),
            v0 == old(value)@,
            s0 == old(styles)@,
            a0 == old(attrs)@,
            grammar::parse_modifiers(toks, p0, v0, s0, a0) == grammar::parse_modifiers(
                toks,
                cur.at(),
                value@,
                styles@,
                attrs@,
            ),
        decreases toks.len() - cur.at(),
    {
        let ghost pp = cur.at();
        let ghost vv = value@;
        let ghost ss = styles@;
        let ghost aa = attrs@;
        match cur.peek() {
            None => {
                return Ok(());
            },
            Some(t) => match t {
                Token::Tilde => {
                    cur.advance();
                    match cur.peek() {
                        Some(Token::Identifier(b)) => {
                            let binding = b.clone();
                            proof {
                                assert(toks[pp + 1] == TokenModel::Identifier(binding@));
                            }
                            cur.advance();
                            proof {
                                assert(grammar::parse_modifiers(toks, pp, vv, ss, aa)
                                    == grammar::parse_modifiers(
                                    toks,
                                    pp + 2,
                                    vv,
                                    ss,
                                    dict_put(aa, "data-model"@, binding@),
                                ));
                            }
                            dict_insert(&mut attrs.0, String::from_str("data-model"), binding);
                        },
                        _ => {
                            return Err(CompileError::ExpectedBindingName);
                        },
                    }
                },
                Token::Dollar => {
                    cur.advance();
                    let event: String;
                    match cur.peek() {
                        Some(Token::Identifier(ev)) => {
                            event = ev.clone();
                            proof {
                                assert(toks[pp + 1] == TokenModel::Identifier(event@));
                            }
                            cur.advance();
                        },
                        _ => {
                            return Err(CompileError::ExpectedEventName);
                        },
                    }
                    match cur.peek() {
                        Some(Token::Colon) => {
                            cur.advance();
                        },
                        _ => {
                            return Err(CompileError::ExpectedColonAfterEvent);
                        },
                    }
                    let code: String;
                    match cur.peek() {
                        Some(Token::Literal(c)) => {
                            code = c.clone();
                            proof {
                                assert(toks[pp + 3] == TokenModel::Literal(code@));
                            }
                            cur.advance();
                        },
                        _ => {
                            return Err(CompileError::ExpectedEventCode);
                        },
                    }
                    let mut key = String::from_str("on");
                    key.append(event.as_str());
                    proof {
                        assert(key@ == "on"@ + event@);
                        assert(grammar::parse_modifiers(toks, pp, vv, ss, aa)
                            == grammar::parse_modifiers(
                            toks,
                            pp + 4,
                            vv,
                            ss,
                            dict_put(aa, "on"@ + event@, code@),
                        ));
                    }
                    dict_insert(&mut attrs.0, key, code);
                },
                Token::Colon => {
                    cur.advance();
                    match cur.peek() {
                        Some(Token::Literal(v)) => {
                            let tv = v.clone();
                            proof {
                                assert(toks[pp + 1] == TokenModel::Literal(tv@));
                            }
                            cur.advance();
                            proof {
                                assert(grammar::parse_modifiers(toks, pp, vv, ss, aa)
                                    == grammar::parse_modifiers(toks, pp + 2, tv@, ss, aa));
                            }
                            *value = tv;
                        },
                        _ => {
                            return Err(CompileError::ExpectedValueLiteral);
                        },
                    }
                },
                Token::Hash => {
                    cur.advance();
                    match cur.peek() {
                        Some(Token::LBrace) => {
                            cur.advance();
                        },
                        _ => {
                            return Err(CompileError::ExpectedStyleBlock);
                        },
                    }
                    match parse_style_entries(cur, styles) {
                        Ok(_) => {
                            proof {
                                assert(grammar::parse_modifiers(toks, pp, vv, ss, aa)
                                    == grammar::parse_modifiers(
                                    toks,
                                    cur.at(),
                                    vv,
                                    styles@,
                                    aa,
                                ));
                            }
                        },
                        Err(e) => {
                            return Err(e);
                        },
                    }
                },
                Token::Percent => {
                    cur.advance();
                    match cur.peek() {
                        Some(Token::LBrace) => {
                            cur.advance();
                        },
                        _ => {
                            return Err(CompileError::ExpectedAttrBlock);
                        },
                    }
                    match parse_attr_entries(cur, attrs) {
                        Ok(_) => {
                            proof {
                                assert(grammar::parse_modifiers(toks, pp, vv, ss, aa)
                                    == grammar::parse_modifiers(toks, cur.at(), vv, ss, attrs@));
                            }
                        },
                        Err(e) => {
                            return Err(e);
                        },
                    }
                },
                Token::QuestionMark => {
                    cur.advance();
                    match cur.peek() {
                        Some(Token::LBrace) => {
                            cur.advance();
                        },
                        _ => {
                            return Err(CompileError::ExpectedConditionBlock);
                        },
                    }
                    match parse_cond_entries(cur, attrs) {
                        Ok(_) => {
                            proof {
                                assert(grammar::parse_modifiers(toks, pp, vv, ss, aa)
                                    == grammar::parse_modifiers(toks, cur.at(), vv, ss, attrs@));
                            }
                        },
                        Err(e) => {
                            return Err(e);
                        },
                    }
                },
                _ => {
                    return Ok(());
                },
            },
        }
    }
}


/// One element construct. A comment before it is skipped. `>` starts
/// an element: a mandatory identifier name, the modifiers, and an
/// optional brace-delimited, depth-tracked children block. A closing
/// brace yields no element and stays put. `[` starts a list block: an
/// identifier naming the iteration source, an optional style block,
/// and a braced template whose first element becomes the single child
/// of a synthetic `div` carrying the `data-list` attribute.
#[verifier::rlimit(80)]
fn parse_element(cur: &mut Cursor) -> (r: Result<Option<ASTNode>, CompileError>)
    requires
        old(cur).wf(),
    ensures
        final(cur).wf(),
        final(cur).toks() == old(cur).toks(),
        final(cur).at() >= old(cur).at(),
        match r {
            Ok(opt) => {
                &&& grammar::parse_elem(old(cur).toks(), old(cur).at()) == Ok::<
                    (int, Option<AstModel>),
                    CompileError,
                >(
                    (
                        final(cur).at(),
                        match opt {
                            Some(n) => Some(n.deep_view()),
                            None => None::<AstModel>,
                        },
                    ),
                )
                &&& (old(cur).at() < old(cur).toks().len() && !(old(cur).toks()[old(
                    cur,
                ).at()] is RBrace) ==> final(cur).at() > old(cur).at())
            },
            Err(e) => grammar::parse_elem(old(cur).toks(), old(cur).at()) == Err::<
                (int, Option<AstModel>),
                CompileError,
            >(e),
        },
    decreases cur.toks().len() - cur.at(),
{
    let ghost toks = cur.toks();
    let ghost p_in = cur.at();
    let is_comment = match cur.peek() {
        Some(Token::Semicolon) => true,
        _ => false,
    };
    if is_comment {
        cur.advance();
        skip_comment(cur);
    }
    let ghost i1 = cur.at();
    proof {
        assert(i1 == (if 0 <= p_in < toks.len() && toks[p_in] is Semicolon {
            grammar::skip_comment(toks, p_in + 1)
        } else {
            p_in
        }));
    }
    match cur.peek() {
        None => {
            return Err(CompileError::ExpectedElement);
        },
        Some(t) => match t {
            Token::Gt => {
                cur.advance();
                let name: String;
                match cur.peek() {
                    Some(Token::Identifier(nm)) => {
                        name = nm.clone();
                        proof {
                            assert(toks[i1 + 1] == TokenModel::Identifier(name@));
                        }
                        cur.advance();
                    },
                    _ => {
                        return Err(CompileError::ExpectedElementName);
                    },
                }
                let ghost nm = name@;
                let mut value = String::new();
                let mut styles = Styles(Vec::new());
                let mut attrs = Attributes(Vec::new());
                proof {
                    assert(styles@ =~= Seq::<(Seq<char>, Seq<char>)>::empty());
                    assert(attrs@ =~= Seq::<(Seq<char>, Seq<char>)>::empty());
                    assert(value@ =~= Seq::<char>::empty());
                }
                match parse_modifiers(cur, &mut value, &mut styles, &mut attrs) {
                    Ok(_) => {},
                    Err(e) => {
                        return Err(e);
                    },
                }
                let ghost i2 = cur.at();
                let ghost vmod = value@;
                let ghost smod = styles@;
                let ghost amod = attrs@;
                let has_children = match cur.peek() {
                    Some(Token::LBrace) => true,
                    _ => false,
                };
                if has_children {
                    cur.advance();
                    let ghost pc = cur.at();
                    let mut children: Vec<ASTNode> = Vec::new();
                    let mut depth: usize = 1;
                    proof {
                        assert(nodes_deep_view(children@) =~= Seq::<AstModel>::empty());
                        assert(match grammar::parse_children(toks, pc, 1, Seq::empty()) {
                            Ok((i3, kids2)) => grammar::parse_elem(toks, p_in) == Ok::<
                                (int, Option<AstModel>),
                                CompileError,
                            >(
                                (
                                    i3,
                                    Some(
                                        AstModel::Element {
                                            name: nm,
                                            value: vmod,
                                            children: kids2,
                                            styles: smod,
                                            attributes: amod,
                                        },
                                    ),
                                ),
                            ),
                            Err(e) => grammar::parse_elem(toks, p_in) == Err::<
                                (int, Option<AstModel>),
                                CompileError,
                            >(e),
                        });
                    }
                    loop
                        invariant_except_break
                            1 <= depth,
                            depth <= cur.at(),
                            grammar::parse_children(toks, pc, 1, Seq::empty())
                                == grammar::parse_children(
                                toks,
                                cur.at(),
                                depth as int,
                                nodes_deep_view(children@),
                            ),
                        invariant
                            cur.wf(),
                            cur.toks() == old(cur).toks(),
                            toks == cur.toks(),
                            p_in == old(cur).at(),
                            p_in < pc <= cur.at(),
                            (match grammar::parse_children(toks, pc, 1, Seq::empty()) {
                                Ok((i3, kids2)) => grammar::parse_elem(toks, p_in) == Ok::<
                                    (int, Option<AstModel>),
                                    CompileError,
                                >(
                                    (
                                        i3,
                                        Some(
                                            AstModel::Element {
                                                name: nm,
                                                value: vmod,
                                                children: kids2,
                                                styles: smod,
                                                attributes: amod,
                                            },
                                        ),
                                    ),
                                ),
                                Err(e) => grammar::parse_elem(toks, p_in) == Err::<
                                    (int, Option<AstModel>),
                                    CompileError,
                                >(e),
                            }),
                        ensures
                            grammar::parse_children(toks, pc, 1, Seq::empty()) == Ok::<
                                (int, Seq<AstModel>),
                                CompileError,
                            >((cur.at(), nodes_deep_view(children@))),
                        decreases toks.len() - cur.at(),
                    {
                        let ghost pq = cur.at();
                        let ghost dd = depth as int;
                        let ghost acc = nodes_deep_view(children@);
                        match cur.peek() {
                            None => {
                                proof {
                                    assert(grammar::parse_children(toks, pq, dd, acc) == Ok::<
                                        (int, Seq<AstModel>),
                                        CompileError,
                                    >((pq, acc)));
                                }
                                break ;
                            },
                            Some(t2) => match t2 {
                                Token::LBrace => {
                                    cur.advance();
                                    depth = depth + 1;
                                    proof {
                                        assert(grammar::parse_children(toks, pq, dd, acc)
                                            == grammar::parse_children(toks, pq + 1, dd + 1, acc));
                                    }
                                },
                                Token::RBrace => {
                                    cur.advance();
                                    if depth == 1 {
                                        proof {
                                            assert(grammar::parse_children(toks, pq, dd, acc)
                                                == Ok::<(int, Seq<AstModel>), CompileError>(
                                                (pq + 1, acc),
                                            ));
                                        }
                                        break ;
                                    } else {
                                        depth = depth - 1;
                                        proof {
                                            assert(grammar::parse_children(toks, pq, dd, acc)
                                                == grammar::parse_children(
                                                toks,
                                                pq + 1,
                                                dd - 1,
                                                acc,
                                            ));
                                        }
                                    }
                                },
                                _ => {
                                    match parse_element(cur) {
                                        Ok(opt) => {
                                            proof {
                                                assert(!(toks[pq] is RBrace));
                                                assert(cur.at() > pq);
                                            }
                                            match opt {
                                                Some(n) => {
                                                    proof {
                                                        lemma_nodes_deep_view_push(children@, n);
                                                    }
                                                    children.push(n);
                                                },
                                                None => {},
                                            }
                                            proof {
                                                assert(grammar::parse_children(toks, pq, dd, acc)
                                                    == grammar::parse_children(
                                                    toks,
                                                    cur.at(),
                                                    dd,
                                                    nodes_deep_view(children@),
                                                ));
                                            }
                                        },
                                        Err(e) => {
                                            proof {
                                                assert(grammar::parse_children(toks, pq, dd, acc)
                                                    == Err::<(int, Seq<AstModel>), CompileError>(
                                                    e,
                                                ));
                                            }
                                            return Err(e);
                                        },
                                    }
                                },
                            },
                        }
                    }
                    let ghost kids = nodes_deep_view(children@);
                    let ghost pend = cur.at();
                    let node = ASTNode::Element {
                        name,
                        value,
                        children,
                        styles,
                        attributes: attrs,
                    };
                    proof {
                        assert(node.deep_view() == AstModel::Element {
                            name: nm,
                            value: vmod,
                            children: kids,
                            styles: smod,
                            attributes: amod,
                        });
                        assert(grammar::parse_elem(toks, p_in) == Ok::<
                            (int, Option<AstModel>),
                            CompileError,
                        >((pend, Some(node.deep_view()))));
                    }
                    return Ok(Some(node));
                } else {
                    let children: Vec<ASTNode> = Vec::new();
                    proof {
                        assert(nodes_deep_view(children@) =~= Seq::<AstModel>::empty());
                    }
                    let ghost pend = cur.at();
                    let node = ASTNode::Element {
                        name,
                        value,
                        children,
                        styles,
                        attributes: attrs,
                    };
                    proof {
                        assert(node.deep_view() == AstModel::Element {
                            name: nm,
                            value: vmod,
                            children: Seq::empty(),
                            styles: smod,
                            attributes: amod,
                        });
                        assert(grammar::parse_elem(toks, p_in) == Ok::<
                            (int, Option<AstModel>),
                            CompileError,
                        >((pend, Some(node.deep_view()))));
                    }
                    return Ok(Some(node));
                }
            },
            Token::RBrace => {
                proof {
                    assert(grammar::parse_elem(toks, p_in) == Ok::<
                        (int, Option<AstModel>),
                        CompileError,
                    >((i1, None::<AstModel>)));
                }
                return Ok(None);
            },
            Token::LBracket => {
                cur.advance();
                let lname: String;
                match cur.peek() {
                    Some(Token::Identifier(l)) => {
                        lname = l.clone();
                        proof {
                            assert(toks[i1 + 1] == TokenModel::Identifier(lname@));
                        }
                        cur.advance();
                    },
                    _ => {
                        return Err(CompileError::ExpectedListName);
                    },
                }
                let ghost lnm = lname@;
                cur.advance();
                let ghost i2 = cur.at();
                proof {
                    assert(i2 == grammar::adv(toks, i1 + 2));
                }
                let mut styles = Styles(Vec::new());
                proof {
                    assert(styles@ =~= Seq::<(Seq<char>, Seq<char>)>::empty());
                }
                let has_style = match cur.peek() {
                    Some(Token::Hash) => true,
                    _ => false,
                };
                if has_style {
                    cur.advance();
                    match cur.peek() {
                        Some(Token::LBrace) => {
                            cur.advance();
                        },
                        _ => {
                            return Err(CompileError::ExpectedStyleBlock);
                        },
                    }
                    match parse_style_entries(cur, &mut styles) {
                        Ok(_) => {},
                        Err(e) => {
                            return Err(e);
                        },
                    }
                }
                let ghost i3 = cur.at();
                let ghost sfin = styles@;
                cur.advance();
                let ghost i4 = cur.at();
                proof {
                    assert(i4 == grammar::adv(toks, i3));
                }
                match parse_element(cur) {
                    Ok(opt) => {
                        let ghost i5 = cur.at();
                        let mut children: Vec<ASTNode> = Vec::new();
                        proof {
                            assert(nodes_deep_view(children@) =~= Seq::<AstModel>::empty());
                        }
                        match opt {
                            Some(c) => {
                                proof {
                                    lemma_nodes_deep_view_push(children@, c);
                                }
                                children.push(c);
                            },
                            None => {},
                        }
                        let ghost kids = nodes_deep_view(children@);
                        cur.advance();
                        let ghost i6 = cur.at();
                        let mut attrs = Attributes(Vec::new());
                        dict_insert(&mut attrs.0, String::from_str("data-list"), lname);
                        proof {
                            assert(attrs@ =~= seq![("data-list"@, lnm)]);
                        }
                        let node = ASTNode::Element {
                            name: String::from_str("div"),
                            value: String::new(),
                            children,
                            styles,
                            attributes: attrs,
                        };
                        proof {
                            assert(node.deep_view() == AstModel::Element {
                                name: "div"@,
                                value: Seq::empty(),
                                children: kids,
                                styles: sfin,
                                attributes: seq![("data-list"@, lnm)],
                            });
                            assert(grammar::parse_elem(toks, p_in) == Ok::<
                                (int, Option<AstModel>),
                                CompileError,
                            >((i6, Some(node.deep_view()))));
                        }
                        return Ok(Some(node));
                    },
                    Err(e) => {
                        return Err(e);
                    },
                }
            },
            _ => {
                return Err(CompileError::ExpectedElement);
            },
        },
    }
}



/// The title clause of the application body: the colon is consumed
/// and a following literal, if any, replaces the title; any other
/// following token is consumed and ignored.
fn parse_app_title(
    cur: &mut Cursor,
    title: &mut String,
    Ghost(cc): Ghost<Seq<AstModel>>,
    Ghost(st): Ghost<Pairs>,
    Ghost(lg): Ghost<Seq<char>>,
) -> (r: ())
    requires
        old(cur).wf(),
        old(cur).at() < old(cur).toks().len(),
        old(cur).toks()[old(cur).at()] is Colon,
    ensures
        final(cur).wf(),
        final(cur).toks() == old(cur).toks(),
        final(cur).at() > old(cur).at(),
        grammar::parse_app_items(old(cur).toks(), old(cur).at(), cc, old(title)@, st, lg)
            == grammar::parse_app_items(
            old(cur).toks(),
            final(cur).at(),
            cc,
            final(title)@,
            st,
            lg,
        ),
{
    let ghost toks = cur.toks();
    let ghost pp = cur.at();
    let ghost tt = title@;
    cur.advance();
    match cur.peek() {
        Some(Token::Literal(v)) => {
            let tv = v.clone();
            proof {
                assert(toks[pp + 1] == TokenModel::Literal(tv@));
            }
            cur.advance();
            *title = tv;
            proof {
                assert(grammar::parse_app_items(toks, pp, cc, tt, st, lg)
                    == grammar::parse_app_items(toks, pp + 2, cc, title@, st, lg));
            }
        },
        None => {
            proof {
                assert(grammar::parse_app_items(toks, pp, cc, tt, st, lg)
                    == grammar::parse_app_items(toks, pp + 1, cc, tt, st, lg));
            }
        },
        Some(_) => {
            cur.advance();
            proof {
                assert(grammar::parse_app_items(toks, pp, cc, tt, st, lg)
                    == grammar::parse_app_items(toks, pp + 2, cc, tt, st, lg));
            }
        },
    }
}

/// The `@remember` clause of the application body: the `@` is
/// consumed; an identifier other than `remember`, or a missing block,
/// is fatal; a well-formed block merges its entries into the state.
fn parse_app_remember(
    cur: &mut Cursor,
    state: &mut State,
    Ghost(cc): Ghost<Seq<AstModel>>,
    Ghost(tt): Ghost<Seq<char>>,
    Ghost(lg): Ghost<Seq<char>>,
) -> (r: Result<(), CompileError>)
    requires
        old(cur).wf(),
        old(cur).at() < old(cur).toks().len(),
        old(cur).toks()[old(cur).at()] is At,
    ensures
        final(cur).wf(),
        final(cur).toks() == old(cur).toks(),
        final(cur).at() > old(cur).at(),
        match r {
            Ok(_) => grammar::parse_app_items(old(cur).toks(), old(cur).at(), cc, tt, old(state)@, lg)
                == grammar::parse_app_items(
                old(cur).toks(),
                final(cur).at(),
                cc,
                tt,
                final(state)@,
                lg,
            ),
            Err(e) => grammar::parse_app_items(old(cur).toks(), old(cur).at(), cc, tt, old(state)@, lg)
                == Err::<grammar::AppParts, CompileError>(e),
        },
{
    let ghost toks = cur.toks();
    let ghost pp = cur.at();
    let ghost st = state@;
    cur.advance();
    match cur.peek() {
        None => {
            proof {
                assert(grammar::parse_app_items(toks, pp, cc, tt, st, lg)
                    == grammar::parse_app_items(toks, pp + 1, cc, tt, st, lg));
            }
            Ok(())
        },
        Some(Token::Identifier(id)) => {
            proof {
                assert(toks[pp + 1] == TokenModel::Identifier(id@));
            }
            if !eq_lit(id, "remember") {
                return Err(CompileError::ExpectedRemember);
            }
            cur.advance();
            match cur.peek() {
                Some(Token::LBrace) => {
                    cur.advance();
                },
                _ => {
                    return Err(CompileError::ExpectedRememberBlock);
                },
            }
            match parse_state_entries(cur, state) {
                Ok(_) => {
                    proof {
                        assert(cur.at() >= pp + 3);
                        assert(grammar::parse_app_items(toks, pp, cc, tt, st, lg)
                            == grammar::parse_app_items(toks, cur.at(), cc, tt, state@, lg));
                    }
                    Ok(())
                },
                Err(e) => Err(e),
            }
        },
        Some(_) => {
            cur.advance();
            proof {
                assert(grammar::parse_app_items(toks, pp, cc, tt, st, lg)
                    == grammar::parse_app_items(toks, pp + 2, cc, tt, st, lg));
            }
            Ok(())
        },
    }
}

/// The raw-logic clause of the application body: the `$` is consumed
/// and a following literal, if any, replaces the logic payload; any
/// other following token is consumed and ignored.
fn parse_app_logic(
    cur: &mut Cursor,
    logic: &mut String,
    Ghost(cc): Ghost<Seq<AstModel>>,
    Ghost(tt): Ghost<Seq<char>>,
    Ghost(st): Ghost<Pairs>,
) -> (r: ())
    requires
        old(cur).wf(),
        old(cur).at() < old(cur).toks().len(),
        old(cur).toks()[old(cur).at()] is Dollar,
    ensures
        final(cur).wf(),
        final(cur).toks() == old(cur).toks(),
        final(cur).at() > old(cur).at(),
        grammar::parse_app_items(old(cur).toks(), old(cur).at(), cc, tt, st, old(logic)@)
            == grammar::parse_app_items(
            old(cur).toks(),
            final(cur).at(),
            cc,
            tt,
            st,
            final(logic)@,
        ),
{
    let ghost toks = cur.toks();
    let ghost pp = cur.at();
    let ghost lg = logic@;
    cur.advance();
    match cur.peek() {
        Some(Token::Literal(v)) => {
            let lv = v.clone();
            proof {
                assert(toks[pp + 1] == TokenModel::Literal(lv@));
            }
            cur.advance();
            *logic = lv;
            proof {
                assert(grammar::parse_app_items(toks, pp, cc, tt, st, lg)
                    == grammar::parse_app_items(toks, pp + 2, cc, tt, st, logic@));
            }
        },
        None => {
            proof {
                assert(grammar::parse_app_items(toks, pp, cc, tt, st, lg)
                    == grammar::parse_app_items(toks, pp + 1, cc, tt, st, lg));
            }
        },
        Some(_) => {
            cur.advance();
            proof {
                assert(grammar::parse_app_items(toks, pp, cc, tt, st, lg)
                    == grammar::parse_app_items(toks, pp + 2, cc, tt, st, lg));
            }
        },
    }
}

impl Parser {
    /// Wraps one source text for compilation.
    pub fn new(text: String) -> (p: Self)
        ensures
            p@ == text@,
    {
        Parser { text }
    }

    /// Lexes the source into its token stream: exactly the tokens of
    /// the specification-level lexer, or the numeric failure when it
    /// has none.
    pub fn tokenize(&self) -> (r: Result<Vec<Token>, CompileError>)
        ensures
            match r {
                Ok(v) => lex_spec(self@) == Some(v.deep_view()),
                Err(e) => lex_spec(self@) is None && e == CompileError::NumberOverflow,
            },
    {
        lex(self.text.as_str())
    }

    /// Parses a token stream into the tree: exactly the result of the
    /// specification-level parser. The first token must be the
    /// identifier `app`; the body then collects the title, the state,
    /// the logic payload and the child elements until the closing
    /// brace.
    #[verifier::rlimit(100)]
    pub fn parse(tokens: &Vec<Token>) -> (r: Result<ASTNode, CompileError>)
        ensures
            match r {
                Ok(node) => grammar::parse_spec(tokens.deep_view()) == Ok::<
                    AstModel,
                    CompileError,
                >(node.deep_view()),
                Err(e) => grammar::parse_spec(tokens.deep_view()) == Err::<
                    AstModel,
                    CompileError,
                >(e),
            },
    {
        let ghost toks = tokens.deep_view();
        let mut cur = Cursor::new(tokens);
        match cur.peek() {
            Some(Token::Identifier(id)) => {
                proof {
                    assert(toks[0] == TokenModel::Identifier(id@));
                }
                if !eq_lit(id, "app") {
                    return Err(CompileError::ExpectedApp);
                }
            },
            _ => {
                return Err(CompileError::ExpectedApp);
            },
        }
        cur.advance();
        let mut children: Vec<ASTNode> = Vec::new();
        let mut title = String::from_str("Website");
        let mut state = State(Vec::new());
        let mut logic = String::new();
        proof {
            assert(nodes_deep_view(children@) =~= Seq::<AstModel>::empty());
            assert(state@ =~= Seq::<(Seq<char>, Seq<char>)>::empty());
            assert(logic@ =~= Seq::<char>::empty());
        }
        loop
            invariant_except_break
                grammar::parse_app_items(
                    toks,
                    1,
                    Seq::empty(),
                    "Website"@,
                    Seq::empty(),
                    Seq::empty(),
                ) == grammar::parse_app_items(
                    toks,
                    cur.at(),
                    nodes_deep_view(children@),
                    title@,
                    state@,
                    logic@,
                ),
            invariant
                cur.wf(),
                toks == cur.toks(),
                toks == tokens.deep_view(),
                1 <= cur.at(),
                (match grammar::parse_app_items(
                    toks,
                    1,
                    Seq::empty(),
                    "Website"@,
                    Seq::empty(),
                    Seq::empty(),
                ) {
                    Ok(parts) => grammar::parse_spec(toks) == Ok::<AstModel, CompileError>(
                        AstModel::App {
                            children: parts.children,
                            title: parts.title,
                            state: parts.state,
                            logic_code: parts.logic,
                        },
                    ),
                    Err(e) => grammar::parse_spec(toks) == Err::<AstModel, CompileError>(e),
                }),
            ensures
                grammar::parse_app_items(
                    toks,
                    1,
                    Seq::empty(),
                    "Website"@,
                    Seq::empty(),
                    Seq::empty(),
                ) == Ok::<grammar::AppParts, CompileError>(
                    grammar::AppParts {
                        pos: cur.at(),
                        children: nodes_deep_view(children@),
                        title: title@,
                        state: state@,
                        logic: logic@,
                    },
                ),
            decreases toks.len() - cur.at(),
        {
            let ghost pp = cur.at();
            let ghost cc = nodes_deep_view(children@);
            let ghost tt = title@;
            let ghost st = state@;
            let ghost lg = logic@;
            match cur.peek() {
                None => {
                    proof {
                        assert(grammar::parse_app_items(toks, pp, cc, tt, st, lg) == Ok::<
                            grammar::AppParts,
                            CompileError,
                        >(grammar::AppParts { pos: pp, children: cc, title: tt, state: st, logic: lg }));
                    }
                    break ;
                },
                Some(t) => match t {
                    Token::Colon => {
                        parse_app_title(&mut cur, &mut title, Ghost(cc), Ghost(st), Ghost(lg));
                    },
                    Token::RBrace => {
                        cur.advance();
                        proof {
                            assert(grammar::parse_app_items(toks, pp, cc, tt, st, lg) == Ok::<
                                grammar::AppParts,
                                CompileError,
                            >(
                                grammar::AppParts {
                                    pos: pp + 1,
                                    children: cc,
                                    title: tt,
                                    state: st,
                                    logic: lg,
                                },
                            ));
                        }
                        break ;
                    },
                    Token::Semicolon => {
                        cur.advance();
                        skip_comment(&mut cur);
                        proof {
                            assert(grammar::parse_app_items(toks, pp, cc, tt, st, lg)
                                == grammar::parse_app_items(
                                toks,
                                grammar::skip_comment(toks, pp + 1),
                                cc,
                                tt,
                                st,
                                lg,
                            ));
                        }
                    },
                    Token::LBrace => {
                        cur.advance();
                        proof {
                            assert(grammar::parse_app_items(toks, pp, cc, tt, st, lg)
                                == grammar::parse_app_items(toks, pp + 1, cc, tt, st, lg));
                        }
                    },
                    Token::At => {
                        match parse_app_remember(
                            &mut cur,
                            &mut state,
                            Ghost(cc),
                            Ghost(tt),
                            Ghost(lg),
                        ) {
                            Ok(_) => {},
                            Err(e) => {
                                return Err(e);
                            },
                        }
                    },
                    Token::Dollar => {
                        parse_app_logic(&mut cur, &mut logic, Ghost(cc), Ghost(tt), Ghost(st));
                    },
                    _ => {
                        match parse_element(&mut cur) {
                            Ok(opt) => {
                                proof {
                                    assert(!(toks[pp] is RBrace));
                                    assert(cur.at() > pp);
                                }
                                match opt {
                                    Some(n) => {
                                        proof {
                                            lemma_nodes_deep_view_push(children@, n);
                                        }
                                        children.push(n);
                                        proof {
                                            assert(grammar::parse_app_items(toks, pp, cc, tt, st, lg)
                                                == grammar::parse_app_items(
                                                toks,
                                                cur.at(),
                                                nodes_deep_view(children@),
                                                tt,
                                                st,
                                                lg,
                                            ));
                                        }
                                    },
                                    None => {
                                        let ghost q = cur.at();
                                        cur.advance();
                                        proof {
                                            assert(cur.at() == grammar::adv(toks, q));
                                            assert(grammar::parse_app_items(toks, pp, cc, tt, st, lg)
                                                == grammar::parse_app_items(
                                                toks,
                                                cur.at(),
                                                cc,
                                                tt,
                                                st,
                                                lg,
                                            ));
                                        }
                                    },
                                }
                            },
                            Err(e) => {
                                return Err(e);
                            },
                        }
                    },
                },
            }
        }
        let ghost ck = nodes_deep_view(children@);
        let ghost tk = title@;
        let ghost sk = state@;
        let ghost lk = logic@;
        let node = ASTNode::App { children, title, state, logic_code: logic };
        proof {
            assert(node.deep_view() == AstModel::App {
                children: ck,
                title: tk,
                state: sk,
                logic_code: lk,
            });
            assert(grammar::parse_spec(toks) == Ok::<AstModel, CompileError>(node.deep_view()));
        }
        Ok(node)
    }
}

} // verus!
