//! Lexing: source text becomes a token stream terminated by an
//! end-of-input marker.
//!
//! `lex_from` is the specification-level lexer; the executable lexer is
//! proved to produce exactly its result. Lexing fails only when a run
//! of numeric characters is not a valid 16-bit signed integer.

use crate::error::CompileError;
use crate::text::char_alpha;
use crate::text::char_num;
use crate::text::chars_slice_string;
use crate::text::str_to_chars;
use crate::token::Token;
use crate::token::TokenModel;
use vstd::prelude::*;

verus! {

/// The first position of `c` in `s` at or after `i`, or `s.len()`.
pub open spec fn scan_to(s: Seq<char>, c: char, i: int) -> int
    decreases s.len() - i,
{
    if i < 0 || i >= s.len() {
        s.len() as int
    } else if s[i] == c {
        i
    } else {
        scan_to(s, c, i + 1)
    }
}

/// The position just past the first `c` at or after `i`, or `s.len()`
/// when there is none.
pub open spec fn skip_past(s: Seq<char>, c: char, i: int) -> int {
    let k = scan_to(s, c, i);
    if k < s.len() {
        k + 1
    } else {
        k
    }
}

/// The end of an identifier that continues at `i`: the first position
/// whose character is not alphanumeric and not an underscore.
pub open spec fn scan_ident(s: Seq<char>, i: int) -> int
    decreases s.len() - i,
{
    if i < 0 || i >= s.len() {
        s.len() as int
    } else if char_alpha(s[i]) || char_num(s[i]) || s[i] == '_' {
        scan_ident(s, i + 1)
    } else {
        i
    }
}

/// The end of a number that continues at `i`: the first position whose
/// character is not numeric.
pub open spec fn scan_num(s: Seq<char>, i: int) -> int
    decreases s.len() - i,
{
    if i < 0 || i >= s.len() {
        s.len() as int
    } else if char_num(s[i]) {
        scan_num(s, i + 1)
    } else {
        i
    }
}

/// Whether `c` is one of the ten ASCII decimal digits.
pub open spec fn is_dec_digit(c: char) -> bool {
    '0' <= c && c <= '9'
}

/// The value of an ASCII decimal digit.
pub open spec fn digit_val(c: char) -> int {
    c as int - '0' as int
}

/// Whether every character of `ds` is an ASCII decimal digit.
pub open spec fn all_digits(ds: Seq<char>) -> bool {
    forall|i: int| 0 <= i < ds.len() ==> is_dec_digit(#[trigger] ds[i])
}

/// The value of a run of ASCII decimal digits.
pub open spec fn digits_val(ds: Seq<char>) -> int
    decreases ds.len(),
{
    if ds.len() == 0 {
        0
    } else {
        digits_val(ds.drop_last()) * 10 + digit_val(ds.last())
    }
}

/// A digit run's value is non-negative and no smaller than the value
/// of any of its prefixes.
pub proof fn lemma_digits_val_prefix(ds: Seq<char>, m: int)
    requires
        all_digits(ds),
        0 <= m <= ds.len(),
    ensures
        digits_val(ds) >= digits_val(ds.take(m)) >= 0,
    decreases ds.len() - m,
{
    if m == ds.len() {
        assert(ds.take(m) =~= ds);
        lemma_digits_val_nonneg(ds);
    } else {
        lemma_digits_val_prefix(ds, m + 1);
        assert(ds.take(m + 1).drop_last() =~= ds.take(m));
        assert(ds.take(m + 1).last() == ds[m]);
        lemma_digits_val_nonneg(ds.take(m));
    }
}

/// A digit run's value is non-negative.
pub proof fn lemma_digits_val_nonneg(ds: Seq<char>)
    requires
        all_digits(ds),
    ensures
        digits_val(ds) >= 0,
    decreases ds.len(),
{
    if ds.len() > 0 {
        assert(all_digits(ds.drop_last()));
        lemma_digits_val_nonneg(ds.drop_last());
    }
}

/// Prepends tokens to a lexing result; a failure stays a failure.
pub open spec fn opt_app(pre: Seq<TokenModel>, rest: Option<Seq<TokenModel>>) -> Option<
    Seq<TokenModel>,
> {
    match rest {
        Some(r) => Some(pre + r),
        None => None,
    }
}

/// The tokens lexed from position `i` to the end of the text, ending
/// with the end-of-input marker; `None` when a numeric run is not a
/// valid 16-bit signed integer.
///
/// Single characters map to their sigil tokens; `==` must be the
/// two-character sequence and a lone `=` is dropped; `$$` starts a raw
/// logic literal, first skipping past one backtick and then capturing
/// up to the next; a double quote captures a literal up to the next
/// quote; an alphabetic character starts an identifier; a numeric
/// character starts a number; every other character is dropped.
pub open spec fn lex_from(s: Seq<char>, i: int) -> Option<Seq<TokenModel>>
    decreases s.len() - i,
    via lex_from_decreases
{
    if i < 0 || i >= s.len() {
        Some(seq![TokenModel::Eof])
    } else {
        let c = s[i];
        if c == '{' {
            opt_app(seq![TokenModel::LBrace], lex_from(s, i + 1))
        } else if c == '}' {
            opt_app(seq![TokenModel::RBrace], lex_from(s, i + 1))
        } else if c == '>' {
            opt_app(seq![TokenModel::Gt], lex_from(s, i + 1))
        } else if c == ':' {
            opt_app(seq![TokenModel::Colon], lex_from(s, i + 1))
        } else if c == '#' {
            opt_app(seq![TokenModel::Hash], lex_from(s, i + 1))
        } else if c == ',' {
            opt_app(seq![TokenModel::Comma], lex_from(s, i + 1))
        } else if c == '@' {
            opt_app(seq![TokenModel::At], lex_from(s, i + 1))
        } else if c == '%' {
            opt_app(seq![TokenModel::Percent], lex_from(s, i + 1))
        } else if c == ';' {
            opt_app(seq![TokenModel::Semicolon], lex_from(s, i + 1))
        } else if c == '~' {
            opt_app(seq![TokenModel::Tilde], lex_from(s, i + 1))
        } else if c == '?' {
            opt_app(seq![TokenModel::QuestionMark], lex_from(s, i + 1))
        } else if c == '[' {
            opt_app(seq![TokenModel::LBracket], lex_from(s, i + 1))
        } else if c == ']' {
            opt_app(seq![TokenModel::RBracket], lex_from(s, i + 1))
        } else if c == '=' {
            if i + 1 < s.len() && s[i + 1] == '=' {
                opt_app(seq![TokenModel::Equals], lex_from(s, i + 2))
            } else {
                lex_from(s, i + 1)
            }
        } else if c == '$' {
            if i + 1 < s.len() && s[i + 1] == '$' {
                let j = skip_past(s, '`', i + 2);
                let k = scan_to(s, '`', j);
                let next = if k < s.len() {
                    k + 1
                } else {
                    k
                };
                opt_app(
                    seq![TokenModel::Dollar, TokenModel::Literal(s.subrange(j, k))],
                    lex_from(s, next),
                )
            } else {
                opt_app(seq![TokenModel::Dollar], lex_from(s, i + 1))
            }
        } else if c == '"' {
            let k = scan_to(s, '"', i + 1);
            let next = if k < s.len() {
                k + 1
            } else {
                k
            };
            opt_app(seq![TokenModel::Literal(s.subrange(i + 1, k))], lex_from(s, next))
        } else if char_alpha(c) {
            let j = scan_ident(s, i + 1);
            opt_app(seq![TokenModel::Identifier(s.subrange(i, j))], lex_from(s, j))
        } else if char_num(c) {
            let j = scan_num(s, i + 1);
            let ds = s.subrange(i, j);
            if all_digits(ds) && digits_val(ds) <= 32767 {
                opt_app(seq![TokenModel::Number(digits_val(ds))], lex_from(s, j))
            } else {
                None
            }
        } else {
            lex_from(s, i + 1)
        }
    }
}

#[via_fn]
proof fn lex_from_decreases(s: Seq<char>, i: int) {
    if 0 <= i && i < s.len() {
        if i + 2 <= s.len() {
            lemma_scan_to_bounds(s, '`', i + 2);
        } else {
            assert(scan_to(s, '`', i + 2) == s.len());
        }
        let j = skip_past(s, '`', i + 2);
        assert(j >= i + 1);
        lemma_scan_to_bounds(s, '`', j);
        lemma_scan_to_bounds(s, '"', i + 1);
        lemma_scan_ident_bounds(s, i + 1);
        lemma_scan_num_bounds(s, i + 1);
    }
}

/// The token stream of a whole text.
pub open spec fn lex_spec(s: Seq<char>) -> Option<Seq<TokenModel>> {
    lex_from(s, 0)
}

/// Prepending in two steps equals prepending the concatenation.
proof fn lemma_opt_app_assoc(a: Seq<TokenModel>, b: Seq<TokenModel>, rest: Option<Seq<TokenModel>>)
    ensures
        opt_app(a + b, rest) == opt_app(a, opt_app(b, rest)),
{
    match rest {
        Some(r) => {
            assert((a + b) + r =~= a + (b + r));
        },
        None => {},
    }
}

/// `scan_to` is no smaller than its start and lands on its target or
/// the end.
pub proof fn lemma_scan_to_bounds(s: Seq<char>, c: char, i: int)
    requires
        0 <= i,
    ensures
        scan_to(s, c, i) <= s.len(),
        i <= s.len() ==> i <= scan_to(s, c, i),
        scan_to(s, c, i) < s.len() ==> s[scan_to(s, c, i)] == c,
    decreases s.len() - i,
{
    if i < s.len() && s[i] != c {
        lemma_scan_to_bounds(s, c, i + 1);
    }
}

/// `scan_ident` is no smaller than its start and at most the end.
pub proof fn lemma_scan_ident_bounds(s: Seq<char>, i: int)
    requires
        0 <= i,
    ensures
        scan_ident(s, i) <= s.len(),
        i <= s.len() ==> i <= scan_ident(s, i),
    decreases s.len() - i,
{
    if i < s.len() && (char_alpha(s[i]) || char_num(s[i]) || s[i] == '_') {
        lemma_scan_ident_bounds(s, i + 1);
    }
}

/// `scan_num` is no smaller than its start and at most the end.
pub proof fn lemma_scan_num_bounds(s: Seq<char>, i: int)
    requires
        0 <= i,
    ensures
        scan_num(s, i) <= s.len(),
        i <= s.len() ==> i <= scan_num(s, i),
    decreases s.len() - i,
{
    if i < s.len() && char_num(s[i]) {
        lemma_scan_num_bounds(s, i + 1);
    }
}


/// Lexes a whole text into its token stream: exactly the tokens of
/// `lex_spec`, or the numeric failure when `lex_spec` has none.
pub fn lex(text: &str) -> (r: Result<Vec<Token>, CompileError>)
    ensures
        match r {
            Ok(v) => lex_spec(text@) == Some(v.deep_view()),
            Err(e) => lex_spec(text@) is None && e == CompileError::NumberOverflow,
        },
{
    let chars = str_to_chars(text);
    let ghost cs = text@;
    let n = chars.len();
    let mut tokens: Vec<Token> = Vec::new();
    let mut i: usize = 0;
    while i < n
        invariant
            cs == chars@,
            cs == text@,
            n == cs.len(),
            i <= n,
            opt_app(tokens.deep_view(), lex_from(cs, i as int)) == lex_from(cs, 0),
        decreases n - i,
    {
        let ghost d0 = tokens.deep_view();
        let ghost i0 = i as int;
        let c = chars[i];
        if c == '{' {
            tokens.push(Token::LBrace);
            i = i + 1;
            proof {
                assert(tokens.deep_view() =~= d0 + seq![TokenModel::LBrace]);
                assert(lex_from(cs, i0) == opt_app(seq![TokenModel::LBrace], lex_from(cs, i as int)));
                lemma_opt_app_assoc(d0, seq![TokenModel::LBrace], lex_from(cs, i as int));
            }
        } else if c == '}' {
            tokens.push(Token::RBrace);
            i = i + 1;
            proof {
                assert(tokens.deep_view() =~= d0 + seq![TokenModel::RBrace]);
                assert(lex_from(cs, i0) == opt_app(seq![TokenModel::RBrace], lex_from(cs, i as int)));
                lemma_opt_app_assoc(d0, seq![TokenModel::RBrace], lex_from(cs, i as int));
            }
        } else if c == '>' {
            tokens.push(Token::Gt);
            i = i + 1;
            proof {
                assert(tokens.deep_view() =~= d0 + seq![TokenModel::Gt]);
                assert(lex_from(cs, i0) == opt_app(seq![TokenModel::Gt], lex_from(cs, i as int)));
                lemma_opt_app_assoc(d0, seq![TokenModel::Gt], lex_from(cs, i as int));
            }
        } else if c == ':' {
            tokens.push(Token::Colon);
            i = i + 1;
            proof {
                assert(tokens.deep_view() =~= d0 + seq![TokenModel::Colon]);
                assert(lex_from(cs, i0) == opt_app(seq![TokenModel::Colon], lex_from(cs, i as int)));
                lemma_opt_app_assoc(d0, seq![TokenModel::Colon], lex_from(cs, i as int));
            }
        } else if c == '#' {
            tokens.push(Token::Hash);
            i = i + 1;
            proof {
                assert(tokens.deep_view() =~= d0 + seq![TokenModel::Hash]);
                assert(lex_from(cs, i0) == opt_app(seq![TokenModel::Hash], lex_from(cs, i as int)));
                lemma_opt_app_assoc(d0, seq![TokenModel::Hash], lex_from(cs, i as int));
            }
        } else if c == ',' {
            tokens.push(Token::Comma);
            i = i + 1;
            proof {
                assert(tokens.deep_view() =~= d0 + seq![TokenModel::Comma]);
                assert(lex_from(cs, i0) == opt_app(seq![TokenModel::Comma], lex_from(cs, i as int)));
                lemma_opt_app_assoc(d0, seq![TokenModel::Comma], lex_from(cs, i as int));
            }
        } else if c == '@' {
            tokens.push(Token::At);
            i = i + 1;
            proof {
                assert(tokens.deep_view() =~= d0 + seq![TokenModel::At]);
                assert(lex_from(cs, i0) == opt_app(seq![TokenModel::At], lex_from(cs, i as int)));
                lemma_opt_app_assoc(d0, seq![TokenModel::At], lex_from(cs, i as int));
            }
        } else if c == '%' {
            tokens.push(Token::Percent);
            i = i + 1;
            proof {
                assert(tokens.deep_view() =~= d0 + seq![TokenModel::Percent]);
                assert(lex_from(cs, i0) == opt_app(seq![TokenModel::Percent], lex_from(cs, i as int)));
                lemma_opt_app_assoc(d0, seq![TokenModel::Percent], lex_from(cs, i as int));
            }
        } else if c == ';' {
            tokens.push(Token::Semicolon);
            i = i + 1;
            proof {
                assert(tokens.deep_view() =~= d0 + seq![TokenModel::Semicolon]);
                assert(lex_from(cs, i0) == opt_app(seq![TokenModel::Semicolon], lex_from(cs, i as int)));
                lemma_opt_app_assoc(d0, seq![TokenModel::Semicolon], lex_from(cs, i as int));
            }
        } else if c == '~' {
            tokens.push(Token::Tilde);
            i = i + 1;
            proof {
                assert(tokens.deep_view() =~= d0 + seq![TokenModel::Tilde]);
                assert(lex_from(cs, i0) == opt_app(seq![TokenModel::Tilde], lex_from(cs, i as int)));
                lemma_opt_app_assoc(d0, seq![TokenModel::Tilde], lex_from(cs, i as int));
            }
        } else if c == '?' {
            tokens.push(Token::QuestionMark);
            i = i + 1;
            proof {
                assert(tokens.deep_view() =~= d0 + seq![TokenModel::QuestionMark]);
                assert(lex_from(cs, i0) == opt_app(seq![TokenModel::QuestionMark], lex_from(cs, i as int)));
                lemma_opt_app_assoc(d0, seq![TokenModel::QuestionMark], lex_from(cs, i as int));
            }
        } else if c == '[' {
            tokens.push(Token::LBracket);
            i = i + 1;
            proof {
                assert(tokens.deep_view() =~= d0 + seq![TokenModel::LBracket]);
                assert(lex_from(cs, i0) == opt_app(seq![TokenModel::LBracket], lex_from(cs, i as int)));
                lemma_opt_app_assoc(d0, seq![TokenModel::LBracket], lex_from(cs, i as int));
            }
        } else if c == ']' {
            tokens.push(Token::RBracket);
            i = i + 1;
            proof {
                assert(tokens.deep_view() =~= d0 + seq![TokenModel::RBracket]);
                assert(lex_from(cs, i0) == opt_app(seq![TokenModel::RBracket], lex_from(cs, i as int)));
                lemma_opt_app_assoc(d0, seq![TokenModel::RBracket], lex_from(cs, i as int));
            }
        } else  if c == '=' {
            if i + 1 < n && chars[i + 1] == '=' {
                tokens.push(Token::Equals);
                i = i + 2;
                proof {
                    assert(tokens.deep_view() =~= d0 + seq![TokenModel::Equals]);
                    assert(lex_from(cs, i0) == opt_app(seq![TokenModel::Equals], lex_from(cs, i as int)));
                    lemma_opt_app_assoc(d0, seq![TokenModel::Equals], lex_from(cs, i as int));
                }
            } else {
                i = i + 1;
                proof {
                    assert(lex_from(cs, i0) == lex_from(cs, i as int));
                }
            }
        } else if c == '$' {
            tokens.push(Token::Dollar);
            if i + 1 < n && chars[i + 1] == '$' {
                let mut j: usize = i + 2;
                #[verifier::loop_isolation(false)]
                while j < n && chars[j] != '`'
                    invariant
                        i + 2 <= j <= n,
                        scan_to(cs, '`', i0 + 2) == scan_to(cs, '`', j as int),
                    decreases n - j,
                {
                    j = j + 1;
                }
                proof {
                    assert(j as int == scan_to(cs, '`', i0 + 2));
                }
                if j < n {
                    j = j + 1;
                }
                proof {
                    assert(j as int == skip_past(cs, '`', i0 + 2));
                }
                let start: usize = j;
                let mut k: usize = j;
                #[verifier::loop_isolation(false)]
                while k < n && chars[k] != '`'
                    invariant
                        start <= k <= n,
                        scan_to(cs, '`', start as int) == scan_to(cs, '`', k as int),
                    decreases n - k,
                {
                    k = k + 1;
                }
                proof {
                    assert(k as int == scan_to(cs, '`', start as int));
                }
                let lit = chars_slice_string(&chars, start, k);
                tokens.push(Token::Literal(lit));
                i = if k < n {
                    k + 1
                } else {
                    k
                };
                proof {
                    let ghost pre = seq![
                        TokenModel::Dollar,
                        TokenModel::Literal(cs.subrange(start as int, k as int)),
                    ];
                    assert(tokens.deep_view() =~= d0 + pre);
                    assert(lex_from(cs, i0) == opt_app(pre, lex_from(cs, i as int)));
                    lemma_opt_app_assoc(d0, pre, lex_from(cs, i as int));
                }
            } else {
                i = i + 1;
                proof {
                    assert(tokens.deep_view() =~= d0 + seq![TokenModel::Dollar]);
                    assert(lex_from(cs, i0) == opt_app(seq![TokenModel::Dollar], lex_from(cs, i as int)));
                    lemma_opt_app_assoc(d0, seq![TokenModel::Dollar], lex_from(cs, i as int));
                }
            }
        } else if c == '"' {
            let start: usize = i + 1;
            let mut k: usize = start;
            #[verifier::loop_isolation(false)]
            while k < n && chars[k] != '"'
                invariant
                    start <= k <= n,
                    scan_to(cs, '"', start as int) == scan_to(cs, '"', k as int),
                decreases n - k,
            {
                k = k + 1;
            }
            proof {
                assert(k as int == scan_to(cs, '"', start as int));
            }
            let lit = chars_slice_string(&chars, start, k);
            tokens.push(Token::Literal(lit));
            i = if k < n {
                k + 1
            } else {
                k
            };
            proof {
                let ghost pre = seq![TokenModel::Literal(cs.subrange(start as int, k as int))];
                assert(tokens.deep_view() =~= d0 + pre);
                assert(lex_from(cs, i0) == opt_app(pre, lex_from(cs, i as int)));
                lemma_opt_app_assoc(d0, pre, lex_from(cs, i as int));
            }
        } else if c.is_alphabetic() {
            let start: usize = i;
            let mut j: usize = i + 1;
            #[verifier::loop_isolation(false)]
            while j < n && (chars[j].is_alphanumeric() || chars[j] == '_')
                invariant
                    start + 1 <= j <= n,
                    scan_ident(cs, start as int + 1) == scan_ident(cs, j as int),
                decreases n - j,
            {
                j = j + 1;
            }
            proof {
                assert(j as int == scan_ident(cs, start as int + 1));
            }
            let ident = chars_slice_string(&chars, start, j);
            tokens.push(Token::Identifier(ident));
            i = j;
            proof {
                let ghost pre = seq![TokenModel::Identifier(cs.subrange(start as int, j as int))];
                assert(tokens.deep_view() =~= d0 + pre);
                assert(lex_from(cs, i0) == opt_app(pre, lex_from(cs, i as int)));
                lemma_opt_app_assoc(d0, pre, lex_from(cs, i as int));
            }
        } else if c.is_numeric() {
            let start: usize = i;
            let mut j: usize = i + 1;
            #[verifier::loop_isolation(false)]
            while j < n && chars[j].is_numeric()
                invariant
                    start + 1 <= j <= n,
                    scan_num(cs, start as int + 1) == scan_num(cs, j as int),
                decreases n - j,
            {
                j = j + 1;
            }
            proof {
                assert(j as int == scan_num(cs, start as int + 1));
            }
            let ghost ds = cs.subrange(start as int, j as int);
            let mut acc: u32 = 0;
            let mut p: usize = start;
            #[verifier::loop_isolation(false)]
            while p < j
                invariant
                    start <= p <= j,
                    acc <= 32767,
                    acc == digits_val(ds.take(p as int - start as int)),
                    all_digits(ds.take(p as int - start as int)),
                decreases j - p,
            {
                let pc = chars[p];
                proof {
                    assert(pc == ds[p as int - start as int]);
                }
                if !(pc >= '0' && pc <= '9') {
                    proof {
                        assert(!is_dec_digit(ds[p as int - start as int]));
                        assert(!all_digits(ds));
                        assert(lex_from(cs, i0) is None);
                        assert(lex_from(cs, 0) is None);
                    }
                    return Err(CompileError::NumberOverflow);
                }
                let dv: u32 = (pc as u32) - ('0' as u32);
                proof {
                    assert(dv == digit_val(ds[p as int - start as int]));
                    assert(dv <= 9);
                }
                let next: u32 = acc * 10 + dv;
                if next > 32767 {
                    proof {
                        let ghost m = p as int + 1 - start as int;
                        assert(ds.take(m).drop_last() =~= ds.take(p as int - start as int));
                        assert(ds.take(m).last() == ds[p as int - start as int]);
                        assert(digits_val(ds.take(m)) > 32767);
                        if all_digits(ds) {
                            lemma_digits_val_prefix(ds, m);
                        }
                        assert(lex_from(cs, i0) is None);
                        assert(lex_from(cs, 0) is None);
                    }
                    return Err(CompileError::NumberOverflow);
                }
                acc = next;
                p = p + 1;
                proof {
                    let ghost m = p as int - start as int;
                    assert(ds.take(m).drop_last() =~= ds.take(m - 1));
                    assert(ds.take(m).last() == ds[m - 1]);
                    assert(acc == digits_val(ds.take(m)));
                    assert(all_digits(ds.take(m)));
                }
            }
            proof {
                assert(ds.take(j as int - start as int) =~= ds);
                assert(acc == digits_val(ds));
                assert(all_digits(ds));
            }
            tokens.push(Token::Number(acc as i16));
            i = j;
            proof {
                let ghost pre = seq![TokenModel::Number(digits_val(ds))];
                assert(tokens.deep_view() =~= d0 + pre);
                assert(lex_from(cs, i0) == opt_app(pre, lex_from(cs, i as int)));
                lemma_opt_app_assoc(d0, pre, lex_from(cs, i as int));
            }
        } else {
            i = i + 1;
            proof {
                assert(lex_from(cs, i0) == lex_from(cs, i as int));
            }
        }
    }
    let ghost dfin = tokens.deep_view();
    tokens.push(Token::Eof);
    proof {
        assert(tokens.deep_view() =~= dfin + seq![TokenModel::Eof]);
        assert(lex_from(cs, i as int) == Some(seq![TokenModel::Eof]));
        assert(Some(tokens.deep_view()) == lex_from(cs, 0));
    }
    Ok(tokens)
}

} // verus!
