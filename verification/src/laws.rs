//! Laws of the compiler, stated and proved once for all inputs: how
//! the alias tables act on style keys, style values and tag names, and
//! which attribute each binding construct records.

use crate::ast::AstModel;
use crate::dict::Pairs;
use crate::dict::dict_get;
use crate::dict::find_from;
use crate::dict::lemma_find_from_bounds;
use crate::dict::dict_put;
use crate::dict::lemma_dict_put_get;
use crate::dict::lemma_dict_put_get_other;
use crate::error::CompileError;
use crate::grammar;
use crate::grammar::Toks;
use crate::render::attrs_from;
use crate::render::bind_frag;
use crate::render::contains_seq;
use crate::render::css_of;
use crate::render::open_frag;
use crate::render::render_kids_from;
use crate::render::render_model;
use crate::render::style_key_alias;
use crate::render::style_shorthand;
use crate::render::style_value_alias;
use crate::render::tag_alias;
use crate::token::TokenModel;
use vstd::prelude::*;

verus! {

/// Rendering one style entry whose key is no layout shorthand emits
/// the aliased CSS property name, a colon, the aliased value and a
/// semicolon — nothing else.
pub proof fn lemma_style_entry_rendering(k: Seq<char>, v: Seq<char>)
    requires
        style_shorthand(k) is None,
    ensures
        css_of(seq![(k, v)]) == style_key_alias(k) + ":"@ + style_value_alias(v) + ";"@,
{
    let m: Pairs = seq![(k, v)];
    assert(crate::render::css_from(m, 1) == Seq::<char>::empty());
    assert(m[0] == (k, v));
    assert(css_of(m) == (style_key_alias(k) + ":"@ + style_value_alias(v) + ";"@) + Seq::<
        char,
    >::empty());
    assert((style_key_alias(k) + ":"@ + style_value_alias(v) + ";"@) + Seq::<char>::empty()
        =~= style_key_alias(k) + ":"@ + style_value_alias(v) + ";"@);
}

/// A style key outside the alias table passes through unchanged.
pub proof fn lemma_unknown_style_key_unchanged(k: Seq<char>)
    requires
        k != "size"@,
        k != "fg"@,
        k != "justify"@,
        k != "align"@,
        k != "direction"@,
    ensures
        style_key_alias(k) == k,
{
}

/// A style value outside the alias table renders unchanged, so value
/// aliasing is idempotent on unknown values.
pub proof fn lemma_unknown_style_value_unchanged(v: Seq<char>)
    requires
        v != "red"@,
        v != "green"@,
        v != "big"@,
        v != "fill"@,
        v != "vertical"@,
    ensures
        style_value_alias(v) == v,
        style_value_alias(style_value_alias(v)) == style_value_alias(v),
{
}

/// The tag alias table sends `label` to `span` and is the identity on
/// every other name.
pub proof fn lemma_tag_alias(name: Seq<char>)
    ensures
        tag_alias("label"@) == "span"@,
        name != "label"@ ==> tag_alias(name) == name,
{
}

/// An element named `label` renders exactly as the same element named
/// `span` does: the alias decides the emitted tag alone.
pub proof fn lemma_label_renders_as_span(
    value: Seq<char>,
    children: Seq<AstModel>,
    styles: Pairs,
    attributes: Pairs,
)
    ensures
        render_model(
            AstModel::Element { name: "label"@, value, children, styles, attributes },
        ) == render_model(
            AstModel::Element { name: "span"@, value, children, styles, attributes },
        ),
{
    reveal_strlit("label");
    reveal_strlit("span");
    assert(tag_alias("label"@) == tag_alias("span"@));
}

/// A conditional block `l == r` (with a literal right operand) records
/// exactly the attribute `data-if` with value `l,r`: the lookup of
/// `data-if` afterwards yields that value and every other key keeps
/// its old value.
pub proof fn lemma_conditional_attr(toks: Toks, i: int, attrs: Pairs, l: Seq<char>, r: Seq<char>)
    requires
        0 <= i,
        i + 3 < toks.len(),
        toks[i] == TokenModel::Identifier(l),
        toks[i + 1] is Equals,
        toks[i + 2] == TokenModel::Literal(r),
        toks[i + 3] is RBrace,
    ensures
        grammar::parse_cond_entries(toks, i, attrs) == Ok::<(int, Pairs), CompileError>(
            (i + 4, dict_put(attrs, "data-if"@, l + ","@ + r)),
        ),
        dict_get(dict_put(attrs, "data-if"@, l + ","@ + r), "data-if"@) == Some(l + ","@ + r),
        forall|k2: Seq<char>|
            k2 != "data-if"@ ==> dict_get(dict_put(attrs, "data-if"@, l + ","@ + r), k2)
                == dict_get(#[trigger] dict_put(attrs, "data-if"@, l + ","@ + r), k2)
                && dict_get(dict_put(attrs, "data-if"@, l + ","@ + r), k2) == dict_get(attrs, k2),
{
    let attrs2 = dict_put(attrs, "data-if"@, l + ","@ + r);
    assert(grammar::parse_cond_entries(toks, i + 3, attrs2) == Ok::<(int, Pairs), CompileError>(
        (i + 4, attrs2),
    ));
    lemma_dict_put_get(attrs, "data-if"@, l + ","@ + r);
    assert forall|k2: Seq<char>| k2 != "data-if"@ implies dict_get(
        #[trigger] dict_put(attrs, "data-if"@, l + ","@ + r),
        k2,
    ) == dict_get(attrs, k2) by {
        lemma_dict_put_get_other(attrs, "data-if"@, l + ","@ + r, k2);
    }
}

/// An input-binding modifier over the state key `b` records exactly
/// the attribute `data-model` with value `b`.
pub proof fn lemma_input_binding_attr(
    toks: Toks,
    i: int,
    value: Seq<char>,
    styles: Pairs,
    attrs: Pairs,
    b: Seq<char>,
)
    requires
        0 <= i,
        i + 1 < toks.len(),
        toks[i] is Tilde,
        toks[i + 1] == TokenModel::Identifier(b),
    ensures
        grammar::parse_modifiers(toks, i, value, styles, attrs) == grammar::parse_modifiers(
            toks,
            i + 2,
            value,
            styles,
            dict_put(attrs, "data-model"@, b),
        ),
        dict_get(dict_put(attrs, "data-model"@, b), "data-model"@) == Some(b),
{
    lemma_dict_put_get(attrs, "data-model"@, b);
}

/// An event modifier over the event `ev` with handler `code` records
/// exactly the attribute `on` + `ev` with value `code`.
pub proof fn lemma_event_binding_attr(
    toks: Toks,
    i: int,
    value: Seq<char>,
    styles: Pairs,
    attrs: Pairs,
    ev: Seq<char>,
    code: Seq<char>,
)
    requires
        0 <= i,
        i + 3 < toks.len(),
        toks[i] is Dollar,
        toks[i + 1] == TokenModel::Identifier(ev),
        toks[i + 2] is Colon,
        toks[i + 3] == TokenModel::Literal(code),
    ensures
        grammar::parse_modifiers(toks, i, value, styles, attrs) == grammar::parse_modifiers(
            toks,
            i + 4,
            value,
            styles,
            dict_put(attrs, "on"@ + ev, code),
        ),
        dict_get(dict_put(attrs, "on"@ + ev, code), "on"@ + ev) == Some(code),
{
    lemma_dict_put_get(attrs, "on"@ + ev, code);
}


/// What the left part holds, the whole holds.
proof fn lemma_contains_left(a: Seq<char>, b: Seq<char>, n: Seq<char>)
    requires
        contains_seq(a, n),
    ensures
        contains_seq(a + b, n),
{
    let j = choose|j: int|
        0 <= j && j + n.len() <= a.len() && #[trigger] a.subrange(j, j + n.len()) == n;
    assert((a + b).subrange(j, j + n.len() as int) =~= a.subrange(j, j + n.len() as int));
}

/// What the right part holds, the whole holds.
proof fn lemma_contains_right(a: Seq<char>, b: Seq<char>, n: Seq<char>)
    requires
        contains_seq(b, n),
    ensures
        contains_seq(a + b, n),
{
    let j = choose|j: int|
        0 <= j && j + n.len() <= b.len() && #[trigger] b.subrange(j, j + n.len()) == n;
    assert((a + b).subrange(a.len() + j, a.len() + j + n.len() as int) =~= b.subrange(
        j,
        j + n.len() as int,
    ));
}

/// The attribute text of a mapping holds each entry, rendered as
/// `key="value"`.
proof fn lemma_attrs_from_contains(m: Pairs, i: int, j: int)
    requires
        0 <= j <= i < m.len(),
    ensures
        contains_seq(attrs_from(m, j), m[i].0 + "=\""@ + m[i].1 + "\""@),
    decreases i - j,
{
    let n = m[i].0 + "=\""@ + m[i].1 + "\""@;
    let entry = m[j].0 + "=\""@ + m[j].1 + "\""@;
    assert(attrs_from(m, j) == entry + attrs_from(m, j + 1));
    if j == i {
        assert((entry + attrs_from(m, j + 1)).subrange(0, n.len() as int) =~= n);
        assert(attrs_from(m, j).subrange(0, n.len() as int) == n);
        assert(0 + n.len() <= attrs_from(m, j).len());
    } else {
        lemma_attrs_from_contains(m, i, j + 1);
        lemma_contains_right(entry, attrs_from(m, j + 1), n);
    }
}

/// Every attribute recorded on an element reaches its rendered text as
/// `key="value"`; in particular a recorded `data-if`, `data-model` or
/// `on` binding always stands in the emitted document.
pub proof fn lemma_attr_reaches_document(
    name: Seq<char>,
    value: Seq<char>,
    children: Seq<AstModel>,
    styles: Pairs,
    attributes: Pairs,
    k: Seq<char>,
    v: Seq<char>,
)
    requires
        dict_get(attributes, k) == Some(v),
    ensures
        contains_seq(
            render_model(AstModel::Element { name, value, children, styles, attributes }),
            k + "=\""@ + v + "\""@,
        ),
{
    let n = k + "=\""@ + v + "\""@;
    let j = find_from(attributes, k, 0);
    lemma_find_from_bounds(attributes, k, 0);
    assert(attributes[j] == (k, v));
    lemma_attrs_from_contains(attributes, j, 0);
    let m = AstModel::Element { name, value, children, styles, attributes };
    let tag = tag_alias(name);
    let p1 = open_frag(tag, styles) + bind_frag(value);
    lemma_contains_right(p1, attrs_from(attributes, 0), n);
    lemma_contains_left(p1 + attrs_from(attributes, 0), ">"@, n);
    lemma_contains_left(p1 + attrs_from(attributes, 0) + ">"@, value, n);
    lemma_contains_left(p1 + attrs_from(attributes, 0) + ">"@ + value, render_kids_from(children, 0), n);
    lemma_contains_left(
        p1 + attrs_from(attributes, 0) + ">"@ + value + render_kids_from(
            children,
            0,
        ),
        "</"@,
        n,
    );
    lemma_contains_left(
        p1 + attrs_from(attributes, 0) + ">"@ + value + render_kids_from(
            children,
            0,
        ) + "</"@,
        tag,
        n,
    );
    lemma_contains_left(
        p1 + attrs_from(attributes, 0) + ">"@ + value + render_kids_from(
            children,
            0,
        ) + "</"@ + tag,
        ">"@,
        n,
    );
    assert(render_model(m) == p1 + attrs_from(attributes, 0) + ">"@ + value
        + render_kids_from(children, 0) + "</"@ + tag + ">"@);
}

} // verus!
