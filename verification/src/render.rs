//! Rendering: the tree becomes one HTML document with an embedded
//! stylesheet and a reactive runtime script.
//!
//! Every emitted fragment is pinned down by a specification function;
//! `render_model` gives the whole document as a function of the tree's
//! model alone.

use crate::ast::ASTNode;
use crate::ast::AstModel;
use crate::ast::State;
use crate::ast::Styles;
use crate::ast::lemma_nodes_deep_view_index;
use crate::ast::lemma_nodes_deep_view_len;
use crate::ast::nodes_deep_view;
use crate::dict::Pairs;
use crate::text::char_num;
use crate::text::eq_lit;
use vstd::prelude::*;
use vstd::string::StrSliceExecFns;
use vstd::string::StringExecFns;

verus! {

/// The stylesheet embedded in every document.
pub const DEFAULT_STYLES: &'static str = r#"
    @import url('https://fonts.googleapis.com/css2?family=Source+Code+Pro:ital,wght@0,200..900;1,200..900&display=swap');

    * {
        box-sizing: border-box;
        margin: 0;
        padding: 0;
        font-family: "Source Code Pro", monospace;
    }

    body {
        background-color: black;
        color: white;
        width: 100vw;
        height: 100vh;
    }

    label {
        display: block;
        margin-bottom: 0.5em;
    }

    input, button, textarea {
        background: #111;
        color: white;
        border: 1px solid #333;
        padding: 0.4em;
        border-radius: 4px;
        font-size: 1.1em;
    }

    button {
        cursor: pointer;
    }

    ::placeholder {
        color: #888;
    }

    .hidden {
        display: none;
    }
"#;

/// The runtime script up to the seeded state entries.
pub const RUNTIME_BEFORE_STATE: &'static str = r#"
<script>
  let state = new Proxy({ "#;

/// The runtime script after the seeded state entries.
pub const RUNTIME_AFTER_STATE: &'static str = r#" }, {
    set(obj, prop, value) {
      obj[prop] = value;
      document.querySelectorAll(`[data-bind="${prop}"]`).forEach(el => {
        el.textContent = el.getAttribute("data-template").replace(/\{(.+?)\}/g, (_, k) => state[k]);
      });
      document.querySelectorAll(`[data-model="${prop}"]`).forEach(el => {
        el.value = value;
      });
      
      updateVisibility();
      updateLists(prop, value);

      return true;
    }
  });

  window.addEventListener('DOMContentLoaded', () => {
    document.querySelectorAll("[data-bind]").forEach(el => {
      el.setAttribute("data-template", el.textContent);
      el.textContent = el.textContent.replace(/\{(.+?)\}/g, (_, k) => state[k]);
    });

    document.querySelectorAll('[data-model]').forEach(el => {
      const key = el.getAttribute('data-model');
      el.addEventListener('input', () => {
        state[key] = el.value;
      });
    });

    updateVisibility();
    updateLists();

    document.querySelectorAll('[data-list]').forEach(el => {
      el.children.item(0).classList.add('hidden');
    });
  });

  function updateVisibility() {
    document.querySelectorAll('[data-if]').forEach(el => {
      const condition = el.getAttribute('data-if');

      const index = condition.indexOf(','),
        left = condition.slice(0, index),
        right = condition.slice(index + 1);

      if (state[left] == right) {
          el.classList.remove('hidden');
      } else {
          el.classList.add('hidden');
      }
    });
  }

  function updateLists(prop, value) {
    value = value || state[prop];

    document.querySelectorAll(prop === "" ? "[data-list]" : `[data-list="${prop}"]`).forEach(el => {
      // keep the original template node (first child)
      let templateNode = el.children.item(0);

      while (el.children.length > 1) {
        el.removeChild(el.lastChild);
      }

      for (let i = 0; i < value.length; i++) {
        let clone = templateNode.cloneNode(true);
        clone.classList.remove('hidden');

        let template = templateNode.innerHTML;
        clone.innerHTML = template
          .replace(/\[item\]/g, value[i])
          .replace(/\[index\]/g, i);

        el.appendChild(clone);
      }
    });
  }

</script>
"#;

/// The emitted tag of an element name: `label` becomes `span`, every
/// other name stands for itself.
pub open spec fn tag_alias(name: Seq<char>) -> Seq<char> {
    if name == "label"@ {
        "span"@
    } else {
        name
    }
}

/// The CSS property behind a logical style key; unknown keys pass
/// through unchanged.
pub open spec fn style_key_alias(k: Seq<char>) -> Seq<char> {
    if k == "size"@ {
        "font-size"@
    } else if k == "fg"@ {
        "color"@
    } else if k == "justify"@ {
        "justify-content"@
    } else if k == "align"@ {
        "align-items"@
    } else if k == "direction"@ {
        "flex-direction"@
    } else {
        k
    }
}

/// The CSS value behind a logical style value; unknown values pass
/// through unchanged.
pub open spec fn style_value_alias(v: Seq<char>) -> Seq<char> {
    if v == "red"@ {
        "#E43636"@
    } else if v == "green"@ {
        "#8ABB6C"@
    } else if v == "big"@ {
        "30px"@
    } else if v == "fill"@ {
        "100%"@
    } else if v == "vertical"@ {
        "column"@
    } else {
        v
    }
}

/// The multi-property expansion of a layout shorthand key, if the key
/// is one.
pub open spec fn style_shorthand(k: Seq<char>) -> Option<Seq<char>> {
    if k == "column"@ {
        Some("display: flex; flex-direction: column;"@)
    } else if k == "bold"@ {
        Some("font-weigth: bold;"@)
    } else if k == "fill_parent"@ {
        Some("width: 100%; height: 100%;"@)
    } else if k == "center"@ {
        Some("justify-content: center; align-items: center;"@)
    } else {
        None
    }
}

/// The CSS text of one style entry.
pub open spec fn css_entry(k: Seq<char>, v: Seq<char>) -> Seq<char> {
    match style_shorthand(k) {
        Some(s) => s,
        None => style_key_alias(k) + ":"@ + style_value_alias(v) + ";"@,
    }
}

/// The CSS text of the style entries from position `i` on.
pub open spec fn css_from(m: Pairs, i: int) -> Seq<char>
    decreases m.len() - i,
{
    if i < 0 || i >= m.len() {
        Seq::empty()
    } else {
        css_entry(m[i].0, m[i].1) + css_from(m, i + 1)
    }
}

/// The CSS text of a whole style mapping, in insertion order.
pub open spec fn css_of(m: Pairs) -> Seq<char> {
    css_from(m, 0)
}

/// The first position of `c` in `s` at or after `i`, or `-1`.
pub open spec fn find_char_from(s: Seq<char>, c: char, i: int) -> int
    decreases s.len() - i,
{
    if i < 0 || i >= s.len() {
        -1
    } else if s[i] == c {
        i
    } else {
        find_char_from(s, c, i + 1)
    }
}

/// The identifier between the first `{` and the next `}` of a text
/// value, if both are present: the data-bound placeholder.
pub open spec fn braced_var(s: Seq<char>) -> Option<Seq<char>> {
    let start = find_char_from(s, '{', 0);
    if start < 0 {
        None
    } else {
        let end = find_char_from(s, '}', start);
        if end < 0 {
            None
        } else {
            Some(s.subrange(start + 1, end))
        }
    }
}

/// Whether a state value is seeded raw (a bracketed list or a value
/// with a numeric first character) rather than quoted.
pub open spec fn js_raw(v: Seq<char>) -> bool {
    v.len() > 0 && (v[0] == '[' || char_num(v[0]))
}

/// One seeded state entry of the runtime script.
pub open spec fn js_entry(k: Seq<char>, v: Seq<char>) -> Seq<char> {
    if js_raw(v) {
        k + ": "@ + v
    } else {
        k + ": \""@ + v + "\""@
    }
}

/// The seeded state entries from position `i` on, separated by commas.
pub open spec fn js_from(m: Pairs, i: int) -> Seq<char>
    decreases m.len() - i,
{
    if i < 0 || i >= m.len() {
        Seq::empty()
    } else if i == m.len() - 1 {
        js_entry(m[i].0, m[i].1)
    } else {
        js_entry(m[i].0, m[i].1) + ", "@ + js_from(m, i + 1)
    }
}

/// The whole runtime script for a state mapping.
pub open spec fn js_of(state: Pairs) -> Seq<char> {
    RUNTIME_BEFORE_STATE@ + js_from(state, 0) + RUNTIME_AFTER_STATE@
}

/// The attribute text of the entries from position `i` on.
pub open spec fn attrs_from(m: Pairs, i: int) -> Seq<char>
    decreases m.len() - i,
{
    if i < 0 || i >= m.len() {
        Seq::empty()
    } else {
        m[i].0 + "=\""@ + m[i].1 + "\""@ + attrs_from(m, i + 1)
    }
}

/// The data-bind attribute fragment of a text value, empty when the
/// value holds no placeholder.
pub open spec fn bind_frag(value: Seq<char>) -> Seq<char> {
    match braced_var(value) {
        Some(var) => "data-bind=\""@ + var + "\""@,
        None => Seq::empty(),
    }
}

/// The opening of an element tag, with its style attribute when the
/// element has styles.
pub open spec fn open_frag(tag: Seq<char>, styles: Pairs) -> Seq<char> {
    if styles.len() == 0 {
        "<"@ + tag + " "@
    } else {
        "<"@ + tag + " style=\""@ + css_of(styles) + "\""@
    }
}

/// The document text of one node.
pub open spec fn render_model(m: AstModel) -> Seq<char>
    decreases m, 0int,
{
    match m {
        AstModel::App { children, title, state, logic_code } => "<!DOCTYPE html><html><head><title>"@
            + title + "</title><style>"@ + DEFAULT_STYLES@ + "</style><script>"@ + logic_code
            + "</script>"@ + js_of(state) + "</head><body>"@ + render_kids_from(children, 0)
            + "</body></html>"@,
        AstModel::Element { name, value, children, styles, attributes } => open_frag(
            tag_alias(name),
            styles,
        ) + bind_frag(value) + attrs_from(attributes, 0) + ">"@ + value + render_kids_from(
            children,
            0,
        ) + "</"@ + tag_alias(name) + ">"@,
    }
}

/// Whether `needle` occurs contiguously inside `hay`.
pub open spec fn contains_seq(hay: Seq<char>, needle: Seq<char>) -> bool {
    exists|j: int|
        0 <= j && j + needle.len() <= hay.len() && #[trigger] hay.subrange(j, j + needle.len())
            == needle
}

/// The document text of the children from position `i` on.
pub open spec fn render_kids_from(cs: Seq<AstModel>, i: int) -> Seq<char>
    decreases cs, cs.len() - i,
{
    if i < 0 || i >= cs.len() {
        Seq::empty()
    } else {
        render_model(cs[i]) + render_kids_from(cs, i + 1)
    }
}


impl ASTNode {
    /// Resolves the emitted tag of an element name through the fixed
    /// alias table.
    pub fn get_tag_name(name: String) -> (r: String)
        ensures
            r@ == tag_alias(name@),
    {
        if eq_lit(&name, "label") {
            String::from_str("span")
        } else {
            name
        }
    }

    /// Translates a logical style key to its CSS property name.
    pub fn convert_style_keys(key: String) -> (r: String)
        ensures
            r@ == style_key_alias(key@),
    {
        if eq_lit(&key, "size") {
            String::from_str("font-size")
        } else if eq_lit(&key, "fg") {
            String::from_str("color")
        } else if eq_lit(&key, "justify") {
            String::from_str("justify-content")
        } else if eq_lit(&key, "align") {
            String::from_str("align-items")
        } else if eq_lit(&key, "direction") {
            String::from_str("flex-direction")
        } else {
            key
        }
    }

    /// Translates a logical style value to its CSS value.
    pub fn convert_style_values(value: String) -> (r: String)
        ensures
            r@ == style_value_alias(value@),
    {
        if eq_lit(&value, "red") {
            String::from_str("#E43636")
        } else if eq_lit(&value, "green") {
            String::from_str("#8ABB6C")
        } else if eq_lit(&value, "big") {
            String::from_str("30px")
        } else if eq_lit(&value, "fill") {
            String::from_str("100%")
        } else if eq_lit(&value, "vertical") {
            String::from_str("column")
        } else {
            value
        }
    }

    /// Renders the CSS text of a style mapping, entry by entry in
    /// insertion order.
    pub fn render_styles(styles: &Styles) -> (r: String)
        ensures
            r@ == css_of(styles@),
    {
        let ghost m = styles@;
        let mut css = String::new();
        let n = styles.0.len();
        proof {
            assert(m.len() == n);
        }
        let mut i: usize = 0;
        while i < n
            invariant
                n == styles.0@.len(),
                m == styles@,
                m.len() == n,
                i <= n,
                css@ + css_from(m, i as int) == css_of(m),
            decreases n - i,
    {
            let ghost c0 = css@;
            let k = &styles.0[i].0;
            let v = &styles.0[i].1;
            proof {
                assert(m[i as int] == (k@, v@));
            }
            if eq_lit(k, "column") {
                css.append("display: flex; flex-direction: column;");
            } else if eq_lit(k, "bold") {
                css.append("font-weigth: bold;");
            } else if eq_lit(k, "fill_parent") {
                css.append("width: 100%; height: 100%;");
            } else if eq_lit(k, "center") {
                css.append("justify-content: center; align-items: center;");
            } else {
                let ck = ASTNode::convert_style_keys(k.clone());
                css.append(ck.as_str());
                css.append(":");
                let cv = ASTNode::convert_style_values(v.clone());
                css.append(cv.as_str());
                css.append(";");
            }
            proof {
                assert(css@ =~= c0 + css_entry(m[i as int].0, m[i as int].1));
                assert(css_from(m, i as int) == css_entry(m[i as int].0, m[i as int].1)
                    + css_from(m, i as int + 1));
                assert(css@ + css_from(m, i as int + 1) =~= c0 + css_from(m, i as int));
            }
            i = i + 1;
        }
        proof {
            assert(css_from(m, n as int) == Seq::<char>::empty());
            assert(css@ =~= css@ + css_from(m, n as int));
        }
        css
    }

    /// Renders the runtime script: the fixed observer code around the
    /// seeded state entries, in insertion order.
    pub fn render_javascript(state: &State) -> (r: String)
        ensures
            r@ == js_of(state@),
    {
        let ghost m = state@;
        let mut js = String::new();
        js.append(RUNTIME_BEFORE_STATE);
        let n = state.0.len();
        proof {
            assert(m.len() == n);
        }
        let mut i: usize = 0;
        while i < n
            invariant
                n == state.0@.len(),
                m == state@,
                m.len() == n,
                i <= n,
                js@ + js_from(m, i as int) + RUNTIME_AFTER_STATE@ == js_of(m),
            decreases n - i,
        {
            let ghost j0 = js@;
            let k = &state.0[i].0;
            let v = &state.0[i].1;
            proof {
                assert(m[i as int] == (k@, v@));
            }
            let vs = v.as_str();
            let raw: bool = if vs.unicode_len() > 0 {
                let c0 = vs.get_char(0);
                c0 == '[' || c0.is_numeric()
            } else {
                false
            };
            proof {
                assert(raw == js_raw(m[i as int].1));
            }
            js.append(k.as_str());
            if raw {
                js.append(": ");
                js.append(v.as_str());
            } else {
                js.append(": \"");
                js.append(v.as_str());
                js.append("\"");
            }
            proof {
                assert(js@ =~= j0 + js_entry(m[i as int].0, m[i as int].1));
            }
            if i + 1 < n {
                js.append(", ");
                proof {
                    assert(js_from(m, i as int) == js_entry(m[i as int].0, m[i as int].1) + ", "@
                        + js_from(m, i as int + 1));
                    assert(js@ + js_from(m, i as int + 1) =~= j0 + js_from(m, i as int));
                }
            } else {
                proof {
                    assert(js_from(m, i as int) == js_entry(m[i as int].0, m[i as int].1));
                    assert(js_from(m, i as int + 1) == Seq::<char>::empty());
                    assert(js@ + js_from(m, i as int + 1) =~= j0 + js_from(m, i as int));
                }
            }
            i = i + 1;
        }
        proof {
            assert(js_from(m, n as int) == Seq::<char>::empty());
        }
        js.append(RUNTIME_AFTER_STATE);
        proof {
            assert(js@ =~= js_of(m));
        }
        js
    }

    /// Renders one node and its subtree as document text.
    pub fn render_html(&self) -> (r: String)
        ensures
            r@ == render_model(self.deep_view()),
        decreases self,
    {
        match self {
            ASTNode::App { children, title, state, logic_code } => {
                let ghost model = self.deep_view();
                let ghost kids = nodes_deep_view(children@);
                let mut html = String::new();
                html.append("<!DOCTYPE html><html><head><title>");
                html.append(title.as_str());
                html.append("</title><style>");
                html.append(DEFAULT_STYLES);
                html.append("</style><script>");
                html.append(logic_code.as_str());
                html.append("</script>");
                let js = ASTNode::render_javascript(state);
                html.append(js.as_str());
                html.append("</head><body>");
                proof {
                    lemma_nodes_deep_view_len(children@);
                    assert(model == AstModel::App {
                        children: kids,
                        title: title@,
                        state: state.deep_view(),
                        logic_code: logic_code@,
                    });
                    assert(html@ + render_kids_from(kids, 0) + "</body></html>"@ =~= render_model(
                        model,
                    ));
                }
                let n = children.len();
                let mut i: usize = 0;
                #[verifier::loop_isolation(false)]
                while i < n
                    invariant
                        n == children@.len(),
                        kids == nodes_deep_view(children@),
                        kids.len() == n,
                        i <= n,
                        html@ + render_kids_from(kids, i as int) + "</body></html>"@
                            == render_model(model),
                    decreases n - i,
                {
                    let ghost h0 = html@;
                    proof {
                        assert(decreases_to!(self => children));
                        assert(decreases_to!(children => children@));
                        assert(decreases_to!(children@ => children@[i as int]));
                    }
                    let child_html = children[i].render_html();
                    html.append(child_html.as_str());
                    proof {
                        lemma_nodes_deep_view_index(children@, i as int);
                        assert(child_html@ == render_model(kids[i as int]));
                        assert(render_kids_from(kids, i as int) == render_model(kids[i as int])
                            + render_kids_from(kids, i as int + 1));
                        assert(html@ + render_kids_from(kids, i as int + 1) + "</body></html>"@
                            =~= h0 + render_kids_from(kids, i as int) + "</body></html>"@);
                    }
                    i = i + 1;
                }
                html.append("</body></html>");
                proof {
                    assert(render_kids_from(kids, n as int) == Seq::<char>::empty());
                    assert(html@ =~= render_model(model));
                }
                html
            }
            ASTNode::Element { name, value, children, styles, attributes } => {
                let ghost model = self.deep_view();
                let ghost kids = nodes_deep_view(children@);
                let ghost tag_m = tag_alias(name@);
                let ghost ma = attributes@;
                let tag_name = ASTNode::get_tag_name(name.clone());
                let mut html = String::new();
                html.append("<");
                html.append(tag_name.as_str());
                if styles.0.len() == 0 {
                    html.append(" ");
                    proof {
                        assert(styles@.len() == 0);
                        assert(html@ =~= open_frag(tag_m, styles@));
                    }
                } else {
                    html.append(" style=\"");
                    let css = ASTNode::render_styles(styles);
                    html.append(css.as_str());
                    html.append("\"");
                    proof {
                        assert(styles@.len() == styles.0@.len());
                        assert(html@ =~= open_frag(tag_m, styles@));
                    }
                }
                match ASTNode::extract_braced_var(value.as_str()) {
                    Some(var) => {
                        html.append("data-bind=\"");
                        html.append(var);
                        html.append("\"");
                    },
                    None => {},
                }
                proof {
                    assert(html@ =~= open_frag(tag_m, styles@) + bind_frag(value@));
                }
                let ghost p0 = open_frag(tag_m, styles@) + bind_frag(value@);
                let n = attributes.0.len();
                proof {
                    assert(ma.len() == n);
                }
                let mut i: usize = 0;
                while i < n
                    invariant
                        n == attributes.0@.len(),
                        ma == attributes@,
                        ma.len() == n,
                        i <= n,
                        html@ + attrs_from(ma, i as int) == p0 + attrs_from(ma, 0),
                    decreases n - i,
                {
                    let ghost h0 = html@;
                    let k = &attributes.0[i].0;
                    let v = &attributes.0[i].1;
                    proof {
                        assert(ma[i as int] == (k@, v@));
                    }
                    html.append(k.as_str());
                    html.append("=\"");
                    html.append(v.as_str());
                    html.append("\"");
                    proof {
                        assert(attrs_from(ma, i as int) == ma[i as int].0 + "=\""@
                            + ma[i as int].1 + "\""@ + attrs_from(ma, i as int + 1));
                        assert(html@ + attrs_from(ma, i as int + 1) =~= h0 + attrs_from(
                            ma,
                            i as int,
                        ));
                    }
                    i = i + 1;
                }
                proof {
                    assert(attrs_from(ma, n as int) == Seq::<char>::empty());
                    assert(html@ =~= p0 + attrs_from(ma, 0));
                }
                html.append(">");
                html.append(value.as_str());
                let ghost p1 = p0 + attrs_from(ma, 0) + ">"@ + value@;
                proof {
                    lemma_nodes_deep_view_len(children@);
                    assert(html@ =~= p1);
                }
                let nc = children.len();
                let mut j: usize = 0;
                #[verifier::loop_isolation(false)]
                while j < nc
                    invariant
                        nc == children@.len(),
                        kids == nodes_deep_view(children@),
                        kids.len() == nc,
                        j <= nc,
                        html@ + render_kids_from(kids, j as int) == p1 + render_kids_from(kids, 0),
                    decreases nc - j,
                {
                    let ghost h0 = html@;
                    proof {
                        assert(decreases_to!(self => children));
                        assert(decreases_to!(children => children@));
                        assert(decreases_to!(children@ => children@[j as int]));
                    }
                    let child_html = children[j].render_html();
                    html.append(child_html.as_str());
                    proof {
                        lemma_nodes_deep_view_index(children@, j as int);
                        assert(child_html@ == render_model(kids[j as int]));
                        assert(render_kids_from(kids, j as int) == render_model(kids[j as int])
                            + render_kids_from(kids, j as int + 1));
                        assert(html@ + render_kids_from(kids, j as int + 1) =~= h0
                            + render_kids_from(kids, j as int));
                    }
                    j = j + 1;
                }
                proof {
                    assert(render_kids_from(kids, nc as int) == Seq::<char>::empty());
                    assert(html@ =~= p1 + render_kids_from(kids, 0));
                }
                html.append("</");
                html.append(tag_name.as_str());
                html.append(">");
                proof {
                    assert(model == AstModel::Element {
                        name: name@,
                        value: value@,
                        children: kids,
                        styles: styles@,
                        attributes: ma,
                    });
                    assert(html@ =~= render_model(model));
                }
                html
            }
        }
    }

    /// The data-bound placeholder of a text value: the span between
    /// the first `{` and the next `}`, when both are present.
    pub fn extract_braced_var(s: &str) -> (r: Option<&str>)
        ensures
            match r {
                Some(t) => braced_var(s@) == Some(t@),
                None => braced_var(s@) is None,
            },
    {
        let n = s.unicode_len();
        let mut i: usize = 0;
        while i < n && s.get_char(i) != '{'
            invariant
                n == s@.len(),
                i <= n,
                find_char_from(s@, '{', 0) == find_char_from(s@, '{', i as int),
            decreases n - i,
        {
            i = i + 1;
        }
        if i == n {
            proof {
                assert(find_char_from(s@, '{', i as int) == -1);
            }
            return None;
        }
        let start: usize = i;
        proof {
            assert(s@[start as int] == '{');
            assert(find_char_from(s@, '{', 0) == start as int);
        }
        let mut j: usize = start;
        while j < n && s.get_char(j) != '}'
            invariant
                n == s@.len(),
                start <= j <= n,
                start < n,
                s@[start as int] == '{',
                find_char_from(s@, '}', start as int) == find_char_from(s@, '}', j as int),
            decreases n - j,
        {
            j = j + 1;
        }
        if j == n {
            proof {
                assert(find_char_from(s@, '}', j as int) == -1);
            }
            return None;
        }
        proof {
            assert(s@[j as int] == '}');
            assert(find_char_from(s@, '}', start as int) == j as int);
            assert(start < j);
        }
        Some(s.substring_char(start + 1, j))
    }
}

} // verus!
