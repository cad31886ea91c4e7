use vextra::ast::ASTNode;
use vextra::ast::Attributes;
use vextra::ast::State;
use vextra::ast::Styles;
use vextra::error::CompileError;
use vextra::numfmt::i16_to_string;
use vextra::parser::Parser;
use vextra::render::DEFAULT_STYLES;

fn compile_html(src: &str) -> Result<String, CompileError> {
    let parser = Parser::new(src.to_string());
    let tokens = parser.tokenize()?;
    let ast = Parser::parse(&tokens)?;
    Ok(ast.render_html())
}

#[test]
fn render_known_style_keys_are_aliased() {
    let pairs = [
        ("size", "font-size"),
        ("fg", "color"),
        ("justify", "justify-content"),
        ("align", "align-items"),
        ("direction", "flex-direction"),
    ];
    for (key, css) in pairs {
        assert_eq!(ASTNode::convert_style_keys(key.to_string()), css);
    }
}

#[test]
fn render_unknown_style_key_passes_through() {
    assert_eq!(ASTNode::convert_style_keys("margin".to_string()), "margin");
    let html = compile_html("app{>div#{margin:big}{}}").expect("should compile");
    assert!(html.contains("margin:30px;"));
}

#[test]
fn render_known_style_values_are_aliased() {
    let pairs = [
        ("red", "#E43636"),
        ("green", "#8ABB6C"),
        ("big", "30px"),
        ("fill", "100%"),
        ("vertical", "column"),
    ];
    for (value, css) in pairs {
        assert_eq!(ASTNode::convert_style_values(value.to_string()), css);
    }
}

#[test]
fn render_unknown_style_value_unchanged() {
    assert_eq!(ASTNode::convert_style_values("purple".to_string()), "purple");
    let html = compile_html("app{>div#{fg:purple}{}}").expect("should compile");
    assert!(html.contains("color:purple;"));
}

#[test]
fn render_style_shorthands_expand() {
    let styles = Styles(vec![("column".to_string(), "true".to_string())]);
    assert_eq!(
        ASTNode::render_styles(&styles),
        "display: flex; flex-direction: column;"
    );
    let styles = Styles(vec![
        ("bold".to_string(), "true".to_string()),
        ("fill_parent".to_string(), "true".to_string()),
        ("center".to_string(), "true".to_string()),
    ]);
    assert_eq!(
        ASTNode::render_styles(&styles),
        "font-weigth: bold;width: 100%; height: 100%;justify-content: center; align-items: center;"
    );
}

#[test]
fn render_style_entry_exact() {
    let styles = Styles(vec![("size".to_string(), "big".to_string())]);
    assert_eq!(ASTNode::render_styles(&styles), "font-size:30px;");
}

#[test]
fn render_tag_alias() {
    assert_eq!(ASTNode::get_tag_name("label".to_string()), "span");
    assert_eq!(ASTNode::get_tag_name("div".to_string()), "div");
    assert_eq!(ASTNode::get_tag_name("p".to_string()), "p");
    let html = compile_html("app{>label:\"name\"{}}").expect("should compile");
    assert!(html.contains("<span >name</span>"));
    assert!(!html.contains("<label"));
}

#[test]
fn render_element_exact() {
    let node = ASTNode::Element {
        name: "p".to_string(),
        value: "hi".to_string(),
        children: vec![],
        styles: Styles(vec![]),
        attributes: Attributes(vec![]),
    };
    assert_eq!(node.render_html(), "<p >hi</p>");
}

#[test]
fn render_attributes_verbatim() {
    let node = ASTNode::Element {
        name: "input".to_string(),
        value: String::new(),
        children: vec![],
        styles: Styles(vec![]),
        attributes: Attributes(vec![("placeholder".to_string(), "name".to_string())]),
    };
    assert_eq!(node.render_html(), "<input placeholder=\"name\"></input>");
}

#[test]
fn render_data_bind_for_placeholder_value() {
    let node = ASTNode::Element {
        name: "p".to_string(),
        value: "{count}".to_string(),
        children: vec![],
        styles: Styles(vec![]),
        attributes: Attributes(vec![]),
    };
    assert_eq!(node.render_html(), "<p data-bind=\"count\">{count}</p>");
}

#[test]
fn render_extract_braced_var() {
    assert_eq!(ASTNode::extract_braced_var("a{count}b"), Some("count"));
    assert_eq!(ASTNode::extract_braced_var("{x}"), Some("x"));
    assert_eq!(ASTNode::extract_braced_var("plain"), None);
    assert_eq!(ASTNode::extract_braced_var("{open"), None);
    assert_eq!(ASTNode::extract_braced_var(""), None);
}

#[test]
fn render_document_shell() {
    let html = compile_html("app:\"T\"{}").expect("should compile");
    assert!(html.starts_with("<!DOCTYPE html><html><head><title>T</title><style>"));
    assert!(html.contains(DEFAULT_STYLES));
    assert!(html.ends_with("</body></html>"));
}

#[test]
fn render_logic_code_inlined() {
    let html = compile_html("app{$$ `state.count = 5;`}").expect("should compile");
    assert!(html.contains("</style><script>state.count = 5;</script>\n<script>"));
}

#[test]
fn render_javascript_state_quoting() {
    let state = State(vec![
        ("count".to_string(), "0".to_string()),
        ("name".to_string(), "bob".to_string()),
        ("xs".to_string(), "[12]".to_string()),
    ]);
    let js = ASTNode::render_javascript(&state);
    assert!(js.contains("new Proxy({ count: 0, name: \"bob\", xs: [12] }, {"));
}

#[test]
fn render_javascript_empty_state() {
    let js = ASTNode::render_javascript(&State(vec![]));
    assert!(js.contains("new Proxy({  }, {"));
}

#[test]
fn render_conditional_attribute() {
    let html = compile_html("app{>div?{status==active}{}}").expect("should compile");
    assert!(html.contains("data-if=\"status,active\""));
}

#[test]
fn render_binding_attributes() {
    let html = compile_html("app{>input~username{}}").expect("should compile");
    assert!(html.contains("data-model=\"username\""));
    let html = compile_html("app{>button$click:\"doThing()\"{}}").expect("should compile");
    assert!(html.contains("onclick=\"doThing()\""));
}

#[test]
fn render_list_container() {
    let html = compile_html("app{[items]{>li:\"[item]\"{}}}").expect("should compile");
    assert!(html.contains("data-list=\"items\""));
    assert!(html.contains("<li >[item]</li>"));
}

#[test]
fn number_to_string() {
    assert_eq!(i16_to_string(0), "0");
    assert_eq!(i16_to_string(7), "7");
    assert_eq!(i16_to_string(123), "123");
    assert_eq!(i16_to_string(-45), "-45");
    assert_eq!(i16_to_string(32767), "32767");
    assert_eq!(i16_to_string(-32768), "-32768");
}
