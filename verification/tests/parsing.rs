use vextra::ast::ASTNode;
use vextra::error::CompileError;
use vextra::parser::Parser;
use vextra::token::Token;

fn compile(src: &str) -> Result<ASTNode, CompileError> {
    let parser = Parser::new(src.to_string());
    let tokens = parser.tokenize()?;
    Parser::parse(&tokens)
}

fn lookup<'a>(pairs: &'a [(String, String)], key: &str) -> Option<&'a str> {
    pairs.iter().find(|p| p.0 == key).map(|p| p.1.as_str())
}

#[test]
fn parse_round_trip() {
    let src = "app:\"Demo\"{@remember{count:0}>button$click:\"count++\"{}>p:\"{count}\"{}}";
    let ast = compile(src).expect("program should compile");
    match &ast {
        ASTNode::App { children, title, state, logic_code } => {
            assert_eq!(title, "Demo");
            assert_eq!(lookup(&state.0, "count"), Some("0"));
            assert_eq!(logic_code, "");
            assert_eq!(children.len(), 2);
            match &children[0] {
                ASTNode::Element { name, attributes, .. } => {
                    assert_eq!(name, "button");
                    assert_eq!(lookup(&attributes.0, "onclick"), Some("count++"));
                }
                _ => panic!("first child should be an element"),
            }
            match &children[1] {
                ASTNode::Element { name, value, .. } => {
                    assert_eq!(name, "p");
                    assert!(value.contains("{count}"));
                }
                _ => panic!("second child should be an element"),
            }
        }
        _ => panic!("root should be the app node"),
    }
    let html = ast.render_html();
    assert!(html.contains("data-bind=\"count\""));
    assert!(html.contains(">{count}</p>"));
}

#[test]
fn parse_malformed_input_aborts() {
    let r = compile("app:\"T\"{>");
    assert_eq!(r, Err(CompileError::ExpectedElementName));
}

#[test]
fn parse_list_block() {
    let ast = compile("app{[items]{>li:\"[item]\"{}}}").expect("program should compile");
    match &ast {
        ASTNode::App { children, .. } => {
            assert_eq!(children.len(), 1);
            match &children[0] {
                ASTNode::Element { name, children, attributes, .. } => {
                    assert_eq!(name, "div");
                    assert_eq!(lookup(&attributes.0, "data-list"), Some("items"));
                    assert_eq!(children.len(), 1);
                    match &children[0] {
                        ASTNode::Element { name, value, .. } => {
                            assert_eq!(name, "li");
                            assert_eq!(value, "[item]");
                        }
                        _ => panic!("template should be an element"),
                    }
                }
                _ => panic!("list should become an element"),
            }
        }
        _ => panic!("root should be the app node"),
    }
}

#[test]
fn parse_default_title() {
    let ast = compile("app{}").expect("program should compile");
    match &ast {
        ASTNode::App { title, children, .. } => {
            assert_eq!(title, "Website");
            assert_eq!(children.len(), 0);
        }
        _ => panic!("root should be the app node"),
    }
}

#[test]
fn parse_state_value_kinds() {
    let ast = compile("app{@remember{a:1,b:\"x\",c:word,d:[1 2]}}").expect("should compile");
    match &ast {
        ASTNode::App { state, .. } => {
            assert_eq!(lookup(&state.0, "a"), Some("1"));
            assert_eq!(lookup(&state.0, "b"), Some("x"));
            assert_eq!(lookup(&state.0, "c"), Some("word"));
            assert_eq!(lookup(&state.0, "d"), Some("[12]"));
        }
        _ => panic!("root should be the app node"),
    }
}

#[test]
fn parse_duplicate_state_key_last_write_wins() {
    let ast = compile("app{@remember{a:1,a:2}}").expect("should compile");
    match &ast {
        ASTNode::App { state, .. } => {
            assert_eq!(state.0.len(), 1);
            assert_eq!(lookup(&state.0, "a"), Some("2"));
        }
        _ => panic!("root should be the app node"),
    }
}

#[test]
fn parse_logic_block() {
    let ast = compile("app{$$ `let x = 1;`}").expect("should compile");
    match &ast {
        ASTNode::App { logic_code, .. } => {
            assert_eq!(logic_code, "let x = 1;");
        }
        _ => panic!("root should be the app node"),
    }
}

#[test]
fn parse_comment_is_skipped() {
    let ast = compile("app{;a note;>p{}}").expect("should compile");
    match &ast {
        ASTNode::App { children, .. } => {
            assert_eq!(children.len(), 1);
        }
        _ => panic!("root should be the app node"),
    }
}

#[test]
fn parse_conditional_block() {
    let ast = compile("app:\"T\"{>div?{status==active}{}}").expect("should compile");
    match &ast {
        ASTNode::App { children, .. } => match &children[0] {
            ASTNode::Element { attributes, .. } => {
                assert_eq!(lookup(&attributes.0, "data-if"), Some("status,active"));
                assert_eq!(attributes.0.len(), 1);
            }
            _ => panic!("child should be an element"),
        },
        _ => panic!("root should be the app node"),
    }
}

#[test]
fn parse_input_binding() {
    let ast = compile("app{>input~username{}}").expect("should compile");
    match &ast {
        ASTNode::App { children, .. } => match &children[0] {
            ASTNode::Element { attributes, .. } => {
                assert_eq!(lookup(&attributes.0, "data-model"), Some("username"));
                assert_eq!(attributes.0.len(), 1);
            }
            _ => panic!("child should be an element"),
        },
        _ => panic!("root should be the app node"),
    }
}

#[test]
fn parse_event_binding() {
    let ast = compile("app{>button$click:\"doThing()\"{}}").expect("should compile");
    match &ast {
        ASTNode::App { children, .. } => match &children[0] {
            ASTNode::Element { attributes, .. } => {
                assert_eq!(lookup(&attributes.0, "onclick"), Some("doThing()"));
                assert_eq!(attributes.0.len(), 1);
            }
            _ => panic!("child should be an element"),
        },
        _ => panic!("root should be the app node"),
    }
}

#[test]
fn parse_style_block_with_values_and_bare_keys() {
    let ast = compile("app{>div#{size:big,column,fg:red,}{}}").expect("should compile");
    match &ast {
        ASTNode::App { children, .. } => match &children[0] {
            ASTNode::Element { styles, .. } => {
                assert_eq!(lookup(&styles.0, "size"), Some("big"));
                assert_eq!(lookup(&styles.0, "column"), Some("true"));
                assert_eq!(lookup(&styles.0, "fg"), Some("red"));
            }
            _ => panic!("child should be an element"),
        },
        _ => panic!("root should be the app node"),
    }
}

#[test]
fn parse_attribute_block() {
    let ast = compile("app{>input%{placeholder:name,max:30}{}}").expect("should compile");
    match &ast {
        ASTNode::App { children, .. } => match &children[0] {
            ASTNode::Element { attributes, .. } => {
                assert_eq!(lookup(&attributes.0, "placeholder"), Some("name"));
                assert_eq!(lookup(&attributes.0, "max"), Some("30"));
            }
            _ => panic!("child should be an element"),
        },
        _ => panic!("root should be the app node"),
    }
}

#[test]
fn parse_modifiers_in_any_order() {
    let ast = compile("app{>div~x?{s==1}$click:\"f()\"{}}").expect("should compile");
    match &ast {
        ASTNode::App { children, .. } => match &children[0] {
            ASTNode::Element { attributes, .. } => {
                assert_eq!(lookup(&attributes.0, "data-model"), Some("x"));
                assert_eq!(lookup(&attributes.0, "data-if"), Some("s,1"));
                assert_eq!(lookup(&attributes.0, "onclick"), Some("f()"));
            }
            _ => panic!("child should be an element"),
        },
        _ => panic!("root should be the app node"),
    }
}

#[test]
fn parse_style_block_before_value() {
    let ast = compile("app{>p#{fg:red}:\"x\"{}}").expect("should compile");
    match &ast {
        ASTNode::App { children, .. } => match &children[0] {
            ASTNode::Element { value, styles, .. } => {
                assert_eq!(value, "x");
                assert_eq!(lookup(&styles.0, "fg"), Some("red"));
            }
            _ => panic!("child should be an element"),
        },
        _ => panic!("root should be the app node"),
    }
}

#[test]
fn parse_nested_children() {
    let ast = compile("app{>div{>p:\"a\"{}>p:\"b\"{}}}").expect("should compile");
    match &ast {
        ASTNode::App { children, .. } => match &children[0] {
            ASTNode::Element { name, children, .. } => {
                assert_eq!(name, "div");
                assert_eq!(children.len(), 2);
            }
            _ => panic!("child should be an element"),
        },
        _ => panic!("root should be the app node"),
    }
}

#[test]
fn parse_element_without_children_block() {
    let ast = compile("app{>br}").expect("should compile");
    match &ast {
        ASTNode::App { children, .. } => {
            assert_eq!(children.len(), 1);
            match &children[0] {
                ASTNode::Element { name, children, .. } => {
                    assert_eq!(name, "br");
                    assert_eq!(children.len(), 0);
                }
                _ => panic!("child should be an element"),
            }
        }
        _ => panic!("root should be the app node"),
    }
}

#[test]
fn parse_stray_brace_is_tolerated() {
    let ast = compile("app{{}").expect("should compile");
    match &ast {
        ASTNode::App { children, .. } => {
            assert_eq!(children.len(), 0);
        }
        _ => panic!("root should be the app node"),
    }
}

#[test]
fn parse_list_block_with_styles() {
    let ast = compile("app{[xs]#{fg:red}{>li{}}}").expect("should compile");
    match &ast {
        ASTNode::App { children, .. } => match &children[0] {
            ASTNode::Element { name, styles, attributes, .. } => {
                assert_eq!(name, "div");
                assert_eq!(lookup(&styles.0, "fg"), Some("red"));
                assert_eq!(lookup(&attributes.0, "data-list"), Some("xs"));
            }
            _ => panic!("list should become an element"),
        },
        _ => panic!("root should be the app node"),
    }
}

#[test]
fn parse_deeply_nested_children() {
    let ast = compile("app{>div{>ul{>li:\"x\"{}}}}").expect("should compile");
    match &ast {
        ASTNode::App { children, .. } => match &children[0] {
            ASTNode::Element { children, .. } => match &children[0] {
                ASTNode::Element { name, children, .. } => {
                    assert_eq!(name, "ul");
                    assert_eq!(children.len(), 1);
                    match &children[0] {
                        ASTNode::Element { name, value, .. } => {
                            assert_eq!(name, "li");
                            assert_eq!(value, "x");
                        }
                        _ => panic!("grandchild should be an element"),
                    }
                }
                _ => panic!("child should be an element"),
            },
            _ => panic!("child should be an element"),
        },
        _ => panic!("root should be the app node"),
    }
}

#[test]
fn parse_end_without_closing_brace_mid_remember() {
    let tokens = vec![
        Token::Identifier("app".to_string()),
        Token::At,
        Token::Identifier("remember".to_string()),
        Token::LBrace,
    ];
    let r = Parser::parse(&tokens);
    assert_eq!(r, Err(CompileError::UnexpectedEndInRemember));
}
