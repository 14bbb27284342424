use omg_idl_code_gen::error::{IdlError, ParserError};
use omg_idl_code_gen::grammar::{parse_idl, parse_tokens};
use omg_idl_code_gen::node::Node;
use omg_idl_code_gen::rule::Rule;
use omg_idl_code_gen::text::{joined, same_text, starts_with_colons};
use omg_idl_code_gen::token::{build_forest, Token};

fn token(rule: &str, text: &str, start: usize, parts: usize) -> Token {
    Token { rule: rule.to_string(), text: text.to_string(), start, parts }
}

/// The rules of a tree, with those of its parts in brackets.
fn rules(node: &Node) -> String {
    let parts: Vec<String> = node.parts.iter().map(rules).collect();
    if parts.is_empty() {
        format!("{:?}", node.rule)
    } else {
        format!("{:?}[{}]", node.rule, parts.join(" "))
    }
}

#[test]
fn forests() {
    let trees = build_forest(vec![
        token("module_dcl", "module M { }", 0, 2),
        token("identifier", "M", 7, 0),
        token("definition", "", 9, 1),
        token("enum_dcl", "", 9, 0),
        token("EOI", "", 12, 0),
    ])
    .unwrap();
    assert_eq!(trees.len(), 2);
    assert_eq!(rules(&trees[0]), "ModuleDcl[Identifier Other[EnumDcl]]");
    assert_eq!(rules(&trees[1]), "Other");
    assert_eq!(trees[0].parts[0].text, "M");
    assert_eq!(trees[0].parts[0].start, 7);
    assert!(build_forest(vec![]).unwrap().is_empty());
    // A part is missing.
    assert!(build_forest(vec![token("module_dcl", "", 0, 1)]).is_none());
}

#[test]
fn token_streams() {
    assert!(parse_tokens(Ok(vec![token("identifier", "a", 0, 0)])).is_ok());
    assert!(matches!(
        parse_tokens(Ok(vec![token("identifier", "a", 0, 1)])),
        Err(IdlError::MalformedTree)
    ));
    // A floating-point literal has no identifier inside.
    assert!(matches!(
        parse_tokens(Ok(vec![
            token("floating_pt_literal", "a", 0, 1),
            token("identifier", "a", 0, 0)
        ])),
        Err(IdlError::MalformedTree)
    ));
    match parse_tokens(Err(ParserError::new("no", 4))) {
        Err(IdlError::ParserError(error)) => {
            assert_eq!(error.message, "no");
            assert_eq!(error.pos, 4);
        }
        _ => panic!("made trees of an error"),
    }
}

#[test]
fn parse_trees() {
    let trees = parse_idl("  module M { const long C = 1; };").unwrap();
    assert_eq!(trees.len(), 1);
    let definition = &trees[0].parts[0];
    let module = &definition.parts[0];
    assert_eq!(module.rule, Rule::ModuleDcl);
    assert_eq!(module.start, 2);
    assert_eq!(module.text, "module M { const long C = 1; }");
    assert_eq!(
        rules(&module.parts[1].parts[0]),
        "ConstDcl[Other[Other[Other[SignedLongInt]]] Identifier \
         ConstExpr[UnaryExpr[PrimaryExpr[Literal[Other[DecimalIntegerLiteral]]]]]]"
    );
    assert!(matches!(parse_idl("module"), Err(IdlError::ParserError(_))));
}

#[test]
fn rule_names() {
    assert_eq!(Rule::from_name("struct_def"), Rule::StructDef);
    assert_eq!(Rule::from_name("include_directive"), Rule::IncludeDirective);
    assert_eq!(Rule::from_name("specification"), Rule::Other);
    assert_eq!(Rule::from_name(""), Rule::Other);
}

#[test]
fn texts() {
    assert!(same_text("a\u{e9}", "a\u{e9}"));
    assert!(!same_text("a", "ab"));
    assert!(!same_text("ab", "aB"));
    assert!(starts_with_colons("::a"));
    assert!(!starts_with_colons(":a"));
    assert!(!starts_with_colons(":"));
    assert_eq!(joined("a\u{e9}", "b"), "a\u{e9}b");
}
