use omg_idl_code_gen::ast::{IdlTypeDclKind, IdlTypeSpec};
use omg_idl_code_gen::config::Configuration;
use omg_idl_code_gen::context::Context;
use omg_idl_code_gen::error::{IdlError, ParserError};
use omg_idl_code_gen::grammar::parse_idl;
use omg_idl_code_gen::node::Node;
use omg_idl_code_gen::rule::Rule;
use omg_idl_code_gen::sources::Sources;

fn node(rule: Rule, text: &str, start: usize, parts: Vec<Node>) -> Node {
    Node { rule, text: text.to_string(), start, parts }
}

fn leaf(rule: Rule, text: &str) -> Node {
    node(rule, text, 0, vec![])
}

fn id(text: &str) -> Node {
    node(Rule::Identifier, text, 7, vec![])
}

fn dec(text: &str) -> Node {
    leaf(Rule::DecimalIntegerLiteral, text)
}

/// What a reader returned, or its message and where it points.
fn shown<T: std::fmt::Debug>(r: Result<T, ParserError>) -> String {
    match r {
        Ok(value) => format!("{value:?}"),
        Err(error) => format!("{} at {}", error.message, error.pos),
    }
}

fn config() -> Configuration {
    Configuration::new(".", "input.idl", false)
}

#[test]
fn identifiers() {
    let config = config();
    let ctx = Context::new(&config);
    assert_eq!(shown(ctx.read_identifier(&id("a"))), "\"a\"");
    assert_eq!(shown(ctx.read_identifier(&leaf(Rule::Enumerator, "RED"))), "\"RED\"");
    assert_eq!(
        shown(ctx.read_identifier(&node(Rule::Literal, "1", 3, vec![]))),
        "Pair did not contain a valid scoped name rule at 3"
    );
}

#[test]
fn scoped_names() {
    let config = config();
    let ctx = Context::new(&config);
    assert_eq!(
        shown(ctx.read_scoped_name(&node(Rule::ScopedName, "A::B", 0, vec![id("A"), id("B")]))),
        "IdlScopedName([\"A\", \"B\"], false)"
    );
    assert_eq!(
        shown(ctx.read_scoped_name(&node(Rule::ScopedName, "::A", 0, vec![id("A")]))),
        "IdlScopedName([\"A\"], true)"
    );
    assert_eq!(
        shown(ctx.read_scoped_name(&node(Rule::ScopedName, ":A", 0, vec![id("A"), dec("1")]))),
        "Pair did not contain a valid scoped name rule at 0"
    );
}

#[test]
fn boolean_literals() {
    let config = config();
    let ctx = Context::new(&config);
    let read = |text: &str| shown(ctx.read_const_expr(&leaf(Rule::BooleanLiteral, text)));
    assert_eq!(read("TRUE"), "BooleanLiteral(true)");
    assert_eq!(read("true"), "BooleanLiteral(true)");
    assert_eq!(read("tRuE"), "BooleanLiteral(true)");
    assert_eq!(read("FALSE"), "BooleanLiteral(false)");
    assert_eq!(read("truth"), "BooleanLiteral(false)");
    assert_eq!(read(""), "BooleanLiteral(false)");
}

#[test]
fn other_literals() {
    let config = config();
    let ctx = Context::new(&config);
    let read = |rule: Rule| shown(ctx.read_const_expr(&leaf(rule, "x")));
    assert_eq!(read(Rule::DecimalIntegerLiteral), "DecLiteral(\"x\")");
    assert_eq!(read(Rule::OctalIntegerLiteral), "OctLiteral(\"x\")");
    assert_eq!(read(Rule::HexIntegerLiteral), "HexLiteral(\"x\")");
    assert_eq!(read(Rule::CharacterLiteral), "CharLiteral(\"x\")");
    assert_eq!(read(Rule::WideCharacterLiteral), "WideCharLiteral(\"x\")");
    assert_eq!(read(Rule::StringLiteral), "StringLiteral(\"x\")");
    assert_eq!(read(Rule::WideStringLiteral), "WideStringLiteral(\"x\")");
    // Of several parts of one kind, the last counts.
    let float = node(
        Rule::FloatingPtLiteral,
        "1.2",
        0,
        vec![
            leaf(Rule::FractionalPart, "1"),
            leaf(Rule::FloatSuffix, "d"),
            leaf(Rule::FractionalPart, "2"),
        ],
    );
    assert_eq!(
        shown(ctx.read_const_expr(&float)),
        "FloatLiteral(None, Some(\"2\"), None, Some(\"d\"))"
    );
}

#[test]
fn expressions_without_their_parts() {
    let config = config();
    let ctx = Context::new(&config);
    let read = |rule: Rule| shown(ctx.read_const_expr(&node(rule, "", 5, vec![])));
    let missing = |what: &str| format!("No associated values found with the parsed '{what}' at 5");
    assert_eq!(read(Rule::AndExpr), missing("and expression"));
    assert_eq!(read(Rule::OrExpr), missing("or expression"));
    assert_eq!(read(Rule::XorExpr), missing("xor expression"));
    assert_eq!(read(Rule::LshiftExpr), missing("left shift expression"));
    assert_eq!(read(Rule::RshiftExpr), missing("right shift expression"));
    assert_eq!(read(Rule::AddExpr), missing("add expression"));
    assert_eq!(read(Rule::SubExpr), missing("sub expression"));
    assert_eq!(read(Rule::MulExpr), missing("multiply expression"));
    assert_eq!(read(Rule::DivExpr), missing("division expression"));
    assert_eq!(read(Rule::ModExpr), missing("modulo expression"));
    assert_eq!(
        read(Rule::ConstExpr),
        "Pair did not contain a valid const expression rule at 5"
    );
    assert_eq!(
        read(Rule::UnaryExpr),
        "Rule does not match expected unary expression format at 5"
    );
    assert_eq!(
        read(Rule::PrimaryExpr),
        "Primary expression did not match 'scoped_name', 'literal', or 'const expression' at 5"
    );
    assert_eq!(
        read(Rule::Literal),
        "Failed to read 'const expression' in the catch all at 5"
    );
}

#[test]
fn unary_operators() {
    let config = config();
    let ctx = Context::new(&config);
    let read = |op: &str| {
        let operand = node(Rule::DecimalIntegerLiteral, "1", 9, vec![]);
        let parts = vec![leaf(Rule::Other, op), operand];
        shown(ctx.read_const_expr(&node(Rule::UnaryExpr, "", 8, parts)))
    };
    assert_eq!(read("-"), "UnaryOp(Neg, DecLiteral(\"1\"))");
    assert_eq!(read("+"), "UnaryOp(Pos, DecLiteral(\"1\"))");
    assert_eq!(read("~"), "UnaryOp(Inverse, DecLiteral(\"1\"))");
    assert_eq!(read("!"), "! does not match acceptable values -|+|~ at 9");
}

#[test]
fn type_specs_without_their_parts() {
    let config = config();
    let ctx = Context::new(&config);
    assert_eq!(
        shown(ctx.read_type_spec(&node(Rule::SequenceType, "", 4, vec![]))),
        "Failed to discover required components to establish a sequence at 4"
    );
    assert_eq!(
        shown(ctx.read_type_spec(&node(Rule::Other, "any", 4, vec![]))),
        "Failed find a deeper rule pair to follow at 4"
    );
    assert_eq!(
        shown(ctx.read_type_spec(&node(Rule::Other, "", 0, vec![leaf(Rule::Float, "float")]))),
        "F32Type"
    );
    assert_eq!(
        shown(ctx.read_switch_type_spec(&node(Rule::Other, "", 4, vec![]))),
        "Failed to read associated type for switch type at 4"
    );
    // An error in the bound is an error, though the bound is left out.
    let bound = node(Rule::ConstExpr, "", 6, vec![]);
    let sequence = node(Rule::SequenceType, "", 4, vec![leaf(Rule::OctetType, "octet"), bound]);
    assert_eq!(
        shown(ctx.read_type_spec(&sequence)),
        "Pair did not contain a valid const expression rule at 6"
    );
}

fn declarator(rule: Rule, parts: Vec<Node>) -> Node {
    node(Rule::Other, "", 20, vec![node(rule, "", 21, parts)])
}

fn size(parts: Vec<Node>) -> Node {
    node(Rule::Other, "[]", 22, parts)
}

#[test]
fn struct_member_declarators() {
    let config = config();
    let ctx = Context::new(&config);
    let read = |pair: Node| shown(ctx.read_struct_member_declarator(&pair, &IdlTypeSpec::I32Type));
    assert_eq!(
        read(declarator(Rule::SimpleDeclarator, vec![id("a")])),
        "IdlStructMember { id: \"a\", type_spec: I32Type }"
    );
    assert_eq!(
        read(declarator(Rule::ArrayDeclarator, vec![id("a"), size(vec![dec("2")])])),
        "IdlStructMember { id: \"a\", type_spec: ArrayType(I32Type, [DecLiteral(\"2\")]) }"
    );
    assert_eq!(
        read(node(Rule::Other, "", 20, vec![])),
        "Pair did not contain a either other a simple or arraty declarator at 20"
    );
    assert_eq!(
        read(declarator(Rule::SimpleDeclarator, vec![])),
        "Pair did not contain a valid IDL simple declarator at 21"
    );
    assert_eq!(
        read(declarator(Rule::ArrayDeclarator, vec![])),
        "Pair did not contain a valid IDL array declatator at 21"
    );
    assert_eq!(
        read(declarator(Rule::Literal, vec![id("a")])),
        "Pair did not contain a valid IDL type rule at 21"
    );
    // The dimensions are read before the name.
    assert_eq!(
        read(declarator(Rule::ArrayDeclarator, vec![dec("a"), size(vec![])])),
        "Pair did not contain a valid 'const expression' at 21"
    );
    assert_eq!(
        read(declarator(Rule::ArrayDeclarator, vec![dec("a"), size(vec![dec("1")])])),
        "Pair did not contain a valid scoped name rule at 0"
    );
}

#[test]
fn struct_members() {
    let config = config();
    let ctx = Context::new(&config);
    assert_eq!(
        shown(ctx.read_struct_member(&node(Rule::Other, "", 1, vec![]))),
        "Pair did not contain a valid IDL type rule at 1"
    );
    assert_eq!(
        shown(ctx.read_struct_member(&node(
            Rule::Other,
            "",
            1,
            vec![leaf(Rule::OctetType, "octet")]
        ))),
        "Failed to aquire next declaration pair at 1"
    );
    let list = node(
        Rule::Other,
        "",
        2,
        vec![
            declarator(Rule::SimpleDeclarator, vec![id("a")]),
            declarator(Rule::SimpleDeclarator, vec![id("b")]),
        ],
    );
    assert_eq!(
        shown(ctx.read_struct_member(&node(
            Rule::Other,
            "",
            1,
            vec![leaf(Rule::OctetType, "octet"), list]
        ))),
        "[IdlStructMember { id: \"a\", type_spec: OctetType }, IdlStructMember { id: \"b\", \
         type_spec: OctetType }]"
    );
}

#[test]
fn switch_elements() {
    let config = config();
    let ctx = Context::new(&config);
    let read = |pair: Node| shown(ctx.read_switch_element_declarator(&pair, &IdlTypeSpec::I32Type));
    assert_eq!(
        read(declarator(Rule::SimpleDeclarator, vec![id("a")])),
        "IdlSwitchElement { id: \"a\", type_spec: I32Type }"
    );
    assert_eq!(
        read(node(Rule::Other, "", 20, vec![])),
        "Failed to parse switch element declarator at 20"
    );
    assert_eq!(
        read(declarator(Rule::SimpleDeclarator, vec![])),
        "Failed to discover simple declarator for switch element at 21"
    );
    assert_eq!(
        read(declarator(Rule::ArrayDeclarator, vec![])),
        "Failed to parse array declarator for switch element declarator at 21"
    );
    assert_eq!(
        read(declarator(Rule::Literal, vec![])),
        "Failed to discover either simple or array declarator for switch element declarator at 21"
    );
    // The name is read before the dimensions, and a missing one is reported where it is.
    assert_eq!(
        read(declarator(Rule::ArrayDeclarator, vec![dec("a"), size(vec![])])),
        "Pair did not contain a valid scoped name rule at 0"
    );
    assert_eq!(
        read(declarator(Rule::ArrayDeclarator, vec![id("a"), size(vec![])])),
        "Failed to discover const_expr under the fixed_array_size for switch element declarator \
         at 22"
    );
    let spec = |parts: Vec<Node>| {
        shown(ctx.read_switch_element_spec(&node(Rule::ElementSpec, "", 30, parts)))
    };
    assert_eq!(spec(vec![]), "Failed to read type spec from the switch element spec at 30");
    assert_eq!(
        spec(vec![leaf(Rule::CharType, "char")]),
        "Failed to read declarator from the switch element spec at 30"
    );
    assert_eq!(
        spec(vec![
            leaf(Rule::CharType, "char"),
            declarator(Rule::SimpleDeclarator, vec![id("a")])
        ]),
        "IdlSwitchElement { id: \"a\", type_spec: CharType }"
    );
}

fn element(name: &str) -> Node {
    let parts = vec![
        leaf(Rule::CharType, "char"),
        declarator(Rule::SimpleDeclarator, vec![id(name)]),
    ];
    node(Rule::ElementSpec, "", 0, parts)
}

fn label(parts: Vec<Node>) -> Node {
    node(Rule::CaseLabel, "", 0, parts)
}

#[test]
fn switch_cases() {
    let config = config();
    let ctx = Context::new(&config);
    assert_eq!(shown(ctx.read_switch_label(&label(vec![]))), "Default");
    assert_eq!(shown(ctx.read_switch_label(&label(vec![dec("1")]))), "Label(DecLiteral(\"1\"))");
    // Of several elements the last counts; what is neither label nor element does not.
    let case = node(
        Rule::Other,
        "",
        0,
        vec![element("a"), label(vec![dec("1")]), dec("2"), label(vec![]), element("b")],
    );
    assert_eq!(
        shown(ctx.read_switch_case(&case)),
        "IdlSwitchCase { labels: [Label(DecLiteral(\"1\")), Default], elem_spec: \
         IdlSwitchElement { id: \"b\", type_spec: CharType } }"
    );
    // The error of a label comes before that of the element.
    let broken = node(
        Rule::Other,
        "",
        0,
        vec![
            node(Rule::ElementSpec, "", 3, vec![]),
            label(vec![node(Rule::ConstExpr, "", 9, vec![])]),
        ],
    );
    assert_eq!(
        shown(ctx.read_switch_case(&broken)),
        "Pair did not contain a valid const expression rule at 9"
    );
}

#[test]
fn typedef_declarators() {
    let config = config();
    let ctx = Context::new(&config);
    let read = |pair: Node| shown(ctx.read_declarator(&pair, &IdlTypeSpec::I32Type));
    assert_eq!(
        read(declarator(Rule::SimpleDeclarator, vec![id("a")])),
        "(\"a\", IdlTypeDcl(TypeDcl(\"a\", I32Type)))"
    );
    assert_eq!(
        read(node(Rule::Other, "", 20, vec![])),
        "No associated values found with the parsed array|simple declarator at 20"
    );
    assert_eq!(
        read(declarator(Rule::SimpleDeclarator, vec![])),
        "Pair did not contain a valid identifer for the simple declarator at 21"
    );
    assert_eq!(
        read(declarator(Rule::ArrayDeclarator, vec![])),
        "Pair did not contain a valid identifer for the simple declarator at 21"
    );
    assert_eq!(
        read(declarator(Rule::Literal, vec![])),
        "Pair did not contain a valid simple or array declarator at 21"
    );
    assert_eq!(
        read(declarator(Rule::ArrayDeclarator, vec![id("a"), size(vec![])])),
        "Failed to read the const expr under the Rule::fixed_array_size at 21"
    );
}

#[test]
fn processing_a_declarator() {
    let config = config();
    let mut ctx = Context::new(&config);
    let scope = vec!["M".to_string()];
    let good = declarator(Rule::SimpleDeclarator, vec![id("a")]);
    let bad = declarator(Rule::Literal, vec![]);
    assert!(ctx.process_declarator(&scope, &bad, &IdlTypeSpec::OctetType).is_err());
    assert!(ctx.root_module.modules.is_empty());
    assert!(ctx.process_declarator(&scope, &good, &IdlTypeSpec::OctetType).is_ok());
    let module = &ctx.root_module.modules[0].1;
    assert_eq!(module.types.len(), 1);
    assert!(matches!(module.types[0].1.0, IdlTypeDclKind::TypeDcl(_, IdlTypeSpec::OctetType)));
}

#[test]
fn processing_a_declaration() {
    let config = config();
    let mut ctx = Context::new(&config);
    let sources = Sources::new();
    let mut scope = vec!["M".to_string()];
    let good = node(Rule::EnumDcl, "", 0, vec![id("E"), id("X")]);
    let bad = node(Rule::EnumDcl, "", 0, vec![id("F"), dec("1")]);
    assert!(ctx.process(&mut scope, &sources, &good).is_ok());
    assert!(ctx.process(&mut scope, &sources, &good).is_ok());
    match ctx.process(&mut scope, &sources, &bad) {
        Err(IdlError::ParserError(error)) => {
            assert_eq!(error.message, "Pair did not contain a valid scoped name rule");
        }
        _ => panic!("read what cannot be read"),
    }
    assert_eq!(scope, vec!["M".to_string()]);
    assert_eq!(ctx.root_module.modules[0].1.types.len(), 1);
    // A module is no failure, whatever fails inside.
    let module = node(Rule::ModuleDcl, "", 0, vec![id("N"), bad, good]);
    assert!(ctx.process(&mut scope, &sources, &module).is_ok());
    assert_eq!(scope, vec!["M".to_string()]);
    let inner = &ctx.root_module.modules[0].1.modules[0];
    assert_eq!(inner.0, "N");
    assert_eq!(inner.1.types.len(), 1);
}

#[test]
fn processing_again_changes_nothing() {
    let config = config();
    let mut ctx = Context::new(&config);
    let mut sources = Sources::new();
    sources.record_loaded(
        "a.idl".to_string(),
        "/a.idl".to_string(),
        Some("typedef long A;".to_string()),
    );
    let trees = parse_idl(
        "module M {\n#include \"a.idl\"\nstruct S { long x; }; typedef any B; typedef char C, D[2]; };\n\
         const long N = 1; union U switch (long) { default: long x; };",
    )
    .unwrap();
    let mut scope: Vec<String> = vec![];
    assert!(ctx.process(&mut scope, &sources, &trees[0]).is_ok());
    let once = format!("{:?} {:?}", ctx.root_module, ctx.included_files);
    assert_eq!(ctx.root_module.modules[0].1.types.len(), 4);
    let other = node(Rule::EnumDcl, "", 0, vec![id("E"), id("X")]);
    assert!(ctx.process(&mut scope, &sources, &trees[0]).is_ok());
    assert_eq!(format!("{:?} {:?}", ctx.root_module, ctx.included_files), once);
    assert!(ctx.process(&mut scope, &sources, &other).is_ok());
    let later = format!("{:?} {:?}", ctx.root_module, ctx.included_files);
    assert_ne!(later, once);
    assert!(ctx.process(&mut scope, &sources, &trees[0]).is_ok());
    assert_eq!(format!("{:?} {:?}", ctx.root_module, ctx.included_files), later);
}

#[test]
fn processing_an_include() {
    let config = config();
    let mut ctx = Context::new(&config);
    let mut sources = Sources::new();
    sources.record_loaded("gone.idl".to_string(), "/gone.idl".to_string(), None);
    sources.record_loaded(
        "a.idl".to_string(),
        "/a.idl".to_string(),
        Some("typedef long A;".to_string()),
    );
    let mut scope: Vec<String> = vec![];
    let directive = |name: &str| node(Rule::IncludeDirective, "", 0, vec![id(name)]);
    assert!(ctx
        .process(&mut scope, &sources, &node(Rule::IncludeDirective, "", 0, vec![]))
        .is_ok());
    assert!(matches!(
        ctx.process(&mut scope, &sources, &directive("b.idl")),
        Err(IdlError::FileNotFound(_))
    ));
    assert!(ctx.included_files.is_empty());
    assert_eq!(ctx.wanted, Some("b.idl".to_string()));
    assert!(ctx.process(&mut scope, &sources, &directive("c.idl")).is_err());
    assert_eq!(ctx.wanted, Some("b.idl".to_string()));
    // A file that was not found is reported once.
    assert!(matches!(
        ctx.process(&mut scope, &sources, &directive("gone.idl")),
        Err(IdlError::FileNotFound(_))
    ));
    assert!(ctx.process(&mut scope, &sources, &directive("gone.idl")).is_ok());
    assert!(ctx.process(&mut scope, &sources, &directive("a.idl")).is_ok());
    assert_eq!(ctx.included_files, vec!["/gone.idl".to_string(), "/a.idl".to_string()]);
    assert_eq!(ctx.root_module.types.len(), 1);
}

#[test]
fn trees_that_cannot_be_processed() {
    let config = config();
    let ctx = Context::new(&config);
    let case = node(Rule::Other, "", 0, vec![label(vec![]), element("a")]);
    let empty = node(Rule::Other, "", 0, vec![label(vec![])]);
    let broken = node(Rule::Other, "", 0, vec![node(Rule::ElementSpec, "", 0, vec![])]);
    let switch = || node(Rule::Other, "", 0, vec![leaf(Rule::CharType, "char")]);
    let union = |name: Node, switch: Node, cases: Vec<Node>| {
        node(Rule::UnionDef, "", 0, vec![name, switch, node(Rule::Other, "", 0, cases)])
    };
    assert!(!ctx.can_process(&node(Rule::ModuleDcl, "", 0, vec![])));
    let octet = || leaf(Rule::OctetType, "octet");
    assert!(!ctx.can_process(&node(Rule::TypeDeclarator, "", 0, vec![octet()])));
    assert!(ctx.can_process(&node(Rule::TypeDeclarator, "", 0, vec![id("a")])));
    assert!(!ctx.can_process(&node(Rule::ConstDcl, "", 0, vec![octet(), id("a")])));
    assert!(ctx.can_process(&node(Rule::ConstDcl, "", 0, vec![octet(), dec("1")])));
    assert!(ctx.can_process(&node(Rule::ConstDcl, "", 0, vec![id("a")])));
    assert!(!ctx.can_process(&node(Rule::UnionDef, "", 0, vec![id("U")])));
    assert!(ctx.can_process(&node(Rule::UnionDef, "", 0, vec![dec("1")])));
    assert!(ctx.can_process(&node(Rule::IncludeDirective, "", 0, vec![])));
    assert!(!ctx.can_process(&union(id("U"), switch(), vec![empty])));
    let empty = || node(Rule::Other, "", 0, vec![label(vec![])]);
    // What comes after a part that cannot be read is not reached.
    assert!(ctx.can_process(&union(id("U"), switch(), vec![broken, empty()])));
    assert!(ctx.can_process(&union(dec("1"), switch(), vec![empty()])));
    assert!(ctx.can_process(&union(id("U"), dec("1"), vec![empty()])));
    assert!(ctx.can_process(&union(id("U"), switch(), vec![case])));
    let inside = node(Rule::ModuleDcl, "", 0, vec![id("M"), union(id("U"), switch(), vec![empty()])]);
    assert!(!ctx.can_process(&inside));
    assert!(ctx.can_process(&node(Rule::Other, "", 0, vec![])));
}

#[test]
fn looking_up_modules() {
    let config = config();
    let mut ctx = Context::new(&config);
    let path = vec!["A".to_string(), "B".to_string()];
    assert_eq!(ctx.lookup_module(&path).id, Some("B".to_string()));
    ctx.lookup_module(&path).id = Some("C".to_string());
    assert_eq!(ctx.root_module.modules.len(), 1);
    assert_eq!(ctx.root_module.modules[0].1.modules.len(), 1);
    assert_eq!(ctx.lookup_module(&path).id, Some("C".to_string()));
    assert_eq!(ctx.lookup_module(&vec![]).id, None);
    assert!(ctx.add_file("/a"));
    assert!(!ctx.add_file("/a"));
    assert!(ctx.add_file("/b"));
}
