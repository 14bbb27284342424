use omg_idl_code_gen::ast::{
    BinaryOp, IdlConstDcl, IdlScopedName, IdlStructMember, IdlSwitchCase, IdlSwitchElement,
    IdlSwitchLabel, IdlTypeDcl, IdlTypeDclKind, IdlTypeSpec, IdlValueExpr, UnaryOp,
};
use omg_idl_code_gen::module::IdlModule;
use omg_idl_code_gen::template::{write_source, Template};

fn text(s: &str) -> String {
    s.to_string()
}

fn dec(s: &str) -> IdlValueExpr {
    IdlValueExpr::DecLiteral(text(s))
}

fn name(path: &[&str], absolute: bool) -> IdlScopedName {
    IdlScopedName(path.iter().map(|part| part.to_string()).collect(), absolute)
}

#[test]
fn rust_paths() {
    assert_eq!(name(&["A", "B", "C"], false).rust_path(), "A::B::C");
    assert_eq!(name(&["A"], true).rust_path(), "crate::A");
    assert_eq!(name(&[], false).rust_path(), "");
    assert_eq!(name(&[], true).rust_path(), "crate::");
}

#[test]
fn rust_expressions() {
    let sum = IdlValueExpr::Expr(
        Box::new(dec("1")),
        Box::new(IdlValueExpr::BinaryOp(BinaryOp::LShift, Box::new(dec("2")))),
    );
    assert_eq!(sum.rust_expr(), "1 << 2");
    let negated = IdlValueExpr::UnaryOp(UnaryOp::Neg, Box::new(IdlValueExpr::Brace(Box::new(sum))));
    assert_eq!(negated.rust_expr(), "-(1 << 2)");
    let signs = [
        (BinaryOp::Or, "| 1"),
        (BinaryOp::Xor, "^ 1"),
        (BinaryOp::And, "& 1"),
        (BinaryOp::RShift, ">> 1"),
        (BinaryOp::Add, "+ 1"),
        (BinaryOp::Sub, "- 1"),
        (BinaryOp::Mul, "* 1"),
        (BinaryOp::Div, "/ 1"),
        (BinaryOp::Mod, "% 1"),
    ];
    for (op, expected) in signs {
        assert_eq!(IdlValueExpr::BinaryOp(op, Box::new(dec("1"))).rust_expr(), expected);
    }
    assert_eq!(IdlValueExpr::UnaryOp(UnaryOp::Pos, Box::new(dec("1"))).rust_expr(), "1");
    assert_eq!(IdlValueExpr::UnaryOp(UnaryOp::Inverse, Box::new(dec("1"))).rust_expr(), "!1");
    assert_eq!(IdlValueExpr::OctLiteral(text("017")).rust_expr(), "0o17");
    assert_eq!(IdlValueExpr::HexLiteral(text("0XfF")).rust_expr(), "0xfF");
    assert_eq!(IdlValueExpr::HexLiteral(text("0")).rust_expr(), "0x");
    assert_eq!(
        IdlValueExpr::FloatLiteral(None, Some(text("5")), Some(text("e1")), Some(text("f")))
            .rust_expr(),
        "0.5e1"
    );
    assert_eq!(IdlValueExpr::FloatLiteral(Some(text("1")), None, None, None).rust_expr(), "1.0");
    assert_eq!(IdlValueExpr::BooleanLiteral(true).rust_expr(), "true");
    assert_eq!(IdlValueExpr::BooleanLiteral(false).rust_expr(), "false");
    assert_eq!(IdlValueExpr::CharLiteral(text("'x'")).rust_expr(), "'x'");
    assert_eq!(IdlValueExpr::WideCharLiteral(text("L'x'")).rust_expr(), "'x'");
    assert_eq!(IdlValueExpr::StringLiteral(text("\"x\"")).rust_expr(), "\"x\"");
    assert_eq!(IdlValueExpr::WideStringLiteral(text("L\"x\"")).rust_expr(), "\"x\"");
    assert_eq!(IdlValueExpr::ScopedName(name(&["A", "B"], false)).rust_expr(), "A::B");
}

#[test]
fn rust_types() {
    let expected = [
        (IdlTypeSpec::F32Type, "f32"),
        (IdlTypeSpec::F64Type, "f64"),
        (IdlTypeSpec::F128Type, "f128"),
        (IdlTypeSpec::I16Type, "i16"),
        (IdlTypeSpec::I32Type, "i32"),
        (IdlTypeSpec::I64Type, "i64"),
        (IdlTypeSpec::U16Type, "u16"),
        (IdlTypeSpec::U32Type, "u32"),
        (IdlTypeSpec::U64Type, "u64"),
        (IdlTypeSpec::CharType, "char"),
        (IdlTypeSpec::WideCharType, "char"),
        (IdlTypeSpec::BooleanType, "bool"),
        (IdlTypeSpec::OctetType, "u8"),
        (IdlTypeSpec::StringType(None), "String"),
        (IdlTypeSpec::WideStringType(Some(Box::new(dec("4")))), "String"),
        (IdlTypeSpec::ScopedName(name(&["A"], true)), "crate::A"),
    ];
    for (spec, text) in expected {
        assert_eq!(spec.rust_type(), text);
    }
    let sequence = IdlTypeSpec::SequenceType(Box::new(IdlTypeSpec::OctetType));
    assert_eq!(sequence.rust_type(), "Vec<u8>");
    let array = IdlTypeSpec::ArrayType(Box::new(sequence), vec![dec("2"), dec("3")]);
    assert_eq!(array.rust_type(), "[[Vec<u8>; (3) as usize]; (2) as usize]");
    assert_eq!(IdlTypeSpec::StringType(None).rust_const_type(), "&str");
    assert_eq!(IdlTypeSpec::WideStringType(None).rust_const_type(), "&str");
    assert_eq!(IdlTypeSpec::I32Type.rust_const_type(), "i32");
}

#[test]
fn rendered_types() {
    let typedef = IdlTypeDcl(IdlTypeDclKind::TypeDcl(
        text("T"),
        IdlTypeSpec::SequenceType(Box::new(IdlTypeSpec::I32Type)),
    ));
    assert_eq!(typedef.render("  ").unwrap(), "  pub type T = Vec<i32>;\n");
    let members = vec![
        IdlStructMember { id: text("a"), type_spec: IdlTypeSpec::I16Type },
        IdlStructMember { id: text("b"), type_spec: IdlTypeSpec::StringType(None) },
    ];
    let structure = IdlTypeDcl(IdlTypeDclKind::StructDcl(text("S"), members));
    assert_eq!(
        structure.render("").unwrap(),
        "#[derive(Clone, Debug)]\npub struct S {\n    pub a: i16,\n    pub b: String,\n}\n"
    );
    let names = IdlTypeDcl(IdlTypeDclKind::EnumDcl(text("E"), vec![text("A"), text("B")]));
    assert_eq!(
        names.render("").unwrap(),
        "#[derive(Clone, Copy, Debug, PartialEq, Eq)]\npub enum E {\n    A,\n    B,\n}\n"
    );
    let cases = vec![
        IdlSwitchCase {
            labels: vec![IdlSwitchLabel::Label(dec("1")), IdlSwitchLabel::Label(dec("2"))],
            elem_spec: IdlSwitchElement { id: text("a"), type_spec: IdlTypeSpec::I16Type },
        },
        IdlSwitchCase {
            labels: vec![IdlSwitchLabel::Default],
            elem_spec: IdlSwitchElement { id: text("b"), type_spec: IdlTypeSpec::CharType },
        },
    ];
    let union = IdlTypeDcl(IdlTypeDclKind::UnionDcl(text("U"), IdlTypeSpec::I32Type, cases));
    assert_eq!(
        union.render(" ").unwrap(),
        " /// switch (i32)\n #[derive(Clone, Debug)]\n pub enum U {\n     /// 1, 2\n     \
         a(i16),\n     /// default\n     b(char),\n }\n"
    );
}

#[test]
fn rendered_constants() {
    let constant = IdlConstDcl {
        id: text("C"),
        typedcl: IdlTypeSpec::StringType(None),
        value: IdlValueExpr::StringLiteral(text("\"<&>\"")),
    };
    assert_eq!(constant.render("").unwrap(), "pub const C: &str = \"<&>\";\n");
}

#[test]
fn rendered_modules() {
    let mut inner = IdlModule::new(Some(text("B")));
    inner.types.push((
        text("T"),
        IdlTypeDcl(IdlTypeDclKind::TypeDcl(text("T"), IdlTypeSpec::OctetType)),
    ));
    let mut outer = IdlModule::new(Some(text("A")));
    outer.modules.push((text("B"), inner));
    let mut root = IdlModule::new(None);
    root.modules.push((text("A"), outer));
    root.modules.push((text("C"), IdlModule::new(Some(text("C")))));
    root.constants.push((
        text("N"),
        IdlConstDcl { id: text("N"), typedcl: IdlTypeSpec::I32Type, value: dec("1") },
    ));
    let expected = "pub const N: i32 = 1;\n\
                    pub mod A {\n    #[allow(unused_imports)]\n    use super::*;\n    \
                    pub mod B {\n        #[allow(unused_imports)]\n        use super::*;\n        \
                    pub type T = u8;\n    }\n}\n\
                    pub mod C {\n    #[allow(unused_imports)]\n    use super::*;\n}\n";
    assert_eq!(root.render(0).unwrap(), expected);
    assert_eq!(root.modules[1].1.render(2).unwrap(), "");
    assert_eq!(
        root.modules[0].1.render(1).unwrap(),
        "    pub mod B {\n        #[allow(unused_imports)]\n        use super::*;\n        \
         pub type T = u8;\n    }\n"
    );
}

#[test]
fn template_sources() {
    assert_eq!(
        write_source(&Template::Typedef.to_pieces()),
        "{{ indent }}pub type {{ id }} = {{ type_spec }};"
    );
    assert_eq!(
        write_source(&Template::Module.to_pieces()),
        "{{ indent }}pub mod {{ id }} {\n{{ indent }}    #[allow(unused_imports)]\n\
         {{ indent }}    use super::*;\n{{ body }}{{ indent }}}"
    );
}
