use omg_idl_code_gen::config::Configuration;
use omg_idl_code_gen::error::IdlError;
use omg_idl_code_gen::generator::{build_modules, generate_with_sources, GenerateError, Step};
use omg_idl_code_gen::module::IdlModule;
use omg_idl_code_gen::sources::{IdlLoader, Loader, Sources};
use std::cell::RefCell;

/// Files by name, and the names that were loaded. A name and the same name after `./` are one
/// file.
struct Memory {
    files: Vec<(&'static str, &'static str)>,
    loads: RefCell<Vec<String>>,
}

impl Memory {
    fn new(files: Vec<(&'static str, &'static str)>) -> Self {
        Memory { files, loads: RefCell::new(vec![]) }
    }
}

impl IdlLoader for Memory {
    fn load(&self, filename: &str) -> Result<String, std::io::Error> {
        self.loads.borrow_mut().push(filename.to_string());
        for (name, text) in &self.files {
            if *name == filename.trim_start_matches("./") {
                return Ok(text.to_string());
            }
        }
        Err(std::io::Error::from(std::io::ErrorKind::NotFound))
    }
}

fn full_path(name: &str) -> String {
    format!("/work/{}", name.trim_start_matches("./"))
}

fn config() -> Configuration {
    Configuration::new("/work", "input.idl", false)
}

/// Builds the modules that `input.idl` declares, and fetches what that takes.
fn gather(loader: &Memory, sources: &mut Sources) -> Result<IdlModule, IdlError> {
    loop {
        match build_modules(&config(), sources)? {
            Step::Load(name) => sources.fetch(loader, &name, full_path(&name)),
            Step::Done(module) => return Ok(module),
        }
    }
}

fn build(files: Vec<(&'static str, &'static str)>) -> Result<IdlModule, IdlError> {
    gather(&Memory::new(files), &mut Sources::new())
}

/// The names that are loaded for `input.idl`, in order.
fn loads(files: Vec<(&'static str, &'static str)>) -> Vec<String> {
    let loader = Memory::new(files);
    let _ = gather(&loader, &mut Sources::new());
    loader.loads.into_inner()
}

fn module_of(text: &'static str) -> IdlModule {
    build(vec![("input.idl", text)]).unwrap()
}

fn submodule<'a>(module: &'a IdlModule, name: &str) -> &'a IdlModule {
    for (key, child) in &module.modules {
        if key == name {
            return child;
        }
    }
    panic!("no module {name}")
}

/// The types of a module, each with its name.
fn types(module: &IdlModule) -> Vec<String> {
    module.types.iter().map(|(key, dcl)| format!("{key}: {:?}", dcl.0)).collect()
}

/// The constants of a module, each with its name.
fn constants(module: &IdlModule) -> Vec<String> {
    module
        .constants
        .iter()
        .map(|(key, dcl)| format!("{key}: {:?} = {:?}", dcl.typedcl, dcl.value))
        .collect()
}

fn typedef(text: &'static str) -> Vec<String> {
    types(&module_of(text))
}

fn constant(text: &'static str) -> Vec<String> {
    constants(&module_of(text))
}

#[test]
fn self_include_does_not_recurse_forever() {
    let input = r#"#include "./input.idl"
module DDS {
    typedef long Foo;
};"#;
    let loader = Memory::new(vec![("input.idl", input)]);
    let mut sources = Sources::new();
    assert!(gather(&loader, &mut sources).is_ok());
    // The file comes up under two names, and is loaded once.
    assert_eq!(sources.files.len(), 2);
    assert_eq!(sources.files[0].1.full_path, sources.files[1].1.full_path);
    assert_eq!(loader.loads.into_inner(), vec!["input.idl"]);
    let result = generate_with_sources(&config(), &sources);
    assert!(result.is_ok(), "self include should be handled without recursion");
    let generated = match result.unwrap() {
        Step::Done(generated) => generated,
        Step::Load(name) => panic!("{name} is missing"),
    };
    assert!(generated.contains("pub type Foo = i32;"), "missing expected typedef in output");
    let root = build(vec![("input.idl", input)]).unwrap();
    assert_eq!(root.modules.len(), 1);
    assert_eq!(types(submodule(&root, "DDS")), vec!["Foo: TypeDcl(\"Foo\", I32Type)"]);
}

#[test]
fn basic_types() {
    assert_eq!(typedef("typedef long T;"), vec!["T: TypeDcl(\"T\", I32Type)"]);
    assert_eq!(typedef("typedef long long T;"), vec!["T: TypeDcl(\"T\", I64Type)"]);
    assert_eq!(typedef("typedef short T;"), vec!["T: TypeDcl(\"T\", I16Type)"]);
    assert_eq!(typedef("typedef octet T;"), vec!["T: TypeDcl(\"T\", OctetType)"]);
    assert_eq!(typedef("typedef unsigned short T;"), vec!["T: TypeDcl(\"T\", U16Type)"]);
    assert_eq!(typedef("typedef unsigned long T;"), vec!["T: TypeDcl(\"T\", U32Type)"]);
    assert_eq!(typedef("typedef unsigned long long T;"), vec!["T: TypeDcl(\"T\", U64Type)"]);
    assert_eq!(typedef("typedef char T;"), vec!["T: TypeDcl(\"T\", CharType)"]);
    assert_eq!(typedef("typedef wchar T;"), vec!["T: TypeDcl(\"T\", WideCharType)"]);
    assert_eq!(typedef("typedef boolean T;"), vec!["T: TypeDcl(\"T\", BooleanType)"]);
    assert_eq!(typedef("typedef float T;"), vec!["T: TypeDcl(\"T\", F32Type)"]);
    assert_eq!(typedef("typedef double T;"), vec!["T: TypeDcl(\"T\", F64Type)"]);
    assert_eq!(typedef("typedef long double T;"), vec!["T: TypeDcl(\"T\", F128Type)"]);
}

#[test]
fn strings_and_sequences() {
    assert_eq!(typedef("typedef string T;"), vec!["T: TypeDcl(\"T\", StringType(None))"]);
    assert_eq!(typedef("typedef wstring T;"), vec!["T: TypeDcl(\"T\", WideStringType(None))"]);
    assert_eq!(
        typedef("typedef string<8> T;"),
        vec!["T: TypeDcl(\"T\", StringType(Some(DecLiteral(\"8\"))))"]
    );
    assert_eq!(
        typedef("typedef wstring<0x10> T;"),
        vec!["T: TypeDcl(\"T\", WideStringType(Some(HexLiteral(\"0x10\"))))"]
    );
    assert_eq!(
        typedef("typedef sequence<octet> T;"),
        vec!["T: TypeDcl(\"T\", SequenceType(OctetType))"]
    );
    // The bound of a sequence is read and left out.
    assert_eq!(
        typedef("typedef sequence<octet, 4> T;"),
        vec!["T: TypeDcl(\"T\", SequenceType(OctetType))"]
    );
    assert_eq!(
        typedef("typedef sequence<sequence<A::B>> T;"),
        vec![
            "T: TypeDcl(\"T\", SequenceType(SequenceType(ScopedName(IdlScopedName([\"A\", \"B\"], \
             false)))))"
        ]
    );
}

#[test]
fn arrays() {
    assert_eq!(
        typedef("typedef long T[3];"),
        vec!["T: TypeDcl(\"T\", ArrayType(I32Type, [DecLiteral(\"3\")]))"]
    );
    assert_eq!(
        typedef("typedef long T[3][N];"),
        vec![
            "T: TypeDcl(\"T\", ArrayType(I32Type, [DecLiteral(\"3\"), \
             ScopedName(IdlScopedName([\"N\"], false))]))"
        ]
    );
    assert_eq!(
        typedef("typedef long A, B[2];"),
        vec![
            "A: TypeDcl(\"A\", I32Type)",
            "B: TypeDcl(\"B\", ArrayType(I32Type, [DecLiteral(\"2\")]))"
        ]
    );
}

#[test]
fn structs() {
    assert_eq!(
        typedef("struct S { long a, b[2]; ::M::T c; };"),
        vec![
            "S: StructDcl(\"S\", [IdlStructMember { id: \"a\", type_spec: I32Type }, \
             IdlStructMember { id: \"b\", type_spec: ArrayType(I32Type, [DecLiteral(\"2\")]) }, \
             IdlStructMember { id: \"c\", type_spec: ScopedName(IdlScopedName([\"M\", \"T\"], \
             true)) }])"
        ]
    );
    assert_eq!(typedef("struct S { };"), vec!["S: StructDcl(\"S\", [])"]);
}

#[test]
fn enums() {
    assert_eq!(
        typedef("enum E { RED, GREEN, BLUE };"),
        vec!["E: EnumDcl(\"E\", [\"RED\", \"GREEN\", \"BLUE\"])"]
    );
}

#[test]
fn unions() {
    assert_eq!(
        typedef("union U switch (long) { case 1: case 2: long a; default: octet b[4]; };"),
        vec![
            "U: UnionDcl(\"U\", I32Type, [IdlSwitchCase { labels: [Label(DecLiteral(\"1\")), \
             Label(DecLiteral(\"2\"))], elem_spec: IdlSwitchElement { id: \"a\", type_spec: \
             I32Type } }, IdlSwitchCase { labels: [Default], elem_spec: IdlSwitchElement { id: \
             \"b\", type_spec: ArrayType(OctetType, [DecLiteral(\"4\")]) } }])"
        ]
    );
}

#[test]
fn literals() {
    assert_eq!(constant("const long C = 12;"), vec!["C: I32Type = DecLiteral(\"12\")"]);
    assert_eq!(constant("const long C = 017;"), vec!["C: I32Type = OctLiteral(\"017\")"]);
    assert_eq!(constant("const long C = 0xfF;"), vec!["C: I32Type = HexLiteral(\"0xfF\")"]);
    assert_eq!(
        constant("const double C = 1.25e-3f;"),
        vec![
            "C: F64Type = FloatLiteral(Some(\"1\"), Some(\"25\"), Some(\"e-3\"), Some(\"f\"))"
        ]
    );
    assert_eq!(
        constant("const double C = .5;"),
        vec!["C: F64Type = FloatLiteral(None, Some(\"5\"), None, None)"]
    );
    assert_eq!(constant("const char C = 'x';"), vec!["C: CharType = CharLiteral(\"'x'\")"]);
    assert_eq!(
        constant("const string C = \"hello\";"),
        vec!["C: StringType(None) = StringLiteral(\"\\\"hello\\\"\")"]
    );
}

#[test]
fn operators() {
    let expected = [
        ("&", "And"),
        ("|", "Or"),
        ("^", "Xor"),
        ("<<", "LShift"),
        (">>", "RShift"),
        ("+", "Add"),
        ("-", "Sub"),
        ("*", "Mul"),
        ("/", "Div"),
        ("%", "Mod"),
    ];
    let inputs = [
        "const long C = 1 & 2;",
        "const long C = 1 | 2;",
        "const long C = 1 ^ 2;",
        "const long C = 1 << 2;",
        "const long C = 1 >> 2;",
        "const long C = 1 + 2;",
        "const long C = 1 - 2;",
        "const long C = 1 * 2;",
        "const long C = 1 / 2;",
        "const long C = 1 % 2;",
    ];
    for i in 0..inputs.len() {
        assert!(inputs[i].contains(expected[i].0));
        assert_eq!(
            constant(inputs[i]),
            vec![format!(
                "C: I32Type = Expr(DecLiteral(\"1\"), BinaryOp({}, DecLiteral(\"2\")))",
                expected[i].1
            )]
        );
    }
    assert_eq!(
        constant("const long C = -(1 + ~A);"),
        vec![
            "C: I32Type = UnaryOp(Neg, Brace(Expr(DecLiteral(\"1\"), BinaryOp(Add, \
             UnaryOp(Inverse, ScopedName(IdlScopedName([\"A\"], false)))))))"
        ]
    );
    assert_eq!(
        constant("const long C = +1;"),
        vec!["C: I32Type = UnaryOp(Pos, DecLiteral(\"1\"))"]
    );
}

#[test]
fn modules_nest_and_are_reopened() {
    let root = module_of(
        "module A { module B { typedef long T; }; }; typedef short R; \
         module A { const long C = 1; module B { typedef char U; }; };",
    );
    assert_eq!(types(&root), vec!["R: TypeDcl(\"R\", I16Type)"]);
    assert_eq!(root.modules.len(), 1);
    let a = submodule(&root, "A");
    assert_eq!(a.id, Some("A".to_string()));
    assert_eq!(constants(a), vec!["C: I32Type = DecLiteral(\"1\")"]);
    assert_eq!(a.modules.len(), 1);
    assert_eq!(
        types(submodule(a, "B")),
        vec!["T: TypeDcl(\"T\", I32Type)", "U: TypeDcl(\"U\", CharType)"]
    );
    assert_eq!(root.id, None);
}

#[test]
fn first_declaration_wins() {
    let root = module_of(
        "typedef long T; struct T { char c; }; const long C = 1; const short C = 2;",
    );
    assert_eq!(types(&root), vec!["T: TypeDcl(\"T\", I32Type)"]);
    assert_eq!(constants(&root), vec!["C: I32Type = DecLiteral(\"1\")"]);
}

#[test]
fn declarations_in_other_modules_are_kept_apart() {
    let root = module_of("module A { typedef long T; }; module B { typedef char T; };");
    assert_eq!(types(submodule(&root, "A")), vec!["T: TypeDcl(\"T\", I32Type)"]);
    assert_eq!(types(submodule(&root, "B")), vec!["T: TypeDcl(\"T\", CharType)"]);
    assert!(root.types.is_empty());
}

#[test]
fn unreadable_declarations_are_passed_over() {
    // Neither `any`, an anonymous struct in a `typedef` nor inheritance can be read.
    let root = module_of(
        "typedef any A; typedef struct S { long a; } B; struct D : A { long x; }; \
         module M { typedef any E; typedef octet F; };",
    );
    assert!(root.types.is_empty());
    assert_eq!(types(submodule(&root, "M")), vec!["F: TypeDcl(\"F\", OctetType)"]);
}

#[test]
fn comments_between_declarations() {
    let root = module_of("// one\ntypedef long A;\n/* two */ module M { /* three */ enum E { X }; };");
    assert_eq!(types(&root), vec!["A: TypeDcl(\"A\", I32Type)"]);
    assert_eq!(types(submodule(&root, "M")), vec!["E: EnumDcl(\"E\", [\"X\"])"]);
}

#[test]
fn comments_inside_declarations() {
    let root = module_of(
        "union /* c */ U switch (long) { case 1: long a; /* d */ case 2: long b; };\n\
         struct S { // e\n long /* f */ x; };",
    );
    assert_eq!(root.types.len(), 2);
    assert_eq!(root.types[0].0, "U");
    assert_eq!(
        types(&root)[1],
        "S: StructDcl(\"S\", [IdlStructMember { id: \"x\", type_spec: I32Type }])"
    );
}

#[test]
fn includes() {
    let root = build(vec![
        ("input.idl", "module M {\n#include \"a.idl\"\n};\n#include <b.idl>\ntypedef long T;"),
        ("a.idl", "#include \"b.idl\"\ntypedef char A;"),
        ("b.idl", "#include \"a.idl\"\ntypedef octet B;"),
    ])
    .unwrap();
    // `b.idl` is read once, where it is included first.
    assert_eq!(
        types(submodule(&root, "M")),
        vec!["B: TypeDcl(\"B\", OctetType)", "A: TypeDcl(\"A\", CharType)"]
    );
    assert_eq!(types(&root), vec!["T: TypeDcl(\"T\", I32Type)"]);
}

#[test]
fn missing_and_broken_includes_are_passed_over() {
    let root = build(vec![
        ("input.idl", "#include \"gone.idl\"\n#include \"broken.idl\"\ntypedef long T;"),
        ("broken.idl", "module {"),
    ])
    .unwrap();
    assert_eq!(types(&root), vec!["T: TypeDcl(\"T\", I32Type)"]);
}

#[test]
fn a_missing_file_is_reported() {
    match build(vec![("other.idl", "")]) {
        Err(IdlError::FileNotFound(name)) => assert_eq!(name, "input.idl"),
        _ => panic!("found a file that is not there"),
    }
}

#[test]
fn the_configured_file_comes_first() {
    assert!(matches!(
        build_modules(&config(), &Sources::new()),
        Ok(Step::Load(name)) if name == "input.idl"
    ));
    assert!(matches!(
        generate_with_sources(&config(), &Sources::new()),
        Ok(Step::Load(name)) if name == "input.idl"
    ));
}

#[test]
fn generated_code() {
    let mut sources = Sources::new();
    sources.fetch(&Memory::new(vec![]), "input.idl", full_path("input.idl"));
    assert!(matches!(
        generate_with_sources(&config(), &sources),
        Err(GenerateError::Idl(IdlError::FileNotFound(_)))
    ));
    let mut sources = Sources::new();
    let loader = Memory::new(vec![("input.idl", "module M { const long C = 1; };")]);
    sources.fetch(&loader, "input.idl", full_path("input.idl"));
    assert!(matches!(
        generate_with_sources(&config(), &sources),
        Ok(Step::Done(text)) if text == "pub mod M {\n    #[allow(unused_imports)]\n    \
                                         use super::*;\n    pub const C: i32 = 1;\n}\n"
    ));
}

#[test]
fn a_syntax_error_is_reported() {
    match build(vec![("input.idl", "typedef long;")]) {
        Err(IdlError::ParserError(error)) => {
            assert!(!error.message.is_empty());
            assert_eq!(error.pos, 12);
        }
        _ => panic!("parsed what is no IDL"),
    }
}

#[test]
fn files_are_loaded_as_they_come_up() {
    assert_eq!(
        loads(vec![
            ("input.idl", "#include \"a.idl\"\n#include \"b.idl\""),
            ("a.idl", "module M {\n#include \"c.idl\"\n};"),
            ("b.idl", ""),
            ("c.idl", ""),
        ]),
        vec!["input.idl", "a.idl", "c.idl", "b.idl"]
    );
}

#[test]
fn no_file_is_loaded_twice() {
    assert_eq!(
        loads(vec![
            ("input.idl", "#include \"./a.idl\"\n#include \"a.idl\"\n#include \"gone.idl\"\n#include \"./gone.idl\""),
            ("a.idl", "#include \"./input.idl\"\n#include \"././a.idl\"\n#include \"input.idl\""),
        ]),
        vec!["input.idl", "./a.idl", "gone.idl"]
    );
}

#[test]
fn runs_end() {
    // Three names are included, two of them of one file; with the configured file that is as
    // many steps as a run can have.
    let loader = Memory::new(vec![
        ("input.idl", "#include \"a.idl\"\n#include \"./a.idl\""),
        ("a.idl", "#include \"./input.idl\"\n#include \"a.idl\""),
    ]);
    let mut sources = Sources::new();
    let mut steps = vec![];
    while let Ok(Step::Load(name)) = build_modules(&config(), &sources) {
        sources.fetch(&loader, &name, full_path(&name));
        steps.push(name);
    }
    assert_eq!(steps, vec!["input.idl", "a.idl", "./input.idl", "./a.idl"]);
    assert_eq!(loader.loads.into_inner(), vec!["input.idl", "a.idl"]);
}

#[test]
fn a_file_under_another_name() {
    let loader = Memory::new(vec![("a.idl", "typedef char A;")]);
    let mut sources = Sources::new();
    sources.fetch(&loader, "a.idl", full_path("a.idl"));
    sources.fetch(&loader, "./a.idl", full_path("a.idl"));
    sources.fetch(&loader, "gone.idl", full_path("gone.idl"));
    sources.fetch(&loader, "./gone.idl", full_path("gone.idl"));
    sources.fetch(&loader, "a.idl", "/other".to_string());
    assert_eq!(sources.files.len(), 4);
    assert_eq!(
        format!("{:?}", sources.files[1].1),
        format!("{:?}", sources.files[0].1)
    );
    assert!(matches!(
        &sources.files[3].1.content,
        Err(IdlError::FileNotFound(name)) if name == "./gone.idl"
    ));
    assert_eq!(loader.loads.into_inner(), vec!["a.idl", "gone.idl"]);
    assert_eq!(sources.find("./a.idl").unwrap().full_path, "/work/a.idl");
    assert!(sources.find("d.idl").is_none());
    assert!(sources.find_path("/work/a.idl").is_some());
    assert!(sources.find_path("/work/d.idl").is_none());
}

#[test]
fn further_files_change_nothing() {
    let loader = Memory::new(vec![
        ("input.idl", "#include \"a.idl\"\ntypedef long T;"),
        ("a.idl", "typedef char A;"),
        ("b.idl", "typedef octet B;"),
    ]);
    let mut sources = Sources::new();
    sources.fetch(&loader, "input.idl", full_path("input.idl"));
    sources.fetch(&loader, "b.idl", full_path("b.idl"));
    assert!(matches!(
        build_modules(&config(), &sources),
        Ok(Step::Load(name)) if name == "a.idl"
    ));
    let before = types(&gather(&loader, &mut sources).unwrap());
    assert_eq!(before, vec!["A: TypeDcl(\"A\", CharType)", "T: TypeDcl(\"T\", I32Type)"]);
    sources.fetch(&loader, "c.idl", full_path("c.idl"));
    assert_eq!(types(&gather(&loader, &mut sources).unwrap()), before);
}

#[test]
fn a_file_is_recorded_once() {
    let mut sources = Sources::new();
    sources.record_loaded(
        "a.idl".to_string(),
        "/work/a.idl".to_string(),
        Some("typedef long T;".to_string()),
    );
    sources.record_loaded("a.idl".to_string(), "/other/a.idl".to_string(), None);
    assert_eq!(sources.files.len(), 1);
    assert_eq!(sources.files[0].1.full_path, "/work/a.idl");
    assert!(sources.files[0].1.content.is_ok());
}

#[test]
fn configuration_and_loader_keep_what_they_are_given() {
    let config = Configuration::new("/path", "file.idl", true);
    assert_eq!(config.search_path, "/path");
    assert_eq!(config.idl_file, "file.idl");
    assert!(config.verbose);
    let default = Configuration::default();
    assert_eq!(default.idl_file, "");
    assert!(!default.verbose);
    assert_eq!(Loader::new("/path").search_path, "/path");
}
