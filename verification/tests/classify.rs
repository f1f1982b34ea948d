use fn_abi::classify::{classify, classify_probed, probe, settle, ClassifyError, Probes};
use fn_abi::declaration::{DeclKind, Declaration};
use fn_abi::marker::AbiMarker;
use fn_abi::syntax::Probe;

const KINDS: [DeclKind; 5] =
    [DeclKind::Function, DeclKind::TypeAlias, DeclKind::Const, DeclKind::Static, DeclKind::ForeignBlock];

fn none() -> Probes {
    Probes {
        function: Probe::NoMatch,
        type_alias: Probe::NoMatch,
        constant: Probe::NoMatch,
        static_item: Probe::NoMatch,
        foreign_block: Probe::NoMatch,
    }
}

fn unmarked(at: usize) -> Probe {
    Probe::Unmarked { keyword: at..at + 2 }
}

fn bare(at: usize) -> Probe {
    Probe::Bare { keyword: at..at + 6 }
}

fn named_at(at: usize, literal_start: usize, literal_end: usize, name: &str) -> Probe {
    Probe::Named { keyword: at..at + 6, literal: literal_start..literal_end, name: name.to_string() }
}

fn named(name: &str) -> AbiMarker {
    AbiMarker::Named(name.to_string())
}

#[test]
fn declaration_is_taken_apart_at_its_marker() {
    let text = "pub extern \"cdecl\" fn f() {}";
    let decl = Declaration::read(text, DeclKind::Function, &named_at(4, 11, 18, "cdecl")).unwrap();
    assert_eq!(decl.kind(), DeclKind::Function);
    assert_eq!(decl.before(), "pub ");
    assert_eq!(decl.spelled(), "extern \"cdecl\"");
    assert_eq!(decl.marker(), &named("cdecl"));
    assert_eq!(decl.after(), " fn f() {}");
    assert_eq!(decl.serialize(), text);
}

#[test]
fn declaration_without_marker_is_cut_before_fn() {
    let text = "pub fn f() {}";
    let decl = Declaration::read(text, DeclKind::Function, &unmarked(4)).unwrap();
    assert_eq!(decl.marker(), &AbiMarker::Absent);
    assert_eq!(decl.before(), "pub ");
    assert_eq!(decl.spelled(), "");
    assert_eq!(decl.after(), "fn f() {}");
    assert_eq!(decl.serialize(), text);
    assert!(Declaration::read(text, DeclKind::Function, &unmarked(0)).is_none());
    assert!(Declaration::read(text, DeclKind::Function, &unmarked(3)).is_none());
    assert!(Declaration::read(text, DeclKind::Function, &unmarked(5)).is_none());
    assert!(Declaration::read(text, DeclKind::Function, &Probe::Unmarked { keyword: 4..4 }).is_none());
    assert!(Declaration::read(text, DeclKind::Function, &Probe::Unmarked { keyword: 4..7 }).is_none());
    assert!(Declaration::read(text, DeclKind::Function, &Probe::Unmarked { keyword: 6..4 }).is_none());
    assert!(Declaration::read("fn f() {}", DeclKind::Function, &unmarked(0)).is_some());
}

#[test]
fn marker_is_read_as_the_parser_names_it() {
    let raw = "extern r\"C\" fn f() {}";
    let decl = Declaration::read(raw, DeclKind::Function, &named_at(0, 7, 11, "C")).unwrap();
    assert_eq!(decl.marker(), &named("C"));
    assert_eq!(decl.spelled(), "extern r\"C\"");
    assert_eq!(decl.serialize(), raw);
    let commented = "extern /* c */ \"C\" fn f() {}";
    let decl = Declaration::read(commented, DeclKind::Function, &named_at(0, 15, 18, "C")).unwrap();
    assert_eq!(decl.marker(), &named("C"));
    assert_eq!(decl.spelled(), "extern /* c */ \"C\"");
    assert_eq!(decl.after(), " fn f() {}");
    let escaped = "extern \"\\x43\" fn f() {}";
    let decl = Declaration::read(escaped, DeclKind::Function, &named_at(0, 7, 13, "C")).unwrap();
    assert_eq!(decl.marker(), &named("C"));
    assert_eq!(decl.serialize(), escaped);
}

#[test]
fn answer_that_the_text_does_not_bear_out_is_refused() {
    let text = "pub extern \"C\" fn f() {}";
    assert!(Declaration::read(text, DeclKind::Function, &named_at(4, 11, 14, "C")).is_some());
    assert!(Declaration::read(text, DeclKind::Function, &bare(4)).is_some());
    assert!(Declaration::read(text, DeclKind::Function, &named_at(3, 11, 14, "C")).is_none());
    assert!(Declaration::read(text, DeclKind::Function, &named_at(0, 11, 14, "C")).is_none());
    assert!(Declaration::read(text, DeclKind::Function, &named_at(4, 9, 14, "C")).is_none());
    assert!(Declaration::read(text, DeclKind::Function, &named_at(4, 14, 11, "C")).is_none());
    assert!(Declaration::read(text, DeclKind::Function, &named_at(4, 11, 100, "C")).is_none());
    assert!(Declaration::read(text, DeclKind::Function, &named_at(100, 111, 114, "C")).is_none());
    assert!(Declaration::read(text, DeclKind::Function, &bare(5)).is_none());
    assert!(
        Declaration::read(text, DeclKind::Function, &Probe::Bare { keyword: 4..14 }).is_none()
    );
    assert!(
        Declaration::read(text, DeclKind::Function, &Probe::Bare { keyword: 4..9 }).is_none()
    );
    assert!(Declaration::read(text, DeclKind::Function, &Probe::NoMatch).is_none());
    assert!(Declaration::read(text, DeclKind::Function, &Probe::WrongType).is_none());
    assert!(Declaration::read("é fn f() {}", DeclKind::Function, &unmarked(1)).is_none());
    assert!(Declaration::read("é fn f() {}", DeclKind::Function, &unmarked(3)).is_some());
    assert!(Declaration::read("é extern {}", DeclKind::ForeignBlock, &bare(2)).is_none());
    assert!(Declaration::read("é extern {}", DeclKind::ForeignBlock, &bare(3)).is_some());
}

#[test]
fn marker_directly_before_fn_is_refused() {
    assert!(Declaration::read("externfn f() {}", DeclKind::Function, &bare(0)).is_none());
    assert!(Declaration::read("extern fn f() {}", DeclKind::Function, &bare(0)).is_some());
}

#[test]
fn foreign_block_needs_a_marker() {
    assert!(Declaration::read("fn f();", DeclKind::ForeignBlock, &unmarked(0)).is_none());
    assert!(DeclKind::ForeignBlock.marker_required());
    assert!(!DeclKind::Function.marker_required());
    let decl = Declaration::read("extern { fn f(); }", DeclKind::ForeignBlock, &bare(0)).unwrap();
    assert_eq!(decl.marker(), &AbiMarker::Unnamed);
    assert_eq!(decl.kind(), DeclKind::ForeignBlock);
}

#[test]
fn no_match_passes_to_the_next_kind() {
    for kind in KINDS {
        assert!(settle("fn f() {}", kind, &Probe::NoMatch).is_none());
    }
}

#[test]
fn wrong_type_is_refused_for_aliases_and_bindings() {
    let text = "type Word = u32;";
    assert_eq!(
        settle(text, DeclKind::TypeAlias, &Probe::WrongType).unwrap().unwrap_err(),
        ClassifyError::UnsupportedAliasTarget
    );
    assert_eq!(
        settle(text, DeclKind::Const, &Probe::WrongType).unwrap().unwrap_err(),
        ClassifyError::UnsupportedBindingType
    );
    assert_eq!(
        settle(text, DeclKind::Static, &Probe::WrongType).unwrap().unwrap_err(),
        ClassifyError::UnsupportedBindingType
    );
    assert!(settle(text, DeclKind::Function, &Probe::WrongType).is_none());
    assert!(settle(text, DeclKind::ForeignBlock, &Probe::WrongType).is_none());
}

#[test]
fn match_is_settled_by_the_text() {
    let text = "static F: extern fn() = f;";
    let decl = settle(text, DeclKind::Static, &bare(10)).unwrap().unwrap();
    assert_eq!(decl.kind(), DeclKind::Static);
    assert_eq!(decl.marker(), &AbiMarker::Unnamed);
    assert_eq!(settle(text, DeclKind::Static, &bare(9)).unwrap().unwrap_err(), ClassifyError::MarkerNotLocated);
    assert_eq!(
        settle(text, DeclKind::Static, &Probe::Bare { keyword: 0..0 }).unwrap().unwrap_err(),
        ClassifyError::MarkerNotLocated
    );
    assert_eq!(
        settle(text, DeclKind::Static, &Probe::Unmarked { keyword: 0..0 }).unwrap().unwrap_err(),
        ClassifyError::MarkerNotLocated
    );
}

#[test]
fn kinds_are_tried_in_order_of_priority() {
    let text = "extern \"C\" fn f() {}";
    let site = || named_at(0, 7, 10, "C");
    let mut probes = Probes {
        function: site(),
        type_alias: site(),
        constant: site(),
        static_item: site(),
        foreign_block: site(),
    };
    assert_eq!(classify_probed(text, &probes).unwrap().kind(), DeclKind::Function);
    probes.function = Probe::NoMatch;
    assert_eq!(classify_probed(text, &probes).unwrap().kind(), DeclKind::TypeAlias);
    probes.type_alias = Probe::NoMatch;
    assert_eq!(classify_probed(text, &probes).unwrap().kind(), DeclKind::Const);
    probes.constant = Probe::NoMatch;
    assert_eq!(classify_probed(text, &probes).unwrap().kind(), DeclKind::Static);
    probes.static_item = Probe::NoMatch;
    assert_eq!(classify_probed(text, &probes).unwrap().kind(), DeclKind::ForeignBlock);
    probes.foreign_block = Probe::NoMatch;
    assert_eq!(classify_probed(text, &probes).unwrap_err(), ClassifyError::UnsupportedItem);
}

#[test]
fn first_kind_that_settles_decides_even_with_an_error() {
    let text = "extern \"C\" fn f() {}";
    let mut probes = none();
    probes.type_alias = Probe::WrongType;
    probes.foreign_block = named_at(0, 7, 10, "C");
    assert_eq!(classify_probed(text, &probes).unwrap_err(), ClassifyError::UnsupportedAliasTarget);
    let mut probes = none();
    probes.function = named_at(1, 7, 10, "C");
    probes.foreign_block = named_at(0, 7, 10, "C");
    assert_eq!(classify_probed(text, &probes).unwrap_err(), ClassifyError::MarkerNotLocated);
    let mut probes = none();
    probes.function = Probe::WrongType;
    probes.static_item = Probe::WrongType;
    assert_eq!(classify_probed(text, &probes).unwrap_err(), ClassifyError::UnsupportedBindingType);
}

#[test]
fn parser_finds_the_tokens_of_the_marker() {
    assert_eq!(probe("pub fn hello() {}").function, unmarked(4));
    assert_eq!(probe("pub extern \"C\" fn hello() {}").function, named_at(4, 11, 14, "C"));
    assert_eq!(probe("pub extern fn hello() {}").function, bare(4));
    assert_eq!(probe("type F = fn();").type_alias, unmarked(9));
    assert_eq!(probe("type F = extern \"C\" fn();").type_alias, named_at(9, 16, 19, "C"));
    assert_eq!(probe("const F: fn() = f;").constant, unmarked(9));
    assert_eq!(probe("const F: extern fn() = f;").constant, bare(9));
    assert_eq!(probe("static F: fn() = f;").static_item, unmarked(10));
    assert_eq!(probe("static F: extern \"C\" fn() = f;").static_item, named_at(10, 17, 20, "C"));
    assert_eq!(probe("extern { fn f(); }").foreign_block, bare(0));
    assert_eq!(probe("extern \"C\" { fn f(); }").foreign_block, named_at(0, 7, 10, "C"));
    assert_eq!(probe("unsafe extern \"C\" { fn f(); }").foreign_block, named_at(7, 14, 17, "C"));
    assert_eq!(probe("type F = u8;").type_alias, Probe::WrongType);
    assert_eq!(probe("const F: u8 = 0;").constant, Probe::WrongType);
    assert_eq!(probe("static F: u8 = 0;").static_item, Probe::WrongType);
    assert_eq!(probe("struct S;"), none());
    assert_eq!(probe("not rust at all ((("), none());
}

#[test]
fn parser_reads_the_name_that_the_literal_denotes() {
    assert_eq!(probe("extern r\"C\" fn f() {}").function, named_at(0, 7, 11, "C"));
    assert_eq!(probe("extern r#\"C\"# fn f() {}").function, named_at(0, 7, 13, "C"));
    assert_eq!(probe("extern \"\\x43\" fn f() {}").function, named_at(0, 7, 13, "C"));
    assert_eq!(probe("extern /* c */ \"C\" fn f() {}").function, named_at(0, 15, 18, "C"));
    assert_eq!(probe("extern\u{2028}\"C\" { }").foreign_block, named_at(0, 9, 12, "C"));
    assert_eq!(probe("extern \"\" fn f() {}").function, named_at(0, 7, 9, ""));
}

#[test]
fn each_text_is_of_one_kind_only() {
    let mut probes = none();
    probes.function = unmarked(0);
    assert_eq!(probe("fn f() {}"), probes);
    let mut probes = none();
    probes.foreign_block = bare(0);
    assert_eq!(probe("extern { fn f(); }"), probes);
    let mut probes = none();
    probes.constant = unmarked(9);
    assert_eq!(probe("const F: fn() = f;"), probes);
}

#[test]
fn five_kinds_are_classified() {
    let f = classify("pub unsafe extern \"C\" fn f(x: i32) -> i32 { x }").unwrap();
    assert_eq!((f.kind(), f.marker()), (DeclKind::Function, &named("C")));
    let a = classify("pub type Callback = unsafe extern \"system\" fn(u32) -> u32;").unwrap();
    assert_eq!((a.kind(), a.marker()), (DeclKind::TypeAlias, &named("system")));
    let c = classify("const HOOK: fn() = hook;").unwrap();
    assert_eq!((c.kind(), c.marker()), (DeclKind::Const, &AbiMarker::Absent));
    let s = classify("static mut HOOK: extern fn() = hook;").unwrap();
    assert_eq!((s.kind(), s.marker()), (DeclKind::Static, &AbiMarker::Unnamed));
    let b = classify("extern {\n    fn puts(s: *const u8) -> i32;\n}").unwrap();
    assert_eq!((b.kind(), b.marker()), (DeclKind::ForeignBlock, &AbiMarker::Unnamed));
}

#[test]
fn marker_is_classified_however_it_is_written() {
    for text in [
        "extern r\"C\" fn f() {}",
        "extern r#\"C\"# fn f() {}",
        "extern /* c */ \"C\" fn f() {}",
        "extern // c\n\"C\" fn f() {}",
        "extern\u{2028}\"C\" fn f() {}",
        "extern\u{85}\"C\"\u{200e}fn f() {}",
        "extern \"\\x43\" fn f() {}",
        "extern\"C\"{ fn f(); }",
        "type F = extern\n\n\t\"C\"\n\tfn();",
    ] {
        let decl = classify(text).unwrap();
        assert_eq!(decl.marker(), &named("C"));
        assert_eq!(decl.serialize(), text);
    }
}

#[test]
fn declarations_with_c_string_literals_are_classified() {
    assert_eq!(classify("fn f() { c\"x\"; }").unwrap().kind(), DeclKind::Function);
    assert_eq!(classify("fn f() { cr#\"x\"#; }").unwrap().kind(), DeclKind::Function);
    assert_eq!(classify("const S: &CStr = c\"x\";").unwrap_err(), ClassifyError::UnsupportedBindingType);
    assert_eq!(classify("static S: &CStr = c\"x\";").unwrap_err(), ClassifyError::UnsupportedBindingType);
    assert_eq!(
        classify("type T = [u8; c\"x\".count_bytes()];").unwrap_err(),
        ClassifyError::UnsupportedAliasTarget
    );
    assert_eq!(
        classify("extern { static S: [u8; c\"x\".count_bytes()]; }").unwrap().kind(),
        DeclKind::ForeignBlock
    );
    assert_eq!(classify("const F: fn() = { c\"x\"; f };").unwrap().kind(), DeclKind::Const);
}

#[test]
fn classified_text_is_written_out_unchanged() {
    let texts = [
        "/// Docs\n#[inline]\npub(crate)   const unsafe extern   \"C\"\n\tfn f<T: Copy>(x: T) -> T where T: Sized { x }",
        "fn é() { let s = \"extern fn\"; }",
        "/* é */ type F = for<'a> unsafe fn(&'a u8);",
        "  static F: extern \"C\" fn() = f; // trailing\n",
        "#[link(name = \"m\")]\nextern\"C\"{ fn cos(x: f64) -> f64; }",
        "const F: extern fn(i32, ...) -> i32 = f;",
        "unsafe extern \"system\" { fn q(); }",
    ];
    for text in texts {
        assert_eq!(classify(text).unwrap().serialize(), text);
    }
}

#[test]
fn type_alias_of_non_function_type_is_rejected() {
    assert_eq!(classify("type Word = u32;").unwrap_err(), ClassifyError::UnsupportedAliasTarget);
    assert_eq!(classify("type Cb = Option<fn()>;").unwrap_err(), ClassifyError::UnsupportedAliasTarget);
    assert_eq!(classify("type Cb = (fn());").unwrap_err(), ClassifyError::UnsupportedAliasTarget);
    assert_eq!(classify("type Cb = &'static dyn Fn();").unwrap_err(), ClassifyError::UnsupportedAliasTarget);
    assert!(ClassifyError::UnsupportedAliasTarget.message().contains("does not alias a supported type"));
}

#[test]
fn binding_of_non_function_type_is_rejected() {
    assert_eq!(classify("const N: usize = 3;").unwrap_err(), ClassifyError::UnsupportedBindingType);
    assert_eq!(classify("static HOOK: Option<fn()> = None;").unwrap_err(), ClassifyError::UnsupportedBindingType);
    assert_eq!(classify("static mut P: *const fn() = 0 as _;").unwrap_err(), ClassifyError::UnsupportedBindingType);
    assert!(ClassifyError::UnsupportedBindingType.message().contains("not a supported type"));
    assert!(ClassifyError::UnsupportedBindingType.message().contains("type alias"));
}

#[test]
fn other_items_are_unsupported() {
    for text in ["struct S;", "mod m {}", "use a::b;", "impl S { fn f() {} }", "trait T { fn f(); }", "fn f();",
        "fn a() {} fn b() {}", "", "   ", "let x = 1;", "enum E { A }", "extern crate alloc;"]
    {
        assert_eq!(classify(text).unwrap_err(), ClassifyError::UnsupportedItem);
    }
    assert!(ClassifyError::UnsupportedItem.message().starts_with("unsupported item kind"));
    assert!(ClassifyError::MarkerNotLocated.message().contains("could not be located"));
}
