use macro_util::diag::DiagKind;
use macro_util::structures::{CommandFun, OnlyIn, Permissions, RawArg, RawDecl, RawPat};
use macro_util::syntax::{AnnPath, Annotation, Ident, Lit, LitValue, MetaItem, PathSeg, Span};
use macro_util::util::{Argument, AsOption};

fn at(lo: usize, hi: usize) -> Span {
    Span { lo, hi }
}

fn ident(text: &str, span: Span) -> Ident {
    Ident { text: text.to_string(), span }
}

fn one_seg_path(text: &str, span: Span) -> AnnPath {
    AnnPath {
        segments: vec![PathSeg { ident: ident(text, span), has_args: false }],
        span,
    }
}

fn name_value(name: &str, text: &str, span: Span) -> Annotation {
    Annotation {
        item: MetaItem::NameValue(
            one_seg_path(name, span),
            Lit { value: LitValue::Str(text.to_string()), span },
        ),
        span,
    }
}

fn plain_decl() -> RawDecl {
    RawDecl {
        attributes: vec![],
        visibility: "pub".to_string(),
        is_async: true,
        name: ident("ping", at(10, 14)),
        params: vec![RawArg::Typed {
            pat: RawPat::Ident { mutable: false, name: ident("ctx", at(15, 18)) },
            kind: "Context".to_string(),
        }],
        ret: Some("CommandResult".to_string()),
        body: vec!["Ok(())".to_string()],
        span: at(0, 40),
    }
}

#[test]
fn plain_declaration_parses() {
    let fun = CommandFun::parse(plain_decl()).unwrap();
    assert_eq!(fun.name, ident("ping", at(10, 14)));
    assert_eq!(fun.ret, "CommandResult");
    assert_eq!(fun.visibility, "pub");
    assert_eq!(fun.args.len(), 1);
    assert_eq!(
        fun.args[0],
        Argument { mutable: false, name: ident("ctx", at(15, 18)), kind: "Context".to_string() }
    );
}

#[test]
fn receiver_parameter_fails_regardless_of_others() {
    let mut decl = plain_decl();
    decl.params.push(RawArg::Receiver(at(20, 24)));
    let e = CommandFun::parse(decl).unwrap_err();
    assert_eq!(e.kind, DiagKind::SelfArgument);
    assert_eq!(e.span, at(20, 24));

    let mut decl = plain_decl();
    decl.params.insert(0, RawArg::Receiver(at(2, 3)));
    assert!(CommandFun::parse(decl).is_err());
}

#[test]
fn missing_return_type_fails() {
    let mut decl = plain_decl();
    decl.ret = None;
    let e = CommandFun::parse(decl).unwrap_err();
    assert_eq!(e.kind, DiagKind::MissingReturnType);
    assert_eq!(
        e.message(),
        "expected a result type of either `CommandResult` or `CheckResult`"
    );
}

#[test]
fn missing_async_qualifier_fails() {
    let mut decl = plain_decl();
    decl.is_async = false;
    let e = CommandFun::parse(decl).unwrap_err();
    assert_eq!(e.kind, DiagKind::ExpectedAsync);
}

#[test]
fn unsupported_pattern_fails() {
    let mut decl = plain_decl();
    decl.params = vec![RawArg::Typed { pat: RawPat::Other(at(16, 17)), kind: "u32".to_string() }];
    let e = CommandFun::parse(decl).unwrap_err();
    assert_eq!(e.kind, DiagKind::UnsupportedPattern);
    assert_eq!(e.span, at(16, 17));
}

#[test]
fn wildcard_parameter_becomes_underscore() {
    let mut decl = plain_decl();
    decl.params = vec![RawArg::Typed { pat: RawPat::Wild(at(15, 16)), kind: "u32".to_string() }];
    let fun = CommandFun::parse(decl).unwrap();
    assert_eq!(
        fun.args[0],
        Argument { mutable: false, name: ident("_", at(15, 16)), kind: "u32".to_string() }
    );
}

#[test]
fn cooked_annotations_split_off_in_order() {
    let mut decl = plain_decl();
    decl.attributes = vec![
        name_value("description", "a command", at(1, 2)),
        Annotation { item: MetaItem::Path(one_seg_path("inline", at(3, 4))), span: at(3, 4) },
        name_value("bucket", "general", at(5, 6)),
        Annotation { item: MetaItem::Path(one_seg_path("allow", at(7, 8))), span: at(7, 8) },
    ];
    let fun = CommandFun::parse(decl).unwrap();
    assert_eq!(fun.attributes.len(), 2);
    assert_eq!(fun.cooked.len(), 2);
    assert_eq!(fun.attributes[0], name_value("description", "a command", at(1, 2)));
    assert_eq!(fun.attributes[1], name_value("bucket", "general", at(5, 6)));
    assert_eq!(
        fun.cooked[0],
        Annotation { item: MetaItem::Path(one_seg_path("inline", at(3, 4))), span: at(3, 4) }
    );
}

#[test]
fn doc_annotations_are_renamed_to_description() {
    let mut decl = plain_decl();
    decl.attributes = vec![name_value("doc", " first line", at(1, 2))];
    let fun = CommandFun::parse(decl).unwrap();
    assert_eq!(fun.attributes.len(), 1);
    match &fun.attributes[0].item {
        MetaItem::NameValue(p, l) => {
            assert_eq!(p.segments[0].ident.text, "description");
            assert_eq!(l.value, LitValue::Str(" first line".to_string()));
        },
        other => panic!("unexpected item: {:?}", other),
    }
}

#[test]
fn restriction_grammar_accepts_global_and_guild() {
    assert_eq!(OnlyIn::from_str("global", at(0, 1)).unwrap(), OnlyIn::Global);
    assert_eq!(OnlyIn::from_str("guild(123)", at(0, 1)).unwrap(), OnlyIn::Guild(123));
}

#[test]
fn restriction_grammar_rejects_malformed_text() {
    let e = OnlyIn::from_str("guild(123", at(2, 3)).unwrap_err();
    assert_eq!(e.kind, DiagKind::UnterminatedRestriction);
    assert_eq!(e.span, at(2, 3));

    let e = OnlyIn::from_str("guilt(1)", at(0, 1)).unwrap_err();
    assert_eq!(e.kind, DiagKind::BadRestriction);

    let e = OnlyIn::from_str("glob", at(0, 1)).unwrap_err();
    assert_eq!(e.kind, DiagKind::BadRestriction);

    let e = OnlyIn::from_str("guild()", at(0, 1)).unwrap_err();
    assert_eq!(e.kind, DiagKind::BadRestrictionId);

    let e = OnlyIn::from_str("guild(12a)", at(0, 1)).unwrap_err();
    assert_eq!(e.kind, DiagKind::BadRestrictionId);

    let e = OnlyIn::from_str("guild(99999999999999999999)", at(0, 1)).unwrap_err();
    assert_eq!(e.kind, DiagKind::BadRestrictionId);

    let e = OnlyIn::from_str("guild(+1)", at(0, 1)).unwrap_err();
    assert_eq!(e.kind, DiagKind::BadRestrictionId);
}

#[test]
fn restriction_grammar_is_case_and_length_exact() {
    assert!(OnlyIn::from_str("Global", at(0, 1)).is_err());
    assert!(OnlyIn::from_str("globals", at(0, 1)).is_err());
}

#[test]
fn permission_presets_are_all_unknown() {
    assert_eq!(Permissions::from_str("PRESET_GENERAL"), None);
    assert_eq!(Permissions::from_str(""), None);
}

#[test]
fn as_option_map_applies_the_function() {
    let some: AsOption<u32> = AsOption(Some(3));
    assert_eq!(some.map(|x| x + 1).0, Some(4));
    let none: AsOption<u32> = AsOption(None);
    assert_eq!(none.map(|x| x + 1).0, None);
}

#[test]
fn it_works() {
    assert_eq!(2 + 2, 4);

    hello_world();
}

fn hello_world() {
    println!("Hello World!");
}
