use macro_util::attributes::{
    is_form_acceptable, parse_bool, parse_ident_list, parse_only_in_list,
    parse_permissions, parse_string, parse_string_list, parse_values, validate,
    ValueKind, Values,
};
use macro_util::diag::DiagKind;
use macro_util::structures::OnlyIn;
use macro_util::syntax::{
    AnnPath, Annotation, Ident, Lit, LitValue, MetaItem, NestedItem, PathSeg, Span,
};

fn sp(lo: usize, hi: usize) -> Span {
    Span { lo, hi }
}

fn name_path(text: &str, at: Span) -> AnnPath {
    AnnPath {
        segments: vec![PathSeg {
            ident: Ident { text: text.to_string(), span: at },
            has_args: false,
        }],
        span: at,
    }
}

fn str_lit(text: &str, at: Span) -> Lit {
    Lit { value: LitValue::Str(text.to_string()), span: at }
}

#[test]
fn bare_name_parses_to_name_kind() {
    let ann = Annotation { item: MetaItem::Path(name_path("owners_only", sp(1, 2))), span: sp(1, 2) };
    let v = parse_values(&ann).unwrap();
    assert_eq!(v.kind, ValueKind::Name);
    assert!(v.literals.is_empty());
    assert_eq!(v.name.text, "owners_only");
    assert_eq!(v.span, sp(1, 2));
}

#[test]
fn single_element_list_parses_to_single_list() {
    let ann = Annotation {
        item: MetaItem::List(
            name_path("bucket", sp(3, 4)),
            vec![NestedItem::Lit(str_lit("general", sp(5, 6)))],
        ),
        span: sp(3, 4),
    };
    let v = parse_values(&ann).unwrap();
    assert_eq!(v.kind, ValueKind::SingleList);
    assert_eq!(v.literals.len(), 1);
}

#[test]
fn two_element_list_parses_to_list() {
    let ann = Annotation {
        item: MetaItem::List(
            name_path("aliases", sp(0, 1)),
            vec![
                NestedItem::Lit(str_lit("a", sp(1, 2))),
                NestedItem::Lit(str_lit("b", sp(2, 3))),
            ],
        ),
        span: sp(0, 1),
    };
    let v = parse_values(&ann).unwrap();
    assert_eq!(v.kind, ValueKind::List);
    assert_eq!(v.literals.len(), 2);
}

#[test]
fn equals_parses_to_equals_with_one_literal() {
    let ann = Annotation {
        item: MetaItem::NameValue(name_path("usage", sp(7, 8)), str_lit("use me", sp(9, 10))),
        span: sp(7, 8),
    };
    let v = parse_values(&ann).unwrap();
    assert_eq!(v.kind, ValueKind::Equals);
    assert_eq!(v.literals.len(), 1);
    assert_eq!(v.literals[0], str_lit("use me", sp(9, 10)));
}

#[test]
fn bare_identifier_in_list_becomes_string_literal() {
    let ann = Annotation {
        item: MetaItem::List(
            name_path("checks", sp(0, 1)),
            vec![NestedItem::Path(name_path("admin_only", sp(4, 5)))],
        ),
        span: sp(0, 1),
    };
    let v = parse_values(&ann).unwrap();
    assert_eq!(v.literals[0], str_lit("admin_only", sp(4, 5)));
}

#[test]
fn empty_list_is_rejected() {
    let ann = Annotation {
        item: MetaItem::List(name_path("aliases", sp(0, 1)), vec![]),
        span: sp(0, 9),
    };
    let e = parse_values(&ann).unwrap_err();
    assert_eq!(e.kind, DiagKind::EmptyList);
    assert_eq!(e.span, sp(0, 9));
}

#[test]
fn nested_structure_in_list_is_rejected() {
    let ann = Annotation {
        item: MetaItem::List(
            name_path("aliases", sp(0, 1)),
            vec![NestedItem::Structured(sp(2, 3))],
        ),
        span: sp(0, 9),
    };
    let e = parse_values(&ann).unwrap_err();
    assert_eq!(e.kind, DiagKind::NestedList);
    assert_eq!(
        e.message(),
        "cannot nest a list; only accept literals and identifiers at this level"
    );
}

#[test]
fn empty_name_path_is_rejected() {
    let ann = Annotation {
        item: MetaItem::Path(AnnPath { segments: vec![], span: sp(4, 4) }),
        span: sp(4, 4),
    };
    let e = parse_values(&ann).unwrap_err();
    assert_eq!(e.kind, DiagKind::EmptyName);
}

#[test]
fn multi_segment_name_is_rejected() {
    let seg = |t: &str| PathSeg {
        ident: Ident { text: t.to_string(), span: sp(0, 1) },
        has_args: false,
    };
    let ann = Annotation {
        item: MetaItem::Path(AnnPath { segments: vec![seg("a"), seg("b")], span: sp(0, 2) }),
        span: sp(0, 2),
    };
    let e = parse_values(&ann).unwrap_err();
    assert_eq!(e.kind, DiagKind::MultiSegmentName);
}

#[test]
fn name_segment_with_arguments_is_rejected() {
    let ann = Annotation {
        item: MetaItem::Path(AnnPath {
            segments: vec![PathSeg {
                ident: Ident { text: "a".to_string(), span: sp(0, 1) },
                has_args: true,
            }],
            span: sp(0, 3),
        }),
        span: sp(0, 3),
    };
    let e = parse_values(&ann).unwrap_err();
    assert_eq!(e.kind, DiagKind::ArgedName);
}

#[test]
fn widening_accepts_single_list_where_list_expected() {
    assert!(is_form_acceptable(&[ValueKind::List], ValueKind::SingleList));
}

#[test]
fn equals_target_rejects_bare_name() {
    assert!(!is_form_acceptable(&[ValueKind::Equals], ValueKind::Name));
}

#[test]
fn shape_diagnostic_lists_every_acceptable_form() {
    let values = Values {
        name: Ident { text: "bucket".to_string(), span: sp(0, 1) },
        literals: vec![],
        kind: ValueKind::Name,
        span: sp(0, 7),
    };
    let e = validate(&values, &[ValueKind::Equals, ValueKind::SingleList]).unwrap_err();
    assert_eq!(e.span, sp(0, 7));
    assert_eq!(
        e.message(),
        "the attribute must be in one of these forms:\n`#[<name> = <value>]`\n`#[<name>(<value>)]`"
    );
}

fn single_list(name: &str, lit: Lit) -> Values {
    Values {
        name: Ident { text: name.to_string(), span: sp(0, 1) },
        literals: vec![lit],
        kind: ValueKind::SingleList,
        span: sp(0, 1),
    }
}

#[test]
fn string_target_extracts_text_from_char_and_byte() {
    let v = single_list("bucket", Lit { value: LitValue::Char('x'), span: sp(1, 2) });
    assert_eq!(parse_string(v).unwrap(), "x");
    let v = single_list("bucket", Lit { value: LitValue::Byte(b'y'), span: sp(1, 2) });
    assert_eq!(parse_string(v).unwrap(), "y");
}

#[test]
fn bool_target_takes_bare_name_as_true() {
    let v = Values {
        name: Ident { text: "owners_only".to_string(), span: sp(0, 1) },
        literals: vec![],
        kind: ValueKind::Name,
        span: sp(0, 1),
    };
    assert_eq!(parse_bool(v).unwrap(), true);
}

#[test]
fn bool_target_reads_literal_and_text_forms() {
    let v = single_list("owners_only", Lit { value: LitValue::Bool(false), span: sp(1, 2) });
    assert_eq!(parse_bool(v).unwrap(), false);
    let v = single_list("owners_only", str_lit("true", sp(1, 2)));
    assert_eq!(parse_bool(v).unwrap(), true);
}

#[test]
fn string_list_target_maps_every_literal() {
    let v = Values {
        name: Ident { text: "aliases".to_string(), span: sp(0, 1) },
        literals: vec![str_lit("hi", sp(1, 2)), str_lit("hello", sp(2, 3))],
        kind: ValueKind::List,
        span: sp(0, 1),
    };
    assert_eq!(parse_string_list(v).unwrap(), vec!["hi".to_string(), "hello".to_string()]);
}

#[test]
fn ident_list_target_keeps_literal_positions() {
    let v = Values {
        name: Ident { text: "checks".to_string(), span: sp(0, 1) },
        literals: vec![str_lit("a", sp(5, 6)), str_lit("b", sp(7, 8))],
        kind: ValueKind::List,
        span: sp(0, 1),
    };
    let ids = parse_ident_list(v).unwrap();
    assert_eq!(ids[0], Ident { text: "a".to_string(), span: sp(5, 6) });
    assert_eq!(ids[1], Ident { text: "b".to_string(), span: sp(7, 8) });
}

#[test]
fn only_in_list_target_parses_each_restriction() {
    let v = Values {
        name: Ident { text: "only_in".to_string(), span: sp(0, 1) },
        literals: vec![str_lit("global", sp(1, 2)), str_lit("guild(9)", sp(3, 4))],
        kind: ValueKind::List,
        span: sp(0, 1),
    };
    assert_eq!(parse_only_in_list(v).unwrap(), vec![OnlyIn::Global, OnlyIn::Guild(9)]);
}

#[test]
fn permissions_target_fails_for_every_preset_name() {
    let v = single_list("required_permissions", str_lit("ADMINISTRATOR", sp(4, 5)));
    let e = parse_permissions(v).unwrap_err();
    assert_eq!(e.kind, DiagKind::UnknownPermission("ADMINISTRATOR".to_string()));
    assert_eq!(e.span, sp(4, 5));
    assert_eq!(e.message(), "unknown permission preset: `ADMINISTRATOR`");
}
