use macro_util::aggregate::aggregate_options;
use macro_util::diag::DiagKind;
use macro_util::structures::{CommandFun, OnlyIn, RawDecl};
use macro_util::syntax::{
    AnnPath, Annotation, Ident, Lit, LitValue, MetaItem, NestedItem, PathSeg, Span,
};
use macro_util::util::{append_line, AsOption};

fn pos(lo: usize, hi: usize) -> Span {
    Span { lo, hi }
}

fn named_path(text: &str, span: Span) -> AnnPath {
    AnnPath {
        segments: vec![PathSeg {
            ident: Ident { text: text.to_string(), span },
            has_args: false,
        }],
        span,
    }
}

fn eq_ann(name: &str, text: &str, span: Span) -> Annotation {
    Annotation {
        item: MetaItem::NameValue(
            named_path(name, span),
            Lit { value: LitValue::Str(text.to_string()), span },
        ),
        span,
    }
}

fn list_ann(name: &str, texts: &[&str], span: Span) -> Annotation {
    let items = texts
        .iter()
        .map(|t| {
            NestedItem::Lit(Lit { value: LitValue::Str(t.to_string()), span })
        })
        .collect();
    Annotation { item: MetaItem::List(named_path(name, span), items), span }
}

fn bare_ann(name: &str, span: Span) -> Annotation {
    Annotation { item: MetaItem::Path(named_path(name, span)), span }
}

fn fun_with(attributes: Vec<Annotation>) -> CommandFun {
    let decl = RawDecl {
        attributes,
        visibility: String::new(),
        is_async: true,
        name: Ident { text: "cmd".to_string(), span: pos(0, 1) },
        params: vec![],
        ret: Some("CommandResult".to_string()),
        body: vec![],
        span: pos(0, 99),
    };
    CommandFun::parse(decl).unwrap()
}

#[test]
fn aggregation_fills_the_descriptor() {
    let fun = fun_with(vec![
        eq_ann("description", "replies with pong", pos(1, 2)),
        eq_ann("bucket", "general", pos(3, 4)),
        list_ann("aliases", &["p", "pp"], pos(5, 6)),
        list_ann("checks", &["is_admin"], pos(7, 8)),
        bare_ann("owners_only", pos(9, 10)),
        list_ann("only_in", &["guild(42)", "global"], pos(11, 12)),
        eq_ann("usage", "!ping", pos(13, 14)),
        list_ann("delimiters", &[","], pos(15, 16)),
        list_ann("allowed_roles", &["mods"], pos(17, 18)),
        list_ann("sub_commands", &["sub"], pos(19, 20)),
    ]);
    let o = aggregate_options(&fun).unwrap();
    assert_eq!(o.description.0, Some("replies with pong\n".to_string()));
    assert_eq!(o.bucket.0, Some("general".to_string()));
    assert_eq!(o.aliases, vec!["p".to_string(), "pp".to_string()]);
    assert_eq!(o.checks.0.len(), 1);
    assert_eq!(o.checks.0[0].text, "is_admin");
    assert!(o.owners_only);
    assert!(!o.owner_privilege);
    assert!(o.help_available);
    assert_eq!(o.only_in, vec![OnlyIn::Guild(42), OnlyIn::Global]);
    assert_eq!(o.usage.0, Some("!ping".to_string()));
    assert_eq!(o.delimiters, vec![",".to_string()]);
    assert_eq!(o.allowed_roles, vec!["mods".to_string()]);
    assert_eq!(o.sub_commands[0].text, "sub");
    assert_eq!(o.required_permissions.0, 0);
    assert!(o.examples.is_empty());
}

#[test]
fn defaults_hold_without_annotations() {
    let o = aggregate_options(&fun_with(vec![])).unwrap();
    assert!(o.help_available);
    assert!(!o.owners_only);
    assert_eq!(o.description.0, None);
    assert!(o.aliases.is_empty());
}

#[test]
fn later_occurrence_overwrites_earlier() {
    let fun = fun_with(vec![
        eq_ann("bucket", "one", pos(1, 2)),
        eq_ann("bucket", "two", pos(3, 4)),
    ]);
    let o = aggregate_options(&fun).unwrap();
    assert_eq!(o.bucket.0, Some("two".to_string()));
}

#[test]
fn description_lines_fold_with_continuation_marker() {
    let fun = fun_with(vec![
        eq_ann("description", " first part \\$", pos(1, 2)),
        eq_ann("description", "second part", pos(3, 4)),
    ]);
    let o = aggregate_options(&fun).unwrap();
    assert_eq!(o.description.0, Some("first part second part\n".to_string()));
}

#[test]
fn description_line_without_marker_ends_in_one_break() {
    let mut desc: AsOption<String> = AsOption(None);
    append_line(&mut desc, " first".to_string());
    append_line(&mut desc, "second".to_string());
    assert_eq!(desc.0, Some("first\nsecond\n".to_string()));
}

#[test]
fn description_marker_drops_trailing_whitespace() {
    let mut desc: AsOption<String> = AsOption(None);
    append_line(&mut desc, "keep this   \\$ dropped".to_string());
    assert_eq!(desc.0, Some("keep this ".to_string()));
}

#[test]
fn help_available_can_be_turned_off() {
    let fun = fun_with(vec![list_ann("help_available", &["false"], pos(1, 2))]);
    let o = aggregate_options(&fun).unwrap();
    assert!(!o.help_available);
}

#[test]
fn unknown_annotation_name_is_a_hard_error() {
    let fun = fun_with(vec![
        eq_ann("bucket", "general", pos(1, 2)),
        bare_ann("foo", pos(6, 9)),
    ]);
    let e = aggregate_options(&fun).unwrap_err();
    assert_eq!(e.kind, DiagKind::InvalidAttribute("foo".to_string()));
    assert_eq!(e.message(), "invalid attribute: `foo`");
    assert_eq!(e.span, pos(6, 9));
}

#[test]
fn required_permissions_always_fails() {
    let fun = fun_with(vec![list_ann("required_permissions", &["SPEAK"], pos(2, 5))]);
    let e = aggregate_options(&fun).unwrap_err();
    assert_eq!(e.kind, DiagKind::UnknownPermission("SPEAK".to_string()));
}

#[test]
fn shape_error_reports_at_the_annotation() {
    let fun = fun_with(vec![bare_ann("bucket", pos(21, 27))]);
    let e = aggregate_options(&fun).unwrap_err();
    assert!(matches!(e.kind, DiagKind::BadShape(_)));
    assert_eq!(e.span, pos(21, 27));
}

#[test]
fn diagnostic_location_leads_back_to_the_cause() {
    let spans = [pos(100, 110), pos(200, 230), pos(300, 310)];
    let anns = vec![
        eq_ann("bucket", "general", spans[0]),
        list_ann("only_in", &["guild(oops"], spans[1]),
        eq_ann("usage", "!x", spans[2]),
    ];
    let fun = fun_with(anns.clone());
    let e = aggregate_options(&fun).unwrap_err();
    assert_eq!(e.kind, DiagKind::UnterminatedRestriction);
    let hit = anns.iter().any(|a| a.span == e.span);
    assert!(hit);
    assert_eq!(e.span, spans[1]);
}

#[test]
fn identifier_normalization_strips_raw_prefix_and_uppercases() {
    let id = Ident { text: "r#type".to_string(), span: pos(0, 1) };
    assert_eq!(id.to_string_non_raw(), "type");
    let up = id.to_uppercase();
    assert_eq!(up.text, "TYPE");
    let suffixed = Ident { text: "ping".to_string(), span: pos(0, 1) }.with_suffix("CHECK");
    assert_eq!(suffixed.text, "PING_CHECK");
}

#[test]
fn processing_yields_the_declaration_descriptor_pair() {
    let decl = macro_util::structures::RawDecl {
        attributes: vec![eq_ann("description", "pongs back", pos(1, 2))],
        visibility: "pub".to_string(),
        is_async: true,
        name: Ident { text: "ping".to_string(), span: pos(0, 1) },
        params: vec![],
        ret: Some("CommandResult".to_string()),
        body: vec![],
        span: pos(0, 50),
    };
    let (fun, options) = macro_util::aggregate::process(decl).unwrap();
    assert_eq!(fun.name.text, "ping");
    assert_eq!(options.description.0, Some("pongs back\n".to_string()));
}

#[test]
fn extraction_safety_is_decidable_up_front() {
    let safe = fun_with(vec![
        eq_ann("description", "fine", pos(1, 2)),
        bare_ann("owners_only", pos(3, 4)),
        bare_ann("some_unknown_name", pos(5, 6)),
    ]);
    assert!(macro_util::aggregate::extraction_safe(&safe));

    let unsafe_fun = fun_with(vec![Annotation {
        item: MetaItem::NameValue(
            named_path("bucket", pos(1, 2)),
            Lit { value: LitValue::Bool(true), span: pos(1, 2) },
        ),
        span: pos(1, 2),
    }]);
    assert!(!macro_util::aggregate::extraction_safe(&unsafe_fun));
}

#[test]
fn literal_text_conversion_covers_all_textual_kinds() {
    let l = Lit { value: LitValue::ByteStr("bytes".to_string()), span: pos(0, 1) };
    assert_eq!(l.to_str(), "bytes");
    let l = Lit { value: LitValue::Str("plain".to_string()), span: pos(0, 1) };
    assert_eq!(l.to_ident(), Ident { text: "plain".to_string(), span: pos(0, 1) });
}
