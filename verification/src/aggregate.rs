//! The descriptor aggregator: every recognized annotation of a parsed
//! declaration, in source order, is parsed into a `Values` record,
//! dispatched by name to its typed target, and written into the `Options`
//! descriptor. An annotation name outside the recognized set is a hard
//! error, never ignored.

use vstd::prelude::*;

use crate::attributes::{
    bool_target_safe, conv_bool_v, conv_ident_list_v, conv_only_in_v,
    conv_permissions_v, conv_string_list_v, conv_string_v, list_target_safe,
    parse_bool, parse_ident_list, parse_only_in_list, parse_permissions,
    parse_string, parse_string_list, parse_values, parse_values_v,
    str_target_safe, ValueKind, Values, ValuesV,
};
use crate::diag::{Diag, DiagKind, DiagKindV, DiagV};
use crate::structures::{Checks, CommandFun, CommandFunV, Options, options_default, OptionsV, Permissions};
use crate::syntax::AnnotationV;
use crate::util::{append_line, append_line_v, str_eq};

verus! {

broadcast use vstd::string::group_string_axioms;

/// Extraction safety for one parsed annotation, by the target its name
/// dispatches to; names outside the recognized set need nothing, they are
/// rejected before any literal is read.
pub open spec fn values_safe(v: ValuesV) -> bool {
    let name = v.name.text;
    &&& (name == "description"@ || name == "bucket"@ || name == "usage"@) ==> str_target_safe(
        v,
    )
    &&& (name == "help_available"@ || name == "owners_only"@ || name == "owner_privilege"@)
        ==> bool_target_safe(v)
    &&& (name == "checks"@ || name == "aliases"@ || name == "delimiters"@ || name
        == "required_permissions"@ || name == "allowed_roles"@ || name == "only_in"@ || name
        == "sub_commands"@) ==> list_target_safe(v)
}

/// Extraction safety for one raw annotation: if it parses, its payload
/// fits the target its name dispatches to.
pub open spec fn ann_safe(a: AnnotationV) -> bool {
    match parse_values_v(a) {
        Err(_) => true,
        Ok(v) => values_safe(v),
    }
}

/// Extraction safety for a whole declaration's recognized annotations.
pub open spec fn fun_safe(f: CommandFunV) -> bool {
    forall|i: int| 0 <= i < f.attributes.len() ==> ann_safe(#[trigger] f.attributes[i])
}

/// Decides extraction safety for one parsed annotation, so a caller can
/// test the aggregator's contract instead of assuming it.
#[verifier::loop_isolation(false)]
pub fn values_extract_safe(values: &Values) -> (r: bool)
    requires
        crate::attributes::values_wf(values@),
    ensures
        r == values_safe(values@),
{
    let n: &str = values.name.text.as_str();
    let is_description = str_eq(n, "description");
    let is_bucket = str_eq(n, "bucket");
    let is_usage = str_eq(n, "usage");
    let is_help_available = str_eq(n, "help_available");
    let is_owners_only = str_eq(n, "owners_only");
    let is_owner_privilege = str_eq(n, "owner_privilege");
    let is_checks = str_eq(n, "checks");
    let is_aliases = str_eq(n, "aliases");
    let is_delimiters = str_eq(n, "delimiters");
    let is_required_permissions = str_eq(n, "required_permissions");
    let is_allowed_roles = str_eq(n, "allowed_roles");
    let is_only_in = str_eq(n, "only_in");
    let is_sub_commands = str_eq(n, "sub_commands");
    proof {
        reveal_strlit("description");
        reveal_strlit("bucket");
        reveal_strlit("usage");
        reveal_strlit("help_available");
        reveal_strlit("owners_only");
        reveal_strlit("owner_privilege");
        reveal_strlit("checks");
        reveal_strlit("aliases");
        reveal_strlit("delimiters");
        reveal_strlit("required_permissions");
        reveal_strlit("allowed_roles");
        reveal_strlit("only_in");
        reveal_strlit("sub_commands");
        assert("description"@.len() == 11);
        assert("bucket"@.len() == 6);
        assert("usage"@.len() == 5);
        assert("help_available"@.len() == 14);
        assert("owners_only"@.len() == 11);
        assert("owner_privilege"@.len() == 15);
        assert("checks"@.len() == 6);
        assert("aliases"@.len() == 7);
        assert("delimiters"@.len() == 10);
        assert("required_permissions"@.len() == 20);
        assert("allowed_roles"@.len() == 13);
        assert("only_in"@.len() == 7);
        assert("sub_commands"@.len() == 12);
        assert("description"@[0] == 'd' && "owners_only"@[0] == 'o');
        assert("bucket"@[0] == 'b' && "checks"@[0] == 'c');
    }
    if is_description || is_bucket || is_usage {
        let forms: Vec<ValueKind> = vec![ValueKind::Equals, ValueKind::SingleList];
        proof {
            assert(forms@ =~= crate::attributes::str_forms());
        }
        if crate::attributes::is_form_acceptable(forms.as_slice(), values.kind) {
            let textual = values.literals[0].is_textual();
            proof {
                assert(textual == crate::syntax::lit_is_textual(values@.literals[0].value));
                assert(values_safe(values@) == textual);
            }
            textual
        } else {
            true
        }
    } else if is_help_available || is_owners_only || is_owner_privilege {
        let forms: Vec<ValueKind> = vec![ValueKind::Name, ValueKind::SingleList];
        proof {
            assert(forms@ =~= crate::attributes::bool_forms());
        }
        let acceptable = crate::attributes::is_form_acceptable(forms.as_slice(), values.kind);
        if acceptable && !matches!(values.kind, ValueKind::Name) {
            let boolish = values.literals[0].is_boolish();
            proof {
                assert(boolish == crate::syntax::lit_is_boolish(values@.literals[0].value));
                assert(values_safe(values@) == boolish);
            }
            boolish
        } else {
            true
        }
    } else if is_checks || is_aliases || is_delimiters || is_required_permissions
        || is_allowed_roles || is_only_in || is_sub_commands {
        let forms: Vec<ValueKind> = vec![ValueKind::List];
        proof {
            assert(forms@ =~= crate::attributes::list_forms());
        }
        if crate::attributes::is_form_acceptable(forms.as_slice(), values.kind) {
            let mut i: usize = 0;
            while i < values.literals.len()
                invariant
                    0 <= i <= values.literals@.len(),
                    forall|j: int|
                        0 <= j < i ==> crate::syntax::lit_is_textual(
                            (#[trigger] values@.literals[j]).value,
                        ),
                decreases values.literals@.len() - i,
            {
                if !values.literals[i].is_textual() {
                    proof {
                        assert(!crate::syntax::lit_is_textual(
                            values@.literals[i as int].value,
                        ));
                        assert(!crate::attributes::list_target_safe(values@));
                    }
                    return false;
                }
                i += 1;
            }
            proof {
                assert(crate::attributes::list_target_safe(values@));
            }
            true
        } else {
            true
        }
    } else {
        true
    }
}

/// Decides extraction safety for a whole parsed declaration: exactly when
/// this holds may the declaration be aggregated.
#[verifier::loop_isolation(false)]
pub fn extraction_safe(fun: &CommandFun) -> (r: bool)
    ensures
        r == fun_safe(fun@),
{
    let mut i: usize = 0;
    while i < fun.attributes.len()
        invariant
            0 <= i <= fun.attributes@.len(),
            forall|j: int| 0 <= j < i ==> ann_safe(#[trigger] fun@.attributes[j]),
        decreases fun.attributes@.len() - i,
    {
        match parse_values(&fun.attributes[i]) {
            Err(_) => {},
            Ok(v) => {
                if !values_extract_safe(&v) {
                    proof {
                        assert(!ann_safe(fun@.attributes[i as int]));
                    }
                    return false;
                }
            },
        }
        i += 1;
    }
    true
}

/// One aggregation step: parse the annotation, dispatch by its name to the
/// matching typed target, and write the result into the descriptor. The
/// description accumulates; every other field is overwritten or replaced.
pub open spec fn agg_step(o: OptionsV, a: AnnotationV) -> Result<OptionsV, DiagV> {
    match parse_values_v(a) {
        Err(e) => Err(e),
        Ok(v) => {
            let name = v.name.text;
            if name == "description"@ {
                match conv_string_v(v) {
                    Err(e) => Err(e),
                    Ok(t) => Ok(
                        OptionsV { description: Some(append_line_v(o.description, t)), ..o },
                    ),
                }
            } else if name == "checks"@ {
                match conv_ident_list_v(v) {
                    Err(e) => Err(e),
                    Ok(ids) => Ok(OptionsV { checks: ids, ..o }),
                }
            } else if name == "bucket"@ {
                match conv_string_v(v) {
                    Err(e) => Err(e),
                    Ok(t) => Ok(OptionsV { bucket: Some(t), ..o }),
                }
            } else if name == "aliases"@ {
                match conv_string_list_v(v) {
                    Err(e) => Err(e),
                    Ok(ts) => Ok(OptionsV { aliases: ts, ..o }),
                }
            } else if name == "delimiters"@ {
                match conv_string_list_v(v) {
                    Err(e) => Err(e),
                    Ok(ts) => Ok(OptionsV { delimiters: ts, ..o }),
                }
            } else if name == "usage"@ {
                match conv_string_v(v) {
                    Err(e) => Err(e),
                    Ok(t) => Ok(OptionsV { usage: Some(t), ..o }),
                }
            } else if name == "required_permissions"@ {
                match conv_permissions_v(v) {
                    Err(e) => Err(e),
                    Ok(bits) => Ok(OptionsV { required_permissions: bits, ..o }),
                }
            } else if name == "allowed_roles"@ {
                match conv_string_list_v(v) {
                    Err(e) => Err(e),
                    Ok(ts) => Ok(OptionsV { allowed_roles: ts, ..o }),
                }
            } else if name == "help_available"@ {
                match conv_bool_v(v) {
                    Err(e) => Err(e),
                    Ok(b) => Ok(OptionsV { help_available: b, ..o }),
                }
            } else if name == "only_in"@ {
                match conv_only_in_v(v) {
                    Err(e) => Err(e),
                    Ok(rs) => Ok(OptionsV { only_in: rs, ..o }),
                }
            } else if name == "owners_only"@ {
                match conv_bool_v(v) {
                    Err(e) => Err(e),
                    Ok(b) => Ok(OptionsV { owners_only: b, ..o }),
                }
            } else if name == "owner_privilege"@ {
                match conv_bool_v(v) {
                    Err(e) => Err(e),
                    Ok(b) => Ok(OptionsV { owner_privilege: b, ..o }),
                }
            } else if name == "sub_commands"@ {
                match conv_ident_list_v(v) {
                    Err(e) => Err(e),
                    Ok(ids) => Ok(OptionsV { sub_commands: ids, ..o }),
                }
            } else {
                Err(DiagV { kind: DiagKindV::InvalidAttribute(name), span: v.span })
            }
        },
    }
}

/// The descriptor after folding the annotations in order, stopping at the
/// first failing one.
pub open spec fn agg_rec(o: OptionsV, anns: Seq<AnnotationV>) -> Result<OptionsV, DiagV>
    decreases anns.len(),
{
    if anns.len() == 0 {
        Ok(o)
    } else {
        match agg_step(o, anns[0]) {
            Err(e) => Err(e),
            Ok(o2) => agg_rec(o2, anns.skip(1)),
        }
    }
}

/// The descriptor of a parsed declaration: its recognized annotations
/// folded, in source order, into the default descriptor.
pub open spec fn aggregate_v(f: CommandFunV) -> Result<OptionsV, DiagV> {
    agg_rec(options_default(), f.attributes)
}

/// Folds every recognized annotation of a parsed declaration into an
/// `Options` descriptor, in source order.
#[verifier::loop_isolation(false)]
pub fn aggregate_options(fun: &CommandFun) -> (r: Result<Options, Diag>)
    requires
        fun_safe(fun@),
    ensures
        match r {
            Ok(o) => aggregate_v(fun@) == Ok::<OptionsV, DiagV>(o@),
            Err(e) => aggregate_v(fun@) == Err::<OptionsV, DiagV>(e@),
        },
{
    let mut options = Options::new();
    let ghost anns = fun@.attributes;
    let mut i: usize = 0;
    proof {
        assert(anns.skip(0) =~= anns);
    }
    while i < fun.attributes.len()
        invariant
            0 <= i <= fun.attributes@.len(),
            agg_rec(options@, anns.skip(i as int)) == agg_rec(options_default(), anns),
        decreases fun.attributes@.len() - i,
    {
        let ghost pre = options@;
        proof {
            assert(anns.skip(i as int)[0] == anns[i as int]);
            assert(anns.skip(i as int).skip(1) =~= anns.skip(i + 1));
            assert(ann_safe(anns[i as int]));
        }
        let attr = &fun.attributes[i];
        let values = match parse_values(attr) {
            Ok(v) => v,
            Err(e) => {
                return Err(e);
            },
        };
        let name: String = values.name.text.clone();
        let vspan = values.span;
        let n: &str = name.as_str();
        if str_eq(n, "description") {
            match parse_string(values) {
                Ok(line) => {
                    append_line(&mut options.description, line);
                },
                Err(e) => {
                    return Err(e);
                },
            }
        } else if str_eq(n, "checks") {
            match parse_ident_list(values) {
                Ok(ids) => {
                    options.checks = Checks(ids);
                },
                Err(e) => {
                    return Err(e);
                },
            }
        } else if str_eq(n, "bucket") {
            match parse_string(values) {
                Ok(t) => {
                    options.bucket = crate::util::AsOption(Some(t));
                },
                Err(e) => {
                    return Err(e);
                },
            }
        } else if str_eq(n, "aliases") {
            match parse_string_list(values) {
                Ok(ts) => {
                    options.aliases = ts;
                },
                Err(e) => {
                    return Err(e);
                },
            }
        } else if str_eq(n, "delimiters") {
            match parse_string_list(values) {
                Ok(ts) => {
                    options.delimiters = ts;
                },
                Err(e) => {
                    return Err(e);
                },
            }
        } else if str_eq(n, "usage") {
            match parse_string(values) {
                Ok(t) => {
                    options.usage = crate::util::AsOption(Some(t));
                },
                Err(e) => {
                    return Err(e);
                },
            }
        } else if str_eq(n, "required_permissions") {
            match parse_permissions(values) {
                Ok(p) => {
                    options.required_permissions = p;
                },
                Err(e) => {
                    return Err(e);
                },
            }
        } else if str_eq(n, "allowed_roles") {
            match parse_string_list(values) {
                Ok(ts) => {
                    options.allowed_roles = ts;
                },
                Err(e) => {
                    return Err(e);
                },
            }
        } else if str_eq(n, "help_available") {
            match parse_bool(values) {
                Ok(b) => {
                    options.help_available = b;
                },
                Err(e) => {
                    return Err(e);
                },
            }
        } else if str_eq(n, "only_in") {
            match parse_only_in_list(values) {
                Ok(rs) => {
                    options.only_in = rs;
                },
                Err(e) => {
                    return Err(e);
                },
            }
        } else if str_eq(n, "owners_only") {
            match parse_bool(values) {
                Ok(b) => {
                    options.owners_only = b;
                },
                Err(e) => {
                    return Err(e);
                },
            }
        } else if str_eq(n, "owner_privilege") {
            match parse_bool(values) {
                Ok(b) => {
                    options.owner_privilege = b;
                },
                Err(e) => {
                    return Err(e);
                },
            }
        } else if str_eq(n, "sub_commands") {
            match parse_ident_list(values) {
                Ok(ids) => {
                    options.sub_commands = ids;
                },
                Err(e) => {
                    return Err(e);
                },
            }
        } else {
            return Err(Diag::new(DiagKind::InvalidAttribute(name), vspan));
        }
        proof {
            assert(agg_step(pre, anns[i as int]) == Ok::<OptionsV, DiagV>(options@));
        }
        i += 1;
    }
    proof {
        assert(anns.skip(i as int) =~= Seq::<AnnotationV>::empty());
    }
    Ok(options)
}

/// The whole front end on one declaration: parse it, fold its recognized
/// annotations into a descriptor, and hand back the pair, or the single
/// terminal diagnostic of whichever stage rejected it first.
pub fn process(decl: crate::structures::RawDecl) -> (r: Result<(CommandFun, Options), Diag>)
    requires
        crate::structures::parse_decl_v(decl@) matches Ok(f) ==> fun_safe(f),
    ensures
        match r {
            Ok(p) => crate::structures::parse_decl_v(decl@) == Ok::<CommandFunV, DiagV>(p.0@)
                && aggregate_v(p.0@) == Ok::<OptionsV, DiagV>(p.1@),
            Err(e) => crate::structures::parse_decl_v(decl@) == Err::<CommandFunV, DiagV>(e@)
                || (crate::structures::parse_decl_v(decl@) matches Ok(f) && aggregate_v(f)
                == Err::<OptionsV, DiagV>(e@)),
        },
{
    let fun = match CommandFun::parse(decl) {
        Ok(f) => f,
        Err(e) => {
            return Err(e);
        },
    };
    match aggregate_options(&fun) {
        Ok(o) => Ok((fun, o)),
        Err(e) => Err(e),
    }
}

// ------------------------------------------------------------------ the laws

/// The annotation names this front end interprets.
pub open spec fn recognized_name(name: Seq<char>) -> bool {
    ||| name == "description"@
    ||| name == "checks"@
    ||| name == "bucket"@
    ||| name == "aliases"@
    ||| name == "delimiters"@
    ||| name == "usage"@
    ||| name == "required_permissions"@
    ||| name == "allowed_roles"@
    ||| name == "help_available"@
    ||| name == "only_in"@
    ||| name == "owners_only"@
    ||| name == "owner_privilege"@
    ||| name == "sub_commands"@
}

/// Whether an annotation parses and bears a recognized name.
pub open spec fn parses_recognized(a: AnnotationV) -> bool {
    match parse_values_v(a) {
        Ok(v) => recognized_name(v.name.text),
        Err(_) => false,
    }
}

/// An annotation whose name is outside the recognized set always fails
/// aggregation: once the annotations before it fold successfully, the whole
/// fold ends with an invalid-attribute diagnostic naming that annotation's
/// name, at its position.
pub proof fn lemma_unknown_name_fails(o: OptionsV, anns: Seq<AnnotationV>, i: int)
    requires
        0 <= i < anns.len(),
        agg_rec(o, anns.take(i)) is Ok,
        parse_values_v(anns[i]) matches Ok(v) && !recognized_name(v.name.text),
    ensures
        parse_values_v(anns[i]) matches Ok(v) && agg_rec(o, anns) == Err::<OptionsV, DiagV>(
            DiagV { kind: DiagKindV::InvalidAttribute(v.name.text), span: v.span },
        ),
    decreases i,
{
    if i == 0 {
    } else {
        assert(anns.take(i)[0] == anns[0]);
        match agg_step(o, anns[0]) {
            Err(_) => {
                assert(agg_rec(o, anns.take(i)) is Err);
            },
            Ok(o2) => {
                assert(anns.take(i).skip(1) =~= anns.skip(1).take(i - 1));
                assert(anns.skip(1)[i - 1] == anns[i]);
                lemma_unknown_name_fails(o2, anns.skip(1), i - 1);
            },
        }
    }
}

/// A successful aggregation means every annotation parsed and bore a
/// recognized name: nothing unknown is ever silently ignored.
pub proof fn lemma_aggregate_ok_names_recognized(o: OptionsV, anns: Seq<AnnotationV>)
    requires
        agg_rec(o, anns) is Ok,
    ensures
        forall|i: int| 0 <= i < anns.len() ==> parses_recognized(#[trigger] anns[i]),
    decreases anns.len(),
{
    if anns.len() > 0 {
        match agg_step(o, anns[0]) {
            Err(_) => {},
            Ok(o2) => {
                assert(parses_recognized(anns[0]));
                lemma_aggregate_ok_names_recognized(o2, anns.skip(1));
                assert forall|i: int| 0 <= i < anns.len() implies parses_recognized(
                    #[trigger] anns[i],
                ) by {
                    if i > 0 {
                        assert(anns.skip(1)[i - 1] == anns[i]);
                    }
                }
            },
        }
    }
}

/// One aggregation step's diagnostic points into the annotation it was
/// folding.
proof fn lemma_agg_step_err_span(o: OptionsV, a: AnnotationV)
    ensures
        agg_step(o, a) matches Err(e) ==> crate::syntax::span_in_ann(e.span, a),
{
    match parse_values_v(a) {
        Err(_) => {
            crate::attributes::lemma_parse_values_err_span(a);
        },
        Ok(v) => {
            crate::attributes::lemma_parse_values_ok_spans(a);
            let name = v.name.text;
            if name == "only_in"@ {
                crate::attributes::lemma_only_in_rec_err_span(Seq::empty(), v.literals);
                match crate::attributes::only_in_rec(Seq::empty(), v.literals) {
                    Err(e) => {
                        let i = choose|i: int|
                            0 <= i < v.literals.len() && (#[trigger] v.literals[i]).span
                                == e.span;
                        assert(crate::syntax::span_in_ann(v.literals[i].span, a));
                    },
                    Ok(_) => {},
                }
            } else if name == "required_permissions"@ {
                crate::attributes::lemma_perms_rec_err_span(0, v.literals);
                match crate::attributes::perms_rec(0, v.literals) {
                    Err(e) => {
                        let i = choose|i: int|
                            0 <= i < v.literals.len() && (#[trigger] v.literals[i]).span
                                == e.span;
                        assert(crate::syntax::span_in_ann(v.literals[i].span, a));
                    },
                    Ok(_) => {},
                }
            }
        },
    }
}

/// A failed fold's diagnostic points into one of the annotations.
proof fn lemma_agg_rec_err_span(o: OptionsV, anns: Seq<AnnotationV>)
    ensures
        agg_rec(o, anns) matches Err(e) ==> exists|i: int|
            0 <= i < anns.len() && crate::syntax::span_in_ann(e.span, #[trigger] anns[i]),
    decreases anns.len(),
{
    if anns.len() > 0 {
        lemma_agg_step_err_span(o, anns[0]);
        match agg_step(o, anns[0]) {
            Err(e) => {
                assert(crate::syntax::span_in_ann(e.span, anns[0]));
            },
            Ok(o2) => {
                lemma_agg_rec_err_span(o2, anns.skip(1));
                match agg_rec(o2, anns.skip(1)) {
                    Err(e) => {
                        let i = choose|i: int|
                            0 <= i < anns.skip(1).len() && crate::syntax::span_in_ann(
                                e.span,
                                #[trigger] anns.skip(1)[i],
                            );
                        assert(anns.skip(1)[i] == anns[i + 1]);
                        assert(crate::syntax::span_in_ann(e.span, anns[i + 1]));
                    },
                    Ok(_) => {},
                }
            },
        }
    }
}

/// Location fidelity: whenever aggregation fails, the diagnostic's position
/// is the position of one of the declaration's recognized annotations or of
/// an element inside it, so it always leads back to the cause.
pub proof fn lemma_aggregate_location_fidelity(f: CommandFunV)
    ensures
        aggregate_v(f) matches Err(e) ==> exists|i: int|
            0 <= i < f.attributes.len() && crate::syntax::span_in_ann(
                e.span,
                #[trigger] f.attributes[i],
            ),
{
    lemma_agg_rec_err_span(options_default(), f.attributes);
}

} // verus!
