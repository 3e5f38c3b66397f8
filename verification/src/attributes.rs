//! The annotation syntax parser and the shape-checked typed conversions:
//! one raw annotation occurrence becomes a uniform `Values` record, and a
//! `Values` record becomes a typed value after a check against the shapes
//! its target accepts.

use vstd::prelude::*;

use crate::syntax::{
    Annotation, AnnotationV, AnnPath, AnnPathV, Ident, IdentV, Lit, lit_bool_val,
    lit_is_boolish, lit_is_textual, lit_text, LitV, LitValue, MetaItem, MetaItemV,
    NestedItem, NestedItemV, Span,
};
use crate::diag::{Diag, DiagKind, DiagKindV, DiagV};
use crate::structures::{OnlyIn, Permissions};

verus! {

/// The surface form of one annotation occurrence.
#[derive(Debug, Clone, Copy, PartialEq, Eq, Structural)]
pub enum ValueKind {
    /// `#[<name>]`
    Name,
    /// `#[<name> = <value>]`
    Equals,
    /// `#[<name>([<value>, <value>, <value>, ...])]`
    List,
    /// `#[<name>(<value>)]`
    SingleList,
}

/// One parsed annotation occurrence: its name, its classified form, its
/// literal payload in order, and where it stood.
#[derive(Debug, PartialEq, Eq)]
pub struct Values {
    pub name: Ident,
    pub literals: Vec<Lit>,
    pub kind: ValueKind,
    pub span: Span,
}

pub ghost struct ValuesV {
    pub name: IdentV,
    pub literals: Seq<LitV>,
    pub kind: ValueKind,
    pub span: Span,
}

impl View for Values {
    type V = ValuesV;

    open spec fn view(&self) -> ValuesV {
        ValuesV {
            name: self.name@,
            literals: self.literals@.map_values(|l: Lit| l@),
            kind: self.kind,
            span: self.span,
        }
    }
}

impl Values {
    pub fn new(name: Ident, kind: ValueKind, literals: Vec<Lit>, span: Span) -> (r: Values)
        ensures
            r@ == (ValuesV {
                name: name@,
                literals: literals@.map_values(|l: Lit| l@),
                kind,
                span,
            }),
    {
        Values { name, literals, kind, span }
    }
}

/// The payload-count invariant that every parsed `Values` satisfies: a bare
/// name has no literals, the key-value and single-element forms have exactly
/// one, and the list form at least two.
pub open spec fn values_wf(v: ValuesV) -> bool {
    &&& (v.literals.len() == 0 <==> v.kind == ValueKind::Name)
    &&& (v.kind == ValueKind::Equals ==> v.literals.len() == 1)
    &&& (v.kind == ValueKind::SingleList ==> v.literals.len() == 1)
    &&& (v.kind == ValueKind::List ==> v.literals.len() >= 2)
}

// ------------------------------------------------------------ name extraction

/// The single identifier an annotation name path must be: an empty path, a
/// path of several segments, or a segment with arguments is rejected.
pub open spec fn to_ident_v(p: AnnPathV) -> Result<IdentV, DiagV> {
    if p.segments.len() == 0 {
        Err(DiagV { kind: DiagKindV::EmptyName, span: p.span })
    } else if p.segments.len() > 1 {
        Err(DiagV { kind: DiagKindV::MultiSegmentName, span: p.span })
    } else if p.segments[0].has_args {
        Err(DiagV { kind: DiagKindV::ArgedName, span: p.span })
    } else {
        Ok(p.segments[0].ident)
    }
}

/// Converts an annotation name path to its single identifier.
pub fn to_ident(p: &AnnPath) -> (r: Result<Ident, Diag>)
    ensures
        crate::syntax::res_v(r) == to_ident_v(p@),
{
    if p.segments.len() == 0 {
        Err(Diag::new(DiagKind::EmptyName, p.span))
    } else if p.segments.len() > 1 {
        Err(Diag::new(DiagKind::MultiSegmentName, p.span))
    } else if p.segments[0].has_args {
        Err(Diag::new(DiagKind::ArgedName, p.span))
    } else {
        Ok(p.segments[0].ident.clone())
    }
}

// --------------------------------------------------------- annotation parsing

/// One payload element as a literal: a literal stands for itself, a bare
/// name becomes a synthetic string literal carrying the name's text at the
/// name's position, and deeper structure is rejected.
pub open spec fn nested_lit_v(n: NestedItemV, attr_span: Span) -> Result<LitV, DiagV> {
    match n {
        NestedItemV::Lit(l) => Ok(l),
        NestedItemV::Path(p) => match to_ident_v(p) {
            Ok(id) => Ok(LitV { value: crate::syntax::LitValueV::Str(id.text), span: id.span }),
            Err(e) => Err(e),
        },
        NestedItemV::Structured(_) => Err(
            DiagV { kind: DiagKindV::NestedList, span: attr_span },
        ),
    }
}

/// The literals of a payload, element by element, stopping at the first
/// rejected element.
pub open spec fn nested_lits_rec(
    acc: Seq<LitV>,
    items: Seq<NestedItemV>,
    attr_span: Span,
) -> Result<Seq<LitV>, DiagV>
    decreases items.len(),
{
    if items.len() == 0 {
        Ok(acc)
    } else {
        match nested_lit_v(items[0], attr_span) {
            Err(e) => Err(e),
            Ok(l) => nested_lits_rec(acc.push(l), items.skip(1), attr_span),
        }
    }
}

/// The outcome of parsing one raw annotation occurrence: a bare name is the
/// `Name` form with no payload; a parenthesised payload is the `SingleList`
/// or `List` form by its element count, with an empty payload rejected; a
/// `name = value` pair is the `Equals` form with that one literal.
pub open spec fn parse_values_v(a: AnnotationV) -> Result<ValuesV, DiagV> {
    match a.item {
        MetaItemV::Path(p) => match to_ident_v(p) {
            Err(e) => Err(e),
            Ok(name) => Ok(
                ValuesV {
                    name,
                    literals: Seq::empty(),
                    kind: ValueKind::Name,
                    span: a.span,
                },
            ),
        },
        MetaItemV::List(p, items) => match to_ident_v(p) {
            Err(e) => Err(e),
            Ok(name) => {
                if items.len() == 0 {
                    Err(DiagV { kind: DiagKindV::EmptyList, span: a.span })
                } else {
                    match nested_lits_rec(Seq::empty(), items, a.span) {
                        Err(e) => Err(e),
                        Ok(lits) => Ok(
                            ValuesV {
                                name,
                                literals: lits,
                                kind: if lits.len() == 1 {
                                    ValueKind::SingleList
                                } else {
                                    ValueKind::List
                                },
                                span: a.span,
                            },
                        ),
                    }
                }
            },
        },
        MetaItemV::NameValue(p, l) => match to_ident_v(p) {
            Err(e) => Err(e),
            Ok(name) => Ok(
                ValuesV { name, literals: seq![l], kind: ValueKind::Equals, span: a.span },
            ),
        },
    }
}

/// Parses one raw annotation occurrence into a `Values` record. A bare
/// name yields the `Name` form with no literals; a parenthesised payload of
/// one element yields `SingleList` and of two or more `List`; a
/// `name = value` pair yields `Equals` with exactly one literal.
#[verifier::loop_isolation(false)]
pub fn parse_values(attr: &Annotation) -> (r: Result<Values, Diag>)
    ensures
        crate::syntax::res_v(r) == parse_values_v(attr@),
        r matches Ok(v) ==> values_wf(v@),
        attr@.item matches MetaItemV::Path(_) ==> (r matches Ok(v) ==> v@.kind
            == ValueKind::Name && v@.literals.len() == 0),
        attr@.item matches MetaItemV::List(_, items) ==> (r matches Ok(v) ==> v@.literals.len()
            == items.len() && v@.kind == (if items.len() == 1 {
            ValueKind::SingleList
        } else {
            ValueKind::List
        })),
        attr@.item matches MetaItemV::NameValue(_, _) ==> (r matches Ok(v) ==> v@.kind
            == ValueKind::Equals && v@.literals.len() == 1),
{
    match &attr.item {
        MetaItem::Path(p) => {
            match to_ident(p) {
                Err(e) => Err(e),
                Ok(name) => {
                    let lits: Vec<Lit> = Vec::new();
                    proof {
                        assert(lits@.map_values(|l: Lit| l@) =~= Seq::<LitV>::empty());
                    }
                    Ok(Values::new(name, ValueKind::Name, lits, attr.span))
                },
            }
        },
        MetaItem::List(p, nested) => {
            let name = match to_ident(p) {
                Ok(n) => n,
                Err(e) => {
                    return Err(e);
                },
            };
            if nested.len() == 0 {
                return Err(Diag::new(DiagKind::EmptyList, attr.span));
            }
            let ghost items_v = nested@.map_values(|n: NestedItem| n@);
            let mut lits: Vec<Lit> = Vec::new();
            let mut i: usize = 0;
            proof {
                assert(lits@.map_values(|l: Lit| l@) =~= Seq::<LitV>::empty());
                assert(items_v.skip(0) =~= items_v);
            }
            while i < nested.len()
                invariant
                    0 <= i <= nested@.len(),
                    items_v == nested@.map_values(|n: NestedItem| n@),
                    items_v.len() == nested@.len(),
                    lits@.len() == i,
                    nested_lits_rec(
                        lits@.map_values(|l: Lit| l@),
                        items_v.skip(i as int),
                        attr@.span,
                    ) == nested_lits_rec(Seq::empty(), items_v, attr@.span),
                decreases nested@.len() - i,
            {
                let ghost pre = lits@.map_values(|l: Lit| l@);
                proof {
                    assert(items_v.skip(i as int)[0] == items_v[i as int]);
                    assert(items_v.skip(i as int).skip(1) =~= items_v.skip(i + 1));
                }
                match &nested[i] {
                    NestedItem::Lit(l) => {
                        lits.push(l.clone());
                    },
                    NestedItem::Path(p2) => {
                        match to_ident(p2) {
                            Ok(id) => {
                                let id_span = id.span;
                                lits.push(Lit { value: LitValue::Str(id.text), span: id_span });
                            },
                            Err(e) => {
                                proof {
                                    assert(nested_lit_v(items_v[i as int], attr@.span)
                                        == Err::<LitV, DiagV>(e@));
                                    assert(nested_lits_rec(
                                        lits@.map_values(|l: Lit| l@),
                                        items_v.skip(i as int),
                                        attr@.span,
                                    ) == Err::<Seq<LitV>, DiagV>(e@));
                                }
                                return Err(e);
                            },
                        }
                    },
                    NestedItem::Structured(_) => {
                        let d = Diag::new(DiagKind::NestedList, attr.span);
                        proof {
                            assert(nested_lit_v(items_v[i as int], attr@.span)
                                == Err::<LitV, DiagV>(d@));
                            assert(nested_lits_rec(
                                lits@.map_values(|l: Lit| l@),
                                items_v.skip(i as int),
                                attr@.span,
                            ) == Err::<Seq<LitV>, DiagV>(d@));
                        }
                        return Err(d);
                    },
                }
                proof {
                    assert(lits@.map_values(|l: Lit| l@) =~= pre.push(lits@.last()@));
                }
                i += 1;
            }
            proof {
                assert(items_v.skip(i as int) =~= Seq::<NestedItemV>::empty());
            }
            let kind = if lits.len() == 1 {
                ValueKind::SingleList
            } else {
                ValueKind::List
            };
            Ok(Values::new(name, kind, lits, attr.span))
        },
        MetaItem::NameValue(p, l) => {
            match to_ident(p) {
                Err(e) => Err(e),
                Ok(name) => {
                    let mut lits: Vec<Lit> = Vec::new();
                    lits.push(l.clone());
                    proof {
                        assert(lits@.map_values(|x: Lit| x@) =~= seq![l@]);
                    }
                    Ok(Values::new(name, ValueKind::Equals, lits, attr.span))
                },
            }
        },
    }
}

// ----------------------------------------------------------------- shape check

/// The one widening rule beside direct membership: wherever a multi-element
/// list is acceptable, a single-element list is too.
pub open spec fn accepts(expect: Seq<ValueKind>, kind: ValueKind) -> bool {
    expect.contains(kind) || (expect.contains(ValueKind::List) && kind == ValueKind::SingleList)
}

fn kinds_contain(expect: &[ValueKind], kind: ValueKind) -> (r: bool)
    ensures
        r == expect@.contains(kind),
{
    let mut i: usize = 0;
    while i < expect.len()
        invariant
            0 <= i <= expect@.len(),
            forall|j: int| 0 <= j < i ==> expect@[j] != kind,
        decreases expect@.len() - i,
    {
        if expect[i] == kind {
            return true;
        }
        i += 1;
    }
    false
}

/// Whether an actual form is among the expected ones, counting a
/// single-element list as acceptable wherever a list is.
pub fn is_form_acceptable(expect: &[ValueKind], kind: ValueKind) -> (r: bool)
    ensures
        r == accepts(expect@, kind),
{
    if kinds_contain(expect, ValueKind::List) && kind == ValueKind::SingleList {
        true
    } else {
        kinds_contain(expect, kind)
    }
}

/// The outcome of a shape check: acceptance, or a diagnostic at the value's
/// position listing every acceptable form.
pub open spec fn validate_v(v: ValuesV, forms: Seq<ValueKind>) -> Result<(), DiagV> {
    if accepts(forms, v.kind) {
        Ok(())
    } else {
        Err(DiagV { kind: DiagKindV::BadShape(forms), span: v.span })
    }
}

/// Checks a parsed annotation against the forms its target accepts.
pub fn validate(values: &Values, forms: &[ValueKind]) -> (r: Result<(), Diag>)
    ensures
        r is Ok <==> accepts(forms@, values@.kind),
        r matches Err(e) ==> e@ == (DiagV {
            kind: DiagKindV::BadShape(forms@),
            span: values@.span,
        }),
{
    if is_form_acceptable(forms, values.kind) {
        Ok(())
    } else {
        Err(Diag::new(DiagKind::BadShape(vstd::slice::slice_to_vec(forms)), values.span))
    }
}

// ------------------------------------------------------------- typed targets

/// The forms a plain text target accepts.
pub open spec fn str_forms() -> Seq<ValueKind> {
    seq![ValueKind::Equals, ValueKind::SingleList]
}

/// The forms a boolean target accepts.
pub open spec fn bool_forms() -> Seq<ValueKind> {
    seq![ValueKind::Name, ValueKind::SingleList]
}

/// The forms every list-valued target accepts (a single-element list is
/// admitted by the widening rule).
pub open spec fn list_forms() -> Seq<ValueKind> {
    seq![ValueKind::List]
}

/// Extraction safety for a text target: if the shape check will pass, the
/// one payload literal must be textual, since text conversion of any other
/// kind is a caller bug.
pub open spec fn str_target_safe(v: ValuesV) -> bool {
    accepts(str_forms(), v.kind) ==> lit_is_textual(v.literals[0].value)
}

/// Extraction safety for a boolean target: a single-element payload must
/// hold a boolean or the text `true`/`false`.
pub open spec fn bool_target_safe(v: ValuesV) -> bool {
    (accepts(bool_forms(), v.kind) && v.kind != ValueKind::Name) ==> lit_is_boolish(
        v.literals[0].value,
    )
}

/// Extraction safety for the list targets: if the shape check will pass,
/// every payload literal must be textual.
pub open spec fn list_target_safe(v: ValuesV) -> bool {
    accepts(list_forms(), v.kind) ==> forall|i: int|
        0 <= i < v.literals.len() ==> lit_is_textual(#[trigger] v.literals[i].value)
}

/// The text target: `name = value` or `name(value)`, the sole literal's
/// text.
pub open spec fn conv_string_v(v: ValuesV) -> Result<Seq<char>, DiagV> {
    match validate_v(v, str_forms()) {
        Err(e) => Err(e),
        Ok(_) => Ok(lit_text(v.literals[0].value)),
    }
}

/// Converts to plain text.
pub fn parse_string(values: Values) -> (r: Result<String, Diag>)
    requires
        values_wf(values@),
        str_target_safe(values@),
    ensures
        crate::syntax::res_v(r) == conv_string_v(values@),
{
    let forms: Vec<ValueKind> = vec![ValueKind::Equals, ValueKind::SingleList];
    proof {
        assert(forms@ =~= str_forms());
    }
    match validate(&values, forms.as_slice()) {
        Err(e) => Err(e),
        Ok(_) => {
            proof {
                assert(str_forms()[0] == ValueKind::Equals);
                assert(str_forms()[1] == ValueKind::SingleList);
                assert(values@.kind == ValueKind::Equals || values@.kind
                    == ValueKind::SingleList);
            }
            Ok(values.literals[0].to_str())
        },
    }
}

/// The boolean target: a bare `name` means true; `name(value)` takes the
/// literal's boolean.
pub open spec fn conv_bool_v(v: ValuesV) -> Result<bool, DiagV> {
    match validate_v(v, bool_forms()) {
        Err(e) => Err(e),
        Ok(_) => Ok(
            if v.kind == ValueKind::Name {
                true
            } else {
                lit_bool_val(v.literals[0].value)
            },
        ),
    }
}

/// Converts to a boolean.
pub fn parse_bool(values: Values) -> (r: Result<bool, Diag>)
    requires
        values_wf(values@),
        bool_target_safe(values@),
    ensures
        crate::syntax::res_v(r) == conv_bool_v(values@),
{
    let forms: Vec<ValueKind> = vec![ValueKind::Name, ValueKind::SingleList];
    proof {
        assert(forms@ =~= bool_forms());
    }
    match validate(&values, forms.as_slice()) {
        Err(e) => Err(e),
        Ok(_) => {
            if values.kind == ValueKind::Name {
                Ok(true)
            } else {
                proof {
                    assert(bool_forms()[0] == ValueKind::Name);
                    assert(bool_forms()[1] == ValueKind::SingleList);
                    assert(values@.kind == ValueKind::SingleList);
                }
                Ok(values.literals[0].to_bool())
            }
        },
    }
}

/// The text list target: every payload literal's text, in order.
pub open spec fn conv_string_list_v(v: ValuesV) -> Result<Seq<Seq<char>>, DiagV> {
    match validate_v(v, list_forms()) {
        Err(e) => Err(e),
        Ok(_) => Ok(v.literals.map_values(|l: LitV| lit_text(l.value))),
    }
}

/// Converts to a list of texts.
#[verifier::loop_isolation(false)]
pub fn parse_string_list(values: Values) -> (r: Result<Vec<String>, Diag>)
    requires
        values_wf(values@),
        list_target_safe(values@),
    ensures
        match r {
            Ok(out) => conv_string_list_v(values@) == Ok::<Seq<Seq<char>>, DiagV>(
                out@.map_values(|s: String| s@),
            ),
            Err(e) => conv_string_list_v(values@) == Err::<Seq<Seq<char>>, DiagV>(e@),
        },
{
    let forms: Vec<ValueKind> = vec![ValueKind::List];
    proof {
        assert(forms@ =~= list_forms());
    }
    if let Err(e) = validate(&values, forms.as_slice()) {
        return Err(e);
    }
    let mut out: Vec<String> = Vec::new();
    let ghost lits_v = values@.literals;
    let mut i: usize = 0;
    while i < values.literals.len()
        invariant
            0 <= i <= values.literals@.len(),
            out@.len() == i,
            forall|j: int| 0 <= j < i ==> (#[trigger] out@[j])@ == lit_text(lits_v[j].value),
        decreases values.literals@.len() - i,
    {
        proof {
            assert(lit_is_textual(values@.literals[i as int].value));
        }
        out.push(values.literals[i].to_str());
        i += 1;
    }
    proof {
        assert(out@.map_values(|s: String| s@) =~= lits_v.map_values(
            |l: LitV| lit_text(l.value),
        ));
    }
    Ok(out)
}

/// The identifier list target: every payload literal as an identifier
/// carrying the literal's text at the literal's position.
pub open spec fn conv_ident_list_v(v: ValuesV) -> Result<Seq<IdentV>, DiagV> {
    match validate_v(v, list_forms()) {
        Err(e) => Err(e),
        Ok(_) => Ok(
            v.literals.map_values(
                |l: LitV| IdentV { text: lit_text(l.value), span: l.span },
            ),
        ),
    }
}

/// Converts to a list of identifiers.
#[verifier::loop_isolation(false)]
pub fn parse_ident_list(values: Values) -> (r: Result<Vec<Ident>, Diag>)
    requires
        values_wf(values@),
        list_target_safe(values@),
    ensures
        match r {
            Ok(out) => conv_ident_list_v(values@) == Ok::<Seq<IdentV>, DiagV>(
                out@.map_values(|i: Ident| i@),
            ),
            Err(e) => conv_ident_list_v(values@) == Err::<Seq<IdentV>, DiagV>(e@),
        },
{
    let forms: Vec<ValueKind> = vec![ValueKind::List];
    proof {
        assert(forms@ =~= list_forms());
    }
    if let Err(e) = validate(&values, forms.as_slice()) {
        return Err(e);
    }
    let mut out: Vec<Ident> = Vec::new();
    let ghost lits_v = values@.literals;
    let mut i: usize = 0;
    while i < values.literals.len()
        invariant
            0 <= i <= values.literals@.len(),
            out@.len() == i,
            forall|j: int|
                0 <= j < i ==> (#[trigger] out@[j])@ == (IdentV {
                    text: lit_text(lits_v[j].value),
                    span: lits_v[j].span,
                }),
        decreases values.literals@.len() - i,
    {
        proof {
            assert(lit_is_textual(values@.literals[i as int].value));
        }
        out.push(values.literals[i].to_ident());
        i += 1;
    }
    proof {
        assert(out@.map_values(|x: Ident| x@) =~= lits_v.map_values(
            |l: LitV| IdentV { text: lit_text(l.value), span: l.span },
        ));
    }
    Ok(out)
}

/// The restriction list: each payload literal's text through the
/// restriction grammar, stopping at the first rejected one.
pub open spec fn only_in_rec(acc: Seq<OnlyIn>, lits: Seq<LitV>) -> Result<Seq<OnlyIn>, DiagV>
    decreases lits.len(),
{
    if lits.len() == 0 {
        Ok(acc)
    } else {
        match crate::structures::only_in_v(lit_text(lits[0].value), lits[0].span) {
            Err(e) => Err(e),
            Ok(o) => only_in_rec(acc.push(o), lits.skip(1)),
        }
    }
}

/// The restriction list target.
pub open spec fn conv_only_in_v(v: ValuesV) -> Result<Seq<OnlyIn>, DiagV> {
    match validate_v(v, list_forms()) {
        Err(e) => Err(e),
        Ok(_) => only_in_rec(Seq::empty(), v.literals),
    }
}

/// Converts to a list of place restrictions.
#[verifier::loop_isolation(false)]
pub fn parse_only_in_list(values: Values) -> (r: Result<Vec<OnlyIn>, Diag>)
    requires
        values_wf(values@),
        list_target_safe(values@),
    ensures
        match r {
            Ok(out) => conv_only_in_v(values@) == Ok::<Seq<OnlyIn>, DiagV>(out@),
            Err(e) => conv_only_in_v(values@) == Err::<Seq<OnlyIn>, DiagV>(e@),
        },
{
    let forms: Vec<ValueKind> = vec![ValueKind::List];
    proof {
        assert(forms@ =~= list_forms());
    }
    if let Err(e) = validate(&values, forms.as_slice()) {
        return Err(e);
    }
    let mut out: Vec<OnlyIn> = Vec::new();
    let ghost lits_v = values@.literals;
    let mut i: usize = 0;
    proof {
        assert(lits_v.skip(0) =~= lits_v);
        assert(out@ =~= Seq::<OnlyIn>::empty());
    }
    while i < values.literals.len()
        invariant
            0 <= i <= values.literals@.len(),
            only_in_rec(out@, lits_v.skip(i as int)) == only_in_rec(
                Seq::empty(),
                lits_v,
            ),
        decreases values.literals@.len() - i,
    {
        let ghost pre = out@;
        proof {
            assert(lits_v.skip(i as int)[0] == lits_v[i as int]);
            assert(lits_v.skip(i as int).skip(1) =~= lits_v.skip(i + 1));
        }
        let lit = &values.literals[i];
        let text = lit.to_str();
        match OnlyIn::from_str(text.as_str(), lit.span) {
            Ok(o) => {
                out.push(o);
                proof {
                    assert(out@ =~= pre.push(o));
                }
            },
            Err(e) => {
                return Err(e);
            },
        }
        i += 1;
    }
    proof {
        assert(lits_v.skip(i as int) =~= Seq::<LitV>::empty());
    }
    Ok(out)
}

/// The permission bit-set: each payload name looked up as a preset and the
/// bits folded together. The preset set is deliberately empty, so every
/// name is reported as unknown.
pub open spec fn perms_rec(acc: u64, lits: Seq<LitV>) -> Result<u64, DiagV>
    decreases lits.len(),
{
    if lits.len() == 0 {
        Ok(acc)
    } else {
        match crate::structures::perm_preset_v(lit_text(lits[0].value)) {
            Option::None => Err(
                DiagV {
                    kind: DiagKindV::UnknownPermission(lit_text(lits[0].value)),
                    span: lits[0].span,
                },
            ),
            Option::Some(b) => perms_rec(acc | b, lits.skip(1)),
        }
    }
}

/// The permission bit-set target.
pub open spec fn conv_permissions_v(v: ValuesV) -> Result<u64, DiagV> {
    match validate_v(v, list_forms()) {
        Err(e) => Err(e),
        Ok(_) => perms_rec(0, v.literals),
    }
}

/// Converts to a permission bit-set.
#[verifier::loop_isolation(false)]
pub fn parse_permissions(values: Values) -> (r: Result<Permissions, Diag>)
    requires
        values_wf(values@),
        list_target_safe(values@),
    ensures
        match r {
            Ok(p) => conv_permissions_v(values@) == Ok::<u64, DiagV>(p.0),
            Err(e) => conv_permissions_v(values@) == Err::<u64, DiagV>(e@),
        },
{
    let forms: Vec<ValueKind> = vec![ValueKind::List];
    proof {
        assert(forms@ =~= list_forms());
    }
    if let Err(e) = validate(&values, forms.as_slice()) {
        return Err(e);
    }
    proof {
        assert(list_forms()[0] == ValueKind::List);
        assert(values@.kind == ValueKind::List || values@.kind == ValueKind::SingleList);
        assert(values@.literals.len() >= 1);
        assert(values@.literals.skip(0) =~= values@.literals);
    }
    let mut bits: u64 = 0;
    let mut i: usize = 0;
    while i < values.literals.len()
        invariant
            i == 0,
            bits == 0,
        decreases values.literals@.len() - i,
    {
        proof {
            assert(values@.literals.skip(0)[0] == values@.literals[0]);
        }
        let lit = &values.literals[i];
        let text = lit.to_str();
        match Permissions::from_str(text.as_str()) {
            Some(p) => {
                proof {
                    assert(false);
                }
                bits = bits | p.0;
            },
            Option::None => {
                return Err(Diag::new(DiagKind::UnknownPermission(text), lit.span));
            },
        }
        i += 1;
    }
    proof {
        assert(values@.literals.len() == 0);
        assert(false);
    }
    Ok(Permissions(bits))
}

// -------------------------------------------------------------- span origins

/// A rejected payload's diagnostic is at the annotation's position or
/// inside one of the payload elements.
proof fn lemma_nested_lits_err_span(acc: Seq<LitV>, items: Seq<NestedItemV>, sp: Span)
    ensures
        nested_lits_rec(acc, items, sp) matches Err(e) ==> (e.span == sp || exists|j: int|
            0 <= j < items.len() && crate::syntax::span_in_nested(e.span, #[trigger] items[j])),
    decreases items.len(),
{
    if items.len() > 0 {
        match nested_lit_v(items[0], sp) {
            Err(e) => {
                match items[0] {
                    NestedItemV::Lit(_) => {},
                    NestedItemV::Path(p) => {
                        assert(crate::syntax::span_in_nested(e.span, items[0]));
                    },
                    NestedItemV::Structured(_) => {},
                }
            },
            Ok(l) => {
                lemma_nested_lits_err_span(acc.push(l), items.skip(1), sp);
                match nested_lits_rec(acc, items, sp) {
                    Ok(_) => {},
                    Err(e) => {
                        if e.span != sp {
                            let j = choose|j: int|
                                0 <= j < items.skip(1).len() && crate::syntax::span_in_nested(
                                    e.span,
                                    #[trigger] items.skip(1)[j],
                                );
                            assert(items.skip(1)[j] == items[j + 1]);
                            assert(crate::syntax::span_in_nested(e.span, items[j + 1]));
                        }
                    },
                }
            },
        }
    }
}

/// Every literal of an accepted payload keeps a position from the
/// accumulator or from one of the payload elements.
proof fn lemma_nested_lits_ok_spans(acc: Seq<LitV>, items: Seq<NestedItemV>, sp: Span)
    ensures
        nested_lits_rec(acc, items, sp) matches Ok(lits) ==> forall|k: int|
            0 <= k < lits.len() ==> ((exists|j: int|
                0 <= j < acc.len() && acc[j].span == (#[trigger] lits[k]).span) || (exists|j: int|
                0 <= j < items.len() && crate::syntax::span_in_nested(
                    lits[k].span,
                    #[trigger] items[j],
                ))),
    decreases items.len(),
{
    if items.len() == 0 {
    } else {
        match nested_lit_v(items[0], sp) {
            Err(_) => {},
            Ok(l) => {
                assert(crate::syntax::span_in_nested(l.span, items[0]));
                lemma_nested_lits_ok_spans(acc.push(l), items.skip(1), sp);
                match nested_lits_rec(acc, items, sp) {
                    Err(_) => {},
                    Ok(lits) => {
                        assert forall|k: int| 0 <= k < lits.len() implies ((exists|j: int|
                            0 <= j < acc.len() && acc[j].span == (#[trigger] lits[k]).span) || (
                        exists|j: int|
                            0 <= j < items.len() && crate::syntax::span_in_nested(
                                lits[k].span,
                                #[trigger] items[j],
                            ))) by {
                            if exists|j: int|
                                0 <= j < acc.push(l).len() && (#[trigger] acc.push(l)[j]).span
                                    == lits[k].span {
                                let j = choose|j: int|
                                    0 <= j < acc.push(l).len() && (#[trigger] acc.push(
                                        l,
                                    )[j]).span == lits[k].span;
                                if j < acc.len() {
                                } else {
                                    assert(acc.push(l)[j] == l);
                                    assert(crate::syntax::span_in_nested(
                                        lits[k].span,
                                        items[0],
                                    ));
                                }
                            } else {
                                let j = choose|j: int|
                                    0 <= j < items.skip(1).len() && crate::syntax::span_in_nested(
                                        lits[k].span,
                                        #[trigger] items.skip(1)[j],
                                    );
                                assert(items.skip(1)[j] == items[j + 1]);
                            }
                        }
                    },
                }
            },
        }
    }
}

/// A rejected annotation's diagnostic points into that annotation.
pub proof fn lemma_parse_values_err_span(a: AnnotationV)
    ensures
        parse_values_v(a) matches Err(e) ==> crate::syntax::span_in_ann(e.span, a),
{
    match a.item {
        MetaItemV::Path(_) => {},
        MetaItemV::List(p, items) => {
            if to_ident_v(p) is Ok && items.len() > 0 {
                lemma_nested_lits_err_span(Seq::empty(), items, a.span);
            }
        },
        MetaItemV::NameValue(_, _) => {},
    }
}

/// An accepted annotation's record keeps the annotation's own position, and
/// every payload literal a position from inside the annotation.
pub proof fn lemma_parse_values_ok_spans(a: AnnotationV)
    ensures
        parse_values_v(a) matches Ok(v) ==> v.span == a.span && forall|k: int|
            0 <= k < v.literals.len() ==> crate::syntax::span_in_ann(
                (#[trigger] v.literals[k]).span,
                a,
            ),
{
    match a.item {
        MetaItemV::Path(_) => {},
        MetaItemV::List(p, items) => {
            if to_ident_v(p) is Ok && items.len() > 0 {
                lemma_nested_lits_ok_spans(Seq::empty(), items, a.span);
            }
        },
        MetaItemV::NameValue(_, _) => {},
    }
}

/// A rejected restriction list's diagnostic is at one of the payload
/// literals' positions.
pub proof fn lemma_only_in_rec_err_span(acc: Seq<OnlyIn>, lits: Seq<LitV>)
    ensures
        only_in_rec(acc, lits) matches Err(e) ==> exists|i: int|
            0 <= i < lits.len() && (#[trigger] lits[i]).span == e.span,
    decreases lits.len(),
{
    if lits.len() > 0 {
        match crate::structures::only_in_v(lit_text(lits[0].value), lits[0].span) {
            Err(_) => {},
            Ok(o) => {
                lemma_only_in_rec_err_span(acc.push(o), lits.skip(1));
                match only_in_rec(acc, lits) {
                    Ok(_) => {},
                    Err(e) => {
                        let i = choose|i: int|
                            0 <= i < lits.skip(1).len() && (#[trigger] lits.skip(1)[i]).span
                                == e.span;
                        assert(lits.skip(1)[i] == lits[i + 1]);
                    },
                }
            },
        }
    }
}

/// A rejected permission list's diagnostic is at one of the payload
/// literals' positions.
pub proof fn lemma_perms_rec_err_span(acc: u64, lits: Seq<LitV>)
    ensures
        perms_rec(acc, lits) matches Err(e) ==> exists|i: int|
            0 <= i < lits.len() && (#[trigger] lits[i]).span == e.span,
    decreases lits.len(),
{
    if lits.len() > 0 {
        match crate::structures::perm_preset_v(lit_text(lits[0].value)) {
            Option::None => {},
            Option::Some(b) => {
                lemma_perms_rec_err_span(acc | b, lits.skip(1));
                match perms_rec(acc, lits) {
                    Ok(_) => {},
                    Err(e) => {
                        let i = choose|i: int|
                            0 <= i < lits.skip(1).len() && (#[trigger] lits.skip(1)[i]).span
                                == e.span;
                        assert(lits.skip(1)[i] == lits[i + 1]);
                    },
                }
            },
        }
    }
}

} // verus!
