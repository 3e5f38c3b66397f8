//! The plain data a decorated declaration is made of: source positions,
//! literals, identifiers, annotation paths and the one-level annotation tree.
//! Every field holds an ordinary value, so contracts can speak of all of them.
//! Each executable type has a ghost model (`...V`) over `Seq<char>`, reached
//! through `@`, and the specification functions below are stated over those.

use vstd::prelude::*;

verus! {

// ---------------------------------------------------------------- positions

/// A source position, carried through purely for diagnostics.
#[derive(Clone, Copy, PartialEq, Eq, Structural, Debug)]
pub struct Span {
    pub lo: usize,
    pub hi: usize,
}

impl Span {
    /// The position given to tokens the library makes up itself.
    pub fn synthetic() -> (s: Span)
        ensures
            s == (Span { lo: 0, hi: 0 }),
    {
        Span { lo: 0, hi: 0 }
    }
}

// -------------------------------------------------------------- identifiers

/// An identifier token with its position.
#[derive(Debug, PartialEq, Eq)]
pub struct Ident {
    pub text: String,
    pub span: Span,
}

pub ghost struct IdentV {
    pub text: Seq<char>,
    pub span: Span,
}

impl View for Ident {
    type V = IdentV;

    open spec fn view(&self) -> IdentV {
        IdentV { text: self.text@, span: self.span }
    }
}

impl Clone for Ident {
    fn clone(&self) -> (r: Self)
        ensures
            r@ == self@,
    {
        Ident { text: self.text.clone(), span: self.span }
    }
}

// ----------------------------------------------------------------- literals

/// The payload of one literal token. A byte-string literal carries its text
/// in decoded form; `Other` stands for every literal kind that carries no
/// text (numbers and the like).
#[derive(Debug, PartialEq, Eq)]
pub enum LitValue {
    Str(String),
    ByteStr(String),
    Char(char),
    Byte(u8),
    Bool(bool),
    Other,
}

pub ghost enum LitValueV {
    Str(Seq<char>),
    ByteStr(Seq<char>),
    Char(char),
    Byte(u8),
    Bool(bool),
    Other,
}

impl View for LitValue {
    type V = LitValueV;

    open spec fn view(&self) -> LitValueV {
        match self {
            LitValue::Str(s) => LitValueV::Str(s@),
            LitValue::ByteStr(s) => LitValueV::ByteStr(s@),
            LitValue::Char(c) => LitValueV::Char(*c),
            LitValue::Byte(b) => LitValueV::Byte(*b),
            LitValue::Bool(b) => LitValueV::Bool(*b),
            LitValue::Other => LitValueV::Other,
        }
    }
}

impl Clone for LitValue {
    fn clone(&self) -> (r: Self)
        ensures
            r@ == self@,
    {
        match self {
            LitValue::Str(s) => LitValue::Str(s.clone()),
            LitValue::ByteStr(s) => LitValue::ByteStr(s.clone()),
            LitValue::Char(c) => LitValue::Char(*c),
            LitValue::Byte(b) => LitValue::Byte(*b),
            LitValue::Bool(b) => LitValue::Bool(*b),
            LitValue::Other => LitValue::Other,
        }
    }
}

/// One literal token with its position.
#[derive(Debug, PartialEq, Eq)]
pub struct Lit {
    pub value: LitValue,
    pub span: Span,
}

pub ghost struct LitV {
    pub value: LitValueV,
    pub span: Span,
}

impl View for Lit {
    type V = LitV;

    open spec fn view(&self) -> LitV {
        LitV { value: self.value@, span: self.span }
    }
}

impl Clone for Lit {
    fn clone(&self) -> (r: Self)
        ensures
            r@ == self@,
    {
        Lit { value: self.value.clone(), span: self.span }
    }
}

/// Whether a literal carries text: string, byte-string, character and byte
/// literals do; text conversion of any other kind is a caller bug.
pub open spec fn lit_is_textual(v: LitValueV) -> bool {
    match v {
        LitValueV::Str(_) => true,
        LitValueV::ByteStr(_) => true,
        LitValueV::Char(_) => true,
        LitValueV::Byte(_) => true,
        LitValueV::Bool(_) => false,
        LitValueV::Other => false,
    }
}

/// The text form of a textual literal (empty for the non-textual kinds,
/// which text conversion never accepts).
pub open spec fn lit_text(v: LitValueV) -> Seq<char> {
    match v {
        LitValueV::Str(s) => s,
        LitValueV::ByteStr(s) => s,
        LitValueV::Char(c) => seq![c],
        LitValueV::Byte(b) => seq![b as char],
        LitValueV::Bool(_) => Seq::empty(),
        LitValueV::Other => Seq::empty(),
    }
}

/// Whether boolean conversion is defined for a literal: a boolean literal,
/// or a textual one whose text is exactly `true` or `false`.
pub open spec fn lit_is_boolish(v: LitValueV) -> bool {
    match v {
        LitValueV::Bool(_) => true,
        _ => lit_is_textual(v) && (lit_text(v) == "true"@ || lit_text(v) == "false"@),
    }
}

/// The boolean a literal stands for, when `lit_is_boolish` holds.
pub open spec fn lit_bool_val(v: LitValueV) -> bool {
    match v {
        LitValueV::Bool(b) => b,
        _ => lit_text(v) == "true"@,
    }
}

// -------------------------------------------------------------------- paths

/// One segment of an annotation's name path, with a flag for attached
/// generic or parenthesised arguments (which a plain name must not have).
#[derive(Debug, PartialEq, Eq)]
pub struct PathSeg {
    pub ident: Ident,
    pub has_args: bool,
}

pub ghost struct PathSegV {
    pub ident: IdentV,
    pub has_args: bool,
}

impl View for PathSeg {
    type V = PathSegV;

    open spec fn view(&self) -> PathSegV {
        PathSegV { ident: self.ident@, has_args: self.has_args }
    }
}

/// An annotation's name path.
#[derive(Debug, PartialEq, Eq)]
pub struct AnnPath {
    pub segments: Vec<PathSeg>,
    pub span: Span,
}

pub ghost struct AnnPathV {
    pub segments: Seq<PathSegV>,
    pub span: Span,
}

impl View for AnnPath {
    type V = AnnPathV;

    open spec fn view(&self) -> AnnPathV {
        AnnPathV {
            segments: self.segments@.map_values(|s: PathSeg| s@),
            span: self.span,
        }
    }
}

/// Whether a path is exactly the single, argument-free name `name`.
pub open spec fn path_is_ident(p: AnnPathV, name: Seq<char>) -> bool {
    &&& p.segments.len() == 1
    &&& !p.segments[0].has_args
    &&& p.segments[0].ident.text == name
}

// --------------------------------------------------------- annotation trees

/// One element of a parenthesised annotation payload: a literal, a bare
/// name, or some deeper structure (which this level rejects and therefore
/// keeps only as a position).
#[derive(Debug, PartialEq, Eq)]
pub enum NestedItem {
    Lit(Lit),
    Path(AnnPath),
    Structured(Span),
}

pub ghost enum NestedItemV {
    Lit(LitV),
    Path(AnnPathV),
    Structured(Span),
}

impl View for NestedItem {
    type V = NestedItemV;

    open spec fn view(&self) -> NestedItemV {
        match self {
            NestedItem::Lit(l) => NestedItemV::Lit(l@),
            NestedItem::Path(p) => NestedItemV::Path(p@),
            NestedItem::Structured(s) => NestedItemV::Structured(*s),
        }
    }
}

/// The body of one annotation occurrence: a bare name, a name with a
/// parenthesised payload, or a `name = value` pair.
#[derive(Debug, PartialEq, Eq)]
pub enum MetaItem {
    Path(AnnPath),
    List(AnnPath, Vec<NestedItem>),
    NameValue(AnnPath, Lit),
}

pub ghost enum MetaItemV {
    Path(AnnPathV),
    List(AnnPathV, Seq<NestedItemV>),
    NameValue(AnnPathV, LitV),
}

impl View for MetaItem {
    type V = MetaItemV;

    open spec fn view(&self) -> MetaItemV {
        match self {
            MetaItem::Path(p) => MetaItemV::Path(p@),
            MetaItem::List(p, items) => MetaItemV::List(
                p@,
                items@.map_values(|n: NestedItem| n@),
            ),
            MetaItem::NameValue(p, l) => MetaItemV::NameValue(p@, l@),
        }
    }
}

/// One raw annotation occurrence attached to a declaration.
#[derive(Debug, PartialEq, Eq)]
pub struct Annotation {
    pub item: MetaItem,
    pub span: Span,
}

pub ghost struct AnnotationV {
    pub item: MetaItemV,
    pub span: Span,
}

impl View for Annotation {
    type V = AnnotationV;

    open spec fn view(&self) -> AnnotationV {
        AnnotationV { item: self.item@, span: self.span }
    }
}

/// The name path of an annotation, whatever its form.
pub open spec fn ann_path(a: AnnotationV) -> AnnPathV {
    match a.item {
        MetaItemV::Path(p) => p,
        MetaItemV::List(p, _) => p,
        MetaItemV::NameValue(p, _) => p,
    }
}

// ----------------------------------------------------------- span membership

/// Whether a position belongs to a name path: the path's own position or
/// one of its segment identifiers'.
pub open spec fn span_in_path(s: Span, p: AnnPathV) -> bool {
    ||| s == p.span
    ||| exists|i: int| 0 <= i < p.segments.len() && (#[trigger] p.segments[i]).ident.span == s
}

/// Whether a position belongs to one payload element.
pub open spec fn span_in_nested(s: Span, n: NestedItemV) -> bool {
    match n {
        NestedItemV::Lit(l) => s == l.span,
        NestedItemV::Path(p) => span_in_path(s, p),
        NestedItemV::Structured(sp) => s == sp,
    }
}

/// Whether a position belongs to an annotation: the annotation's own
/// position, its name path's, or one of its payload elements'.
pub open spec fn span_in_ann(s: Span, a: AnnotationV) -> bool {
    ||| s == a.span
    ||| span_in_path(s, ann_path(a))
    ||| match a.item {
        MetaItemV::Path(_) => false,
        MetaItemV::List(_, items) => exists|i: int|
            0 <= i < items.len() && span_in_nested(s, #[trigger] items[i]),
        MetaItemV::NameValue(_, l) => s == l.span,
    }
}

/// The model of a `Result`, both payloads taken to their models.
pub open spec fn res_v<T: View, E: View>(r: Result<T, E>) -> Result<T::V, E::V> {
    match r {
        Ok(t) => Ok(t@),
        Err(e) => Err(e@),
    }
}

impl Clone for PathSeg {
    fn clone(&self) -> (r: Self)
        ensures
            r@ == self@,
    {
        PathSeg { ident: self.ident.clone(), has_args: self.has_args }
    }
}

impl Clone for AnnPath {
    fn clone(&self) -> (r: Self)
        ensures
            r@ == self@,
    {
        let segments = self.segments.clone();
        proof {
            assert(segments@.map_values(|s: PathSeg| s@) =~= self.segments@.map_values(
                |s: PathSeg| s@,
            ));
        }
        AnnPath { segments, span: self.span }
    }
}

impl Clone for NestedItem {
    fn clone(&self) -> (r: Self)
        ensures
            r@ == self@,
    {
        match self {
            NestedItem::Lit(l) => NestedItem::Lit(l.clone()),
            NestedItem::Path(p) => NestedItem::Path(p.clone()),
            NestedItem::Structured(s) => NestedItem::Structured(*s),
        }
    }
}

impl Clone for MetaItem {
    fn clone(&self) -> (r: Self)
        ensures
            r@ == self@,
    {
        match self {
            MetaItem::Path(p) => MetaItem::Path(p.clone()),
            MetaItem::List(p, items) => {
                let cloned = items.clone();
                proof {
                    assert(cloned@.map_values(|n: NestedItem| n@) =~= items@.map_values(
                        |n: NestedItem| n@,
                    ));
                }
                MetaItem::List(p.clone(), cloned)
            },
            MetaItem::NameValue(p, l) => MetaItem::NameValue(p.clone(), l.clone()),
        }
    }
}

impl Clone for Annotation {
    fn clone(&self) -> (r: Self)
        ensures
            r@ == self@,
    {
        Annotation { item: self.item.clone(), span: self.span }
    }
}

} // verus!
