//! Location-tagged diagnostics. Every failure of the front end is one
//! `Diag`: a structured reason and the position of the element that caused
//! it. `message` renders the human-readable text.

use vstd::prelude::*;

use crate::attributes::ValueKind;
use crate::syntax::Span;

verus! {

/// The reason a parse, shape check or conversion failed.
#[derive(Debug, PartialEq, Eq)]
pub enum DiagKind {
    /// An annotation name that is an empty path.
    EmptyName,
    /// An annotation name of more than one path segment.
    MultiSegmentName,
    /// An annotation name whose single segment carries arguments.
    ArgedName,
    /// A parenthesised annotation payload with no elements.
    EmptyList,
    /// A structured element inside a payload, where only literals and bare
    /// names are accepted.
    NestedList,
    /// An annotation whose form is not among the ones its target accepts.
    BadShape(Vec<ValueKind>),
    /// An annotation name outside the recognized set.
    InvalidAttribute(String),
    /// Restriction text in neither of the two accepted forms.
    BadRestriction,
    /// Restriction text that opens a guild id but never closes it.
    UnterminatedRestriction,
    /// A guild id that is not a decimal number a 64-bit value can hold.
    BadRestrictionId,
    /// A permission preset name outside the recognized set (which is empty).
    UnknownPermission(String),
    /// A bound receiver parameter in a declaration.
    SelfArgument,
    /// A parameter pattern that is neither a plain binding nor a wildcard.
    UnsupportedPattern,
    /// A declaration without the asynchronous qualifier.
    ExpectedAsync,
    /// A declaration with no declared return type.
    MissingReturnType,
}

pub ghost enum DiagKindV {
    EmptyName,
    MultiSegmentName,
    ArgedName,
    EmptyList,
    NestedList,
    BadShape(Seq<ValueKind>),
    InvalidAttribute(Seq<char>),
    BadRestriction,
    UnterminatedRestriction,
    BadRestrictionId,
    UnknownPermission(Seq<char>),
    SelfArgument,
    UnsupportedPattern,
    ExpectedAsync,
    MissingReturnType,
}

impl View for DiagKind {
    type V = DiagKindV;

    open spec fn view(&self) -> DiagKindV {
        match self {
            DiagKind::EmptyName => DiagKindV::EmptyName,
            DiagKind::MultiSegmentName => DiagKindV::MultiSegmentName,
            DiagKind::ArgedName => DiagKindV::ArgedName,
            DiagKind::EmptyList => DiagKindV::EmptyList,
            DiagKind::NestedList => DiagKindV::NestedList,
            DiagKind::BadShape(forms) => DiagKindV::BadShape(forms@),
            DiagKind::InvalidAttribute(name) => DiagKindV::InvalidAttribute(name@),
            DiagKind::BadRestriction => DiagKindV::BadRestriction,
            DiagKind::UnterminatedRestriction => DiagKindV::UnterminatedRestriction,
            DiagKind::BadRestrictionId => DiagKindV::BadRestrictionId,
            DiagKind::UnknownPermission(name) => DiagKindV::UnknownPermission(name@),
            DiagKind::SelfArgument => DiagKindV::SelfArgument,
            DiagKind::UnsupportedPattern => DiagKindV::UnsupportedPattern,
            DiagKind::ExpectedAsync => DiagKindV::ExpectedAsync,
            DiagKind::MissingReturnType => DiagKindV::MissingReturnType,
        }
    }
}

/// One diagnostic: the reason, at a position of the offending element.
#[derive(Debug, PartialEq, Eq)]
pub struct Diag {
    pub kind: DiagKind,
    pub span: Span,
}

pub ghost struct DiagV {
    pub kind: DiagKindV,
    pub span: Span,
}

impl View for Diag {
    type V = DiagV;

    open spec fn view(&self) -> DiagV {
        DiagV { kind: self.kind@, span: self.span }
    }
}

impl Diag {
    pub fn new(kind: DiagKind, span: Span) -> (r: Diag)
        ensures
            r@.kind == kind@,
            r@.span == span,
    {
        Diag { kind, span }
    }
}

/// The rendering of one surface form, as shown in shape diagnostics.
pub open spec fn value_kind_text(k: ValueKind) -> Seq<char> {
    match k {
        ValueKind::Name => "`#[<name>]`"@,
        ValueKind::Equals => "`#[<name> = <value>]`"@,
        ValueKind::List => "`#[<name>([<value>, <value>, <value>, ...])]`"@,
        ValueKind::SingleList => "`#[<name>(<value>)]`"@,
    }
}

/// The rendering of a list of acceptable forms, one per line.
pub open spec fn forms_text(forms: Seq<ValueKind>) -> Seq<char>
    decreases forms.len(),
{
    if forms.len() == 0 {
        "nothing"@
    } else if forms.len() == 1 {
        value_kind_text(forms[0])
    } else {
        value_kind_text(forms[0]) + "\n"@ + forms_text(forms.skip(1))
    }
}

/// The message text of a diagnostic.
pub open spec fn message_text(k: DiagKindV) -> Seq<char> {
    match k {
        DiagKindV::EmptyName => "cannot convert an empty path to an identifier"@,
        DiagKindV::MultiSegmentName => "the path must not have more than one segment"@,
        DiagKindV::ArgedName => "the singular path segment must not have any arguments"@,
        DiagKindV::EmptyList => "list cannot be empty"@,
        DiagKindV::NestedList => (
            "cannot nest a list; only accept literals and identifiers at this level"@
        ),
        DiagKindV::BadShape(forms) => (
            "the attribute must be in one of these forms:\n"@ + forms_text(forms)
        ),
        DiagKindV::InvalidAttribute(name) => "invalid attribute: `"@ + name + "`"@,
        DiagKindV::BadRestriction => "invalid restriction type"@,
        DiagKindV::UnterminatedRestriction => "invalid restriction type (must end `)`)"@,
        DiagKindV::BadRestrictionId => "invalid restriction type (must be a u64 id)"@,
        DiagKindV::UnknownPermission(name) => "unknown permission preset: `"@ + name + "`"@,
        DiagKindV::SelfArgument => "`self` arguments are prohibited"@,
        DiagKindV::UnsupportedPattern => "unsupported pattern"@,
        DiagKindV::ExpectedAsync => "expected `async`"@,
        DiagKindV::MissingReturnType => (
            "expected a result type of either `CommandResult` or `CheckResult`"@
        ),
    }
}

impl ValueKind {
    /// The rendering of this surface form.
    pub fn render(&self) -> (r: &'static str)
        ensures
            r@ == value_kind_text(*self),
    {
        match self {
            ValueKind::Name => "`#[<name>]`",
            ValueKind::Equals => "`#[<name> = <value>]`",
            ValueKind::List => "`#[<name>([<value>, <value>, <value>, ...])]`",
            ValueKind::SingleList => "`#[<name>(<value>)]`",
        }
    }
}

/// Renders the acceptable forms from position `i` on, one per line.
fn render_forms_from(forms: &Vec<ValueKind>, i: usize) -> (r: String)
    requires
        i <= forms@.len(),
    ensures
        r@ == forms_text(forms@.skip(i as int)),
    decreases forms@.len() - i,
{
    if i == forms.len() {
        proof {
            assert(forms@.skip(i as int).len() == 0);
        }
        String::from_str("nothing")
    } else if i + 1 == forms.len() {
        proof {
            assert(forms@.skip(i as int).len() == 1);
            assert(forms@.skip(i as int)[0] == forms@[i as int]);
        }
        String::from_str(forms[i].render())
    } else {
        let mut s = String::from_str(forms[i].render());
        s.append("\n");
        let rest = render_forms_from(forms, i + 1);
        s.append(rest.as_str());
        proof {
            assert(forms@.skip(i as int).len() >= 2);
            assert(forms@.skip(i as int)[0] == forms@[i as int]);
            assert(forms@.skip(i as int).skip(1) =~= forms@.skip(i + 1));
        }
        s
    }
}

impl Diag {
    /// The human-readable message of this diagnostic.
    pub fn message(&self) -> (r: String)
        ensures
            r@ == message_text(self@.kind),
    {
        match &self.kind {
            DiagKind::EmptyName => String::from_str(
                "cannot convert an empty path to an identifier",
            ),
            DiagKind::MultiSegmentName => String::from_str(
                "the path must not have more than one segment",
            ),
            DiagKind::ArgedName => String::from_str(
                "the singular path segment must not have any arguments",
            ),
            DiagKind::EmptyList => String::from_str("list cannot be empty"),
            DiagKind::NestedList => String::from_str(
                "cannot nest a list; only accept literals and identifiers at this level",
            ),
            DiagKind::BadShape(forms) => {
                let mut s = String::from_str("the attribute must be in one of these forms:\n");
                let rendered = render_forms_from(forms, 0);
                s.append(rendered.as_str());
                proof {
                    assert(forms@.skip(0) =~= forms@);
                }
                s
            },
            DiagKind::InvalidAttribute(name) => {
                let mut s = String::from_str("invalid attribute: `");
                s.append(name.as_str());
                s.append("`");
                s
            },
            DiagKind::BadRestriction => String::from_str("invalid restriction type"),
            DiagKind::UnterminatedRestriction => String::from_str(
                "invalid restriction type (must end `)`)",
            ),
            DiagKind::BadRestrictionId => String::from_str(
                "invalid restriction type (must be a u64 id)",
            ),
            DiagKind::UnknownPermission(name) => {
                let mut s = String::from_str("unknown permission preset: `");
                s.append(name.as_str());
                s.append("`");
                s
            },
            DiagKind::SelfArgument => String::from_str("`self` arguments are prohibited"),
            DiagKind::UnsupportedPattern => String::from_str("unsupported pattern"),
            DiagKind::ExpectedAsync => String::from_str("expected `async`"),
            DiagKind::MissingReturnType => String::from_str(
                "expected a result type of either `CommandResult` or `CheckResult`",
            ),
        }
    }
}

} // verus!
