//! The typed pieces of a command descriptor: check lists, permission
//! bit-sets, the place restriction with its small text grammar, and the
//! aggregated `Options` record.

use vstd::prelude::*;

use crate::diag::{Diag, DiagKind, DiagKindV, DiagV};
use crate::syntax::{Annotation, AnnotationV, Ident, IdentV, Span};
use crate::util::{Argument, ArgumentV, AsOption, str_eq};

verus! {

// -------------------------------------------------------------------- checks

/// The identifiers of the check functions guarding a command.
#[derive(Debug, PartialEq, Eq)]
pub struct Checks(pub Vec<Ident>);

impl Default for Checks {
    fn default() -> (r: Self)
        ensures
            r.0@.len() == 0,
    {
        Checks(Vec::new())
    }
}

// --------------------------------------------------------------- permissions

/// A permission bit-set.
#[derive(Debug, Clone, Copy, PartialEq, Eq, Structural)]
pub struct Permissions(pub u64);

/// The bit-set a permission preset name stands for. The recognized set is
/// deliberately empty: presets are a documented extension point that no
/// name fills yet.
pub open spec fn perm_preset_v(s: Seq<char>) -> Option<u64> {
    None
}

impl Permissions {
    /// Looks a preset name up. The recognized set is deliberately empty, so
    /// every name misses.
    pub fn from_str(s: &str) -> (r: Option<Permissions>)
        ensures
            r is None,
            perm_preset_v(s@) is None,
    {
        None
    }
}

impl Default for Permissions {
    fn default() -> (r: Self)
        ensures
            r.0 == 0,
    {
        Permissions(0)
    }
}

// ---------------------------------------------------------- place restriction

/// Where a command may be used: everywhere, in one guild, or unrestricted.
#[derive(Debug, Clone, Copy, PartialEq, Eq, Structural)]
pub enum OnlyIn {
    Global,
    Guild(u64),
    Unrestricted,
}

impl View for OnlyIn {
    type V = OnlyIn;

    open spec fn view(&self) -> OnlyIn {
        *self
    }
}

impl Default for OnlyIn {
    fn default() -> (r: Self)
        ensures
            r == OnlyIn::Unrestricted,
    {
        OnlyIn::Unrestricted
    }
}

/// The value of a decimal digit, zero for any other character.
pub open spec fn digit_val(c: char) -> nat {
    if '0' <= c && c <= '9' {
        (c as int - '0' as int) as nat
    } else {
        0
    }
}

/// Whether every character of a sequence is a decimal digit.
pub open spec fn all_digits(s: Seq<char>) -> bool {
    forall|i: int| 0 <= i < s.len() ==> '0' <= #[trigger] s[i] && s[i] <= '9'
}

/// The number a sequence of decimal digits denotes.
pub open spec fn dec_val(s: Seq<char>) -> nat
    decreases s.len(),
{
    if s.len() == 0 {
        0
    } else {
        dec_val(s.drop_last()) * 10 + digit_val(s.last())
    }
}

/// The denoted number never shrinks as digits are appended.
proof fn lemma_dec_val_prefix(s: Seq<char>, i: int)
    requires
        0 <= i <= s.len(),
    ensures
        dec_val(s.take(i)) <= dec_val(s),
    decreases s.len() - i,
{
    if i < s.len() {
        assert(s.take(i + 1).drop_last() =~= s.take(i));
        assert(s.take(i + 1).last() == s[i]);
        assert(dec_val(s.take(i)) <= dec_val(s.take(i + 1))) by {
            assert(dec_val(s.take(i + 1)) == dec_val(s.take(i)) * 10 + digit_val(s[i]));
            assert(dec_val(s.take(i)) * 10 >= dec_val(s.take(i))) by (nonlinear_arith);
        }
        lemma_dec_val_prefix(s, i + 1);
    } else {
        assert(s.take(i) =~= s);
    }
}

/// Parses a sequence of decimal digits as a 64-bit number: some value
/// exactly when the text is nonempty, all digits, and the number fits.
#[verifier::loop_isolation(false)]
fn parse_u64(s: &str) -> (r: Option<u64>)
    ensures
        r is Some <==> (s@.len() > 0 && all_digits(s@) && dec_val(s@) <= u64::MAX),
        r matches Some(v) ==> v == dec_val(s@),
{
    let n = s.unicode_len();
    if n == 0 {
        return None;
    }
    let mut acc: u64 = 0;
    let mut i: usize = 0;
    proof {
        assert(s@.take(0).len() == 0);
    }
    while i < n
        invariant
            0 <= i <= n,
            n == s@.len(),
            all_digits(s@.take(i as int)),
            acc == dec_val(s@.take(i as int)),
        decreases n - i,
    {
        let c = s.get_char(i);
        let u = c as u32;
        proof {
            assert(s@.take(i + 1).drop_last() =~= s@.take(i as int));
            assert(s@.take(i + 1).last() == s@[i as int]);
        }
        if u < 0x30 || u > 0x39 {
            proof {
                assert(!('0' <= s@[i as int] && s@[i as int] <= '9'));
            }
            return None;
        }
        let d: u64 = (u - 0x30) as u64;
        proof {
            assert('0' <= s@[i as int] && s@[i as int] <= '9');
            assert(d == digit_val(s@[i as int]));
        }
        let shifted = match acc.checked_mul(10) {
            Some(m) => m,
            None => {
                proof {
                    if all_digits(s@) {
                        lemma_dec_val_prefix(s@, i + 1);
                        assert(dec_val(s@.take(i + 1)) == acc * 10 + digit_val(s@[i as int]));
                    }
                }
                return None;
            },
        };
        let next = match shifted.checked_add(d) {
            Some(v) => v,
            None => {
                proof {
                    if all_digits(s@) {
                        lemma_dec_val_prefix(s@, i + 1);
                        assert(dec_val(s@.take(i + 1)) == acc * 10 + digit_val(s@[i as int]));
                    }
                }
                return None;
            },
        };
        acc = next;
        i += 1;
    }
    proof {
        assert(s@.take(n as int) =~= s@);
    }
    Some(acc)
}

/// The outcome of parsing restriction text at a given position: the exact
/// word `global`; or `guild(`, a decimal 64-bit id, and a closing
/// parenthesis; anything else is rejected, an unclosed guild form and a bad
/// id each with its own diagnostic, and anything shorter than six
/// characters outright.
pub open spec fn only_in_v(s: Seq<char>, span: Span) -> Result<OnlyIn, DiagV> {
    if s.len() < 6 {
        Err(DiagV { kind: DiagKindV::BadRestriction, span })
    } else if s == "global"@ {
        Ok(OnlyIn::Global)
    } else if s.take(6) == "guild("@ {
        if s.last() != ')' {
            Err(DiagV { kind: DiagKindV::UnterminatedRestriction, span })
        } else {
            let id = s.subrange(6, s.len() - 1);
            if id.len() > 0 && all_digits(id) && dec_val(id) <= u64::MAX {
                Ok(OnlyIn::Guild(dec_val(id) as u64))
            } else {
                Err(DiagV { kind: DiagKindV::BadRestrictionId, span })
            }
        }
    } else {
        Err(DiagV { kind: DiagKindV::BadRestriction, span })
    }
}

impl OnlyIn {
    /// Parses restriction text: `global`, or `guild(` followed by a decimal
    /// id and `)`.
    pub fn from_str(s: &str, span: Span) -> (r: Result<OnlyIn, Diag>)
        ensures
            crate::syntax::res_v(r) == only_in_v(s@, span),
    {
        let n = s.unicode_len();
        if n < 6 {
            return Err(Diag::new(DiagKind::BadRestriction, span));
        }
        if str_eq(s, "global") {
            return Ok(OnlyIn::Global);
        }
        let head = s.substring_char(0, 6);
        proof {
            assert(head@ =~= s@.take(6));
        }
        if !str_eq(head, "guild(") {
            return Err(Diag::new(DiagKind::BadRestriction, span));
        }
        if s.get_char(n - 1) != ')' {
            return Err(Diag::new(DiagKind::UnterminatedRestriction, span));
        }
        proof {
            reveal_strlit("guild(");
            assert(s@.take(6)[5] == '(');
            assert(n >= 7);
        }
        let id = s.substring_char(6, n - 1);
        proof {
            assert(id@ =~= s@.subrange(6, s@.len() - 1));
        }
        match parse_u64(id) {
            Some(v) => Ok(OnlyIn::Guild(v)),
            None => Err(Diag::new(DiagKind::BadRestrictionId, span)),
        }
    }
}

// -------------------------------------------------------------- declarations

/// The pattern of one raw declaration parameter: a plain binding, a
/// wildcard, or something else (rejected), each with enough position for a
/// diagnostic.
#[derive(Debug, PartialEq, Eq)]
pub enum RawPat {
    Ident { mutable: bool, name: Ident },
    Wild(Span),
    Other(Span),
}

pub ghost enum RawPatV {
    Ident { mutable: bool, name: IdentV },
    Wild(Span),
    Other(Span),
}

impl View for RawPat {
    type V = RawPatV;

    open spec fn view(&self) -> RawPatV {
        match self {
            RawPat::Ident { mutable, name } => RawPatV::Ident { mutable: *mutable, name: name@ },
            RawPat::Wild(s) => RawPatV::Wild(*s),
            RawPat::Other(s) => RawPatV::Other(*s),
        }
    }
}

/// One raw declaration parameter: a typed pattern, or a bound receiver
/// (always rejected).
#[derive(Debug, PartialEq, Eq)]
pub enum RawArg {
    Typed { pat: RawPat, kind: String },
    Receiver(Span),
}

pub ghost enum RawArgV {
    Typed { pat: RawPatV, kind: Seq<char> },
    Receiver(Span),
}

impl View for RawArg {
    type V = RawArgV;

    open spec fn view(&self) -> RawArgV {
        match self {
            RawArg::Typed { pat, kind } => RawArgV::Typed { pat: pat@, kind: kind@ },
            RawArg::Receiver(s) => RawArgV::Receiver(*s),
        }
    }
}

/// A raw function-like declaration, as the host language's grammar hands it
/// over: leading annotations, visibility and body carried through opaquely,
/// the asynchronous qualifier's presence, the name, the raw parameters, and
/// the declared return type if there is one.
#[derive(Debug, PartialEq, Eq)]
pub struct RawDecl {
    pub attributes: Vec<Annotation>,
    pub visibility: String,
    pub is_async: bool,
    pub name: Ident,
    pub params: Vec<RawArg>,
    pub ret: Option<String>,
    pub body: Vec<String>,
    pub span: Span,
}

pub ghost struct RawDeclV {
    pub attributes: Seq<AnnotationV>,
    pub visibility: Seq<char>,
    pub is_async: bool,
    pub name: IdentV,
    pub params: Seq<RawArgV>,
    pub ret: Option<Seq<char>>,
    pub body: Seq<Seq<char>>,
    pub span: Span,
}

impl View for RawDecl {
    type V = RawDeclV;

    open spec fn view(&self) -> RawDeclV {
        RawDeclV {
            attributes: self.attributes@.map_values(|a: Annotation| a@),
            visibility: self.visibility@,
            is_async: self.is_async,
            name: self.name@,
            params: self.params@.map_values(|p: RawArg| p@),
            ret: match self.ret {
                Some(t) => Some(t@),
                None => None,
            },
            body: self.body@.map_values(|s: String| s@),
            span: self.span,
        }
    }
}

// ------------------------------------------------- cooked-annotation split

/// Whether an annotation belongs to the fixed pass-through set: the
/// conditional-compilation, derive, inline and lint-control names, which
/// this front end forwards untouched.
pub open spec fn is_cooked_v(a: AnnotationV) -> bool {
    let p = crate::syntax::ann_path(a);
    ||| crate::syntax::path_is_ident(p, "cfg"@)
    ||| crate::syntax::path_is_ident(p, "cfg_attr"@)
    ||| crate::syntax::path_is_ident(p, "derive"@)
    ||| crate::syntax::path_is_ident(p, "inline"@)
    ||| crate::syntax::path_is_ident(p, "allow"@)
    ||| crate::syntax::path_is_ident(p, "warn"@)
    ||| crate::syntax::path_is_ident(p, "deny"@)
    ||| crate::syntax::path_is_ident(p, "forbid"@)
}

/// The annotations this front end interprets itself, in order.
pub open spec fn recognized_of(anns: Seq<AnnotationV>) -> Seq<AnnotationV>
    decreases anns.len(),
{
    if anns.len() == 0 {
        Seq::empty()
    } else {
        let rest = recognized_of(anns.drop_last());
        if !is_cooked_v(anns.last()) {
            rest.push(anns.last())
        } else {
            rest
        }
    }
}

/// The pass-through annotations, in order.
pub open spec fn cooked_of(anns: Seq<AnnotationV>) -> Seq<AnnotationV>
    decreases anns.len(),
{
    if anns.len() == 0 {
        Seq::empty()
    } else {
        let rest = cooked_of(anns.drop_last());
        if is_cooked_v(anns.last()) {
            rest.push(anns.last())
        } else {
            rest
        }
    }
}

/// The two groups partition the annotation list: together they hold every
/// annotation exactly once, the recognized group holds no pass-through
/// annotation, and the cooked group holds nothing else.
pub proof fn lemma_cooked_split_partition(anns: Seq<AnnotationV>)
    ensures
        recognized_of(anns).len() + cooked_of(anns).len() == anns.len(),
        forall|i: int|
            0 <= i < recognized_of(anns).len() ==> !is_cooked_v(
                #[trigger] recognized_of(anns)[i],
            ) && anns.contains(recognized_of(anns)[i]),
        forall|i: int|
            0 <= i < cooked_of(anns).len() ==> is_cooked_v(#[trigger] cooked_of(anns)[i])
                && anns.contains(cooked_of(anns)[i]),
    decreases anns.len(),
{
    if anns.len() > 0 {
        lemma_cooked_split_partition(anns.drop_last());
        assert forall|i: int| 0 <= i < recognized_of(anns).len() implies !is_cooked_v(
            #[trigger] recognized_of(anns)[i],
        ) && anns.contains(recognized_of(anns)[i]) by {
            if i < recognized_of(anns.drop_last()).len() {
                let a = recognized_of(anns.drop_last())[i];
                let j = choose|j: int|
                    0 <= j < anns.drop_last().len() && anns.drop_last()[j] == a;
                assert(anns[j] == a);
            } else {
                assert(recognized_of(anns)[i] == anns.last());
                assert(anns[anns.len() - 1] == anns.last());
            }
        }
        assert forall|i: int| 0 <= i < cooked_of(anns).len() implies is_cooked_v(
            #[trigger] cooked_of(anns)[i],
        ) && anns.contains(cooked_of(anns)[i]) by {
            if i < cooked_of(anns.drop_last()).len() {
                let a = cooked_of(anns.drop_last())[i];
                let j = choose|j: int|
                    0 <= j < anns.drop_last().len() && anns.drop_last()[j] == a;
                assert(anns[j] == a);
            } else {
                assert(cooked_of(anns)[i] == anns.last());
                assert(anns[anns.len() - 1] == anns.last());
            }
        }
    }
}

/// Whether an annotation belongs to the fixed pass-through set.
pub fn is_cooked(attr: &Annotation) -> (r: bool)
    ensures
        r == is_cooked_v(attr@),
{
    let p: &crate::syntax::AnnPath = match &attr.item {
        crate::syntax::MetaItem::Path(p) => p,
        crate::syntax::MetaItem::List(p, _) => p,
        crate::syntax::MetaItem::NameValue(p, _) => p,
    };
    crate::util::path_matches(p, "cfg") || crate::util::path_matches(p, "cfg_attr")
        || crate::util::path_matches(p, "derive") || crate::util::path_matches(p, "inline")
        || crate::util::path_matches(p, "allow") || crate::util::path_matches(p, "warn")
        || crate::util::path_matches(p, "deny") || crate::util::path_matches(p, "forbid")
}

/// Splits the pass-through annotations off, keeping both groups in source
/// order: afterwards the given list holds exactly the recognized
/// annotations and the result exactly the cooked ones.
#[verifier::loop_isolation(false)]
pub fn remove_cooked(attrs: &mut Vec<Annotation>) -> (cooked: Vec<Annotation>)
    ensures
        final(attrs)@.map_values(|a: Annotation| a@) == recognized_of(
            old(attrs)@.map_values(|a: Annotation| a@),
        ),
        cooked@.map_values(|a: Annotation| a@) == cooked_of(
            old(attrs)@.map_values(|a: Annotation| a@),
        ),
{
    let ghost orig = attrs@.map_values(|a: Annotation| a@);
    let mut kept: Vec<Annotation> = Vec::new();
    let mut cooked: Vec<Annotation> = Vec::new();
    let mut i: usize = 0;
    proof {
        assert(orig.take(0) =~= Seq::<AnnotationV>::empty());
        assert(kept@.map_values(|a: Annotation| a@) =~= recognized_of(orig.take(0)));
        assert(cooked@.map_values(|a: Annotation| a@) =~= cooked_of(orig.take(0)));
    }
    while i < attrs.len()
        invariant
            0 <= i <= attrs@.len(),
            attrs@ == old(attrs)@,
            orig == attrs@.map_values(|a: Annotation| a@),
            kept@.map_values(|a: Annotation| a@) == recognized_of(orig.take(i as int)),
            cooked@.map_values(|a: Annotation| a@) == cooked_of(orig.take(i as int)),
        decreases attrs@.len() - i,
    {
        let ghost kept_pre = kept@.map_values(|a: Annotation| a@);
        let ghost cooked_pre = cooked@.map_values(|a: Annotation| a@);
        proof {
            assert(orig.take(i + 1).drop_last() =~= orig.take(i as int));
            assert(orig.take(i + 1).last() == orig[i as int]);
        }
        if is_cooked(&attrs[i]) {
            cooked.push(attrs[i].clone());
            proof {
                assert(cooked_of(orig.take(i + 1)) == cooked_of(orig.take(i as int)).push(
                    orig[i as int],
                ));
                assert(recognized_of(orig.take(i + 1)) == recognized_of(orig.take(i as int)));
                assert(cooked@.map_values(|a: Annotation| a@) =~= cooked_pre.push(
                    orig[i as int],
                ));
                assert(kept@.map_values(|a: Annotation| a@) =~= kept_pre);
            }
        } else {
            kept.push(attrs[i].clone());
            proof {
                assert(recognized_of(orig.take(i + 1)) == recognized_of(
                    orig.take(i as int),
                ).push(orig[i as int]));
                assert(cooked_of(orig.take(i + 1)) == cooked_of(orig.take(i as int)));
                assert(kept@.map_values(|a: Annotation| a@) =~= kept_pre.push(orig[i as int]));
                assert(cooked@.map_values(|a: Annotation| a@) =~= cooked_pre);
            }
        }
        i += 1;
    }
    proof {
        assert(orig.take(i as int) =~= orig);
    }
    *attrs = kept;
    cooked
}

// ---------------------------------------------------------- parameter parsing

/// One raw parameter as an `Argument`: a plain binding keeps its mutability
/// marker, name and type; a wildcard becomes the never-mutable synthetic
/// name `_`; any other pattern, and every bound receiver, is rejected.
pub open spec fn parse_argument_v(a: RawArgV) -> Result<ArgumentV, DiagV> {
    match a {
        RawArgV::Typed { pat, kind } => match pat {
            RawPatV::Ident { mutable, name } => Ok(ArgumentV { mutable, name, kind }),
            RawPatV::Wild(span) => Ok(
                ArgumentV { mutable: false, name: IdentV { text: "_"@, span }, kind },
            ),
            RawPatV::Other(span) => Err(DiagV { kind: DiagKindV::UnsupportedPattern, span }),
        },
        RawArgV::Receiver(span) => Err(DiagV { kind: DiagKindV::SelfArgument, span }),
    }
}

/// Converts one raw parameter.
pub fn parse_argument(arg: &RawArg) -> (r: Result<Argument, Diag>)
    ensures
        crate::syntax::res_v(r) == parse_argument_v(arg@),
{
    match arg {
        RawArg::Typed { pat, kind } => match pat {
            RawPat::Ident { mutable, name } => Ok(
                Argument { mutable: *mutable, name: name.clone(), kind: kind.clone() },
            ),
            RawPat::Wild(span) => Ok(
                Argument {
                    mutable: false,
                    name: Ident { text: String::from_str("_"), span: *span },
                    kind: kind.clone(),
                },
            ),
            RawPat::Other(span) => Err(Diag::new(DiagKind::UnsupportedPattern, *span)),
        },
        RawArg::Receiver(span) => Err(Diag::new(DiagKind::SelfArgument, *span)),
    }
}

/// The parameters converted in order, stopping at the first rejected one.
pub open spec fn parse_args_rec(
    acc: Seq<ArgumentV>,
    params: Seq<RawArgV>,
) -> Result<Seq<ArgumentV>, DiagV>
    decreases params.len(),
{
    if params.len() == 0 {
        Ok(acc)
    } else {
        match parse_argument_v(params[0]) {
            Err(e) => Err(e),
            Ok(a) => parse_args_rec(acc.push(a), params.skip(1)),
        }
    }
}

/// A parameter list with a bound receiver anywhere in it never converts.
pub proof fn lemma_args_receiver_fails(acc: Seq<ArgumentV>, params: Seq<RawArgV>)
    requires
        exists|i: int| 0 <= i < params.len() && #[trigger] params[i] matches RawArgV::Receiver(_),
    ensures
        parse_args_rec(acc, params) is Err,
    decreases params.len(),
{
    let i = choose|i: int|
        0 <= i < params.len() && #[trigger] params[i] matches RawArgV::Receiver(_);
    if i == 0 {
    } else {
        match parse_argument_v(params[0]) {
            Err(_) => {},
            Ok(a) => {
                assert(params.skip(1)[i - 1] matches RawArgV::Receiver(_));
                lemma_args_receiver_fails(acc.push(a), params.skip(1));
            },
        }
    }
}

// -------------------------------------------------------- parsed declaration

/// A parsed declaration: the annotations this front end will interpret,
/// the pass-through annotations, and the signature pieces.
#[derive(Debug, PartialEq, Eq)]
pub struct CommandFun {
    pub attributes: Vec<Annotation>,
    pub cooked: Vec<Annotation>,
    pub visibility: String,
    pub name: Ident,
    pub args: Vec<Argument>,
    pub ret: String,
    pub body: Vec<String>,
}

pub ghost struct CommandFunV {
    pub attributes: Seq<AnnotationV>,
    pub cooked: Seq<AnnotationV>,
    pub visibility: Seq<char>,
    pub name: IdentV,
    pub args: Seq<ArgumentV>,
    pub ret: Seq<char>,
    pub body: Seq<Seq<char>>,
}

impl View for CommandFun {
    type V = CommandFunV;

    open spec fn view(&self) -> CommandFunV {
        CommandFunV {
            attributes: self.attributes@.map_values(|a: Annotation| a@),
            cooked: self.cooked@.map_values(|a: Annotation| a@),
            visibility: self.visibility@,
            name: self.name@,
            args: self.args@.map_values(|a: Argument| a@),
            ret: self.ret@,
            body: self.body@.map_values(|s: String| s@),
        }
    }
}

/// The outcome of parsing a raw declaration: documentation-comment
/// annotations are renamed to `description`, the pass-through set is split
/// off order-preserved, the asynchronous qualifier and an explicit return
/// type are required, and every parameter must convert.
pub open spec fn parse_decl_v(d: RawDeclV) -> Result<CommandFunV, DiagV> {
    let renamed = d.attributes.map_values(
        |a: AnnotationV| crate::util::rename_ann(a, "doc"@, "description"@),
    );
    if !d.is_async {
        Err(DiagV { kind: DiagKindV::ExpectedAsync, span: d.span })
    } else {
        match d.ret {
            Option::None => Err(DiagV { kind: DiagKindV::MissingReturnType, span: d.span }),
            Option::Some(ret) => match parse_args_rec(Seq::empty(), d.params) {
                Err(e) => Err(e),
                Ok(args) => Ok(
                    CommandFunV {
                        attributes: recognized_of(renamed),
                        cooked: cooked_of(renamed),
                        visibility: d.visibility,
                        name: d.name,
                        args,
                        ret,
                        body: d.body,
                    },
                ),
            },
        }
    }
}

impl CommandFun {
    /// Parses a raw declaration. A declaration without the asynchronous
    /// qualifier, without a declared return type, or with a bound receiver
    /// or unsupported parameter pattern fails with one terminal diagnostic.
    #[verifier::loop_isolation(false)]
    pub fn parse(decl: RawDecl) -> (r: Result<CommandFun, Diag>)
        ensures
            crate::syntax::res_v(r) == parse_decl_v(decl@),
            decl@.ret is None ==> r is Err,
            (exists|i: int|
                0 <= i < decl@.params.len() && #[trigger] decl@.params[i] matches
                    RawArgV::Receiver(_)) ==> r is Err,
    {
        let ghost d0 = decl@;
        let RawDecl { mut attributes, visibility, is_async, name, params, ret, body, span } =
            decl;
        crate::util::rename_attributes(&mut attributes, "doc", "description");
        proof {
            assert(attributes@.map_values(|a: Annotation| a@) =~= d0.attributes.map_values(
                |a: AnnotationV| crate::util::rename_ann(a, "doc"@, "description"@),
            ));
        }
        let cooked = remove_cooked(&mut attributes);
        if !is_async {
            return Err(Diag::new(DiagKind::ExpectedAsync, span));
        }
        let ret_s: String = match ret {
            Some(t) => t,
            Option::None => {
                return Err(Diag::new(DiagKind::MissingReturnType, span));
            },
        };
        let mut args: Vec<Argument> = Vec::new();
        let ghost params_v = params@.map_values(|p: RawArg| p@);
        let mut i: usize = 0;
        proof {
            assert(args@.map_values(|a: Argument| a@) =~= Seq::<ArgumentV>::empty());
            assert(params_v.skip(0) =~= params_v);
        }
        while i < params.len()
            invariant
                0 <= i <= params@.len(),
                params_v == params@.map_values(|p: RawArg| p@),
                parse_args_rec(args@.map_values(|a: Argument| a@), params_v.skip(i as int))
                    == parse_args_rec(Seq::empty(), params_v),
            decreases params@.len() - i,
        {
            let ghost pre = args@.map_values(|a: Argument| a@);
            proof {
                assert(params_v.skip(i as int)[0] == params_v[i as int]);
                assert(params_v.skip(i as int).skip(1) =~= params_v.skip(i + 1));
            }
            match parse_argument(&params[i]) {
                Ok(a) => {
                    args.push(a);
                    proof {
                        assert(args@.map_values(|a: Argument| a@) =~= pre.push(
                            args@.last()@,
                        ));
                    }
                },
                Err(e) => {
                    return Err(e);
                },
            }
            i += 1;
        }
        proof {
            assert(params_v.skip(i as int) =~= Seq::<RawArgV>::empty());
            if exists|j: int|
                0 <= j < d0.params.len() && #[trigger] d0.params[j] matches RawArgV::Receiver(
                    _,
                ) {
                lemma_args_receiver_fails(Seq::empty(), params_v);
            }
        }
        Ok(
            CommandFun {
                attributes,
                cooked,
                visibility,
                name,
                args,
                ret: ret_s,
                body,
            },
        )
    }
}

// ------------------------------------------------------------------- options

/// The aggregated command descriptor, filled in annotation order.
#[derive(Debug, PartialEq, Eq)]
pub struct Options {
    pub checks: Checks,
    pub bucket: AsOption<String>,
    pub aliases: Vec<String>,
    pub description: AsOption<String>,
    pub delimiters: Vec<String>,
    pub usage: AsOption<String>,
    pub examples: Vec<String>,
    pub allowed_roles: Vec<String>,
    pub required_permissions: Permissions,
    pub help_available: bool,
    pub only_in: Vec<OnlyIn>,
    pub owners_only: bool,
    pub owner_privilege: bool,
    pub sub_commands: Vec<Ident>,
}

#[verifier::ext_equal]
pub ghost struct OptionsV {
    pub checks: Seq<IdentV>,
    pub bucket: Option<Seq<char>>,
    pub aliases: Seq<Seq<char>>,
    pub description: Option<Seq<char>>,
    pub delimiters: Seq<Seq<char>>,
    pub usage: Option<Seq<char>>,
    pub examples: Seq<Seq<char>>,
    pub allowed_roles: Seq<Seq<char>>,
    pub required_permissions: u64,
    pub help_available: bool,
    pub only_in: Seq<OnlyIn>,
    pub owners_only: bool,
    pub owner_privilege: bool,
    pub sub_commands: Seq<IdentV>,
}

impl View for Options {
    type V = OptionsV;

    open spec fn view(&self) -> OptionsV {
        OptionsV {
            checks: self.checks.0@.map_values(|i: Ident| i@),
            bucket: crate::util::as_option_text(self.bucket),
            aliases: self.aliases@.map_values(|s: String| s@),
            description: crate::util::as_option_text(self.description),
            delimiters: self.delimiters@.map_values(|s: String| s@),
            usage: crate::util::as_option_text(self.usage),
            examples: self.examples@.map_values(|s: String| s@),
            allowed_roles: self.allowed_roles@.map_values(|s: String| s@),
            required_permissions: self.required_permissions.0,
            help_available: self.help_available,
            only_in: self.only_in@,
            owners_only: self.owners_only,
            owner_privilege: self.owner_privilege,
            sub_commands: self.sub_commands@.map_values(|i: Ident| i@),
        }
    }
}

/// The descriptor every aggregation starts from: everything empty or
/// false, except that help is available by default.
pub open spec fn options_default() -> OptionsV {
    OptionsV {
        checks: Seq::empty(),
        bucket: None,
        aliases: Seq::empty(),
        description: None,
        delimiters: Seq::empty(),
        usage: None,
        examples: Seq::empty(),
        allowed_roles: Seq::empty(),
        required_permissions: 0,
        help_available: true,
        only_in: Seq::empty(),
        owners_only: false,
        owner_privilege: false,
        sub_commands: Seq::empty(),
    }
}

impl Options {
    /// A fresh descriptor with the defaults.
    pub fn new() -> (r: Options)
        ensures
            r@ == options_default(),
    {
        let r = Options {
            checks: Checks(Vec::new()),
            bucket: AsOption(None),
            aliases: Vec::new(),
            description: AsOption(None),
            delimiters: Vec::new(),
            usage: AsOption(None),
            examples: Vec::new(),
            allowed_roles: Vec::new(),
            required_permissions: Permissions(0),
            help_available: true,
            only_in: Vec::new(),
            owners_only: false,
            owner_privilege: false,
            sub_commands: Vec::new(),
        };
        proof {
            assert(r@.checks =~= Seq::<IdentV>::empty());
            assert(r@.aliases =~= Seq::<Seq<char>>::empty());
            assert(r@.delimiters =~= Seq::<Seq<char>>::empty());
            assert(r@.examples =~= Seq::<Seq<char>>::empty());
            assert(r@.allowed_roles =~= Seq::<Seq<char>>::empty());
            assert(r@.only_in =~= Seq::<OnlyIn>::empty());
            assert(r@.sub_commands =~= Seq::<IdentV>::empty());
        }
        r
    }
}

} // verus!
