//! Literal and identifier normalization, the description accumulation rule,
//! and the small string helpers the rest of the front end builds on.

use vstd::prelude::*;

use crate::syntax::{
    AnnPath, AnnPathV, Annotation, AnnotationV, ann_path, Ident, IdentV, Lit,
    lit_bool_val, lit_is_boolish, lit_is_textual, lit_text, LitValue, MetaItem,
    MetaItemV, path_is_ident, PathSeg, PathSegV, Span,
};

verus! {

// ----------------------------------------------------------- string helpers

/// Character-for-character string equality.
pub fn str_eq(a: &str, b: &str) -> (r: bool)
    ensures
        r == (a@ == b@),
{
    let la = a.unicode_len();
    let lb = b.unicode_len();
    if la != lb {
        return false;
    }
    let mut i: usize = 0;
    while i < la
        invariant
            la == a@.len(),
            lb == b@.len(),
            la == lb,
            0 <= i <= la,
            forall|j: int| 0 <= j < i ==> a@[j] == b@[j],
        decreases la - i,
    {
        if a.get_char(i) != b.get_char(i) {
            return false;
        }
        i += 1;
    }
    proof {
        assert(a@ =~= b@);
    }
    true
}

/// Relies on char's `ToString`: the string of the single character itself.
#[verifier::external_body]
fn char_to_string(c: char) -> (r: String)
    ensures
        r@ == seq![c],
{
    c.to_string()
}

/// The upper-cased form of a sequence of characters, as the host language
/// defines it.
pub uninterp spec fn upper_of(s: Seq<char>) -> Seq<char>;

/// Relies on str::to_uppercase: the result depends on the characters alone,
/// and an empty string stays empty.
#[verifier::external_body]
fn to_uppercase_str(s: &str) -> (r: String)
    ensures
        r@ == upper_of(s@),
        s@.len() == 0 ==> r@.len() == 0,
{
    s.to_uppercase()
}

// ------------------------------------------------------- literal conversion

impl Lit {
    /// Text conversion. Only the textual literal kinds are accepted; calling
    /// this on any other kind is a caller bug, so callers shape-check first.
    pub fn to_str(&self) -> (r: String)
        requires
            lit_is_textual(self@.value),
        ensures
            r@ == lit_text(self@.value),
    {
        match &self.value {
            LitValue::Str(s) => s.clone(),
            LitValue::ByteStr(s) => s.clone(),
            LitValue::Char(c) => char_to_string(*c),
            LitValue::Byte(b) => char_to_string(*b as char),
            LitValue::Bool(_) => {
                proof {
                    assert(false);
                }
                String::new()
            },
            LitValue::Other => {
                proof {
                    assert(false);
                }
                String::new()
            },
        }
    }

    /// Boolean conversion: a boolean literal directly, or the textual forms
    /// `true` and `false`. Anything else is a caller bug.
    pub fn to_bool(&self) -> (r: bool)
        requires
            lit_is_boolish(self@.value),
        ensures
            r == lit_bool_val(self@.value),
    {
        match &self.value {
            LitValue::Bool(b) => *b,
            _ => {
                let s = self.to_str();
                str_eq(s.as_str(), "true")
            },
        }
    }

    /// Whether this literal carries text, so that text conversion is
    /// defined for it.
    pub fn is_textual(&self) -> (r: bool)
        ensures
            r == lit_is_textual(self@.value),
    {
        match &self.value {
            LitValue::Str(_) => true,
            LitValue::ByteStr(_) => true,
            LitValue::Char(_) => true,
            LitValue::Byte(_) => true,
            LitValue::Bool(_) => false,
            LitValue::Other => false,
        }
    }

    /// Whether boolean conversion is defined for this literal.
    pub fn is_boolish(&self) -> (r: bool)
        ensures
            r == lit_is_boolish(self@.value),
    {
        match &self.value {
            LitValue::Bool(_) => true,
            LitValue::Str(_) | LitValue::ByteStr(_) | LitValue::Char(_) | LitValue::Byte(_) => {
                let s = self.to_str();
                let t = str_eq(s.as_str(), "true");
                let f = str_eq(s.as_str(), "false");
                t || f
            },
            LitValue::Other => false,
        }
    }

    /// A fresh identifier token carrying the literal's text, at the
    /// literal's own position.
    pub fn to_ident(&self) -> (r: Ident)
        requires
            lit_is_textual(self@.value),
        ensures
            r@ == (IdentV { text: lit_text(self@.value), span: self@.span }),
    {
        Ident { text: self.to_str(), span: self.span }
    }
}

// ---------------------------------------------------- identifier normalizing

/// A text with a raw-identifier escape prefix stripped.
pub open spec fn strip_raw_prefix(s: Seq<char>) -> Seq<char> {
    if s.len() >= 2 && s[0] == 'r' && s[1] == '#' {
        s.skip(2)
    } else {
        s
    }
}

impl Ident {
    /// The identifier's text with a raw-identifier escape prefix stripped.
    pub fn to_string_non_raw(&self) -> (r: String)
        ensures
            r@ == strip_raw_prefix(self@.text),
    {
        let s: &str = self.text.as_str();
        let n = s.unicode_len();
        if n >= 2 && s.get_char(0) == 'r' && s.get_char(1) == '#' {
            let stripped = s.substring_char(2, n);
            proof {
                assert(stripped@ =~= strip_raw_prefix(self@.text));
            }
            String::from_str(stripped)
        } else {
            self.text.clone()
        }
    }

    /// The upper-cased identifier (raw escape stripped first), placed at a
    /// synthetic position; used when emitting forward references to
    /// generated names.
    pub fn to_uppercase(&self) -> (r: Ident)
        ensures
            r@ == (IdentV {
                text: upper_of(strip_raw_prefix(self@.text)),
                span: Span { lo: 0, hi: 0 },
            }),
    {
        let non_raw = self.to_string_non_raw();
        Ident { text: to_uppercase_str(non_raw.as_str()), span: Span::synthetic() }
    }

    /// The upper-cased identifier with `_` and the given suffix appended.
    pub fn with_suffix(&self, suffix: &str) -> (r: Ident)
        ensures
            r@ == (IdentV {
                text: upper_of(strip_raw_prefix(self@.text)) + "_"@ + suffix@,
                span: Span { lo: 0, hi: 0 },
            }),
    {
        let upper = self.to_uppercase();
        let mut text = upper.text;
        text.append("_");
        text.append(suffix);
        Ident { text, span: Span::synthetic() }
    }
}

// ---------------------------------------------------------------- arguments

/// One declaration parameter: its mutability marker, its name (`_` for a
/// wildcard), and its declared type, carried through unexamined.
#[derive(Debug, PartialEq, Eq)]
pub struct Argument {
    pub mutable: bool,
    pub name: Ident,
    pub kind: String,
}

pub ghost struct ArgumentV {
    pub mutable: bool,
    pub name: IdentV,
    pub kind: Seq<char>,
}

impl View for Argument {
    type V = ArgumentV;

    open spec fn view(&self) -> ArgumentV {
        ArgumentV { mutable: self.mutable, name: self.name@, kind: self.kind@ }
    }
}

// ----------------------------------------------------------------- AsOption

/// An optional value with a distinct spelling in generated output.
#[derive(Debug, PartialEq, Eq)]
pub struct AsOption<T>(pub Option<T>);

impl<T> AsOption<T> {
    pub fn map<U, F: FnOnce(T) -> U>(self, f: F) -> (r: AsOption<U>)
        requires
            self.0 matches Some(t) ==> call_requires(f, (t,)),
        ensures
            r.0 is Some <==> self.0 is Some,
            self.0 matches Some(t) ==> (r.0 matches Some(u) ==> call_ensures(f, (t,), u)),
    {
        match self.0 {
            Some(t) => AsOption(Some(f(t))),
            None => AsOption(None),
        }
    }
}

impl<T> Default for AsOption<T> {
    fn default() -> (r: Self)
        ensures
            r.0 is None,
    {
        AsOption(None)
    }
}

/// The text a possibly-absent description holds so far.
pub open spec fn opt_text(desc: Option<Seq<char>>) -> Seq<char> {
    match desc {
        Some(d) => d,
        None => Seq::empty(),
    }
}

// -------------------------------------------------- description accumulation

/// A line with one leading space stripped.
pub open spec fn strip_lead(l: Seq<char>) -> Seq<char> {
    if l.len() > 0 && l[0] == ' ' {
        l.skip(1)
    } else {
        l
    }
}

/// The start of the last continuation marker (the two characters `\$`) in a
/// line, if any.
pub open spec fn rfind_marker(l: Seq<char>) -> Option<int>
    decreases l.len(),
{
    if l.len() < 2 {
        None
    } else if l[l.len() - 2] == '\\' && l[l.len() - 1] == '$' {
        Some(l.len() - 2)
    } else {
        rfind_marker(l.take(l.len() - 1))
    }
}

/// Whether a character is white space, by the host language's list.
pub open spec fn is_space_v(c: char) -> bool {
    ||| c as u32 == 0x9
    ||| c as u32 == 0xA
    ||| c as u32 == 0xB
    ||| c as u32 == 0xC
    ||| c as u32 == 0xD
    ||| c as u32 == 0x20
    ||| c as u32 == 0x85
    ||| c as u32 == 0xA0
    ||| c as u32 == 0x1680
    ||| (0x2000 <= c as u32 && c as u32 <= 0x200A)
    ||| c as u32 == 0x2028
    ||| c as u32 == 0x2029
    ||| c as u32 == 0x202F
    ||| c as u32 == 0x205F
    ||| c as u32 == 0x3000
}

/// Whether a character is white space.
pub fn is_space(c: char) -> (r: bool)
    ensures
        r == is_space_v(c),
{
    let u = c as u32;
    u == 0x9 || u == 0xA || u == 0xB || u == 0xC || u == 0xD || u == 0x20 || u == 0x85
        || u == 0xA0 || u == 0x1680 || (0x2000 <= u && u <= 0x200A) || u == 0x2028
        || u == 0x2029 || u == 0x202F || u == 0x205F || u == 0x3000
}

/// A sequence with its trailing white space removed.
pub open spec fn trim_end_v(l: Seq<char>) -> Seq<char>
    decreases l.len(),
{
    if l.len() == 0 {
        l
    } else if is_space_v(l.last()) {
        trim_end_v(l.drop_last())
    } else {
        l
    }
}

/// A string slice with its trailing white space removed.
fn trim_end_str(s: &str) -> (r: &str)
    ensures
        r@ == trim_end_v(s@),
{
    let n = s.unicode_len();
    let mut k: usize = n;
    proof {
        assert(s@.take(n as int) =~= s@);
    }
    while k > 0 && is_space(s.get_char(k - 1))
        invariant
            0 <= k <= n,
            n == s@.len(),
            trim_end_v(s@) == trim_end_v(s@.take(k as int)),
        decreases k,
    {
        proof {
            assert(s@.take(k as int).drop_last() =~= s@.take(k - 1));
        }
        k -= 1;
    }
    proof {
        if k == 0 {
            assert(s@.take(0).len() == 0);
        }
        assert(trim_end_v(s@.take(k as int)) == s@.take(k as int));
    }
    s.substring_char(0, k)
}

/// The description after one more line is folded in: a leading space is
/// stripped; a line with a continuation marker contributes the trimmed text
/// before the marker and a single space; any other line contributes itself
/// and one line break.
pub open spec fn append_line_v(desc: Option<Seq<char>>, line: Seq<char>) -> Seq<char> {
    let l = strip_lead(line);
    let d = opt_text(desc);
    match rfind_marker(l) {
        Some(i) => d + trim_end_v(l.take(i)) + seq![' '],
        None => d + l + seq!['\n'],
    }
}

/// The model of a possibly-absent description.
pub open spec fn as_option_text(o: AsOption<String>) -> Option<Seq<char>> {
    match o.0 {
        Some(s) => Some(s@),
        None => None,
    }
}

/// Folds one more description line into the accumulated description.
pub fn append_line(desc: &mut AsOption<String>, line: String)
    ensures
        final(desc).0 matches Some(d) && d@ == append_line_v(
            as_option_text(*old(desc)),
            line@,
        ),
{
    let s: &str = line.as_str();
    let n = s.unicode_len();
    let stripped: &str = if n > 0 && s.get_char(0) == ' ' {
        s.substring_char(1, n)
    } else {
        s
    };
    proof {
        assert(stripped@ =~= strip_lead(line@));
    }
    let m = stripped.unicode_len();

    let mut found: bool = false;
    let mut pos: usize = 0;
    let mut i: usize = 0;
    while i + 1 < m
        invariant
            m == stripped@.len(),
            i + 1 <= m || i == 0,
            pos < m || !found,
            i + 1 <= m ==> (match rfind_marker(stripped@.take(i + 1)) {
                Some(p) => found && p == pos as int,
                None => !found,
            }),
            m < 1 ==> !found,
        decreases m - i,
    {
        if stripped.get_char(i) == '\\' && stripped.get_char(i + 1) == '$' {
            found = true;
            pos = i;
        }
        proof {
            assert(stripped@.take(i + 2).take(i + 1) =~= stripped@.take(i + 1));
            assert(stripped@.take(i + 2).len() == i + 2);
            assert(stripped@.take(i + 2)[i as int] == stripped@[i as int]);
            assert(stripped@.take(i + 2)[i + 1] == stripped@[i + 1]);
        }
        i += 1;
    }
    proof {
        assert(stripped@.take(m as int) =~= stripped@);
        if m >= 1 {
            assert(i + 1 == m);
        }
        match rfind_marker(stripped@) {
            Some(p) => {
                assert(found && p == pos as int);
            },
            None => {
                assert(!found);
            },
        }
    }

    let mut d: String = String::new();
    match &desc.0 {
        Some(existing) => {
            d = existing.clone();
        },
        None => {},
    }

    if found {
        let head = stripped.substring_char(0, pos);
        let trimmed = trim_end_str(head);
        d.append(trimmed);
        d.append(" ");
        proof {
            reveal_strlit(" ");
            assert(" "@ =~= seq![' ']);
            assert(head@ =~= strip_lead(line@).take(pos as int));
            assert(d@ =~= append_line_v(as_option_text(*old(desc)), line@));
        }
    } else {
        d.append(stripped);
        d.append("\n");
        proof {
            reveal_strlit("\n");
            assert("\n"@ =~= seq!['\n']);
            assert(d@ =~= append_line_v(as_option_text(*old(desc)), line@));
        }
    }
    desc.0 = Some(d);
}

/// A line without a continuation marker contributes itself and exactly one
/// trailing line break: the new description is the old one followed by the
/// stripped line and a single `\n`, and no second line break precedes it.
pub proof fn lemma_append_line_single_break(desc: Option<Seq<char>>, line: Seq<char>)
    requires
        rfind_marker(strip_lead(line)) is None,
        strip_lead(line).len() == 0 || strip_lead(line).last() != '\n',
    ensures
        append_line_v(desc, line) == opt_text(desc) + strip_lead(line) + seq!['\n'],
        append_line_v(desc, line).last() == '\n',
        strip_lead(line).len() >= 1 ==> append_line_v(desc, line)[append_line_v(
            desc,
            line,
        ).len() - 2] != '\n',
{
    let r = append_line_v(desc, line);
    let l = strip_lead(line);
    assert(r == opt_text(desc) + l + seq!['\n']);
    assert(r.last() == '\n');
    if l.len() >= 1 {
        assert(r[r.len() - 2] == l.last());
    }
}

// -------------------------------------------------------- annotation rename

/// A path after renaming: if it is exactly `name`, it becomes the single
/// argument-free segment `target` at a synthetic position.
pub open spec fn rename_path(p: AnnPathV, name: Seq<char>, target: Seq<char>) -> AnnPathV {
    if path_is_ident(p, name) {
        AnnPathV {
            segments: seq![
                PathSegV {
                    ident: IdentV { text: target, span: Span { lo: 0, hi: 0 } },
                    has_args: false,
                },
            ],
            span: p.span,
        }
    } else {
        p
    }
}

/// An annotation after its name path is renamed.
pub open spec fn rename_ann(a: AnnotationV, name: Seq<char>, target: Seq<char>) -> AnnotationV {
    let item = match a.item {
        MetaItemV::Path(p) => MetaItemV::Path(rename_path(p, name, target)),
        MetaItemV::List(p, items) => MetaItemV::List(rename_path(p, name, target), items),
        MetaItemV::NameValue(p, l) => MetaItemV::NameValue(rename_path(p, name, target), l),
    };
    AnnotationV { item, span: a.span }
}

/// Whether a path is exactly the single, argument-free name `name`.
pub fn path_matches(p: &AnnPath, name: &str) -> (r: bool)
    ensures
        r == path_is_ident(p@, name@),
{
    if p.segments.len() != 1 {
        return false;
    }
    let seg = &p.segments[0];
    if seg.has_args {
        return false;
    }
    str_eq(seg.ident.text.as_str(), name)
}

/// A fresh single-segment path naming `target`, at a synthetic position,
/// keeping the position of the path it replaces.
fn replacement_path(target: &str, span: Span) -> (r: AnnPath)
    ensures
        r@ == (AnnPathV {
            segments: seq![
                PathSegV {
                    ident: IdentV { text: target@, span: Span { lo: 0, hi: 0 } },
                    has_args: false,
                },
            ],
            span,
        }),
{
    let mut segments: Vec<PathSeg> = Vec::new();
    segments.push(
        PathSeg {
            ident: Ident { text: String::from_str(target), span: Span::synthetic() },
            has_args: false,
        },
    );
    proof {
        assert(segments@.map_values(|s: PathSeg| s@) =~= seq![
            PathSegV {
                ident: IdentV { text: target@, span: Span { lo: 0, hi: 0 } },
                has_args: false,
            },
        ]);
    }
    AnnPath { segments, span }
}

/// Renames every annotation whose name is exactly `name` to `target`,
/// leaving everything else untouched. Used to let documentation comments
/// flow through the same path as explicit description annotations.
pub fn rename_attributes(attributes: &mut Vec<Annotation>, name: &str, target: &str)
    ensures
        final(attributes)@.len() == old(attributes)@.len(),
        forall|i: int|
            0 <= i < old(attributes)@.len() ==> final(attributes)@[i]@ == rename_ann(
                #[trigger] old(attributes)@[i]@,
                name@,
                target@,
            ),
{
    let mut out: Vec<Annotation> = Vec::new();
    let mut i: usize = 0;
    while i < attributes.len()
        invariant
            0 <= i <= attributes@.len(),
            attributes@ == old(attributes)@,
            out@.len() == i,
            forall|j: int|
                0 <= j < i ==> out@[j]@ == rename_ann(
                    #[trigger] attributes@[j]@,
                    name@,
                    target@,
                ),
        decreases attributes@.len() - i,
    {
        let a = &attributes[i];
        let renamed: Annotation = match &a.item {
            MetaItem::Path(p) => {
                if path_matches(p, name) {
                    Annotation {
                        item: MetaItem::Path(replacement_path(target, p.span)),
                        span: a.span,
                    }
                } else {
                    a.clone()
                }
            },
            MetaItem::List(p, items) => {
                if path_matches(p, name) {
                    Annotation {
                        item: MetaItem::List(replacement_path(target, p.span), items.clone()),
                        span: a.span,
                    }
                } else {
                    a.clone()
                }
            },
            MetaItem::NameValue(p, l) => {
                if path_matches(p, name) {
                    Annotation {
                        item: MetaItem::NameValue(replacement_path(target, p.span), l.clone()),
                        span: a.span,
                    }
                } else {
                    a.clone()
                }
            },
        };
        proof {
            if let MetaItemV::List(_, items_v) = attributes@[i as int]@.item {
                assert(renamed@.item matches MetaItemV::List(_, iv) ==> iv =~= items_v);
            }
        }
        out.push(renamed);
        i += 1;
    }
    *attributes = out;
}

} // verus!
