//! The path grammar, as a mathematical model.
//!
//! A path is well formed when it decomposes as
//! `root (sep subdir)* sep name locale? "." extension`, where `root` is one
//! of the three kind tokens matched without regard to ASCII case, `sep` is a
//! forward or backward slash, each `subdir` is a nonempty run of
//! non-separator characters, `name` is a nonempty run of characters that are
//! neither separators nor dots, `locale` is one or more groups of a dot
//! followed by locale characters, and `extension` is a nonempty run of ASCII
//! letters reaching the end of the string.
//!
//! [`PathShape`] records the four cut points of such a decomposition;
//! [`valid_shape`] states the decomposition itself, and it has at most one
//! solution per string ([`lemma_shape_unique`]), so the component
//! sequences ([`root_seq`], [`dir_seq`], [`name_seq`], [`locale_seq`],
//! [`ext_seq`]) are well defined wherever [`grammar_matches`] holds.

use vstd::prelude::*;

use crate::file::{FileFormat, FileKind};

verus! {

/// A path separator: forward or backward slash.
pub open spec fn is_sep(c: char) -> bool {
    c == '/' || c == '\\'
}

/// An ASCII letter of either case.
pub open spec fn is_ascii_alpha(c: char) -> bool {
    (97 <= c as u32 && c as u32 <= 122) || (65 <= c as u32 && c as u32 <= 90)
}

/// A character allowed within one group of a locale suffix: an ASCII letter
/// or digit, a hyphen, or an underscore.
pub open spec fn is_locale_char(c: char) -> bool {
    is_ascii_alpha(c) || (48 <= c as u32 && c as u32 <= 57) || c == '-' || c == '_'
}

/// The code point of `c`, with ASCII upper-case letters folded to lower case.
pub open spec fn lower_code(c: char) -> u32 {
    if 65 <= c as u32 && c as u32 <= 90 {
        (c as u32 + 32) as u32
    } else {
        c as u32
    }
}

/// Equality of two character sequences up to ASCII case.
pub open spec fn ci_eq(a: Seq<char>, b: Seq<char>) -> bool {
    a.len() == b.len() && forall|i: int|
        0 <= i < a.len() ==> #[trigger] lower_code(a[i]) == lower_code(b[i])
}

/// The content kind named by a root token, if any.
pub open spec fn kind_of(s: Seq<char>) -> Option<FileKind> {
    if ci_eq(s, "includes"@) {
        Some(FileKind::Include)
    } else if ci_eq(s, "layouts"@) {
        Some(FileKind::Layout)
    } else if ci_eq(s, "pages"@) {
        Some(FileKind::Page)
    } else {
        None
    }
}

/// The file format named by an extension token, if any.
pub open spec fn format_of(s: Seq<char>) -> Option<FileFormat> {
    if ci_eq(s, "html"@) || ci_eq(s, "htm"@) || ci_eq(s, "xhtml"@) || ci_eq(s, "xml"@) {
        Some(FileFormat::Html)
    } else if ci_eq(s, "yaml"@) || ci_eq(s, "yml"@) {
        Some(FileFormat::Yaml)
    } else if ci_eq(s, "json"@) {
        Some(FileFormat::Json)
    } else if ci_eq(s, "rhai"@) {
        Some(FileFormat::Rhai)
    } else if ci_eq(s, "md"@) || ci_eq(s, "markdown"@) || ci_eq(s, "mdown"@) || ci_eq(s, "mkdn"@)
        || ci_eq(s, "mdwn"@) || ci_eq(s, "mdtxt"@) || ci_eq(s, "mdtext"@) || ci_eq(s, "text"@)
        || ci_eq(s, "rmd"@) {
        Some(FileFormat::Markdown)
    } else if ci_eq(s, "sh"@) {
        Some(FileFormat::Bash)
    } else {
        None
    }
}

/// The four cut points of a grammar decomposition of one path string:
/// the first separator (which ends the root token), the last separator
/// (after which the file name starts), and the first and last dot of the
/// final segment (the name ends at the first dot, the extension starts
/// after the last; the locale suffix, if any, lies between the two).
pub ghost struct PathShape {
    pub root_end: int,
    pub last_sep: int,
    pub first_dot: int,
    pub last_dot: int,
}

/// `sh` cuts `s` into a decomposition that follows the grammar.
pub open spec fn valid_shape(s: Seq<char>, sh: PathShape) -> bool {
    &&& 0 <= sh.root_end <= sh.last_sep
    &&& sh.last_sep + 1 < sh.first_dot
    &&& sh.first_dot <= sh.last_dot
    &&& sh.last_dot + 1 < s.len()
    // the root token runs to the first separator and names a kind
    &&& is_sep(s[sh.root_end])
    &&& forall|i: int| 0 <= i < sh.root_end ==> !is_sep(#[trigger] s[i])
    &&& kind_of(s.subrange(0, sh.root_end)) is Some
    // the final segment starts after the last separator
    &&& is_sep(s[sh.last_sep])
    &&& forall|i: int| sh.last_sep < i < s.len() ==> !is_sep(#[trigger] s[i])
    // no empty directory segment between the two
    &&& forall|i: int| sh.root_end <= i < sh.last_sep ==> !(is_sep(#[trigger] s[i]) && is_sep(s[i + 1]))
    // the name runs from the last separator to the first dot
    &&& s[sh.first_dot] == '.'
    &&& forall|i: int| sh.last_sep < i < sh.first_dot ==> #[trigger] s[i] != '.'
    // the extension runs from the last dot to the end, in ASCII letters
    &&& s[sh.last_dot] == '.'
    &&& forall|i: int| sh.last_dot < i < s.len() ==> #[trigger] s[i] != '.'
    &&& forall|i: int| sh.last_dot < i < s.len() ==> is_ascii_alpha(#[trigger] s[i])
    // between the two dots, dot-led groups of locale characters, none empty
    &&& forall|i: int| sh.first_dot <= i < sh.last_dot ==> (#[trigger] s[i] == '.' || is_locale_char(s[i]))
    &&& forall|i: int| sh.first_dot <= i < sh.last_dot ==> (#[trigger] s[i] == '.' ==> s[i + 1] != '.')
}

/// The string follows the grammar: some shape cuts it.
pub open spec fn grammar_matches(s: Seq<char>) -> bool {
    exists|sh: PathShape| valid_shape(s, sh)
}

/// The one shape that cuts `s`, where [`grammar_matches`] holds.
pub open spec fn shape_of(s: Seq<char>) -> PathShape {
    choose|sh: PathShape| valid_shape(s, sh)
}

/// The root token of a matching path, verbatim.
pub open spec fn root_seq(s: Seq<char>) -> Seq<char> {
    s.subrange(0, shape_of(s).root_end)
}

/// The directory portion of a matching path, verbatim, without its leading
/// and trailing separators; `None` when the file sits directly under the root.
pub open spec fn dir_seq(s: Seq<char>) -> Option<Seq<char>> {
    if shape_of(s).root_end < shape_of(s).last_sep {
        Some(s.subrange(shape_of(s).root_end + 1, shape_of(s).last_sep))
    } else {
        None
    }
}

/// The base name of a matching path, verbatim.
pub open spec fn name_seq(s: Seq<char>) -> Seq<char> {
    s.subrange(shape_of(s).last_sep + 1, shape_of(s).first_dot)
}

/// The locale suffix of a matching path, verbatim, with its leading dot;
/// `None` when no locale group is present.
pub open spec fn locale_seq(s: Seq<char>) -> Option<Seq<char>> {
    if shape_of(s).first_dot < shape_of(s).last_dot {
        Some(s.subrange(shape_of(s).first_dot, shape_of(s).last_dot))
    } else {
        None
    }
}

/// The extension of a matching path, verbatim, without its dot.
pub open spec fn ext_seq(s: Seq<char>) -> Seq<char> {
    s.subrange(shape_of(s).last_dot + 1, s.len() as int)
}

/// In any decomposition, the root ends at the first separator of the string.
pub proof fn lemma_root_end_determined(s: Seq<char>, sh: PathShape, fs: int)
    requires
        valid_shape(s, sh),
        0 <= fs < s.len(),
        is_sep(s[fs]),
        forall|j: int| 0 <= j < fs ==> !is_sep(#[trigger] s[j]),
    ensures
        sh.root_end == fs,
{
    if sh.root_end < fs {
        assert(!is_sep(s[sh.root_end]));
    }
    if fs < sh.root_end {
        assert(!is_sep(s[fs]));
    }
}

/// In any decomposition, the name starts after the last separator.
pub proof fn lemma_last_sep_determined(s: Seq<char>, sh: PathShape, ls: int)
    requires
        valid_shape(s, sh),
        0 <= ls < s.len(),
        is_sep(s[ls]),
        forall|j: int| ls < j < s.len() ==> !is_sep(#[trigger] s[j]),
    ensures
        sh.last_sep == ls,
{
    if sh.last_sep < ls {
        assert(!is_sep(s[ls]));
    }
    if ls < sh.last_sep {
        assert(!is_sep(s[sh.last_sep]));
    }
}

/// In any decomposition, the name ends at the first dot of the final segment.
pub proof fn lemma_first_dot_determined(s: Seq<char>, sh: PathShape, d1: int)
    requires
        valid_shape(s, sh),
        sh.last_sep < d1 < s.len(),
        s[d1] == '.',
        forall|j: int| sh.last_sep < j < d1 ==> #[trigger] s[j] != '.',
    ensures
        sh.first_dot == d1,
{
    if sh.first_dot < d1 {
        assert(s[sh.first_dot] != '.');
    }
    if d1 < sh.first_dot {
        assert(s[d1] != '.');
    }
}

/// In any decomposition, the extension starts after the last dot.
pub proof fn lemma_last_dot_determined(s: Seq<char>, sh: PathShape, dk: int)
    requires
        valid_shape(s, sh),
        sh.last_sep < dk < s.len(),
        s[dk] == '.',
        forall|j: int| dk < j < s.len() ==> #[trigger] s[j] != '.',
    ensures
        sh.last_dot == dk,
{
    if sh.last_dot < dk {
        assert(s[dk] != '.');
    }
    if dk < sh.last_dot {
        assert(s[sh.last_dot] != '.');
    }
}

/// A string has at most one grammar decomposition.
pub proof fn lemma_shape_unique(s: Seq<char>, a: PathShape, b: PathShape)
    requires
        valid_shape(s, a),
        valid_shape(s, b),
    ensures
        a.root_end == b.root_end,
        a.last_sep == b.last_sep,
        a.first_dot == b.first_dot,
        a.last_dot == b.last_dot,
{
    lemma_root_end_determined(s, b, a.root_end);
    lemma_last_sep_determined(s, b, a.last_sep);
    lemma_first_dot_determined(s, b, a.first_dot);
    lemma_last_dot_determined(s, b, a.last_dot);
}

/// Strings equal up to ASCII case agree on every case-insensitive comparison.
pub proof fn lemma_ci_eq_same(a: Seq<char>, b: Seq<char>, t: Seq<char>)
    requires
        ci_eq(a, b),
    ensures
        ci_eq(a, t) == ci_eq(b, t),
{
    if ci_eq(a, t) {
        assert forall|i: int| 0 <= i < b.len() implies #[trigger] lower_code(b[i]) == lower_code(t[i]) by {
            assert(lower_code(a[i]) == lower_code(b[i]));
            assert(lower_code(a[i]) == lower_code(t[i]));
        }
    }
    if ci_eq(b, t) {
        assert forall|i: int| 0 <= i < a.len() implies #[trigger] lower_code(a[i]) == lower_code(t[i]) by {
            assert(lower_code(a[i]) == lower_code(b[i]));
            assert(lower_code(b[i]) == lower_code(t[i]));
        }
    }
}

/// Root-token classification does not depend on ASCII case.
pub proof fn lemma_kind_case_insensitive(a: Seq<char>, b: Seq<char>)
    requires
        ci_eq(a, b),
    ensures
        kind_of(a) == kind_of(b),
{
    lemma_ci_eq_same(a, b, "includes"@);
    lemma_ci_eq_same(a, b, "layouts"@);
    lemma_ci_eq_same(a, b, "pages"@);
}

/// Characters equal up to ASCII case fall into the same grammar classes.
proof fn lemma_lower_code_classes(x: char, y: char)
    requires
        lower_code(x) == lower_code(y),
    ensures
        is_sep(x) == is_sep(y),
        (x == '.') == (y == '.'),
        is_ascii_alpha(x) == is_ascii_alpha(y),
        is_locale_char(x) == is_locale_char(y),
{
}

/// Two strings equal up to ASCII case are cut by the same shapes.
pub proof fn lemma_valid_shape_case_insensitive(a: Seq<char>, b: Seq<char>, sh: PathShape)
    requires
        ci_eq(a, b),
        valid_shape(a, sh),
    ensures
        valid_shape(b, sh),
{
    assert forall|i: int| 0 <= i < a.len() implies (is_sep(a[i]) == is_sep(#[trigger] b[i])
        && (a[i] == '.') == (b[i] == '.') && is_ascii_alpha(a[i]) == is_ascii_alpha(b[i])
        && is_locale_char(a[i]) == is_locale_char(b[i])) by {
        assert(lower_code(a[i]) == lower_code(b[i]));
        lemma_lower_code_classes(a[i], b[i]);
    }
    let ra = a.subrange(0, sh.root_end);
    let rb = b.subrange(0, sh.root_end);
    assert forall|i: int| 0 <= i < ra.len() implies #[trigger] lower_code(ra[i])
        == lower_code(rb[i]) by {
        assert(ra[i] == a[i]);
        assert(rb[i] == b[i]);
        assert(lower_code(a[i]) == lower_code(b[i]));
    }
    lemma_kind_case_insensitive(ra, rb);
}

/// A whole path classifies the same way whatever the ASCII case of its
/// characters: it matches the grammar or not as one, it is cut at the same
/// points, and its root and extension name the same kind and format.
pub proof fn lemma_classification_case_insensitive(a: Seq<char>, b: Seq<char>)
    requires
        ci_eq(a, b),
    ensures
        grammar_matches(a) == grammar_matches(b),
        grammar_matches(a) ==> {
            &&& shape_of(a) == shape_of(b)
            &&& kind_of(root_seq(a)) == kind_of(root_seq(b))
            &&& format_of(ext_seq(a)) == format_of(ext_seq(b))
        },
{
    assert forall|i: int| 0 <= i < b.len() implies #[trigger] lower_code(b[i])
        == lower_code(a[i]) by {
        assert(lower_code(a[i]) == lower_code(b[i]));
    }
    assert(ci_eq(b, a));
    if grammar_matches(a) {
        let sh = choose|sh: PathShape| valid_shape(a, sh);
        lemma_valid_shape_case_insensitive(a, b, sh);
    }
    if grammar_matches(b) {
        let sh = choose|sh: PathShape| valid_shape(b, sh);
        lemma_valid_shape_case_insensitive(b, a, sh);
    }
    if grammar_matches(a) {
        let sa = shape_of(a);
        let sb = shape_of(b);
        lemma_valid_shape_case_insensitive(a, b, sa);
        lemma_shape_unique(b, sb, sa);
        assert(sa == sb);
        let ea = ext_seq(a);
        let eb = ext_seq(b);
        assert forall|i: int| 0 <= i < ea.len() implies #[trigger] lower_code(ea[i])
            == lower_code(eb[i]) by {
            assert(ea[i] == a[sa.last_dot + 1 + i]);
            assert(eb[i] == b[sa.last_dot + 1 + i]);
            assert(lower_code(a[sa.last_dot + 1 + i]) == lower_code(b[sa.last_dot + 1 + i]));
        }
        lemma_format_case_insensitive(ea, eb);
        let ra = root_seq(a);
        let rb = root_seq(b);
        assert forall|i: int| 0 <= i < ra.len() implies #[trigger] lower_code(ra[i])
            == lower_code(rb[i]) by {
            assert(ra[i] == a[i]);
            assert(rb[i] == b[i]);
            assert(lower_code(a[i]) == lower_code(b[i]));
        }
        lemma_kind_case_insensitive(ra, rb);
    }
}

/// Extension classification does not depend on ASCII case.
pub proof fn lemma_format_case_insensitive(a: Seq<char>, b: Seq<char>)
    requires
        ci_eq(a, b),
    ensures
        format_of(a) == format_of(b),
{
    lemma_ci_eq_same(a, b, "html"@);
    lemma_ci_eq_same(a, b, "htm"@);
    lemma_ci_eq_same(a, b, "xhtml"@);
    lemma_ci_eq_same(a, b, "xml"@);
    lemma_ci_eq_same(a, b, "yaml"@);
    lemma_ci_eq_same(a, b, "yml"@);
    lemma_ci_eq_same(a, b, "json"@);
    lemma_ci_eq_same(a, b, "rhai"@);
    lemma_ci_eq_same(a, b, "md"@);
    lemma_ci_eq_same(a, b, "markdown"@);
    lemma_ci_eq_same(a, b, "mdown"@);
    lemma_ci_eq_same(a, b, "mkdn"@);
    lemma_ci_eq_same(a, b, "mdwn"@);
    lemma_ci_eq_same(a, b, "mdtxt"@);
    lemma_ci_eq_same(a, b, "mdtext"@);
    lemma_ci_eq_same(a, b, "text"@);
    lemma_ci_eq_same(a, b, "rmd"@);
    lemma_ci_eq_same(a, b, "sh"@);
}

} // verus!
