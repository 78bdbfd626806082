//! Path descriptors and loaded files.

use vstd::prelude::*;
use vstd::string::{StrSliceExecFns, StringExecFns};

use crate::grammar::{
    dir_seq, ext_seq, format_of, grammar_matches, is_sep, kind_of, lemma_first_dot_determined,
    lemma_last_dot_determined, lemma_last_sep_determined, lemma_root_end_determined,
    lemma_shape_unique, locale_seq, name_seq, root_seq, valid_shape, PathShape,
};
use crate::scan::{
    check_ci_token, check_ext_alpha, check_locale_region, check_no_adjacent_sep, find_first_dot,
    find_first_sep, find_last_dot, find_last_sep,
};

verus! {

/// The authoring role of a file, read off the root segment of its path.
#[derive(Debug, Copy, Clone)]
pub enum FileKind {
    Include,
    Layout,
    Page,
}

impl FileKind {
    /// Classifies a root token, without regard to ASCII case.
    pub fn from_str(s: &str) -> (r: Result<FileKind, FileInfoError>)
        ensures
            kind_of(s@) is Some ==> (r matches Ok(k) && Some(k) == kind_of(s@)),
            kind_of(s@) is None ==> (r matches Err(e)
                && e matches FileInfoError::UnexpectedFileKind(t) && t@ == s@),
    {
        let n: usize = s.unicode_len();
        proof {
            assert(s@.subrange(0, n as int) =~= s@);
        }
        if check_ci_token(s, 0, n, "includes") {
            Ok(FileKind::Include)
        } else if check_ci_token(s, 0, n, "layouts") {
            Ok(FileKind::Layout)
        } else if check_ci_token(s, 0, n, "pages") {
            Ok(FileKind::Page)
        } else {
            Err(FileInfoError::UnexpectedFileKind(s.to_owned()))
        }
    }
}

/// The file format of a file, read off the extension of its path.
#[derive(Debug, Copy, Clone)]
pub enum FileFormat {
    Html,
    Markdown,
    Yaml,
    Json,
    Rhai,
    Bash,
}

impl FileFormat {
    /// Classifies an extension token, without regard to ASCII case.
    pub fn from_str(s: &str) -> (r: Result<FileFormat, FileInfoError>)
        ensures
            format_of(s@) is Some ==> (r matches Ok(f) && Some(f) == format_of(s@)),
            format_of(s@) is None ==> (r matches Err(e)
                && e matches FileInfoError::UnexpectedFileFormat(t) && t@ == s@),
    {
        let n: usize = s.unicode_len();
        proof {
            assert(s@.subrange(0, n as int) =~= s@);
        }
        if check_ci_token(s, 0, n, "html") || check_ci_token(s, 0, n, "htm")
            || check_ci_token(s, 0, n, "xhtml") || check_ci_token(s, 0, n, "xml") {
            Ok(FileFormat::Html)
        } else if check_ci_token(s, 0, n, "yaml") || check_ci_token(s, 0, n, "yml") {
            Ok(FileFormat::Yaml)
        } else if check_ci_token(s, 0, n, "json") {
            Ok(FileFormat::Json)
        } else if check_ci_token(s, 0, n, "rhai") {
            Ok(FileFormat::Rhai)
        } else if check_ci_token(s, 0, n, "md") || check_ci_token(s, 0, n, "markdown")
            || check_ci_token(s, 0, n, "mdown") || check_ci_token(s, 0, n, "mkdn")
            || check_ci_token(s, 0, n, "mdwn") || check_ci_token(s, 0, n, "mdtxt")
            || check_ci_token(s, 0, n, "mdtext") || check_ci_token(s, 0, n, "text")
            || check_ci_token(s, 0, n, "rmd") {
            Ok(FileFormat::Markdown)
        } else if check_ci_token(s, 0, n, "sh") {
            Ok(FileFormat::Bash)
        } else {
            Err(FileInfoError::UnexpectedFileFormat(s.to_owned()))
        }
    }
}

/// A locale hint carried verbatim out of a path, leading dot included;
/// never parsed further.
#[derive(Debug, Clone)]
pub struct FileLocale {
    raw_str: String,
}

impl View for FileLocale {
    type V = Seq<char>;

    closed spec fn view(&self) -> Seq<char> {
        self.raw_str@
    }
}

impl FileLocale {
    /// Wraps a raw locale string verbatim.
    pub fn from_str(s: &str) -> (r: FileLocale)
        ensures
            r@ == s@,
    {
        FileLocale { raw_str: s.to_owned() }
    }

    /// The wrapped string, verbatim.
    pub fn as_str(&self) -> (r: &str)
        ensures
            r@ == self@,
    {
        self.raw_str.as_str()
    }
}

/// Why a path could not be classified.
#[derive(Debug)]
pub enum FileInfoError {
    /// The extension names no known file format; carries the token verbatim.
    UnexpectedFileFormat(String),
    /// The path is no valid text.
    InvalidPath,
    /// The path does not follow the grammar; carries the path verbatim.
    UnexpectedFilePath(String),
    /// The root segment names no content kind; carries the token verbatim.
    UnexpectedFileKind(String),
}

impl FileInfoError {
    /// A human-readable description of the failure, naming the offending
    /// token or path.
    pub fn message(&self) -> (r: String)
        ensures
            match self {
                FileInfoError::UnexpectedFileFormat(ext) => r@ == "unexpected file format: "@
                    + ext@,
                FileInfoError::InvalidPath => r@ == "invalid file path"@,
                FileInfoError::UnexpectedFilePath(path) => r@ == "unexpected file path: "@
                    + path@,
                FileInfoError::UnexpectedFileKind(kind) => r@ == "unexpected raw kind "@ + kind@,
            },
    {
        match self {
            FileInfoError::UnexpectedFileFormat(ext) => String::from_str(
                "unexpected file format: ",
            ).concat(ext.as_str()),
            FileInfoError::InvalidPath => String::from_str("invalid file path"),
            FileInfoError::UnexpectedFilePath(path) => String::from_str(
                "unexpected file path: ",
            ).concat(path.as_str()),
            FileInfoError::UnexpectedFileKind(kind) => String::from_str(
                "unexpected raw kind ",
            ).concat(kind.as_str()),
        }
    }
}

/// A range of character indices into the descriptor's own path string.
#[derive(Debug, Copy, Clone)]
struct Span {
    start: usize,
    end: usize,
}

/// The structured description of one classified path: its kind, the full
/// path string as the single owned buffer, character ranges into that buffer
/// for the directory portion (if any) and the base name, the locale tag
/// (if any) and the file format.
#[derive(Clone)]
pub struct FileInfo {
    kind: FileKind,
    path: String,
    directory: Option<Span>,
    name: Span,
    locale: Option<FileLocale>,
    format: FileFormat,
}

impl FileInfo {
    /// The full path, as a character sequence.
    pub closed spec fn spec_path(&self) -> Seq<char> {
        self.path@
    }

    /// The content kind.
    pub closed spec fn spec_kind(&self) -> FileKind {
        self.kind
    }

    /// The file format.
    pub closed spec fn spec_format(&self) -> FileFormat {
        self.format
    }

    /// The cut points of the stored ranges, reassembled into a shape.
    pub closed spec fn shape(&self) -> PathShape {
        PathShape {
            root_end: match self.directory {
                Some(d) => d.start as int - 1,
                None => self.name.start as int - 1,
            },
            last_sep: self.name.start as int - 1,
            first_dot: self.name.end as int,
            last_dot: self.name.end as int + (match self.locale {
                Some(l) => l@.len() as int,
                None => 0,
            }),
        }
    }

    /// The directory substring, if any.
    pub closed spec fn spec_directory(&self) -> Option<Seq<char>> {
        match self.directory {
            Some(d) => Some(self.path@.subrange(d.start as int, d.end as int)),
            None => None,
        }
    }

    /// The base-name substring.
    pub closed spec fn spec_name(&self) -> Seq<char> {
        self.path@.subrange(self.name.start as int, self.name.end as int)
    }

    /// The locale substring, if any.
    pub closed spec fn spec_locale(&self) -> Option<Seq<char>> {
        match self.locale {
            Some(l) => Some(l@),
            None => None,
        }
    }

    /// The root-token substring.
    pub closed spec fn spec_root(&self) -> Seq<char> {
        self.path@.subrange(0, self.shape().root_end)
    }

    /// The extension substring.
    pub closed spec fn spec_ext(&self) -> Seq<char> {
        self.path@.subrange(self.shape().last_dot + 1, self.path@.len() as int)
    }

    /// Well-formedness: the stored ranges cut the stored path by the grammar,
    /// the locale carries exactly the substring between the first and last
    /// dot, and kind and format classify the root and extension substrings.
    pub closed spec fn wf(&self) -> bool {
        &&& valid_shape(self.path@, self.shape())
        &&& match self.directory {
            Some(d) => d.end as int == self.shape().last_sep,
            None => true,
        }
        &&& (self.directory is Some <==> self.shape().root_end < self.shape().last_sep)
        &&& match self.locale {
            Some(l) => l@.len() > 0 && l@ == self.path@.subrange(
                self.shape().first_dot,
                self.shape().last_dot,
            ),
            None => true,
        }
        &&& kind_of(self.spec_root()) == Some(self.kind)
        &&& format_of(self.spec_ext()) == Some(self.format)
    }

    /// Parses one raw path against the grammar. On a match whose extension
    /// names a known format, returns the descriptor; on a string that does
    /// not match, fails with the path unrecognized; on a match with an
    /// unknown extension, fails with the format unrecognized.
    pub fn new(raw_path: &str) -> (r: Result<FileInfo, FileInfoError>)
        ensures
            r matches Ok(info) ==> ({
                &&& grammar_matches(raw_path@)
                &&& info.wf()
                &&& info.spec_path() == raw_path@
                &&& Some(info.spec_kind()) == kind_of(root_seq(raw_path@))
                &&& info.spec_directory() == dir_seq(raw_path@)
                &&& info.spec_name() == name_seq(raw_path@)
                &&& info.spec_locale() == locale_seq(raw_path@)
                &&& Some(info.spec_format()) == format_of(ext_seq(raw_path@))
            }),
            r matches Err(e) ==> match e {
                FileInfoError::UnexpectedFilePath(p) => !grammar_matches(raw_path@)
                    && p@ == raw_path@,
                FileInfoError::UnexpectedFileFormat(t) => grammar_matches(raw_path@)
                    && format_of(ext_seq(raw_path@)) is None && t@ == ext_seq(raw_path@),
                _ => false,
            },
            r is Ok <==> (grammar_matches(raw_path@) && format_of(ext_seq(raw_path@)) is Some),
    {
        let ghost s = raw_path@;
        let n: usize = raw_path.unicode_len();

        // The root token runs to the first separator.
        let fs: usize = match find_first_sep(raw_path, 0) {
            Some(i) => i,
            None => {
                proof {
                    if grammar_matches(s) {
                        let sh = choose|sh: PathShape| valid_shape(s, sh);
                        assert(!is_sep(s[sh.root_end]));
                    }
                }
                return Err(FileInfoError::UnexpectedFilePath(raw_path.to_owned()));
            },
        };

        // The file name starts after the last separator.
        let ls: usize = match find_last_sep(raw_path) {
            Some(i) => i,
            None => {
                proof {
                    assert(!is_sep(s[fs as int]));
                }
                vstd::pervasive::unreached()
            },
        };
        proof {
            if ls < fs {
                assert(!is_sep(s[fs as int]));
            }
        }

        // The root token must name a kind.
        let root_str = raw_path.substring_char(0, fs);
        let kind: FileKind = match FileKind::from_str(root_str) {
            Ok(k) => k,
            Err(_) => {
                proof {
                    if grammar_matches(s) {
                        let sh = choose|sh: PathShape| valid_shape(s, sh);
                        lemma_root_end_determined(s, sh, fs as int);
                        assert(s.subrange(0, fs as int) == root_str@);
                    }
                }
                return Err(FileInfoError::UnexpectedFilePath(raw_path.to_owned()));
            },
        };

        // Every directory segment between the separators must be nonempty.
        if !check_no_adjacent_sep(raw_path, fs, ls) {
            proof {
                if grammar_matches(s) {
                    let sh = choose|sh: PathShape| valid_shape(s, sh);
                    lemma_root_end_determined(s, sh, fs as int);
                    lemma_last_sep_determined(s, sh, ls as int);
                }
            }
            return Err(FileInfoError::UnexpectedFilePath(raw_path.to_owned()));
        }

        // The name ends at the first dot of the final segment.
        let d1: usize = match find_first_dot(raw_path, ls + 1) {
            Some(i) => i,
            None => {
                proof {
                    if grammar_matches(s) {
                        let sh = choose|sh: PathShape| valid_shape(s, sh);
                        lemma_last_sep_determined(s, sh, ls as int);
                        assert(s[sh.first_dot] != '.');
                    }
                }
                return Err(FileInfoError::UnexpectedFilePath(raw_path.to_owned()));
            },
        };
        if d1 == ls + 1 {
            // An empty name is not accepted.
            proof {
                if grammar_matches(s) {
                    let sh = choose|sh: PathShape| valid_shape(s, sh);
                    lemma_last_sep_determined(s, sh, ls as int);
                    lemma_first_dot_determined(s, sh, d1 as int);
                }
            }
            return Err(FileInfoError::UnexpectedFilePath(raw_path.to_owned()));
        }

        // The extension starts after the last dot of the final segment.
        let dk: usize = match find_last_dot(raw_path, ls + 1) {
            Some(i) => i,
            None => {
                proof {
                    assert(s[d1 as int] != '.');
                }
                vstd::pervasive::unreached()
            },
        };
        proof {
            if dk < d1 {
                assert(s[d1 as int] != '.');
            }
        }
        if dk + 1 == n {
            // An empty extension is not accepted.
            proof {
                if grammar_matches(s) {
                    let sh = choose|sh: PathShape| valid_shape(s, sh);
                    lemma_last_sep_determined(s, sh, ls as int);
                    lemma_last_dot_determined(s, sh, dk as int);
                }
            }
            return Err(FileInfoError::UnexpectedFilePath(raw_path.to_owned()));
        }

        // The extension holds ASCII letters only.
        if !check_ext_alpha(raw_path, dk + 1) {
            proof {
                if grammar_matches(s) {
                    let sh = choose|sh: PathShape| valid_shape(s, sh);
                    lemma_last_sep_determined(s, sh, ls as int);
                    lemma_last_dot_determined(s, sh, dk as int);
                }
            }
            return Err(FileInfoError::UnexpectedFilePath(raw_path.to_owned()));
        }

        // Between the two dots, dot-led groups of locale characters.
        if d1 < dk {
            if !check_locale_region(raw_path, d1, dk) {
                proof {
                    if grammar_matches(s) {
                        let sh = choose|sh: PathShape| valid_shape(s, sh);
                        lemma_last_sep_determined(s, sh, ls as int);
                        lemma_first_dot_determined(s, sh, d1 as int);
                        lemma_last_dot_determined(s, sh, dk as int);
                    }
                }
                return Err(FileInfoError::UnexpectedFilePath(raw_path.to_owned()));
            }
        }

        // The whole string now matches the grammar, with exactly these cuts.
        let ghost shw = PathShape {
            root_end: fs as int,
            last_sep: ls as int,
            first_dot: d1 as int,
            last_dot: dk as int,
        };
        proof {
            assert(s.subrange(0, fs as int) == root_str@);
            assert(valid_shape(s, shw));
            let sh = choose|sh: PathShape| valid_shape(s, sh);
            lemma_shape_unique(s, sh, shw);
        }

        // The extension must name a known format.
        let ext_str = raw_path.substring_char(dk + 1, n);
        proof {
            assert(ext_seq(s) == ext_str@);
        }
        let format: FileFormat = match FileFormat::from_str(ext_str) {
            Ok(f) => f,
            Err(e) => {
                return Err(e);
            },
        };

        // Assemble the descriptor over the one owned buffer.
        let locale: Option<FileLocale> = if d1 < dk {
            Some(FileLocale::from_str(raw_path.substring_char(d1, dk)))
        } else {
            None
        };
        let directory: Option<Span> = if fs < ls {
            Some(Span { start: fs + 1, end: ls })
        } else {
            None
        };
        let info = FileInfo {
            kind,
            path: raw_path.to_owned(),
            directory,
            name: Span { start: ls + 1, end: d1 },
            locale,
            format,
        };
        proof {
            assert(info.shape().root_end == shw.root_end);
            assert(info.shape().last_sep == shw.last_sep);
            assert(info.shape().first_dot == shw.first_dot);
            assert(info.shape().last_dot == shw.last_dot);
            assert(valid_shape(info.path@, info.shape()));
            assert(info.spec_root() == root_seq(s));
            assert(info.spec_ext() == ext_seq(s));
        }
        Ok(info)
    }

    /// The content kind.
    pub fn kind(&self) -> (r: FileKind)
        ensures
            r == self.spec_kind(),
    {
        self.kind
    }

    /// The full original path.
    pub fn path(&self) -> (r: &str)
        ensures
            r@ == self.spec_path(),
    {
        self.path.as_str()
    }

    /// The directory substring, if the file does not sit directly under its
    /// kind root; without its leading and trailing separators.
    pub fn directory(&self) -> (r: Option<&str>)
        requires
            self.wf(),
        ensures
            match r {
                Some(d) => self.spec_directory() == Some(d@),
                None => self.spec_directory() is None,
            },
    {
        match &self.directory {
            Some(span) => Some(self.path.as_str().substring_char(span.start, span.end)),
            None => None,
        }
    }

    /// The base-name substring.
    pub fn name(&self) -> (r: &str)
        requires
            self.wf(),
        ensures
            r@ == self.spec_name(),
    {
        self.path.as_str().substring_char(self.name.start, self.name.end)
    }

    /// The locale tag, if one is present in the path.
    pub fn locale(&self) -> (r: Option<&FileLocale>)
        ensures
            match r {
                Some(l) => self.spec_locale() == Some(l@),
                None => self.spec_locale() is None,
            },
    {
        self.locale.as_ref()
    }

    /// The file format.
    pub fn format(&self) -> (r: FileFormat)
        ensures
            r == self.spec_format(),
    {
        self.format
    }
}

/// The concatenation of the pieces of a descriptor: root, separator,
/// directory and second separator where present, name, locale where present,
/// dot, extension.
pub open spec fn rebuilt(
    root: Seq<char>,
    s1: char,
    dir: Option<Seq<char>>,
    s2: char,
    name: Seq<char>,
    locale: Option<Seq<char>>,
    ext: Seq<char>,
) -> Seq<char> {
    root + seq![s1] + (match dir {
        Some(d) => d + seq![s2],
        None => Seq::<char>::empty(),
    }) + name + (match locale {
        Some(l) => l,
        None => Seq::<char>::empty(),
    }) + seq!['.'] + ext
}

/// The substrings a well-formed descriptor hands out tile its whole path:
/// concatenating root, separators, directory, name, locale and extension in
/// grammar order rebuilds the original path exactly. In particular the
/// directory substring overlaps neither the name nor the locale.
pub proof fn lemma_path_reconstruction(info: FileInfo)
    requires
        info.wf(),
    ensures
        exists|s1: char, s2: char|
            is_sep(s1) && is_sep(s2) && info.spec_path() =~= rebuilt(
                info.spec_root(),
                s1,
                info.spec_directory(),
                s2,
                info.spec_name(),
                info.spec_locale(),
                info.spec_ext(),
            ),
{
    let s = info.spec_path();
    let sh = info.shape();
    let c1 = s[sh.root_end];
    let c2 = s[sh.last_sep];
    assert(is_sep(c1) && is_sep(c2));
    assert(s =~= rebuilt(
        info.spec_root(),
        c1,
        info.spec_directory(),
        c2,
        info.spec_name(),
        info.spec_locale(),
        info.spec_ext(),
    ));
}

/// An opaque metadata block, extracted from a file's content by an external
/// collaborator; carried as raw bytes and never interpreted here.
#[derive(Debug, Clone)]
pub struct Meta {
    raw: Vec<u8>,
}

impl View for Meta {
    type V = Seq<u8>;

    closed spec fn view(&self) -> Seq<u8> {
        self.raw@
    }
}

impl Meta {
    /// Wraps the bytes of an extracted metadata block.
    pub fn new(raw: Vec<u8>) -> (r: Meta)
        ensures
            r@ == raw@,
    {
        Meta { raw }
    }

    /// The raw bytes of the block.
    pub fn bytes(&self) -> (r: &[u8])
        ensures
            r@ == self@,
    {
        self.raw.as_slice()
    }
}

/// A loaded file: its descriptor, the metadata block the external extractor
/// handed over (if any), and the full raw content, read once at construction.
pub struct File {
    file_info: FileInfo,
    meta: Option<Meta>,
    content: Vec<u8>,
}

impl File {
    /// The descriptor.
    pub closed spec fn spec_info(&self) -> FileInfo {
        self.file_info
    }

    /// The metadata block, if any.
    pub closed spec fn spec_meta(&self) -> Option<Meta> {
        self.meta
    }

    /// The raw content bytes.
    pub closed spec fn spec_content(&self) -> Seq<u8> {
        self.content@
    }

    /// Assembles a loaded file from its parts, exactly as given. Reading the
    /// bytes from storage and extracting the metadata block happen in the
    /// caller's environment; a failure there never reaches this constructor,
    /// so no partially loaded value exists.
    pub fn new(file_info: FileInfo, meta: Option<Meta>, content: Vec<u8>) -> (r: File)
        ensures
            r.spec_info() == file_info,
            r.spec_meta() == meta,
            r.spec_content() == content@,
    {
        File { file_info, meta, content }
    }

    /// The descriptor.
    pub fn info(&self) -> (r: &FileInfo)
        ensures
            *r == self.spec_info(),
    {
        &self.file_info
    }

    /// The metadata block, if any.
    pub fn meta(&self) -> (r: Option<&Meta>)
        ensures
            match r {
                Some(m) => self.spec_meta() == Some(*m),
                None => self.spec_meta() is None,
            },
    {
        self.meta.as_ref()
    }

    /// The raw content.
    pub fn content(&self) -> (r: &[u8])
        ensures
            r@ == self.spec_content(),
    {
        self.content.as_slice()
    }
}

} // verus!
