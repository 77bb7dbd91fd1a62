//! The errors of the library.

use vstd::prelude::*;
use crate::code_language::{CodeLanguage, spec_language_name};
use crate::text::{chars_eq, chars_of, is_prefix_of, push_str, starts_with};
use crate::wrapped_binary::{WrappedBinary, spec_standard_binary_name};

verus! {

/// Why an operation of the library failed.
#[derive(Debug)]
pub enum Error {
    /// The flag needs one more argument after it, and there is none.
    MissingArgument(String),
    /// A flag of a compile command that takes a value has none after it.
    ArgumentAfterMissing(String),
    /// A flag that the compiler argument parser does not know.
    UnknownFlag(String),
    /// A name after `-x` that denotes no known language.
    UnknownLanguageName(String),
    /// The sources of a compile command could not be read: a name after `-x` denotes no
    /// known language.
    SourcesUnknownLanguage(String),
    /// A file extension that denotes no known language.
    UnknownExtension(String),
    /// The language is already preprocessed.
    CannotPreprocess(CodeLanguage),
    /// The language is not that of preprocessed code.
    NotPreprocessed(CodeLanguage),
    /// A source file whose name has no extension.
    MissingExtension,
    /// Compiler arguments without a `-o` output.
    NoSingleOutput,
    /// The output of an object build does not end in `.o`.
    OutputNotObject,
    /// An object build that does not have exactly one source.
    NotExactlyOneSource,
    /// An `ar` invocation without arguments.
    MissingFirstArgument,
    /// A letter in the first `ar` argument that is not a known flag.
    UnknownArFlag(char),
    /// `ar` arguments that do not create an archive.
    NoCreateFlag,
    /// An archive path without a file name.
    NoArchiveName,
    /// `ar` arguments without an operation.
    MissingOperation,
    /// `ar` arguments without an archive.
    MissingArchive,
    /// What a command of the binary builds cannot be read: it is not gcc-compatible.
    BuildArgsUnsupported(WrappedBinary),
    /// The arguments of the binary cannot be rewritten: it is not gcc-compatible.
    RewriteUnsupported(WrappedBinary),
    /// The compatibility arguments of the binary cannot be taken: it is not gcc-compatible.
    CompatibilityArgsUnsupported(WrappedBinary),
    /// The path must be absolute.
    RelativePath,
    /// A `/*` comment without its `*/`.
    UnterminatedBlockComment,
    /// A string literal without its closing quote.
    UnterminatedString,
    /// A character literal without its closing quote.
    UnterminatedChar,
    /// A raw string literal without its closing delimiter.
    UnterminatedRawString,
    /// A raw string literal without the `(` that ends its delimiter.
    MissingRawDelimiter,
    /// A source file path without a directory.
    NoSourceDirectory,
    /// Text that is not valid base64, with what the `base64` crate says of it.
    InvalidBase64(String),
    /// A glob pattern that does not compile, with what the `glob` crate says of it.
    InvalidPattern(String),
    /// An archive recorded as built by something other than `ar`.
    ArchiveNotFromAr(String),
    /// An object file recorded as built by something other than a gcc-compatible compiler.
    ObjectNotFromGcc(String),
}

/// The contents of an [`Error`], as values of specifications.
pub enum ErrorView {
    MissingArgument(Seq<char>),
    ArgumentAfterMissing(Seq<char>),
    UnknownFlag(Seq<char>),
    UnknownLanguageName(Seq<char>),
    SourcesUnknownLanguage(Seq<char>),
    UnknownExtension(Seq<char>),
    CannotPreprocess(CodeLanguage),
    NotPreprocessed(CodeLanguage),
    MissingExtension,
    NoSingleOutput,
    OutputNotObject,
    NotExactlyOneSource,
    MissingFirstArgument,
    UnknownArFlag(char),
    NoCreateFlag,
    NoArchiveName,
    MissingOperation,
    MissingArchive,
    BuildArgsUnsupported(WrappedBinary),
    RewriteUnsupported(WrappedBinary),
    CompatibilityArgsUnsupported(WrappedBinary),
    RelativePath,
    UnterminatedBlockComment,
    UnterminatedString,
    UnterminatedChar,
    UnterminatedRawString,
    MissingRawDelimiter,
    NoSourceDirectory,
    InvalidBase64(Seq<char>),
    InvalidPattern(Seq<char>),
    ArchiveNotFromAr(Seq<char>),
    ObjectNotFromGcc(Seq<char>),
}

impl View for Error {
    type V = ErrorView;

    open spec fn view(&self) -> ErrorView {
        match self {
            Error::MissingArgument(s) => ErrorView::MissingArgument(s@),
            Error::ArgumentAfterMissing(s) => ErrorView::ArgumentAfterMissing(s@),
            Error::UnknownFlag(s) => ErrorView::UnknownFlag(s@),
            Error::UnknownLanguageName(s) => ErrorView::UnknownLanguageName(s@),
            Error::SourcesUnknownLanguage(s) => ErrorView::SourcesUnknownLanguage(s@),
            Error::UnknownExtension(s) => ErrorView::UnknownExtension(s@),
            Error::CannotPreprocess(l) => ErrorView::CannotPreprocess(*l),
            Error::NotPreprocessed(l) => ErrorView::NotPreprocessed(*l),
            Error::MissingExtension => ErrorView::MissingExtension,
            Error::NoSingleOutput => ErrorView::NoSingleOutput,
            Error::OutputNotObject => ErrorView::OutputNotObject,
            Error::NotExactlyOneSource => ErrorView::NotExactlyOneSource,
            Error::MissingFirstArgument => ErrorView::MissingFirstArgument,
            Error::UnknownArFlag(c) => ErrorView::UnknownArFlag(*c),
            Error::NoCreateFlag => ErrorView::NoCreateFlag,
            Error::NoArchiveName => ErrorView::NoArchiveName,
            Error::MissingOperation => ErrorView::MissingOperation,
            Error::MissingArchive => ErrorView::MissingArchive,
            Error::BuildArgsUnsupported(b) => ErrorView::BuildArgsUnsupported(*b),
            Error::RewriteUnsupported(b) => ErrorView::RewriteUnsupported(*b),
            Error::CompatibilityArgsUnsupported(b) => ErrorView::CompatibilityArgsUnsupported(*b),
            Error::RelativePath => ErrorView::RelativePath,
            Error::UnterminatedBlockComment => ErrorView::UnterminatedBlockComment,
            Error::UnterminatedString => ErrorView::UnterminatedString,
            Error::UnterminatedChar => ErrorView::UnterminatedChar,
            Error::UnterminatedRawString => ErrorView::UnterminatedRawString,
            Error::MissingRawDelimiter => ErrorView::MissingRawDelimiter,
            Error::NoSourceDirectory => ErrorView::NoSourceDirectory,
            Error::InvalidBase64(s) => ErrorView::InvalidBase64(s@),
            Error::InvalidPattern(s) => ErrorView::InvalidPattern(s@),
            Error::ArchiveNotFromAr(s) => ErrorView::ArchiveNotFromAr(s@),
            Error::ObjectNotFromGcc(s) => ErrorView::ObjectNotFromGcc(s@),
        }
    }
}

/// The text that tells what went wrong.
pub open spec fn error_message(e: ErrorView) -> Seq<char> {
    match e {
        ErrorView::MissingArgument(s) => missing_argument_message(s),
        ErrorView::ArgumentAfterMissing(s) => "argument after \""@ + s + "\" is missing"@,
        ErrorView::UnknownFlag(s) => "Unknown GCC flag: "@ + s,
        ErrorView::UnknownLanguageName(s) => "Unknown language "@ + s,
        ErrorView::SourcesUnknownLanguage(s) => "Error parsing sources: Unknown language "@ + s,
        ErrorView::UnknownExtension(s) => "Unknown language extension: "@ + s,
        ErrorView::CannotPreprocess(l) => "Cannot preprocess language "@ + spec_language_name(l),
        ErrorView::NotPreprocessed(l) => "Language is not preprocessed: "@ + spec_language_name(l),
        ErrorView::MissingExtension => "Failed to get extension"@,
        ErrorView::NoSingleOutput => "There has to be one output"@,
        ErrorView::OutputNotObject => "Output must have .o extension"@,
        ErrorView::NotExactlyOneSource => "There has to be exactly one source"@,
        ErrorView::MissingFirstArgument => "Missing first argument for ar command"@,
        ErrorView::UnknownArFlag(c) => "Unknown ar flag: "@.push(c),
        ErrorView::NoCreateFlag => "arguments don't create archive, no 'c' flag"@,
        ErrorView::NoArchiveName => "archive path has no file name"@,
        ErrorView::MissingOperation => "missing operation"@,
        ErrorView::MissingArchive => "missing archive"@,
        ErrorView::BuildArgsUnsupported(b) => "Cannot extract build object args for binary: "@
            + spec_binary_debug_name(b),
        ErrorView::RewriteUnsupported(b) => "Cannot rewrite args for binary: "@
            + spec_binary_debug_name(b),
        ErrorView::CompatibilityArgsUnsupported(b) => "Cannot add object compatibility args for binary: "@
            + spec_binary_debug_name(b),
        ErrorView::RelativePath => "Path must be absolute"@,
        ErrorView::UnterminatedBlockComment => "Failed to find end of block comment"@,
        ErrorView::UnterminatedString => "Failed to find end of string"@,
        ErrorView::UnterminatedChar => "Failed to find end of char"@,
        ErrorView::UnterminatedRawString => "Failed to find end of raw string"@,
        ErrorView::MissingRawDelimiter => "Failed to determine delimiter"@,
        ErrorView::NoSourceDirectory => "Failed to get directory of source file path"@,
        ErrorView::InvalidBase64(s) => s,
        ErrorView::InvalidPattern(s) => s,
        ErrorView::ArchiveNotFromAr(s) => "Archive not created by ar: "@ + s,
        ErrorView::ObjectNotFromGcc(s) => "Object file not created by gcc compatible: "@ + s,
    }
}

/// What is said of the flag `f` of gcc that lacks its value: each flag that takes a value
/// has its own message.
pub open spec fn missing_argument_message(f: Seq<char>) -> Seq<char> {
    if is_prefix_of(seq!['-', 'i', 's', 'y', 's', 't', 'e', 'm'], f) {
        "Missing path after -isystem"@
    } else if f == seq!['-', 'x'] || f == seq!['-', 'M', 'T'] {
        "Missing name"@
    } else if f == seq!['-', 'i', 'n', 'c', 'l', 'u', 'd', 'e'] {
        "Missing path for "@ + f + " flag"@
    } else if f == seq!['-', 'M', 'F'] {
        "Missing path for -MF flag"@
    } else if f == seq!['-', 'o'] {
        "Missing path for -o flag"@
    } else if is_prefix_of(seq!['-', 'X', 'l', 'i', 'n', 'k', 'e', 'r'], f) {
        "Missing argument for -Xlinker flag: "@ + f
    } else {
        "Missing argument after "@ + f
    }
}

/// The message for the flag `f` that lacks its value.
fn missing_argument_message_exec(f: &str) -> (res: String)
    ensures
        res@ == missing_argument_message(f@),
{
    let fc = chars_of(f);
    let mut m = String::new();
    let isystem = ['-', 'i', 's', 'y', 's', 't', 'e', 'm'];
    let x = ['-', 'x'];
    let mt = ['-', 'M', 'T'];
    let inc = ['-', 'i', 'n', 'c', 'l', 'u', 'd', 'e'];
    let mf = ['-', 'M', 'F'];
    let o = ['-', 'o'];
    let xlinker = ['-', 'X', 'l', 'i', 'n', 'k', 'e', 'r'];
    proof {
        assert(isystem@ =~= seq!['-', 'i', 's', 'y', 's', 't', 'e', 'm']);
        assert(x@ =~= seq!['-', 'x']);
        assert(mt@ =~= seq!['-', 'M', 'T']);
        assert(inc@ =~= seq!['-', 'i', 'n', 'c', 'l', 'u', 'd', 'e']);
        assert(mf@ =~= seq!['-', 'M', 'F']);
        assert(o@ =~= seq!['-', 'o']);
        assert(xlinker@ =~= seq!['-', 'X', 'l', 'i', 'n', 'k', 'e', 'r']);
    }
    if starts_with(fc.as_slice(), &isystem) {
        push_str(&mut m, "Missing path after -isystem");
    } else if chars_eq(fc.as_slice(), &x) || chars_eq(fc.as_slice(), &mt) {
        push_str(&mut m, "Missing name");
    } else if chars_eq(fc.as_slice(), &inc) {
        push_str(&mut m, "Missing path for ");
        push_str(&mut m, f);
        push_str(&mut m, " flag");
    } else if chars_eq(fc.as_slice(), &mf) {
        push_str(&mut m, "Missing path for -MF flag");
    } else if chars_eq(fc.as_slice(), &o) {
        push_str(&mut m, "Missing path for -o flag");
    } else if starts_with(fc.as_slice(), &xlinker) {
        push_str(&mut m, "Missing argument for -Xlinker flag: ");
        push_str(&mut m, f);
    } else {
        push_str(&mut m, "Missing argument after ");
        push_str(&mut m, f);
    }
    m
}

/// The name of a binary as its variant is written: `Gcc`, `Gxx`, `Clang`, `Clangxx`, `Ar`.
pub open spec fn spec_binary_debug_name(b: WrappedBinary) -> Seq<char> {
    match b {
        WrappedBinary::Gcc => "Gcc"@,
        WrappedBinary::Gxx => "Gxx"@,
        WrappedBinary::Clang => "Clang"@,
        WrappedBinary::Clangxx => "Clangxx"@,
        WrappedBinary::Ar => "Ar"@,
    }
}

/// The name of a binary as its variant is written.
pub fn binary_debug_name(b: WrappedBinary) -> (res: &'static str)
    ensures
        res@ == spec_binary_debug_name(b),
{
    match b {
        WrappedBinary::Gcc => "Gcc",
        WrappedBinary::Gxx => "Gxx",
        WrappedBinary::Clang => "Clang",
        WrappedBinary::Clangxx => "Clangxx",
        WrappedBinary::Ar => "Ar",
    }
}

impl Error {
    /// The text that tells what went wrong.
    pub fn message(&self) -> (res: String)
        ensures
            res@ == error_message(self@),
    {
        let mut m = String::new();
        match self {
            Error::MissingArgument(s) => {
                m = missing_argument_message_exec(s.as_str());
            },
            Error::ArgumentAfterMissing(s) => {
                push_str(&mut m, "argument after \"");
                push_str(&mut m, s.as_str());
                push_str(&mut m, "\" is missing");
            },
            Error::UnknownFlag(s) => {
                push_str(&mut m, "Unknown GCC flag: ");
                push_str(&mut m, s.as_str());
            },
            Error::UnknownLanguageName(s) => {
                push_str(&mut m, "Unknown language ");
                push_str(&mut m, s.as_str());
            },
            Error::SourcesUnknownLanguage(s) => {
                push_str(&mut m, "Error parsing sources: Unknown language ");
                push_str(&mut m, s.as_str());
            },
            Error::UnknownExtension(s) => {
                push_str(&mut m, "Unknown language extension: ");
                push_str(&mut m, s.as_str());
            },
            Error::CannotPreprocess(l) => {
                push_str(&mut m, "Cannot preprocess language ");
                push_str(&mut m, l.name().as_str());
            },
            Error::NotPreprocessed(l) => {
                push_str(&mut m, "Language is not preprocessed: ");
                push_str(&mut m, l.name().as_str());
            },
            Error::MissingExtension => push_str(&mut m, "Failed to get extension"),
            Error::NoSingleOutput => push_str(&mut m, "There has to be one output"),
            Error::OutputNotObject => push_str(&mut m, "Output must have .o extension"),
            Error::NotExactlyOneSource => push_str(&mut m, "There has to be exactly one source"),
            Error::MissingFirstArgument => push_str(&mut m, "Missing first argument for ar command"),
            Error::UnknownArFlag(c) => {
                push_str(&mut m, "Unknown ar flag: ");
                m.push(*c);
            },
            Error::NoCreateFlag => push_str(&mut m, "arguments don't create archive, no 'c' flag"),
            Error::NoArchiveName => push_str(&mut m, "archive path has no file name"),
            Error::MissingOperation => push_str(&mut m, "missing operation"),
            Error::MissingArchive => push_str(&mut m, "missing archive"),
            Error::BuildArgsUnsupported(b) => {
                push_str(&mut m, "Cannot extract build object args for binary: ");
                push_str(&mut m, binary_debug_name(*b));
            },
            Error::RewriteUnsupported(b) => {
                push_str(&mut m, "Cannot rewrite args for binary: ");
                push_str(&mut m, binary_debug_name(*b));
            },
            Error::CompatibilityArgsUnsupported(b) => {
                push_str(&mut m, "Cannot add object compatibility args for binary: ");
                push_str(&mut m, binary_debug_name(*b));
            },
            Error::RelativePath => push_str(&mut m, "Path must be absolute"),
            Error::UnterminatedBlockComment => push_str(&mut m, "Failed to find end of block comment"),
            Error::UnterminatedString => push_str(&mut m, "Failed to find end of string"),
            Error::UnterminatedChar => push_str(&mut m, "Failed to find end of char"),
            Error::UnterminatedRawString => push_str(&mut m, "Failed to find end of raw string"),
            Error::MissingRawDelimiter => push_str(&mut m, "Failed to determine delimiter"),
            Error::NoSourceDirectory => push_str(&mut m, "Failed to get directory of source file path"),
            Error::InvalidBase64(s) => push_str(&mut m, s.as_str()),
            Error::InvalidPattern(s) => {
                push_str(&mut m, s.as_str());
            },
            Error::ArchiveNotFromAr(s) => {
                push_str(&mut m, "Archive not created by ar: ");
                push_str(&mut m, s.as_str());
            },
            Error::ObjectNotFromGcc(s) => {
                push_str(&mut m, "Object file not created by gcc compatible: ");
                push_str(&mut m, s.as_str());
            },
        }
        m
    }
}

} // verus!
