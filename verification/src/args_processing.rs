//! What a wrapped command builds or links, and its rewrites, for each kind of binary.

use vstd::prelude::*;
use crate::code_language::{CodeLanguage, spec_from_path};
use crate::error::{Error, ErrorView};
use crate::gcc_args::{
    GccArgView, GccArgsInfo, absolute_files, add_translation_unit_unspecific_args_to_key,
    key_text, rewritten, spec_extract_local_code, spec_first_output, spec_link_as_group,
    spec_sources, spec_tokenize, update_to_link_sources_as_group,
};
use crate::path_utils::{extension, make_absolute, spec_extension, spec_make_absolute};
use crate::source_file::{SourceFile, SourceFileView};
use crate::text::{chars_eq, chars_of};
use crate::wrapped_binary::{WrappedBinary, spec_is_gcc_compatible};

verus! {

/// The source and the object file of a command that builds one object file.
#[derive(Debug)]
pub struct BuildObjectFileInfo {
    pub source_path: String,
    pub source_language: CodeLanguage,
    pub object_path: String,
}

/// A [`BuildObjectFileInfo`] as a value of specifications.
pub struct BuildObjectFileInfoView {
    pub source_path: Seq<char>,
    pub source_language: CodeLanguage,
    pub object_path: Seq<char>,
}

impl View for BuildObjectFileInfo {
    type V = BuildObjectFileInfoView;

    open spec fn view(&self) -> BuildObjectFileInfoView {
        BuildObjectFileInfoView {
            source_path: self.source_path@,
            source_language: self.source_language,
            object_path: self.object_path@,
        }
    }
}

/// The extension of a path, or nothing where it has none.
pub open spec fn extension_or_empty(p: Seq<char>) -> Seq<char> {
    match spec_extension(p) {
        Some(e) => e,
        None => Seq::empty(),
    }
}

/// The language of a source found in a command: the one `-x` gave it, else the one its
/// extension denotes.
pub open spec fn found_source_language(f: SourceFileView) -> Result<CodeLanguage, ErrorView> {
    match f.language_override {
        Some(l) => Ok(l),
        None => match spec_from_path(f.path) {
            Some(l) => Ok(l),
            None => Err(ErrorView::UnknownExtension(extension_or_empty(f.path))),
        },
    }
}

/// The error where the sources of a compile command cannot be read.
pub open spec fn sources_error(e: ErrorView) -> ErrorView {
    match e {
        ErrorView::UnknownLanguageName(s) => ErrorView::SourcesUnknownLanguage(s),
        _ => e,
    }
}

/// What a gcc command run in `cwd` with arguments `args` builds: it has an output, which
/// ends in `.o`, and exactly one source.
pub open spec fn spec_build_object_info(cwd: Seq<char>, args: Seq<Seq<char>>) -> Result<
    BuildObjectFileInfoView,
    ErrorView,
> {
    match spec_tokenize(args) {
        Err(e) => Err(e),
        Ok(toks) => match spec_first_output(toks) {
            None => Err(ErrorView::NoSingleOutput),
            Some(out) => if spec_extension(out) != Some(seq!['o']) {
                Err(ErrorView::OutputNotObject)
            } else {
                match spec_sources(toks, None) {
                    Err(e) => Err(sources_error(e)),
                    Ok(srcs) => if srcs.len() != 1 {
                        Err(ErrorView::NotExactlyOneSource)
                    } else {
                        match found_source_language(srcs[0]) {
                            Err(e) => Err(e),
                            Ok(l) => Ok(
                                BuildObjectFileInfoView {
                                    source_path: spec_make_absolute(cwd, srcs[0].path),
                                    source_language: l,
                                    object_path: spec_make_absolute(cwd, out),
                                },
                            ),
                        }
                    },
                }
            },
        },
    }
}

impl BuildObjectFileInfo {
    /// What a gcc command builds.
    pub fn from_gcc_args(cwd: &str, args: &[String]) -> (res: Result<BuildObjectFileInfo, Error>)
        ensures
            match res {
                Ok(i) => spec_build_object_info(cwd@, args.deep_view()) == Ok::<
                    BuildObjectFileInfoView,
                    ErrorView,
                >(i@),
                Err(e) => spec_build_object_info(cwd@, args.deep_view()) == Err::<
                    BuildObjectFileInfoView,
                    ErrorView,
                >(e@),
            },
    {
        let info = GccArgsInfo::from_args(args)?;
        let output = match info.get_single_output() {
            Some(o) => o,
            None => {
                return Err(Error::NoSingleOutput);
            },
        };
        let out_chars = chars_of(output.as_str());
        let o = ['o'];
        proof {
            assert(o@ =~= seq!['o']);
        }
        let is_object = match extension(out_chars.as_slice()) {
            Some(e) => chars_eq(e.as_slice(), &o),
            None => false,
        };
        if !is_object {
            return Err(Error::OutputNotObject);
        }
        let sources = match info.get_sources() {
            Ok(v) => v,
            Err(Error::UnknownLanguageName(s)) => {
                return Err(Error::SourcesUnknownLanguage(s));
            },
            Err(e) => {
                return Err(e);
            },
        };
        if sources.len() != 1 {
            return Err(Error::NotExactlyOneSource);
        }
        let source = &sources[0];
        let source_language = match source.language_override {
            Some(l) => l,
            None => CodeLanguage::from_path(source.path.as_str())?,
        };
        Ok(
            BuildObjectFileInfo {
                source_path: make_absolute(cwd, source.path.as_str()),
                source_language,
                object_path: make_absolute(cwd, output.as_str()),
            },
        )
    }

    /// What a command of `binary` builds; only gcc-compatible binaries are understood.
    pub fn from_args(binary: WrappedBinary, cwd: &str, args: &[String]) -> (res: Result<
        BuildObjectFileInfo,
        Error,
    >)
        ensures
            spec_is_gcc_compatible(binary) ==> match res {
                Ok(i) => spec_build_object_info(cwd@, args.deep_view()) == Ok::<
                    BuildObjectFileInfoView,
                    ErrorView,
                >(i@),
                Err(e) => spec_build_object_info(cwd@, args.deep_view()) == Err::<
                    BuildObjectFileInfoView,
                    ErrorView,
                >(e@),
            },
            !spec_is_gcc_compatible(binary) ==> (res matches Err(e) && e@ == ErrorView::BuildArgsUnsupported(binary)),
    {
        if binary.is_gcc_compatible() {
            Self::from_gcc_args(cwd, args)
        } else {
            Err(Error::BuildArgsUnsupported(binary))
        }
    }
}

/// The sources and the output of a link command.
#[derive(Debug)]
pub struct LinkFileInfo {
    pub sources: Vec<SourceFile>,
    pub output: String,
}

/// What a gcc link command run in `cwd` links: its sources taken relative to `cwd`, and
/// its output.
pub open spec fn spec_link_info(cwd: Seq<char>, args: Seq<Seq<char>>) -> Result<
    (Seq<SourceFileView>, Seq<char>),
    ErrorView,
> {
    match spec_tokenize(args) {
        Err(e) => Err(e),
        Ok(toks) => match spec_sources(toks, None) {
            Err(e) => Err(e),
            Ok(srcs) => match spec_first_output(toks) {
                None => Err(ErrorView::NoSingleOutput),
                Some(out) => Ok((absolute_files(cwd, srcs), spec_make_absolute(cwd, out))),
            },
        },
    }
}

impl LinkFileInfo {
    /// What a gcc link command links.
    pub fn from_gcc_args(cwd: &str, args: &[String]) -> (res: Result<LinkFileInfo, Error>)
        ensures
            match res {
                Ok(i) => spec_link_info(cwd@, args.deep_view()) == Ok::<
                    (Seq<SourceFileView>, Seq<char>),
                    ErrorView,
                >((i.sources.deep_view(), i.output@)),
                Err(e) => spec_link_info(cwd@, args.deep_view()) == Err::<
                    (Seq<SourceFileView>, Seq<char>),
                    ErrorView,
                >(e@),
            },
    {
        let info = GccArgsInfo::from_args(args)?;
        let sources = info.get_absolute_sources(cwd)?;
        let output = info.get_absolute_single_output(cwd)?;
        Ok(LinkFileInfo { sources, output })
    }

    /// What a link command of `binary` links; only gcc-compatible binaries are understood.
    pub fn from_args(binary: WrappedBinary, cwd: &str, args: &[String]) -> (res: Result<
        LinkFileInfo,
        Error,
    >)
        ensures
            spec_is_gcc_compatible(binary) ==> match res {
                Ok(i) => spec_link_info(cwd@, args.deep_view()) == Ok::<
                    (Seq<SourceFileView>, Seq<char>),
                    ErrorView,
                >((i.sources.deep_view(), i.output@)),
                Err(e) => spec_link_info(cwd@, args.deep_view()) == Err::<
                    (Seq<SourceFileView>, Seq<char>),
                    ErrorView,
                >(e@),
            },
            !spec_is_gcc_compatible(binary) ==> (res matches Err(e) && e@ == ErrorView::BuildArgsUnsupported(binary)),
    {
        if binary.is_gcc_compatible() {
            Self::from_gcc_args(cwd, args)
        } else {
            Err(Error::BuildArgsUnsupported(binary))
        }
    }
}

/// The sources of a gcc command and its output, where it has one.
#[derive(Debug)]
pub struct BuildFilesInfo {
    pub sources: Vec<SourceFile>,
    pub output: Option<String>,
}

impl BuildFilesInfo {
    /// The sources of a gcc command run in `cwd`, and its output, both taken relative to
    /// `cwd`.
    pub fn from_args(cwd: &str, args: &[String]) -> (res: Result<BuildFilesInfo, Error>)
        ensures
            match res {
                Ok(i) => spec_tokenize(args.deep_view()) is Ok && spec_sources(
                    spec_tokenize(args.deep_view())->Ok_0,
                    None,
                ) is Ok && i.sources.deep_view() == absolute_files(
                    cwd@,
                    spec_sources(spec_tokenize(args.deep_view())->Ok_0, None)->Ok_0,
                ) && i.output.deep_view() == (match spec_first_output(
                    spec_tokenize(args.deep_view())->Ok_0,
                ) {
                    Some(o) => Some(spec_make_absolute(cwd@, o)),
                    None => None,
                }),
                Err(e) => spec_tokenize(args.deep_view()) == Err::<Seq<GccArgView>, ErrorView>(e@)
                    || (spec_tokenize(args.deep_view()) is Ok && spec_sources(
                    spec_tokenize(args.deep_view())->Ok_0,
                    None,
                ) == Err::<Seq<SourceFileView>, ErrorView>(e@)),
            },
    {
        let info = GccArgsInfo::from_args(args)?;
        let sources = info.get_absolute_sources(cwd)?;
        let output = match info.get_absolute_single_output(cwd) {
            Ok(o) => Some(o),
            Err(_) => None,
        };
        Ok(BuildFilesInfo { sources, output })
    }
}

/// Arguments of `binary` that build one object file, changed to print the preprocessed
/// source with its definitions; only gcc-compatible binaries are understood.
pub fn rewrite_to_extract_local_code(binary: WrappedBinary, args: &[String]) -> (res: Result<
    Vec<String>,
    Error,
>)
    ensures
        spec_is_gcc_compatible(binary) ==> rewritten(
            args.deep_view(),
            res,
            |t: Seq<GccArgView>| spec_extract_local_code(t),
        ),
        !spec_is_gcc_compatible(binary) ==> (res matches Err(e) && e@ == ErrorView::RewriteUnsupported(binary)),
{
    if binary.is_gcc_compatible() {
        crate::gcc_args::rewrite_to_extract_local_code(args)
    } else {
        Err(Error::RewriteUnsupported(binary))
    }
}

/// The files at `paths`, with no language given.
pub open spec fn plain_files(paths: Seq<Seq<char>>) -> Seq<SourceFileView> {
    paths.map_values(|p: Seq<char>| SourceFileView { path: p, language_override: None })
}

/// Link arguments of `binary` with their sources replaced by `new_sources`, in a link
/// group; only gcc-compatible binaries are understood.
pub fn rewrite_to_link_sources(
    binary: WrappedBinary,
    args: &[String],
    new_sources: &[String],
) -> (res: Result<Vec<String>, Error>)
    ensures
        spec_is_gcc_compatible(binary) ==> rewritten(
            args.deep_view(),
            res,
            |t: Seq<GccArgView>| spec_link_as_group(t, plain_files(new_sources.deep_view())),
        ),
        !spec_is_gcc_compatible(binary) ==> (res matches Err(e) && e@ == ErrorView::RewriteUnsupported(binary)),
{
    if !binary.is_gcc_compatible() {
        return Err(Error::RewriteUnsupported(binary));
    }
    let mut files: Vec<SourceFile> = Vec::new();
    let mut i: usize = 0;
    while i < new_sources.len()
        invariant
            i <= new_sources@.len(),
            files.deep_view() == plain_files(new_sources.deep_view().take(i as int)),
        decreases new_sources@.len() - i,
    {
        let f = SourceFile { path: new_sources[i].clone(), language_override: None };
        let ghost before = files.deep_view();
        files.push(f);
        proof {
            assert(files.deep_view() =~= before.push(f@));
            assert(plain_files(new_sources.deep_view().take(i + 1)) =~= plain_files(
                new_sources.deep_view().take(i as int),
            ).push(f@));
        }
        i = i + 1;
    }
    proof {
        assert(new_sources.deep_view().take(new_sources@.len() as int) =~= new_sources.deep_view());
    }
    update_to_link_sources_as_group(args, files.as_slice())
}

/// Appends to `key` the arguments of `binary` that are the same for every translation
/// unit; only gcc-compatible binaries are understood.
pub fn add_object_compatibility_args_to_key(
    binary: WrappedBinary,
    args: &[String],
    key: &mut String,
) -> (res: Result<(), Error>)
    ensures
        spec_is_gcc_compatible(binary) ==> match res {
            Ok(()) => spec_tokenize(args.deep_view()) is Ok && final(key)@ == old(key)@ + key_text(
                spec_tokenize(args.deep_view())->Ok_0,
            ),
            Err(e) => spec_tokenize(args.deep_view()) == Err::<Seq<GccArgView>, ErrorView>(e@)
                && final(key)@ == old(key)@,
        },
        !spec_is_gcc_compatible(binary) ==> (res matches Err(e) && e@ == ErrorView::CompatibilityArgsUnsupported(binary)) && final(key)@ == old(key)@,
{
    if binary.is_gcc_compatible() {
        add_translation_unit_unspecific_args_to_key(args, key)
    } else {
        Err(Error::CompatibilityArgsUnsupported(binary))
    }
}

} // verus!
