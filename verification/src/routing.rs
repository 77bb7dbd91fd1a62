//! Which way a wrapped gcc command is served: run at once, deferred as the build of one
//! object file, or turned into a final link.

use vstd::prelude::*;
use crate::args_processing::BuildFilesInfo;
use crate::config::{Config, ConfigView, any_matches};
use crate::error::{Error, ErrorView};
use crate::gcc_args::{
    GccArgView, absolute_files, is_build_object_file, spec_first_output, spec_sources, spec_tokenize,
};
use crate::source_file::SourceFileView;
use crate::text::{chars_of, contains_chars, contains_sub, copy_string};

verus! {

/// One of the arguments holds `marker`.
pub open spec fn any_arg_has(args: Seq<Seq<char>>, marker: Seq<char>) -> bool {
    exists|i: int| 0 <= i < args.len() && contains_sub(#[trigger] args[i], marker)
}

/// One of the arguments holds `marker`.
pub fn gcc_args_have_marker(args: &[String], marker: &str) -> (res: bool)
    ensures
        res == any_arg_has(args.deep_view(), marker@),
{
    let m = chars_of(marker);
    let mut i: usize = 0;
    while i < args.len()
        invariant
            i <= args@.len(),
            m@ == marker@,
            forall|j: int| 0 <= j < i ==> !contains_sub(#[trigger] args.deep_view()[j], marker@),
        decreases args@.len() - i,
    {
        let a = chars_of(args[i].as_str());
        proof {
            assert(args.deep_view()[i as int] == args@[i as int]@);
        }
        if contains_chars(a.as_slice(), m.as_slice()) {
            return true;
        }
        i = i + 1;
    }
    false
}

/// One of the arguments, or the working directory, holds `marker`.
pub fn gcc_args_or_cwd_have_marker(args: &[String], cwd: &str, marker: &str) -> (res: bool)
    ensures
        res == (any_arg_has(args.deep_view(), marker@) || contains_sub(cwd@, marker@)),
{
    if gcc_args_have_marker(args, marker) {
        return true;
    }
    let c = chars_of(cwd);
    let m = chars_of(marker);
    contains_chars(c.as_slice(), m.as_slice())
}

/// The marker of the commands by which CMake finds out which compiler it has.
pub open spec fn compiler_id_marker() -> Seq<char> {
    seq!['C', 'o', 'm', 'p', 'i', 'l', 'e', 'r', 'I', 'd', 'C']
}

/// The marker of the commands by which CMake tries the compiler out.
pub open spec fn cmake_scratch_marker() -> Seq<char> {
    seq!['C', 'M', 'a', 'k', 'e', 'S', 'c', 'r', 'a', 't', 'c', 'h']
}

/// The command is CMake's check of the compiler's identity.
pub fn is_gcc_compiler_id_check(args: &[String], cwd: &str) -> (res: bool)
    ensures
        res == (any_arg_has(args.deep_view(), compiler_id_marker()) || contains_sub(
            cwd@,
            compiler_id_marker(),
        )),
{
    proof {
        reveal_strlit("CompilerIdC");
        assert("CompilerIdC"@ =~= compiler_id_marker());
    }
    gcc_args_or_cwd_have_marker(args, cwd, "CompilerIdC")
}

/// The command is one of CMake's trial builds.
pub fn is_gcc_cmakescratch(args: &[String], cwd: &str) -> (res: bool)
    ensures
        res == (any_arg_has(args.deep_view(), cmake_scratch_marker()) || contains_sub(
            cwd@,
            cmake_scratch_marker(),
        )),
{
    proof {
        reveal_strlit("CMakeScratch");
        assert("CMakeScratch"@ =~= cmake_scratch_marker());
    }
    gcc_args_or_cwd_have_marker(args, cwd, "CMakeScratch")
}

/// The sources that the command names, taken relative to `cwd`; none where its
/// arguments or sources cannot be read.
pub open spec fn known_sources(cwd: Seq<char>, args: Seq<Seq<char>>) -> Seq<Seq<char>> {
    match spec_tokenize(args) {
        Err(_) => Seq::empty(),
        Ok(toks) => match spec_sources(toks, None) {
            Err(_) => Seq::empty(),
            Ok(srcs) => absolute_files(cwd, srcs).map_values(|f: SourceFileView| f.path),
        },
    }
}

/// The command's arguments and sources can be read, and it names an output.
pub open spec fn has_known_output(args: Seq<Seq<char>>) -> bool {
    &&& spec_tokenize(args) is Ok
    &&& spec_sources(spec_tokenize(args)->Ok_0, None) is Ok
    &&& spec_first_output(spec_tokenize(args)->Ok_0) is Some
}

/// The paths whose configuration files apply to the command: its working directory and
/// its sources.
pub open spec fn spec_config_paths(cwd: Seq<char>, args: Seq<Seq<char>>) -> Seq<Seq<char>> {
    seq![cwd] + known_sources(cwd, args)
}

/// Which way a gcc command is served.
#[derive(Debug, Clone, Copy, PartialEq, Eq)]
pub enum GccRoute {
    /// The command is run at once.
    Eager,
    /// The command builds one object file, whose build is deferred.
    CompileObjectFile,
    /// The command links; its objects are built and then linked.
    FinalLink,
}

/// A command is run at once when it is one of CMake's checks or trials, names no output,
/// or has a source that the configuration marks as eager.
pub open spec fn runs_eagerly(cwd: Seq<char>, args: Seq<Seq<char>>, config: ConfigView) -> bool {
    ||| any_arg_has(args, cmake_scratch_marker()) || contains_sub(cwd, cmake_scratch_marker())
    ||| any_arg_has(args, compiler_id_marker()) || contains_sub(cwd, compiler_id_marker())
    ||| !has_known_output(args)
    ||| exists|i: int|
        0 <= i < known_sources(cwd, args).len() && any_matches(
            config.eager_patterns,
            #[trigger] known_sources(cwd, args)[i],
        )
}

/// The way the gcc command run in `cwd` with `args` is served under `config`: at once, as
/// the build of one object file where it holds `-c`, else as a final link.
pub open spec fn spec_gcc_route(cwd: Seq<char>, args: Seq<Seq<char>>, config: ConfigView) -> Result<
    GccRoute,
    ErrorView,
> {
    if runs_eagerly(cwd, args, config) {
        Ok(GccRoute::Eager)
    } else {
        match spec_tokenize(args) {
            Err(e) => Err(e),
            Ok(toks) => if exists|i: int|
                0 <= i < toks.len() && #[trigger] toks[i] == GccArgView::Single(seq!['-', 'c']) {
                Ok(GccRoute::CompileObjectFile)
            } else {
                Ok(GccRoute::FinalLink)
            },
        }
    }
}

/// The paths of the sources that the command names, taken relative to `cwd`.
fn known_source_paths(cwd: &str, args: &[String]) -> (res: (Vec<String>, bool))
    ensures
        res.0.deep_view() == known_sources(cwd@, args.deep_view()),
        res.1 == has_known_output(args.deep_view()),
{
    match BuildFilesInfo::from_args(cwd, args) {
        Ok(files) => {
            let mut paths: Vec<String> = Vec::new();
            let mut i: usize = 0;
            let ghost srcs = files.sources.deep_view();
            while i < files.sources.len()
                invariant
                    i <= files.sources@.len(),
                    srcs == files.sources.deep_view(),
                    paths@.len() == i,
                    forall|j: int| 0 <= j < i ==> #[trigger] paths@[j]@ == srcs[j].path,
                decreases files.sources@.len() - i,
            {
                proof {
                    assert(srcs[i as int] == files.sources@[i as int].deep_view());
                }
                paths.push(copy_string(&files.sources[i].path));
                i = i + 1;
            }
            proof {
                assert(paths.deep_view() =~= srcs.map_values(|f: SourceFileView| f.path));
            }
            (paths, files.output.is_some())
        },
        Err(_) => {
            let paths: Vec<String> = Vec::new();
            proof {
                assert(paths.deep_view() =~= Seq::<Seq<char>>::empty());
            }
            (paths, false)
        },
    }
}

/// The paths whose configuration files apply to the gcc command run in `cwd` with
/// `args`: the working directory, then the sources it names.
pub fn config_paths(cwd: &str, args: &[String]) -> (res: Vec<String>)
    ensures
        res.deep_view() == spec_config_paths(cwd@, args.deep_view()),
{
    let (mut sources, _) = known_source_paths(cwd, args);
    let mut res: Vec<String> = Vec::new();
    res.push(cwd.to_owned());
    let ghost first = res.deep_view();
    let ghost rest = sources.deep_view();
    res.append(&mut sources);
    proof {
        assert(first =~= seq![cwd@]);
        assert(res.deep_view() =~= first + rest);
    }
    res
}

/// One of the paths is one whose command the configuration runs at once.
fn any_eager_path(config: &Config, paths: &Vec<String>) -> (res: bool)
    ensures
        res == exists|j: int|
            0 <= j < paths.deep_view().len() && any_matches(
                config@.eager_patterns,
                #[trigger] paths.deep_view()[j],
            ),
{
    let mut i: usize = 0;
    while i < paths.len()
        invariant
            i <= paths@.len(),
            forall|j: int|
                0 <= j < i ==> !any_matches(config@.eager_patterns, #[trigger] paths.deep_view()[j]),
        decreases paths@.len() - i,
    {
        proof {
            assert(paths.deep_view()[i as int] == paths@[i as int]@);
        }
        if config.is_eager_path(paths[i].as_str()) {
            return true;
        }
        i = i + 1;
    }
    false
}

/// The way the gcc command run in `cwd` with `args` is served under `config`; an error
/// where its arguments cannot be read and it is not run at once.
pub fn gcc_route(cwd: &str, args: &[String], config: &Config) -> (res: Result<GccRoute, Error>)
    ensures
        match res {
            Ok(r) => spec_gcc_route(cwd@, args.deep_view(), config@) == Ok::<GccRoute, ErrorView>(
                r,
            ),
            Err(e) => spec_gcc_route(cwd@, args.deep_view(), config@) == Err::<GccRoute, ErrorView>(
                e@,
            ),
        },
{
    let (sources, has_output) = known_source_paths(cwd, args);
    let eager_source = any_eager_path(config, &sources);
    if is_gcc_cmakescratch(args, cwd) || is_gcc_compiler_id_check(args, cwd) || !has_output
        || eager_source {
        return Ok(GccRoute::Eager);
    }
    proof {
        assert(!runs_eagerly(cwd@, args.deep_view(), config@));
    }
    match is_build_object_file(args) {
        Ok(true) => Ok(GccRoute::CompileObjectFile),
        Ok(false) => Ok(GccRoute::FinalLink),
        Err(e) => Err(e),
    }
}

} // verus!
