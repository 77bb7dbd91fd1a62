//! The arguments of a gcc invocation, read into their parts and written back.

use vstd::prelude::*;
use crate::code_language::{CodeLanguage, spec_from_gcc_x_arg, spec_to_gcc_x_arg};
use crate::error::{Error, ErrorView};
use crate::path_utils::{is_absolute, make_absolute_chars, spec_make_absolute};
use crate::source_file::{SourceFile, SourceFileView};
use crate::text::{chars_eq, chars_from, chars_of, is_prefix_of, push_string, append_strings, starts_with, string_from, string_of};

verus! {

/// What an argument of gcc is, judged by its text alone.
#[derive(Debug, PartialEq, Eq, Structural, Clone, Copy)]
pub enum ArgClass {
    Define,
    UserInclude,
    SystemInclude,
    LinkerList,
    Warning,
    Target,
    Machine,
    Pipe,
    Shared,
    PrintSysroot,
    Verbose,
    Aa,
    CxxFlag,
    EcxxFlag,
    OpenmpFlag,
    KeepDefines,
    Language,
    Include,
    FFlag,
    OptFlag,
    LangStd,
    DepGenerate,
    DepTarget,
    DepFile,
    Output,
    StopBeforeLink,
    StopBeforeAssemble,
    StopAfterPreprocessing,
    GFlag,
    Library,
    NoPie,
    LinkDir,
    Xlinker,
    Unknown,
    Source,
}

/// The class of an argument: a source file unless it starts with `-`, else by the letter
/// after the `-` and, where several flags share that letter, by the rest of the text.
#[verifier::opaque]
pub open spec fn spec_classify(a: Seq<char>) -> ArgClass {
    if a.len() == 0 || a[0] != '-' {
        ArgClass::Source
    } else if a.len() < 2 {
        ArgClass::Unknown
    } else if a[1] == 'D' {
        ArgClass::Define
    } else if a[1] == 'I' {
        ArgClass::UserInclude
    } else if a[1] == 'i' {
        if is_prefix_of(seq!['-', 'i', 's', 'y', 's', 't', 'e', 'm'], a) {
            ArgClass::SystemInclude
        } else if a == seq!['-', 'i', 'n', 'c', 'l', 'u', 'd', 'e'] {
            ArgClass::Include
        } else {
            ArgClass::Unknown
        }
    } else if a[1] == 'W' {
        if is_prefix_of(seq!['-', 'W', 'l', ','], a) {
            ArgClass::LinkerList
        } else {
            ArgClass::Warning
        }
    } else if a[1] == '-' {
        if is_prefix_of(seq!['-', '-', 't', 'a', 'r', 'g', 'e', 't'], a) {
            ArgClass::Target
        } else if a == seq!['-', '-', 'c', '+', '+'] {
            ArgClass::CxxFlag
        } else if a == seq!['-', '-', 'e', 'c', '+', '+'] {
            ArgClass::EcxxFlag
        } else if a == seq!['-', '-', 'o', 'p', 'e', 'n', 'm', 'p'] {
            ArgClass::OpenmpFlag
        } else {
            ArgClass::Unknown
        }
    } else if a[1] == 'm' {
        ArgClass::Machine
    } else if a[1] == 'p' {
        if a == seq!['-', 'p', 'i', 'p', 'e'] {
            ArgClass::Pipe
        } else if a == seq!['-', 'p', 'r', 'i', 'n', 't', '-', 's', 'y', 's', 'r', 'o', 'o', 't'] {
            ArgClass::PrintSysroot
        } else {
            ArgClass::Unknown
        }
    } else if a[1] == 's' {
        if a == seq!['-', 's', 'h', 'a', 'r', 'e', 'd'] {
            ArgClass::Shared
        } else if is_prefix_of(seq!['-', 's', 't', 'd', '='], a) {
            ArgClass::LangStd
        } else {
            ArgClass::Unknown
        }
    } else if a[1] == 'v' {
        if a.len() == 2 { ArgClass::Verbose } else { ArgClass::Unknown }
    } else if a[1] == 'A' {
        if a == seq!['-', 'A', 'a'] { ArgClass::Aa } else { ArgClass::Unknown }
    } else if a[1] == 'd' {
        if a == seq!['-', 'd', 'D'] { ArgClass::KeepDefines } else { ArgClass::Unknown }
    } else if a[1] == 'x' {
        if a.len() == 2 { ArgClass::Language } else { ArgClass::Unknown }
    } else if a[1] == 'f' {
        ArgClass::FFlag
    } else if a[1] == 'O' {
        ArgClass::OptFlag
    } else if a[1] == 'M' {
        if a == seq!['-', 'M', 'D'] {
            ArgClass::DepGenerate
        } else if a == seq!['-', 'M', 'T'] {
            ArgClass::DepTarget
        } else if a == seq!['-', 'M', 'F'] {
            ArgClass::DepFile
        } else {
            ArgClass::Unknown
        }
    } else if a[1] == 'o' {
        if a.len() == 2 { ArgClass::Output } else { ArgClass::Unknown }
    } else if a[1] == 'c' {
        if a.len() == 2 { ArgClass::StopBeforeLink } else { ArgClass::Unknown }
    } else if a[1] == 'S' {
        if a.len() == 2 { ArgClass::StopBeforeAssemble } else { ArgClass::Unknown }
    } else if a[1] == 'E' {
        if a.len() == 2 { ArgClass::StopAfterPreprocessing } else { ArgClass::Unknown }
    } else if a[1] == 'g' {
        ArgClass::GFlag
    } else if a[1] == 'l' {
        ArgClass::Library
    } else if a[1] == 'n' {
        if a == seq!['-', 'n', 'o', '-', 'p', 'i', 'e'] { ArgClass::NoPie } else { ArgClass::Unknown }
    } else if a[1] == 'L' {
        ArgClass::LinkDir
    } else if a[1] == 'X' {
        if is_prefix_of(seq!['-', 'X', 'l', 'i', 'n', 'k', 'e', 'r'], a) {
            ArgClass::Xlinker
        } else {
            ArgClass::Unknown
        }
    } else {
        ArgClass::Unknown
    }
}

/// The flags that take the argument after them as their value.
pub open spec fn takes_value(c: ArgClass) -> bool {
    c is SystemInclude || c is Language || c is Include || c is DepTarget || c is DepFile
        || c is Output || c is Xlinker
}

/// The pieces of a text between its commas, in order; a text without commas is one piece.
pub open spec fn split_commas(s: Seq<char>) -> Seq<Seq<char>>
    decreases s.len(),
{
    if s.len() == 0 {
        seq![Seq::empty()]
    } else {
        let init = split_commas(s.drop_last());
        if s.last() == ',' {
            init.push(Seq::empty())
        } else {
            init.update(init.len() - 1, init.last().push(s.last()))
        }
    }
}

/// The parts of a gcc invocation, as values of specifications.
#[verifier::ext_equal]
pub struct GccArgsView {
    pub sources: Seq<SourceFileView>,
    pub primary_output: Option<Seq<char>>,
    pub user_includes: Seq<Seq<char>>,
    pub system_includes: Seq<Seq<char>>,
    pub defines: Seq<Seq<char>>,
    pub warnings: Seq<Seq<char>>,
    pub machine_args: Seq<Seq<char>>,
    pub pipe: bool,
    pub f_flags: Seq<Seq<char>>,
    pub g_flags: Seq<Seq<char>>,
    pub opt_flags: Seq<Seq<char>>,
    pub lang_std: Option<Seq<char>>,
    pub depfile_generate: bool,
    pub depfile_output_path: Option<Seq<char>>,
    pub depfile_target_name: Option<Seq<char>>,
    pub stop_before_link: bool,
    pub stop_before_assemble: bool,
    pub stop_after_preprocessing: bool,
    pub shared: bool,
    pub libraries: Seq<Seq<char>>,
    pub no_pie: bool,
    pub link_dirs: Seq<Seq<char>>,
    pub linker_args: Seq<Seq<char>>,
    pub print_sysroot: bool,
    pub flag_v: bool,
    pub include_files: Seq<SourceFileView>,
    pub aa_flag: bool,
    pub target_flags: Seq<Seq<char>>,
    pub cxx_flag: bool,
    pub ecxx_flag: bool,
    pub openmp_flag: bool,
    pub use_link_group: bool,
    pub preprocess_keep_defines: bool,
}

/// Nothing set: no files, no flags.
pub open spec fn empty_gcc_args() -> GccArgsView {
    GccArgsView {
        sources: Seq::empty(),
        primary_output: None,
        user_includes: Seq::empty(),
        system_includes: Seq::empty(),
        defines: Seq::empty(),
        warnings: Seq::empty(),
        machine_args: Seq::empty(),
        pipe: false,
        f_flags: Seq::empty(),
        g_flags: Seq::empty(),
        opt_flags: Seq::empty(),
        lang_std: None,
        depfile_generate: false,
        depfile_output_path: None,
        depfile_target_name: None,
        stop_before_link: false,
        stop_before_assemble: false,
        stop_after_preprocessing: false,
        shared: false,
        libraries: Seq::empty(),
        no_pie: false,
        link_dirs: Seq::empty(),
        linker_args: Seq::empty(),
        print_sysroot: false,
        flag_v: false,
        include_files: Seq::empty(),
        aa_flag: false,
        target_flags: Seq::empty(),
        cxx_flag: false,
        ecxx_flag: false,
        openmp_flag: false,
        use_link_group: false,
        preprocess_keep_defines: false,
    }
}

/// What has been read so far, and the language that the last `-x` set.
#[verifier::ext_equal]
pub struct ParseState {
    pub args: GccArgsView,
    pub language: Option<CodeLanguage>,
}

/// The state before the first argument.
pub open spec fn initial_parse_state() -> ParseState {
    ParseState { args: empty_gcc_args(), language: None }
}

/// What an argument that stands alone adds, `cwd` being the directory that relative paths
/// are taken from and `lang` the language that the last `-x` set.
#[verifier::opaque]
pub open spec fn single_update(
    cwd: Seq<char>,
    c: ArgClass,
    a: Seq<char>,
    m: GccArgsView,
    lang: Option<CodeLanguage>,
) -> GccArgsView {
    match c {
        ArgClass::Define => GccArgsView { defines: m.defines.push(a.skip(2)), ..m },
        ArgClass::UserInclude => GccArgsView {
            user_includes: m.user_includes.push(spec_make_absolute(cwd, a.skip(2))),
            ..m
        },
        ArgClass::LinkerList => GccArgsView {
            linker_args: m.linker_args + split_commas(a.skip(4)),
            ..m
        },
        ArgClass::Warning => GccArgsView { warnings: m.warnings.push(a), ..m },
        ArgClass::Target => GccArgsView { target_flags: m.target_flags.push(a), ..m },
        ArgClass::Machine => GccArgsView { machine_args: m.machine_args.push(a), ..m },
        ArgClass::Pipe => GccArgsView { pipe: true, ..m },
        ArgClass::Shared => GccArgsView { shared: true, ..m },
        ArgClass::PrintSysroot => GccArgsView { print_sysroot: true, ..m },
        ArgClass::Verbose => GccArgsView { flag_v: true, ..m },
        ArgClass::Aa => GccArgsView { aa_flag: true, ..m },
        ArgClass::CxxFlag => GccArgsView { cxx_flag: true, ..m },
        ArgClass::EcxxFlag => GccArgsView { ecxx_flag: true, ..m },
        ArgClass::OpenmpFlag => GccArgsView { openmp_flag: true, ..m },
        ArgClass::KeepDefines => GccArgsView { preprocess_keep_defines: true, ..m },
        ArgClass::FFlag => GccArgsView { f_flags: m.f_flags.push(a), ..m },
        ArgClass::OptFlag => GccArgsView { opt_flags: m.opt_flags.push(a), ..m },
        ArgClass::LangStd => GccArgsView { lang_std: Some(a), ..m },
        ArgClass::DepGenerate => GccArgsView { depfile_generate: true, ..m },
        ArgClass::StopBeforeLink => GccArgsView { stop_before_link: true, ..m },
        ArgClass::StopBeforeAssemble => GccArgsView { stop_before_assemble: true, ..m },
        ArgClass::StopAfterPreprocessing => GccArgsView { stop_after_preprocessing: true, ..m },
        ArgClass::GFlag => GccArgsView { g_flags: m.g_flags.push(a), ..m },
        ArgClass::Library => GccArgsView { libraries: m.libraries.push(a.skip(2)), ..m },
        ArgClass::NoPie => GccArgsView { no_pie: true, ..m },
        ArgClass::LinkDir => GccArgsView {
            link_dirs: m.link_dirs.push(spec_make_absolute(cwd, a.skip(2))),
            ..m
        },
        ArgClass::Source => GccArgsView {
            sources: m.sources.push(
                SourceFileView { path: spec_make_absolute(cwd, a), language_override: lang },
            ),
            ..m
        },
        _ => m,
    }
}

/// What a flag that takes a value does with the value `v`.
#[verifier::opaque]
pub open spec fn value_update(
    cwd: Seq<char>,
    c: ArgClass,
    v: Seq<char>,
    st: ParseState,
) -> Result<ParseState, ErrorView> {
    let m = st.args;
    match c {
        ArgClass::SystemInclude => Ok(
            ParseState {
                args: GccArgsView {
                    system_includes: m.system_includes.push(spec_make_absolute(cwd, v)),
                    ..m
                },
                ..st
            },
        ),
        ArgClass::Language => match spec_from_gcc_x_arg(v) {
            Some(l) => Ok(ParseState { language: l, ..st }),
            None => Err(ErrorView::UnknownLanguageName(v)),
        },
        ArgClass::Include => Ok(
            ParseState {
                args: GccArgsView {
                    include_files: m.include_files.push(
                        SourceFileView {
                            path: spec_make_absolute(cwd, v),
                            language_override: st.language,
                        },
                    ),
                    ..m
                },
                ..st
            },
        ),
        ArgClass::DepTarget => Ok(
            ParseState { args: GccArgsView { depfile_target_name: Some(v), ..m }, ..st },
        ),
        ArgClass::DepFile => Ok(
            ParseState {
                args: GccArgsView { depfile_output_path: Some(spec_make_absolute(cwd, v)), ..m },
                ..st
            },
        ),
        ArgClass::Output => Ok(
            ParseState {
                args: GccArgsView { primary_output: Some(spec_make_absolute(cwd, v)), ..m },
                ..st
            },
        ),
        ArgClass::Xlinker => Ok(
            ParseState { args: GccArgsView { linker_args: m.linker_args.push(v), ..m }, ..st },
        ),
        _ => Ok(st),
    }
}

/// Reads the argument at the front of `toks`: how many arguments it uses and the state
/// after it, or why it cannot be read.
#[verifier::opaque]
pub open spec fn spec_step(cwd: Seq<char>, toks: Seq<Seq<char>>, st: ParseState) -> Result<
    (int, ParseState),
    ErrorView,
> {
    let a = toks[0];
    let c = spec_classify(a);
    if c is Unknown {
        Err(ErrorView::UnknownFlag(a))
    } else if takes_value(c) {
        if toks.len() < 2 {
            Err(ErrorView::MissingArgument(a))
        } else {
            match value_update(cwd, c, toks[1], st) {
                Ok(next) => Ok((2, next)),
                Err(e) => Err(e),
            }
        }
    } else {
        Ok(
            (
                1,
                ParseState { args: single_update(cwd, c, a, st.args, st.language), ..st },
            ),
        )
    }
}

/// Reads all of `toks`, starting from `st`.
#[verifier::opaque]
pub open spec fn spec_run(cwd: Seq<char>, toks: Seq<Seq<char>>, st: ParseState) -> Result<
    ParseState,
    ErrorView,
>
    decreases toks.len(),
{
    if toks.len() == 0 {
        Ok(st)
    } else {
        match spec_step(cwd, toks, st) {
            Err(e) => Err(e),
            Ok((k, next)) => if 0 < k <= toks.len() {
                spec_run(cwd, toks.skip(k), next)
            } else {
                Ok(next)
            },
        }
    }
}

/// The parts of the gcc invocation with arguments `args`, run in the directory `cwd`.
pub open spec fn spec_parse_gcc(cwd: Seq<char>, args: Seq<Seq<char>>) -> Result<
    GccArgsView,
    ErrorView,
> {
    match spec_run(cwd, args, initial_parse_state()) {
        Ok(st) => Ok(st.args),
        Err(e) => Err(e),
    }
}

/// The flag `f` where `b` holds, else nothing.
pub open spec fn flag_arg(b: bool, f: Seq<char>) -> Seq<Seq<char>> {
    if b {
        seq![f]
    } else {
        Seq::empty()
    }
}

/// The argument held, if any.
pub open spec fn opt_arg(o: Option<Seq<char>>) -> Seq<Seq<char>> {
    match o {
        Some(v) => seq![v],
        None => Seq::empty(),
    }
}

/// The flag `f` followed by the value held, if any.
pub open spec fn opt_pair(f: Seq<char>, o: Option<Seq<char>>) -> Seq<Seq<char>> {
    match o {
        Some(v) => seq![f, v],
        None => Seq::empty(),
    }
}

/// Each item with `p` written before it, as one argument.
pub open spec fn prefixed(p: Seq<char>, items: Seq<Seq<char>>) -> Seq<Seq<char>> {
    items.map_values(|x: Seq<char>| p + x)
}

/// Each item after its own flag `f`, as two arguments.
pub open spec fn paired(f: Seq<char>, items: Seq<Seq<char>>) -> Seq<Seq<char>>
    decreases items.len(),
{
    if items.len() == 0 {
        Seq::empty()
    } else {
        paired(f, items.drop_last()) + seq![f, items.last()]
    }
}

/// The name that `-x` takes for a language, `none` for no language.
pub open spec fn language_name(l: Option<CodeLanguage>) -> Seq<char> {
    match l {
        Some(x) => spec_to_gcc_x_arg(x),
        None => seq!['n', 'o', 'n', 'e'],
    }
}

/// The `-x` that changes the language from `last` to `new`, where they differ.
pub open spec fn language_switch(last: Option<CodeLanguage>, new: Option<CodeLanguage>) -> Seq<
    Seq<char>,
> {
    if last == new {
        Seq::empty()
    } else {
        seq![seq!['-', 'x'], language_name(new)]
    }
}

/// The language in force after the files, `lang` having been in force before them.
pub open spec fn language_after(files: Seq<SourceFileView>, lang: Option<CodeLanguage>) -> Option<
    CodeLanguage,
> {
    if files.len() == 0 {
        lang
    } else {
        files.last().language_override
    }
}

/// The flag that has gcc read a file before the source, where `forced` holds.
pub open spec fn file_marker(forced: bool) -> Seq<Seq<char>> {
    if forced {
        seq![seq!['-', 'i', 'n', 'c', 'l', 'u', 'd', 'e']]
    } else {
        Seq::empty()
    }
}

/// The files as arguments, each after the `-x` that gives it its language where that
/// changes, and after the flag that has gcc read it first where `forced` holds; `lang`
/// is in force before them.
pub open spec fn file_args(files: Seq<SourceFileView>, lang: Option<CodeLanguage>, forced: bool) -> Seq<
    Seq<char>,
>
    decreases files.len(),
{
    if files.len() == 0 {
        Seq::empty()
    } else {
        let init = files.drop_last();
        file_args(init, lang, forced) + language_switch(
            language_after(init, lang),
            files.last().language_override,
        ) + file_marker(forced) + seq![files.last().path]
    }
}

/// The arguments that state the parts `m`, in the order gcc is given them.
pub open spec fn spec_to_args(m: GccArgsView) -> Seq<Seq<char>> {
    flag_arg(m.stop_before_link, seq!['-', 'c'])
        + flag_arg(m.stop_before_assemble, seq!['-', 'S'])
        + flag_arg(m.stop_after_preprocessing, seq!['-', 'E'])
        + flag_arg(m.pipe, seq!['-', 'p', 'i', 'p', 'e'])
        + flag_arg(m.shared, seq!['-', 's', 'h', 'a', 'r', 'e', 'd'])
        + flag_arg(m.no_pie, seq!['-', 'n', 'o', '-', 'p', 'i', 'e'])
        + flag_arg(m.preprocess_keep_defines, seq!['-', 'd', 'D'])
        + flag_arg(m.print_sysroot, seq!['-', 'p', 'r', 'i', 'n', 't', '-', 's', 'y', 's', 'r', 'o', 'o', 't'])
        + m.target_flags
        + flag_arg(m.aa_flag, seq!['-', 'A', 'a'])
        + flag_arg(m.flag_v, seq!['-', 'v'])
        + flag_arg(m.cxx_flag, seq!['-', '-', 'c', '+', '+'])
        + flag_arg(m.ecxx_flag, seq!['-', '-', 'e', 'c', '+', '+'])
        + flag_arg(m.openmp_flag, seq!['-', '-', 'o', 'p', 'e', 'n', 'm', 'p'])
        + opt_arg(m.lang_std)
        + m.opt_flags
        + m.g_flags
        + m.f_flags
        + prefixed(seq!['-', 'l'], m.libraries)
        + flag_arg(m.depfile_generate, seq!['-', 'M', 'D'])
        + opt_pair(seq!['-', 'M', 'T'], m.depfile_target_name)
        + opt_pair(seq!['-', 'M', 'F'], m.depfile_output_path)
        + m.warnings
        + m.machine_args
        + prefixed(seq!['-', 'D'], m.defines)
        + prefixed(seq!['-', 'I'], m.user_includes)
        + paired(seq!['-', 'i', 's', 'y', 's', 't', 'e', 'm'], m.system_includes)
        + prefixed(seq!['-', 'L'], m.link_dirs)
        + paired(seq!['-', 'X', 'l', 'i', 'n', 'k', 'e', 'r'], m.linker_args)
        + file_args(m.include_files, None, true)
        + opt_pair(seq!['-', 'o'], m.primary_output)
        + flag_arg(m.use_link_group, seq!['-', 'W', 'l', ',', '-', '-', 's', 't', 'a', 'r', 't', '-', 'g', 'r', 'o', 'u', 'p'])
        + file_args(m.sources, language_after(m.include_files, None), false)
        + flag_arg(m.use_link_group, seq!['-', 'W', 'l', ',', '-', '-', 'e', 'n', 'd', '-', 'g', 'r', 'o', 'u', 'p'])
}

/// The parts of a gcc invocation.
#[derive(Debug, PartialEq, Eq, Clone, Default)]
pub struct GCCArgs {
    pub sources: Vec<SourceFile>,
    pub primary_output: Option<String>,
    pub user_includes: Vec<String>,
    pub system_includes: Vec<String>,
    pub defines: Vec<String>,
    pub warnings: Vec<String>,
    pub machine_args: Vec<String>,
    pub pipe: bool,
    pub f_flags: Vec<String>,
    pub g_flags: Vec<String>,
    pub opt_flags: Vec<String>,
    pub lang_std: Option<String>,
    pub depfile_generate: bool,
    pub depfile_output_path: Option<String>,
    pub depfile_target_name: Option<String>,
    pub stop_before_link: bool,
    pub stop_before_assemble: bool,
    pub stop_after_preprocessing: bool,
    pub shared: bool,
    pub libraries: Vec<String>,
    pub no_pie: bool,
    pub link_dirs: Vec<String>,
    pub linker_args: Vec<String>,
    pub print_sysroot: bool,
    pub flag_v: bool,
    pub include_files: Vec<SourceFile>,
    pub aa_flag: bool,
    pub target_flags: Vec<String>,
    pub cxx_flag: bool,
    pub ecxx_flag: bool,
    pub openmp_flag: bool,
    pub use_link_group: bool,
    pub preprocess_keep_defines: bool,
}

impl View for GCCArgs {
    type V = GccArgsView;

    open spec fn view(&self) -> GccArgsView {
        GccArgsView {
            sources: self.sources.deep_view(),
            primary_output: self.primary_output.deep_view(),
            user_includes: self.user_includes.deep_view(),
            system_includes: self.system_includes.deep_view(),
            defines: self.defines.deep_view(),
            warnings: self.warnings.deep_view(),
            machine_args: self.machine_args.deep_view(),
            pipe: self.pipe,
            f_flags: self.f_flags.deep_view(),
            g_flags: self.g_flags.deep_view(),
            opt_flags: self.opt_flags.deep_view(),
            lang_std: self.lang_std.deep_view(),
            depfile_generate: self.depfile_generate,
            depfile_output_path: self.depfile_output_path.deep_view(),
            depfile_target_name: self.depfile_target_name.deep_view(),
            stop_before_link: self.stop_before_link,
            stop_before_assemble: self.stop_before_assemble,
            stop_after_preprocessing: self.stop_after_preprocessing,
            shared: self.shared,
            libraries: self.libraries.deep_view(),
            no_pie: self.no_pie,
            link_dirs: self.link_dirs.deep_view(),
            linker_args: self.linker_args.deep_view(),
            print_sysroot: self.print_sysroot,
            flag_v: self.flag_v,
            include_files: self.include_files.deep_view(),
            aa_flag: self.aa_flag,
            target_flags: self.target_flags.deep_view(),
            cxx_flag: self.cxx_flag,
            ecxx_flag: self.ecxx_flag,
            openmp_flag: self.openmp_flag,
            use_link_group: self.use_link_group,
            preprocess_keep_defines: self.preprocess_keep_defines,
        }
    }
}

/// The class of an argument, as [`spec_classify`] states it.
pub fn classify(a: &[char]) -> (res: ArgClass)
    ensures
        res == spec_classify(a@),
{
    proof {
        reveal(spec_classify);
    }
    if a.len() == 0 || a[0] != '-' {
        return ArgClass::Source;
    }
    if a.len() < 2 {
        return ArgClass::Unknown;
    }
    let c = a[1];
    if c == 'D' {
        ArgClass::Define
    } else if c == 'I' {
        ArgClass::UserInclude
    } else if c == 'i' {
        if starts_with(a, &['-', 'i', 's', 'y', 's', 't', 'e', 'm']) {
            ArgClass::SystemInclude
        } else if chars_eq(a, &['-', 'i', 'n', 'c', 'l', 'u', 'd', 'e']) {
            ArgClass::Include
        } else {
            ArgClass::Unknown
        }
    } else if c == 'W' {
        if starts_with(a, &['-', 'W', 'l', ',']) {
            ArgClass::LinkerList
        } else {
            ArgClass::Warning
        }
    } else if c == '-' {
        if starts_with(a, &['-', '-', 't', 'a', 'r', 'g', 'e', 't']) {
            ArgClass::Target
        } else if chars_eq(a, &['-', '-', 'c', '+', '+']) {
            ArgClass::CxxFlag
        } else if chars_eq(a, &['-', '-', 'e', 'c', '+', '+']) {
            ArgClass::EcxxFlag
        } else if chars_eq(a, &['-', '-', 'o', 'p', 'e', 'n', 'm', 'p']) {
            ArgClass::OpenmpFlag
        } else {
            ArgClass::Unknown
        }
    } else if c == 'm' {
        ArgClass::Machine
    } else if c == 'p' {
        if chars_eq(a, &['-', 'p', 'i', 'p', 'e']) {
            ArgClass::Pipe
        } else if chars_eq(a, &['-', 'p', 'r', 'i', 'n', 't', '-', 's', 'y', 's', 'r', 'o', 'o', 't']) {
            ArgClass::PrintSysroot
        } else {
            ArgClass::Unknown
        }
    } else if c == 's' {
        if chars_eq(a, &['-', 's', 'h', 'a', 'r', 'e', 'd']) {
            ArgClass::Shared
        } else if starts_with(a, &['-', 's', 't', 'd', '=']) {
            ArgClass::LangStd
        } else {
            ArgClass::Unknown
        }
    } else if c == 'v' {
        if a.len() == 2 { ArgClass::Verbose } else { ArgClass::Unknown }
    } else if c == 'A' {
        if chars_eq(a, &['-', 'A', 'a']) { ArgClass::Aa } else { ArgClass::Unknown }
    } else if c == 'd' {
        if chars_eq(a, &['-', 'd', 'D']) { ArgClass::KeepDefines } else { ArgClass::Unknown }
    } else if c == 'x' {
        if a.len() == 2 { ArgClass::Language } else { ArgClass::Unknown }
    } else if c == 'f' {
        ArgClass::FFlag
    } else if c == 'O' {
        ArgClass::OptFlag
    } else if c == 'M' {
        if chars_eq(a, &['-', 'M', 'D']) {
            ArgClass::DepGenerate
        } else if chars_eq(a, &['-', 'M', 'T']) {
            ArgClass::DepTarget
        } else if chars_eq(a, &['-', 'M', 'F']) {
            ArgClass::DepFile
        } else {
            ArgClass::Unknown
        }
    } else if c == 'o' {
        if a.len() == 2 { ArgClass::Output } else { ArgClass::Unknown }
    } else if c == 'c' {
        if a.len() == 2 { ArgClass::StopBeforeLink } else { ArgClass::Unknown }
    } else if c == 'S' {
        if a.len() == 2 { ArgClass::StopBeforeAssemble } else { ArgClass::Unknown }
    } else if c == 'E' {
        if a.len() == 2 { ArgClass::StopAfterPreprocessing } else { ArgClass::Unknown }
    } else if c == 'g' {
        ArgClass::GFlag
    } else if c == 'l' {
        ArgClass::Library
    } else if c == 'n' {
        if chars_eq(a, &['-', 'n', 'o', '-', 'p', 'i', 'e']) { ArgClass::NoPie } else { ArgClass::Unknown }
    } else if c == 'L' {
        ArgClass::LinkDir
    } else if c == 'X' {
        if starts_with(a, &['-', 'X', 'l', 'i', 'n', 'k', 'e', 'r']) {
            ArgClass::Xlinker
        } else {
            ArgClass::Unknown
        }
    } else {
        ArgClass::Unknown
    }
}

/// The pieces of a text between its commas.
pub fn split_at_commas(s: &[char]) -> (res: Vec<String>)
    ensures
        res.deep_view() == split_commas(s@),
{
    let mut pieces: Vec<String> = Vec::new();
    let mut cur = String::new();
    let mut i: usize = 0;
    while i < s.len()
        invariant
            i <= s@.len(),
            pieces.deep_view().push(cur@) == split_commas(s@.take(i as int)),
        decreases s@.len() - i,
    {
        proof {
            assert(s@.take(i as int + 1).drop_last() =~= s@.take(i as int));
        }
        if s[i] == ',' {
            let done = cur;
            push_string(&mut pieces, done);
            cur = String::new();
            proof {
                assert(pieces.deep_view().push(cur@) =~= split_commas(s@.take(i as int + 1)));
            }
        } else {
            cur.push(s[i]);
            proof {
                assert(pieces.deep_view().push(cur@) =~= split_commas(s@.take(i as int + 1)));
            }
        }
        i = i + 1;
    }
    proof {
        assert(s@.take(s@.len() as int) =~= s@);
    }
    push_string(&mut pieces, cur);
    pieces
}

fn push_flag(args: &mut Vec<String>, b: bool, f: &[char])
    ensures
        final(args).deep_view() == old(args).deep_view() + flag_arg(b, f@),
{
    if b {
        push_string(args, string_of(f));
    }
    proof {
        assert(args.deep_view() =~= old(args).deep_view() + flag_arg(b, f@));
    }
}

fn push_all(args: &mut Vec<String>, items: &Vec<String>)
    ensures
        final(args).deep_view() == old(args).deep_view() + items.deep_view(),
{
    append_strings(args, items.clone());
}

fn push_opt(args: &mut Vec<String>, o: &Option<String>)
    ensures
        final(args).deep_view() == old(args).deep_view() + opt_arg(o.deep_view()),
{
    match o {
        Some(v) => push_string(args, v.clone()),
        None => {},
    }
    proof {
        assert(args.deep_view() =~= old(args).deep_view() + opt_arg(o.deep_view()));
    }
}

fn push_opt_pair(args: &mut Vec<String>, f: &[char], o: &Option<String>)
    ensures
        final(args).deep_view() == old(args).deep_view() + opt_pair(f@, o.deep_view()),
{
    match o {
        Some(v) => {
            push_string(args, string_of(f));
            push_string(args, v.clone());
        },
        None => {},
    }
    proof {
        assert(args.deep_view() =~= old(args).deep_view() + opt_pair(f@, o.deep_view()));
    }
}

fn push_prefixed(args: &mut Vec<String>, p: &[char], items: &Vec<String>)
    ensures
        final(args).deep_view() == old(args).deep_view() + prefixed(p@, items.deep_view()),
{
    let mut i: usize = 0;
    while i < items.len()
        invariant
            i <= items@.len(),
            args.deep_view() == old(args).deep_view() + prefixed(p@, items.deep_view().take(i as int)),
        decreases items@.len() - i,
    {
        let mut combined = string_of(p);
        crate::text::push_str(&mut combined, items[i].as_str());
        push_string(args, combined);
        proof {
            assert(prefixed(p@, items.deep_view().take(i as int + 1)) =~= prefixed(
                p@,
                items.deep_view().take(i as int),
            ).push(p@ + items@[i as int]@));
        }
        i = i + 1;
    }
    proof {
        assert(items.deep_view().take(items@.len() as int) =~= items.deep_view());
    }
}

fn push_paired(args: &mut Vec<String>, f: &[char], items: &Vec<String>)
    ensures
        final(args).deep_view() == old(args).deep_view() + paired(f@, items.deep_view()),
{
    let mut i: usize = 0;
    while i < items.len()
        invariant
            i <= items@.len(),
            args.deep_view() == old(args).deep_view() + paired(f@, items.deep_view().take(i as int)),
        decreases items@.len() - i,
    {
        push_string(args, string_of(f));
        push_string(args, items[i].clone());
        proof {
            let t = items.deep_view().take(i as int + 1);
            assert(t.drop_last() =~= items.deep_view().take(i as int));
            assert(args.deep_view() =~= old(args).deep_view() + paired(f@, t));
        }
        i = i + 1;
    }
    proof {
        assert(items.deep_view().take(items@.len() as int) =~= items.deep_view());
    }
}

fn language_name_exec(l: Option<CodeLanguage>) -> (res: String)
    ensures
        res@ == language_name(l),
{
    match l {
        Some(x) => {
            let name = x.to_gcc_x_arg();
            chars_to_string(name)
        },
        None => string_of(&['n', 'o', 'n', 'e']),
    }
}

fn chars_to_string(s: &str) -> (res: String)
    ensures
        res@ == s@,
{
    let cs = chars_of(s);
    string_of(cs.as_slice())
}

fn push_files(
    args: &mut Vec<String>,
    files: &Vec<SourceFile>,
    lang: Option<CodeLanguage>,
    forced: bool,
) -> (res: Option<CodeLanguage>)
    ensures
        final(args).deep_view() == old(args).deep_view() + file_args(files.deep_view(), lang, forced),
        res == language_after(files.deep_view(), lang),
{
    let mut last = lang;
    let mut i: usize = 0;
    while i < files.len()
        invariant
            i <= files@.len(),
            last == language_after(files.deep_view().take(i as int), lang),
            args.deep_view() == old(args).deep_view() + file_args(
                files.deep_view().take(i as int),
                lang,
                forced,
            ),
        decreases files@.len() - i,
    {
        let f = &files[i];
        let ghost before = args.deep_view();
        if last != f.language_override {
            push_string(args, string_of(&['-', 'x']));
            push_string(args, language_name_exec(f.language_override));
            last = f.language_override;
        }
        if forced {
            push_string(args, string_of(&['-', 'i', 'n', 'c', 'l', 'u', 'd', 'e']));
        }
        push_string(args, f.path.clone());
        proof {
            let t = files.deep_view().take(i as int + 1);
            assert(t.drop_last() =~= files.deep_view().take(i as int));
            assert(args.deep_view() =~= old(args).deep_view() + file_args(t, lang, forced));
        }
        i = i + 1;
    }
    proof {
        assert(files.deep_view().take(files@.len() as int) =~= files.deep_view());
    }
    last
}

fn push_source(v: &mut Vec<SourceFile>, f: SourceFile)
    ensures
        final(v).deep_view() == old(v).deep_view().push(f@),
{
    v.push(f);
    proof {
        assert(v.deep_view() =~= old(v).deep_view().push(f@));
    }
}

impl GCCArgs {
    /// No files and no flags.
    pub fn empty() -> (res: GCCArgs)
        ensures
            res@ == empty_gcc_args(),
    {
        let res = GCCArgs {
            sources: Vec::new(),
            primary_output: None,
            user_includes: Vec::new(),
            system_includes: Vec::new(),
            defines: Vec::new(),
            warnings: Vec::new(),
            machine_args: Vec::new(),
            pipe: false,
            f_flags: Vec::new(),
            g_flags: Vec::new(),
            opt_flags: Vec::new(),
            lang_std: None,
            depfile_generate: false,
            depfile_output_path: None,
            depfile_target_name: None,
            stop_before_link: false,
            stop_before_assemble: false,
            stop_after_preprocessing: false,
            shared: false,
            libraries: Vec::new(),
            no_pie: false,
            link_dirs: Vec::new(),
            linker_args: Vec::new(),
            print_sysroot: false,
            flag_v: false,
            include_files: Vec::new(),
            aa_flag: false,
            target_flags: Vec::new(),
            cxx_flag: false,
            ecxx_flag: false,
            openmp_flag: false,
            use_link_group: false,
            preprocess_keep_defines: false,
        };
        proof {
            assert(res@ =~= empty_gcc_args());
        }
        res
    }

    /// Adds what an argument that stands alone says.
    fn add_define(self, cwd: &[char], a: &[char], lang: Option<CodeLanguage>) -> (res: GCCArgs)
        requires
            a@.len() >= 2,
        ensures
            res@ == single_update(cwd@, ArgClass::Define, a@, self@, lang),
    {
        proof {
            reveal(single_update);
        }
        let mut s = self;
        push_string(&mut s.defines, string_from(a, 2));
        s
    }

    fn add_user_include(self, cwd: &[char], a: &[char], lang: Option<CodeLanguage>) -> (res: GCCArgs)
        requires
            a@.len() >= 2,
        ensures
            res@ == single_update(cwd@, ArgClass::UserInclude, a@, self@, lang),
    {
        proof {
            reveal(single_update);
        }
        let mut s = self;
        let rest = chars_from(a, 2);
        push_string(&mut s.user_includes, make_absolute_chars(cwd, rest.as_slice()));
        s
    }

    fn add_linker_list(self, cwd: &[char], a: &[char], lang: Option<CodeLanguage>) -> (res: GCCArgs)
        requires
            a@.len() >= 4,
        ensures
            res@ == single_update(cwd@, ArgClass::LinkerList, a@, self@, lang),
    {
        proof {
            reveal(single_update);
        }
        let mut s = self;
        let rest = chars_from(a, 4);
        append_strings(&mut s.linker_args, split_at_commas(rest.as_slice()));
        s
    }

    fn add_warning(self, cwd: &[char], a: &[char], lang: Option<CodeLanguage>) -> (res: GCCArgs)
        ensures
            res@ == single_update(cwd@, ArgClass::Warning, a@, self@, lang),
    {
        proof {
            reveal(single_update);
        }
        let mut s = self;
        push_string(&mut s.warnings, string_of(a));
        s
    }

    fn add_target(self, cwd: &[char], a: &[char], lang: Option<CodeLanguage>) -> (res: GCCArgs)
        ensures
            res@ == single_update(cwd@, ArgClass::Target, a@, self@, lang),
    {
        proof {
            reveal(single_update);
        }
        let mut s = self;
        push_string(&mut s.target_flags, string_of(a));
        s
    }

    fn add_machine_arg(self, cwd: &[char], a: &[char], lang: Option<CodeLanguage>) -> (res: GCCArgs)
        ensures
            res@ == single_update(cwd@, ArgClass::Machine, a@, self@, lang),
    {
        proof {
            reveal(single_update);
        }
        let mut s = self;
        push_string(&mut s.machine_args, string_of(a));
        s
    }

    fn set_pipe(self, cwd: &[char], a: &[char], lang: Option<CodeLanguage>) -> (res: GCCArgs)
        ensures
            res@ == single_update(cwd@, ArgClass::Pipe, a@, self@, lang),
    {
        proof {
            reveal(single_update);
        }
        let mut s = self;
        s.pipe = true;
        s
    }

    fn set_shared(self, cwd: &[char], a: &[char], lang: Option<CodeLanguage>) -> (res: GCCArgs)
        ensures
            res@ == single_update(cwd@, ArgClass::Shared, a@, self@, lang),
    {
        proof {
            reveal(single_update);
        }
        let mut s = self;
        s.shared = true;
        s
    }

    fn set_print_sysroot(self, cwd: &[char], a: &[char], lang: Option<CodeLanguage>) -> (res: GCCArgs)
        ensures
            res@ == single_update(cwd@, ArgClass::PrintSysroot, a@, self@, lang),
    {
        proof {
            reveal(single_update);
        }
        let mut s = self;
        s.print_sysroot = true;
        s
    }

    fn set_verbose(self, cwd: &[char], a: &[char], lang: Option<CodeLanguage>) -> (res: GCCArgs)
        ensures
            res@ == single_update(cwd@, ArgClass::Verbose, a@, self@, lang),
    {
        proof {
            reveal(single_update);
        }
        let mut s = self;
        s.flag_v = true;
        s
    }

    fn set_aa(self, cwd: &[char], a: &[char], lang: Option<CodeLanguage>) -> (res: GCCArgs)
        ensures
            res@ == single_update(cwd@, ArgClass::Aa, a@, self@, lang),
    {
        proof {
            reveal(single_update);
        }
        let mut s = self;
        s.aa_flag = true;
        s
    }

    fn set_cxx(self, cwd: &[char], a: &[char], lang: Option<CodeLanguage>) -> (res: GCCArgs)
        ensures
            res@ == single_update(cwd@, ArgClass::CxxFlag, a@, self@, lang),
    {
        proof {
            reveal(single_update);
        }
        let mut s = self;
        s.cxx_flag = true;
        s
    }

    fn set_ecxx(self, cwd: &[char], a: &[char], lang: Option<CodeLanguage>) -> (res: GCCArgs)
        ensures
            res@ == single_update(cwd@, ArgClass::EcxxFlag, a@, self@, lang),
    {
        proof {
            reveal(single_update);
        }
        let mut s = self;
        s.ecxx_flag = true;
        s
    }

    fn set_openmp(self, cwd: &[char], a: &[char], lang: Option<CodeLanguage>) -> (res: GCCArgs)
        ensures
            res@ == single_update(cwd@, ArgClass::OpenmpFlag, a@, self@, lang),
    {
        proof {
            reveal(single_update);
        }
        let mut s = self;
        s.openmp_flag = true;
        s
    }

    fn set_keep_defines(self, cwd: &[char], a: &[char], lang: Option<CodeLanguage>) -> (res: GCCArgs)
        ensures
            res@ == single_update(cwd@, ArgClass::KeepDefines, a@, self@, lang),
    {
        proof {
            reveal(single_update);
        }
        let mut s = self;
        s.preprocess_keep_defines = true;
        s
    }

    fn add_f_flag(self, cwd: &[char], a: &[char], lang: Option<CodeLanguage>) -> (res: GCCArgs)
        ensures
            res@ == single_update(cwd@, ArgClass::FFlag, a@, self@, lang),
    {
        proof {
            reveal(single_update);
        }
        let mut s = self;
        push_string(&mut s.f_flags, string_of(a));
        s
    }

    fn add_opt_flag(self, cwd: &[char], a: &[char], lang: Option<CodeLanguage>) -> (res: GCCArgs)
        ensures
            res@ == single_update(cwd@, ArgClass::OptFlag, a@, self@, lang),
    {
        proof {
            reveal(single_update);
        }
        let mut s = self;
        push_string(&mut s.opt_flags, string_of(a));
        s
    }

    fn set_lang_std(self, cwd: &[char], a: &[char], lang: Option<CodeLanguage>) -> (res: GCCArgs)
        ensures
            res@ == single_update(cwd@, ArgClass::LangStd, a@, self@, lang),
    {
        proof {
            reveal(single_update);
        }
        let mut s = self;
        s.lang_std = Some(string_of(a));
        s
    }

    fn set_depfile_generate(self, cwd: &[char], a: &[char], lang: Option<CodeLanguage>) -> (res: GCCArgs)
        ensures
            res@ == single_update(cwd@, ArgClass::DepGenerate, a@, self@, lang),
    {
        proof {
            reveal(single_update);
        }
        let mut s = self;
        s.depfile_generate = true;
        s
    }

    fn set_stop_before_link(self, cwd: &[char], a: &[char], lang: Option<CodeLanguage>) -> (res: GCCArgs)
        ensures
            res@ == single_update(cwd@, ArgClass::StopBeforeLink, a@, self@, lang),
    {
        proof {
            reveal(single_update);
        }
        let mut s = self;
        s.stop_before_link = true;
        s
    }

    fn set_stop_before_assemble(self, cwd: &[char], a: &[char], lang: Option<CodeLanguage>) -> (res: GCCArgs)
        ensures
            res@ == single_update(cwd@, ArgClass::StopBeforeAssemble, a@, self@, lang),
    {
        proof {
            reveal(single_update);
        }
        let mut s = self;
        s.stop_before_assemble = true;
        s
    }

    fn set_stop_after_preprocessing(self, cwd: &[char], a: &[char], lang: Option<CodeLanguage>) -> (res: GCCArgs)
        ensures
            res@ == single_update(cwd@, ArgClass::StopAfterPreprocessing, a@, self@, lang),
    {
        proof {
            reveal(single_update);
        }
        let mut s = self;
        s.stop_after_preprocessing = true;
        s
    }

    fn add_g_flag(self, cwd: &[char], a: &[char], lang: Option<CodeLanguage>) -> (res: GCCArgs)
        ensures
            res@ == single_update(cwd@, ArgClass::GFlag, a@, self@, lang),
    {
        proof {
            reveal(single_update);
        }
        let mut s = self;
        push_string(&mut s.g_flags, string_of(a));
        s
    }

    fn add_library(self, cwd: &[char], a: &[char], lang: Option<CodeLanguage>) -> (res: GCCArgs)
        requires
            a@.len() >= 2,
        ensures
            res@ == single_update(cwd@, ArgClass::Library, a@, self@, lang),
    {
        proof {
            reveal(single_update);
        }
        let mut s = self;
        push_string(&mut s.libraries, string_from(a, 2));
        s
    }

    fn set_no_pie(self, cwd: &[char], a: &[char], lang: Option<CodeLanguage>) -> (res: GCCArgs)
        ensures
            res@ == single_update(cwd@, ArgClass::NoPie, a@, self@, lang),
    {
        proof {
            reveal(single_update);
        }
        let mut s = self;
        s.no_pie = true;
        s
    }

    fn add_link_dir(self, cwd: &[char], a: &[char], lang: Option<CodeLanguage>) -> (res: GCCArgs)
        requires
            a@.len() >= 2,
        ensures
            res@ == single_update(cwd@, ArgClass::LinkDir, a@, self@, lang),
    {
        proof {
            reveal(single_update);
        }
        let mut s = self;
        let rest = chars_from(a, 2);
        push_string(&mut s.link_dirs, make_absolute_chars(cwd, rest.as_slice()));
        s
    }

    fn add_source(self, cwd: &[char], a: &[char], lang: Option<CodeLanguage>) -> (res: GCCArgs)
        ensures
            res@ == single_update(cwd@, ArgClass::Source, a@, self@, lang),
    {
        proof {
            reveal(single_update);
        }
        let mut s = self;
        let f = SourceFile { path: make_absolute_chars(cwd, a), language_override: lang };
        push_source(&mut s.sources, f);
        s
    }

    /// Adds what an argument that stands alone says.
    fn with_single(
        self,
        cwd: &[char],
        c: ArgClass,
        a: &[char],
        lang: Option<CodeLanguage>,
    ) -> (res: GCCArgs)
        requires
            c == spec_classify(a@),
            !takes_value(c),
            !(c is Unknown),
        ensures
            res@ == single_update(cwd@, c, a@, self@, lang),
    {
        proof {
            lemma_classify_facts(a@);
        }
        match c {
            ArgClass::Define => self.add_define(cwd, a, lang),
            ArgClass::UserInclude => self.add_user_include(cwd, a, lang),
            ArgClass::LinkerList => self.add_linker_list(cwd, a, lang),
            ArgClass::Warning => self.add_warning(cwd, a, lang),
            ArgClass::Target => self.add_target(cwd, a, lang),
            ArgClass::Machine => self.add_machine_arg(cwd, a, lang),
            ArgClass::Pipe => self.set_pipe(cwd, a, lang),
            ArgClass::Shared => self.set_shared(cwd, a, lang),
            ArgClass::PrintSysroot => self.set_print_sysroot(cwd, a, lang),
            ArgClass::Verbose => self.set_verbose(cwd, a, lang),
            ArgClass::Aa => self.set_aa(cwd, a, lang),
            ArgClass::CxxFlag => self.set_cxx(cwd, a, lang),
            ArgClass::EcxxFlag => self.set_ecxx(cwd, a, lang),
            ArgClass::OpenmpFlag => self.set_openmp(cwd, a, lang),
            ArgClass::KeepDefines => self.set_keep_defines(cwd, a, lang),
            ArgClass::FFlag => self.add_f_flag(cwd, a, lang),
            ArgClass::OptFlag => self.add_opt_flag(cwd, a, lang),
            ArgClass::LangStd => self.set_lang_std(cwd, a, lang),
            ArgClass::DepGenerate => self.set_depfile_generate(cwd, a, lang),
            ArgClass::StopBeforeLink => self.set_stop_before_link(cwd, a, lang),
            ArgClass::StopBeforeAssemble => self.set_stop_before_assemble(cwd, a, lang),
            ArgClass::StopAfterPreprocessing => self.set_stop_after_preprocessing(cwd, a, lang),
            ArgClass::GFlag => self.add_g_flag(cwd, a, lang),
            ArgClass::Library => self.add_library(cwd, a, lang),
            ArgClass::NoPie => self.set_no_pie(cwd, a, lang),
            ArgClass::LinkDir => self.add_link_dir(cwd, a, lang),
            ArgClass::Source => self.add_source(cwd, a, lang),
            _ => self,
        }
    }

    /// Does with the value `v` what a flag that takes a value does.
    fn add_system_include(self, cwd: &[char], v: &[char], lang: Option<CodeLanguage>) -> (res: GCCArgs)
        ensures
            value_update(cwd@, ArgClass::SystemInclude, v@, ParseState { args: self@, language: lang })
                == Ok::<ParseState, ErrorView>(ParseState { args: res@, language: lang }),
    {
        proof {
            reveal(value_update);
        }
        let mut s = self;
        push_string(&mut s.system_includes, make_absolute_chars(cwd, v));
        s
    }

    fn add_include_file(self, cwd: &[char], v: &[char], lang: Option<CodeLanguage>) -> (res: GCCArgs)
        ensures
            value_update(cwd@, ArgClass::Include, v@, ParseState { args: self@, language: lang })
                == Ok::<ParseState, ErrorView>(ParseState { args: res@, language: lang }),
    {
        proof {
            reveal(value_update);
        }
        let mut s = self;
        let f = SourceFile { path: make_absolute_chars(cwd, v), language_override: lang };
        push_source(&mut s.include_files, f);
        s
    }

    fn set_depfile_target_name(self, cwd: &[char], v: &[char], lang: Option<CodeLanguage>) -> (res: GCCArgs)
        ensures
            value_update(cwd@, ArgClass::DepTarget, v@, ParseState { args: self@, language: lang })
                == Ok::<ParseState, ErrorView>(ParseState { args: res@, language: lang }),
    {
        proof {
            reveal(value_update);
        }
        let mut s = self;
        s.depfile_target_name = Some(string_of(v));
        s
    }

    fn set_depfile_output_path(self, cwd: &[char], v: &[char], lang: Option<CodeLanguage>) -> (res: GCCArgs)
        ensures
            value_update(cwd@, ArgClass::DepFile, v@, ParseState { args: self@, language: lang })
                == Ok::<ParseState, ErrorView>(ParseState { args: res@, language: lang }),
    {
        proof {
            reveal(value_update);
        }
        let mut s = self;
        s.depfile_output_path = Some(make_absolute_chars(cwd, v));
        s
    }

    fn set_primary_output(self, cwd: &[char], v: &[char], lang: Option<CodeLanguage>) -> (res: GCCArgs)
        ensures
            value_update(cwd@, ArgClass::Output, v@, ParseState { args: self@, language: lang })
                == Ok::<ParseState, ErrorView>(ParseState { args: res@, language: lang }),
    {
        proof {
            reveal(value_update);
        }
        let mut s = self;
        s.primary_output = Some(make_absolute_chars(cwd, v));
        s
    }

    fn add_linker_arg(self, cwd: &[char], v: &[char], lang: Option<CodeLanguage>) -> (res: GCCArgs)
        ensures
            value_update(cwd@, ArgClass::Xlinker, v@, ParseState { args: self@, language: lang })
                == Ok::<ParseState, ErrorView>(ParseState { args: res@, language: lang }),
    {
        proof {
            reveal(value_update);
        }
        let mut s = self;
        push_string(&mut s.linker_args, string_of(v));
        s
    }

    /// Does with the value `v` what a flag that takes a value does.
    fn with_value(
        self,
        cwd: &[char],
        c: ArgClass,
        v: &[char],
        lang: Option<CodeLanguage>,
    ) -> (res: Result<(GCCArgs, Option<CodeLanguage>), Error>)
        requires
            takes_value(c),
        ensures
            match res {
                Ok((a, l)) => value_update(cwd@, c, v@, ParseState { args: self@, language: lang })
                    == Ok::<ParseState, ErrorView>(ParseState { args: a@, language: l }),
                Err(e) => value_update(cwd@, c, v@, ParseState { args: self@, language: lang })
                    == Err::<ParseState, ErrorView>(e@),
            },
    {
        match c {
            ArgClass::SystemInclude => Ok((self.add_system_include(cwd, v, lang), lang)),
            ArgClass::Include => Ok((self.add_include_file(cwd, v, lang), lang)),
            ArgClass::DepTarget => Ok((self.set_depfile_target_name(cwd, v, lang), lang)),
            ArgClass::DepFile => Ok((self.set_depfile_output_path(cwd, v, lang), lang)),
            ArgClass::Output => Ok((self.set_primary_output(cwd, v, lang), lang)),
            ArgClass::Xlinker => Ok((self.add_linker_arg(cwd, v, lang), lang)),
            _ => {
                proof {
                    reveal(value_update);
                }
                match CodeLanguage::from_gcc_x_arg_chars(v) {
                    Ok(l) => Ok((self, l)),
                    Err(e) => Err(e),
                }
            },
        }
    }

    /// The arguments that state these parts, in the order gcc is given them.
    pub fn to_args(&self) -> (res: Vec<String>)
        ensures
            res.deep_view() == spec_to_args(self@),
    {
        let mut args: Vec<String> = Vec::new();
        proof {
            assert(args.deep_view() =~= Seq::<Seq<char>>::empty());
        }
        push_flag(&mut args, self.stop_before_link, &['-', 'c']);
        push_flag(&mut args, self.stop_before_assemble, &['-', 'S']);
        push_flag(&mut args, self.stop_after_preprocessing, &['-', 'E']);
        push_flag(&mut args, self.pipe, &['-', 'p', 'i', 'p', 'e']);
        push_flag(&mut args, self.shared, &['-', 's', 'h', 'a', 'r', 'e', 'd']);
        push_flag(&mut args, self.no_pie, &['-', 'n', 'o', '-', 'p', 'i', 'e']);
        push_flag(&mut args, self.preprocess_keep_defines, &['-', 'd', 'D']);
        push_flag(&mut args, self.print_sysroot, &['-', 'p', 'r', 'i', 'n', 't', '-', 's', 'y', 's', 'r', 'o', 'o', 't']);
        push_all(&mut args, &self.target_flags);
        push_flag(&mut args, self.aa_flag, &['-', 'A', 'a']);
        push_flag(&mut args, self.flag_v, &['-', 'v']);
        push_flag(&mut args, self.cxx_flag, &['-', '-', 'c', '+', '+']);
        push_flag(&mut args, self.ecxx_flag, &['-', '-', 'e', 'c', '+', '+']);
        push_flag(&mut args, self.openmp_flag, &['-', '-', 'o', 'p', 'e', 'n', 'm', 'p']);
        push_opt(&mut args, &self.lang_std);
        push_all(&mut args, &self.opt_flags);
        push_all(&mut args, &self.g_flags);
        push_all(&mut args, &self.f_flags);
        push_prefixed(&mut args, &['-', 'l'], &self.libraries);
        push_flag(&mut args, self.depfile_generate, &['-', 'M', 'D']);
        push_opt_pair(&mut args, &['-', 'M', 'T'], &self.depfile_target_name);
        push_opt_pair(&mut args, &['-', 'M', 'F'], &self.depfile_output_path);
        push_all(&mut args, &self.warnings);
        push_all(&mut args, &self.machine_args);
        push_prefixed(&mut args, &['-', 'D'], &self.defines);
        push_prefixed(&mut args, &['-', 'I'], &self.user_includes);
        push_paired(&mut args, &['-', 'i', 's', 'y', 's', 't', 'e', 'm'], &self.system_includes);
        push_prefixed(&mut args, &['-', 'L'], &self.link_dirs);
        push_paired(&mut args, &['-', 'X', 'l', 'i', 'n', 'k', 'e', 'r'], &self.linker_args);
        let lang = push_files(&mut args, &self.include_files, None, true);
        push_opt_pair(&mut args, &['-', 'o'], &self.primary_output);
        push_flag(&mut args, self.use_link_group, &['-', 'W', 'l', ',', '-', '-', 's', 't', 'a', 'r', 't', '-', 'g', 'r', 'o', 'u', 'p']);
        push_files(&mut args, &self.sources, lang, false);
        push_flag(&mut args, self.use_link_group, &['-', 'W', 'l', ',', '-', '-', 'e', 'n', 'd', '-', 'g', 'r', 'o', 'u', 'p']);
        args
    }

    /// Reads the arguments of a gcc invocation run in the directory `cwd`.
    pub fn parse(cwd: &str, raw_args: &[String]) -> (res: Result<GCCArgs, Error>)
        ensures
            match res {
                Ok(a) => spec_parse_gcc(cwd@, raw_args.deep_view()) == Ok::<GccArgsView, ErrorView>(
                    a@,
                ),
                Err(e) => spec_parse_gcc(cwd@, raw_args.deep_view()) == Err::<
                    GccArgsView,
                    ErrorView,
                >(e@),
            },
    {
        let cwd_chars = chars_of(cwd);
        let mut args = GCCArgs::empty();
        let mut lang: Option<CodeLanguage> = None;
        let ghost toks = raw_args.deep_view();
        let mut i: usize = 0;
        proof {
            assert(toks.skip(0) =~= toks);
        }
        while i < raw_args.len()
            invariant
                i <= raw_args@.len(),
                toks == raw_args.deep_view(),
                cwd_chars@ == cwd@,
                spec_run(cwd@, toks, initial_parse_state()) == spec_run(
                    cwd@,
                    toks.skip(i as int),
                    ParseState { args: args@, language: lang },
                ),
            decreases raw_args@.len() - i,
        {
            let a = chars_of(&raw_args[i]);
            let c = classify(a.as_slice());
            let ghost rest = toks.skip(i as int);
            let ghost st = ParseState { args: args@, language: lang };
            proof {
                assert(rest[0] == a@);
            }
            if c == ArgClass::Unknown {
                proof {
                    lemma_run_unknown(cwd@, rest, st);
                }
                return Err(Error::UnknownFlag(string_of(a.as_slice())));
            } else if c == ArgClass::SystemInclude || c == ArgClass::Language || c
                == ArgClass::Include || c == ArgClass::DepTarget || c == ArgClass::DepFile || c
                == ArgClass::Output || c == ArgClass::Xlinker {
                if i + 1 >= raw_args.len() {
                    proof {
                        lemma_run_missing_value(cwd@, rest, st);
                    }
                    return Err(Error::MissingArgument(string_of(a.as_slice())));
                }
                let v = chars_of(&raw_args[i + 1]);
                proof {
                    assert(rest[1] == v@);
                    lemma_run_value(cwd@, rest, st);
                }
                match args.with_value(cwd_chars.as_slice(), c, v.as_slice(), lang) {
                    Ok((next, l)) => {
                        args = next;
                        lang = l;
                    },
                    Err(e) => {
                        return Err(e);
                    },
                }
                proof {
                    assert(rest.skip(2) =~= toks.skip(i + 2));
                }
                i = i + 2;
            } else {
                proof {
                    lemma_run_single(cwd@, rest, st);
                }
                args = args.with_single(cwd_chars.as_slice(), c, a.as_slice(), lang);
                proof {
                    assert(rest.skip(1) =~= toks.skip(i + 1));
                }
                i = i + 1;
            }
        }
        proof {
            assert(toks.skip(i as int) =~= Seq::<Seq<char>>::empty());
            lemma_run_empty(cwd@, ParseState { args: args@, language: lang });
        }
        Ok(args)
    }
}

/// Reading nothing leaves the state as it is.
proof fn lemma_run_empty(cwd: Seq<char>, st: ParseState)
    ensures
        spec_run(cwd, Seq::empty(), st) == Ok::<ParseState, ErrorView>(st),
{
    reveal(spec_run);
}

/// Reading from an argument that the parser does not know fails with that argument.
proof fn lemma_run_unknown(cwd: Seq<char>, toks: Seq<Seq<char>>, st: ParseState)
    requires
        toks.len() > 0,
        spec_classify(toks[0]) is Unknown,
    ensures
        spec_run(cwd, toks, st) == Err::<ParseState, ErrorView>(ErrorView::UnknownFlag(toks[0])),
{
    reveal(spec_run);
    reveal(spec_step);
}

/// Reading from a flag that takes a value, with no argument after it, fails with the flag.
proof fn lemma_run_missing_value(cwd: Seq<char>, toks: Seq<Seq<char>>, st: ParseState)
    requires
        toks.len() == 1,
        !(spec_classify(toks[0]) is Unknown),
        takes_value(spec_classify(toks[0])),
    ensures
        spec_run(cwd, toks, st) == Err::<ParseState, ErrorView>(ErrorView::MissingArgument(
            toks[0],
        )),
{
    reveal(spec_run);
    reveal(spec_step);
}

/// Reading from a flag that takes a value uses the flag and its value.
proof fn lemma_run_value(cwd: Seq<char>, toks: Seq<Seq<char>>, st: ParseState)
    requires
        toks.len() >= 2,
        !(spec_classify(toks[0]) is Unknown),
        takes_value(spec_classify(toks[0])),
    ensures
        spec_run(cwd, toks, st) == match value_update(cwd, spec_classify(toks[0]), toks[1], st) {
            Ok(next) => spec_run(cwd, toks.skip(2), next),
            Err(e) => Err(e),
        },
{
    reveal(spec_run);
    reveal(spec_step);
}

/// Reading from an argument that stands alone uses that argument.
proof fn lemma_run_single(cwd: Seq<char>, toks: Seq<Seq<char>>, st: ParseState)
    requires
        toks.len() >= 1,
        !(spec_classify(toks[0]) is Unknown),
        !takes_value(spec_classify(toks[0])),
    ensures
        spec_run(cwd, toks, st) == spec_run(
            cwd,
            toks.skip(1),
            ParseState {
                args: single_update(cwd, spec_classify(toks[0]), toks[0], st.args, st.language),
                ..st
            },
        ),
{
    reveal(spec_run);
    reveal(spec_step);
}

/// Facts of the classes: what some of them say of the length, and the classes that the
/// letter after the `-`, or a leading `/`, settles.
pub proof fn lemma_classify_facts(a: Seq<char>)
    ensures
        spec_classify(a) is Define || spec_classify(a) is UserInclude || spec_classify(a) is Library
            || spec_classify(a) is LinkDir ==> a.len() >= 2,
        spec_classify(a) is LinkerList ==> a.len() >= 4,
        is_absolute(a) ==> spec_classify(a) == ArgClass::Source,
        a.len() >= 2 && a[0] == '-' && a[1] == 'D' ==> spec_classify(a) == ArgClass::Define,
        a.len() >= 2 && a[0] == '-' && a[1] == 'I' ==> spec_classify(a) == ArgClass::UserInclude,
        a.len() >= 2 && a[0] == '-' && a[1] == 'l' ==> spec_classify(a) == ArgClass::Library,
        a.len() >= 2 && a[0] == '-' && a[1] == 'L' ==> spec_classify(a) == ArgClass::LinkDir,
{
    reveal(spec_classify);
}

} // verus!
