//! Reading back what the writer of gcc arguments writes.

use vstd::prelude::*;
use crate::code_language::{CodeLanguage, lemma_gcc_x_arg_round_trip, spec_from_gcc_x_arg};
use crate::error::ErrorView;
use crate::parse_gcc::{ArgClass, GccArgsView, ParseState, file_args, file_marker, flag_arg, initial_parse_state, language_after, language_name, language_switch, lemma_classify_facts, opt_arg, opt_pair, paired, prefixed, single_update, spec_classify, spec_parse_gcc, spec_run, spec_step, spec_to_args, split_commas, takes_value, value_update};
use crate::path_utils::{is_absolute, lemma_make_absolute_is_absolute, spec_make_absolute};
use crate::source_file::SourceFileView;
use crate::text::is_prefix_of;

verus! {

/// Parts that [`spec_to_args`] writes in a form that reads back the same: paths are
/// absolute, each flag kept in a list reads as a flag of that list, and no link group is
/// asked for (reading never sets it).
pub open spec fn spec_gcc_args_wf(m: GccArgsView) -> bool {
    &&& forall|i: int| 0 <= i < m.sources.len() ==> is_absolute(#[trigger] m.sources[i].path)
    &&& forall|i: int|
        0 <= i < m.include_files.len() ==> is_absolute(#[trigger] m.include_files[i].path)
    &&& forall|i: int| 0 <= i < m.user_includes.len() ==> is_absolute(#[trigger] m.user_includes[i])
    &&& forall|i: int|
        0 <= i < m.system_includes.len() ==> is_absolute(#[trigger] m.system_includes[i])
    &&& forall|i: int| 0 <= i < m.link_dirs.len() ==> is_absolute(#[trigger] m.link_dirs[i])
    &&& m.primary_output matches Some(p) ==> is_absolute(p)
    &&& m.depfile_output_path matches Some(p) ==> is_absolute(p)
    &&& forall|i: int|
        0 <= i < m.warnings.len() ==> spec_classify(#[trigger] m.warnings[i]) == ArgClass::Warning
    &&& forall|i: int|
        0 <= i < m.target_flags.len() ==> spec_classify(#[trigger] m.target_flags[i])
            == ArgClass::Target
    &&& forall|i: int|
        0 <= i < m.machine_args.len() ==> spec_classify(#[trigger] m.machine_args[i])
            == ArgClass::Machine
    &&& forall|i: int|
        0 <= i < m.f_flags.len() ==> spec_classify(#[trigger] m.f_flags[i]) == ArgClass::FFlag
    &&& forall|i: int|
        0 <= i < m.opt_flags.len() ==> spec_classify(#[trigger] m.opt_flags[i]) == ArgClass::OptFlag
    &&& forall|i: int|
        0 <= i < m.g_flags.len() ==> spec_classify(#[trigger] m.g_flags[i]) == ArgClass::GFlag
    &&& m.lang_std matches Some(s) ==> spec_classify(s) == ArgClass::LangStd
    &&& !m.use_link_group
}

/// Reading nothing changes nothing.
pub(crate) proof fn lemma_run_empty(cwd: Seq<char>, st: ParseState)
    ensures
        spec_run(cwd, Seq::<Seq<char>>::empty(), st) == Ok::<ParseState, ErrorView>(st),
{
    reveal(spec_run);
}

/// Reading `a` and then `b` is reading `a + b`, where `a` reads without error.
pub(crate) proof fn lemma_run_concat(cwd: Seq<char>, a: Seq<Seq<char>>, b: Seq<Seq<char>>, st: ParseState)
    requires
        spec_run(cwd, a, st) is Ok,
    ensures
        spec_run(cwd, a + b, st) == spec_run(cwd, b, spec_run(cwd, a, st)->Ok_0),
    decreases a.len(),
{
    reveal(spec_run);
    reveal(spec_step);
    if a.len() == 0 {
        assert(a + b =~= b);
    } else {
        let ab = a + b;
        assert(ab[0] == a[0]);
        if a.len() >= 2 {
            assert(ab[1] == a[1]);
        }
        let (k, next) = spec_step(cwd, a, st)->Ok_0;
        assert(spec_step(cwd, ab, st) == spec_step(cwd, a, st));
        assert(ab.skip(k) =~= a.skip(k) + b);
        lemma_run_concat(cwd, a.skip(k), b, next);
    }
}

/// Reading one argument that stands alone.
pub(crate) proof fn lemma_run_single(cwd: Seq<char>, t: Seq<char>, st: ParseState)
    requires
        !(spec_classify(t) is Unknown),
        !takes_value(spec_classify(t)),
    ensures
        spec_run(cwd, seq![t], st) == Ok::<ParseState, ErrorView>(
            ParseState {
                args: single_update(cwd, spec_classify(t), t, st.args, st.language),
                ..st
            },
        ),
{
    reveal(spec_run);
    reveal(spec_step);
    let next = ParseState {
        args: single_update(cwd, spec_classify(t), t, st.args, st.language),
        ..st
    };
    assert(seq![t].skip(1) =~= Seq::<Seq<char>>::empty());
    assert(spec_run(cwd, Seq::<Seq<char>>::empty(), next) == Ok::<ParseState, ErrorView>(next));
}

/// Reading a flag that takes a value, and the value.
pub(crate) proof fn lemma_run_pair(cwd: Seq<char>, f: Seq<char>, v: Seq<char>, st: ParseState)
    requires
        takes_value(spec_classify(f)),
    ensures
        spec_run(cwd, seq![f, v], st) == value_update(cwd, spec_classify(f), v, st),
{
    reveal(spec_run);
    reveal(spec_step);
    assert(seq![f, v][0] == f);
    assert(seq![f, v][1] == v);
    assert(seq![f, v].skip(2) =~= Seq::<Seq<char>>::empty());
    if let Ok(next) = value_update(cwd, spec_classify(f), v, st) {
        assert(spec_run(cwd, Seq::<Seq<char>>::empty(), next) == Ok::<ParseState, ErrorView>(next));
    }
}

/// Reading a flag that is written only where `b` holds.
pub(crate) proof fn lemma_run_flag(cwd: Seq<char>, b: bool, t: Seq<char>, st: ParseState)
    requires
        b ==> !(spec_classify(t) is Unknown) && !takes_value(spec_classify(t)),
    ensures
        spec_run(cwd, flag_arg(b, t), st) == (if b {
            Ok::<ParseState, ErrorView>(
                ParseState {
                    args: single_update(cwd, spec_classify(t), t, st.args, st.language),
                    ..st
                },
            )
        } else {
            Ok::<ParseState, ErrorView>(st)
        }),
{
    reveal(spec_run);
    if b {
        lemma_run_single(cwd, t, st);
    }
}

/// Reading the language standard, where there is one.
pub(crate) proof fn lemma_run_lang_std(cwd: Seq<char>, o: Option<Seq<char>>, st: ParseState)
    requires
        o matches Some(v) ==> spec_classify(v) == ArgClass::LangStd,
    ensures
        spec_run(cwd, opt_arg(o), st) == Ok::<ParseState, ErrorView>(
            match o {
                Some(v) => ParseState { args: GccArgsView { lang_std: Some(v), ..st.args }, ..st },
                None => st,
            },
        ),
{
    reveal(spec_run);
    if let Some(v) = o {
        lemma_run_single(cwd, v, st);
        lemma_single_update_lang_std(cwd, v, st.args, st.language);
    }
}

/// Reading the name that `-x` takes for a language gives that language.
pub(crate) proof fn lemma_language_name_reads_back(l: Option<CodeLanguage>)
    ensures
        spec_from_gcc_x_arg(language_name(l)) == Some(l),
{
    match l {
        Some(x) => lemma_gcc_x_arg_round_trip(x),
        None => {
            let none = seq!['n', 'o', 'n', 'e'];
            assert(none.len() == 4);
            assert(none[0] == 'n' && none[1] == 'o');
            assert(none != seq!['c']);
            assert(none != seq!['c', '+', '+']);
        },
    }
}

/// Reading the `-x` that changes the language, where it changes.
pub(crate) proof fn lemma_run_switch(
    cwd: Seq<char>,
    m: GccArgsView,
    from: Option<CodeLanguage>,
    to: Option<CodeLanguage>,
)
    ensures
        spec_run(cwd, language_switch(from, to), ParseState { args: m, language: from }) == Ok::<
            ParseState,
            ErrorView,
        >(ParseState { args: m, language: to }),
{
    reveal(spec_run);
    let st = ParseState { args: m, language: from };
    if from != to {
        lemma_classify_literals();
        lemma_run_pair(cwd, seq!['-', 'x'], language_name(to), st);
        lemma_value_update_language(cwd, language_name(to), st);
        lemma_language_name_reads_back(to);
    } else {
        assert(spec_run(cwd, Seq::<Seq<char>>::empty(), st) == Ok::<ParseState, ErrorView>(st));
    }
}

/// Reading one file given with the flag that has gcc read it before the source.
pub(crate) proof fn lemma_run_forced_file(cwd: Seq<char>, f: SourceFileView, m: GccArgsView)
    requires
        is_absolute(f.path),
    ensures
        spec_run(cwd, file_marker(true) + seq![f.path], ParseState { args: m, language: f.language_override })
            == Ok::<ParseState, ErrorView>(
            ParseState {
                args: GccArgsView { include_files: m.include_files.push(f), ..m },
                language: f.language_override,
            },
        ),
{
    reveal(spec_run);
    let st = ParseState { args: m, language: f.language_override };
    let inc = seq!['-', 'i', 'n', 'c', 'l', 'u', 'd', 'e'];
    assert(f == SourceFileView { path: f.path, language_override: f.language_override });
    assert(file_marker(true) + seq![f.path] =~= seq![inc, f.path]);
    lemma_classify_literals();
    lemma_run_pair(cwd, inc, f.path, st);
    lemma_value_update_include(cwd, f.path, st);
}

/// Reading one source file.
pub(crate) proof fn lemma_run_source_file(cwd: Seq<char>, f: SourceFileView, m: GccArgsView)
    requires
        is_absolute(f.path),
    ensures
        spec_run(cwd, file_marker(false) + seq![f.path], ParseState { args: m, language: f.language_override })
            == Ok::<ParseState, ErrorView>(
            ParseState {
                args: GccArgsView { sources: m.sources.push(f), ..m },
                language: f.language_override,
            },
        ),
{
    reveal(spec_run);
    let st = ParseState { args: m, language: f.language_override };
    assert(f == SourceFileView { path: f.path, language_override: f.language_override });
    assert(file_marker(false) + seq![f.path] =~= seq![f.path]);
    lemma_classify_facts(f.path);
    lemma_run_single(cwd, f.path, st);
    lemma_single_update_source(cwd, f.path, st.args, st.language);
}

/// Reading the arguments that state a list of files read before the source.
pub(crate) proof fn lemma_run_forced_files(
    cwd: Seq<char>,
    files: Seq<SourceFileView>,
    lang: Option<CodeLanguage>,
    m: GccArgsView,
)
    requires
        forall|i: int| 0 <= i < files.len() ==> is_absolute(#[trigger] files[i].path),
    ensures
        spec_run(cwd, file_args(files, lang, true), ParseState { args: m, language: lang })
            == Ok::<ParseState, ErrorView>(
            ParseState {
                args: GccArgsView { include_files: m.include_files + files, ..m },
                language: language_after(files, lang),
            },
        ),
    decreases files.len(),
{
    reveal(spec_run);
    let st = ParseState { args: m, language: lang };
    if files.len() == 0 {
        assert(m.include_files + files =~= m.include_files);
    } else {
        let init = files.drop_last();
        let f = files.last();
        assert(is_absolute(files[files.len() - 1].path));
        lemma_run_forced_files(cwd, init, lang, m);
        let mid_args = GccArgsView { include_files: m.include_files + init, ..m };
        let mid_lang = language_after(init, lang);
        let a0 = file_args(init, lang, true);
        let sw = language_switch(mid_lang, f.language_override);
        let rest = file_marker(true) + seq![f.path];
        lemma_run_switch(cwd, mid_args, mid_lang, f.language_override);
        lemma_run_concat(cwd, a0, sw, st);
        lemma_run_forced_file(cwd, f, mid_args);
        lemma_run_concat(cwd, a0 + sw, rest, st);
        assert(a0 + sw + file_marker(true) + seq![f.path] =~= (a0 + sw) + rest);
        assert((m.include_files + init).push(f) =~= m.include_files + files);
    }
}

/// Reading the arguments that state a list of source files.
pub(crate) proof fn lemma_run_source_files(
    cwd: Seq<char>,
    files: Seq<SourceFileView>,
    lang: Option<CodeLanguage>,
    m: GccArgsView,
)
    requires
        forall|i: int| 0 <= i < files.len() ==> is_absolute(#[trigger] files[i].path),
    ensures
        spec_run(cwd, file_args(files, lang, false), ParseState { args: m, language: lang })
            == Ok::<ParseState, ErrorView>(
            ParseState {
                args: GccArgsView { sources: m.sources + files, ..m },
                language: language_after(files, lang),
            },
        ),
    decreases files.len(),
{
    reveal(spec_run);
    let st = ParseState { args: m, language: lang };
    if files.len() == 0 {
        assert(m.sources + files =~= m.sources);
    } else {
        let init = files.drop_last();
        let f = files.last();
        assert(is_absolute(files[files.len() - 1].path));
        lemma_run_source_files(cwd, init, lang, m);
        let mid_args = GccArgsView { sources: m.sources + init, ..m };
        let mid_lang = language_after(init, lang);
        let a0 = file_args(init, lang, false);
        let sw = language_switch(mid_lang, f.language_override);
        let rest = file_marker(false) + seq![f.path];
        lemma_run_switch(cwd, mid_args, mid_lang, f.language_override);
        lemma_run_concat(cwd, a0, sw, st);
        lemma_run_source_file(cwd, f, mid_args);
        lemma_run_concat(cwd, a0 + sw, rest, st);
        assert(a0 + sw + file_marker(false) + seq![f.path] =~= (a0 + sw) + rest);
        assert((m.sources + init).push(f) =~= m.sources + files);
    }
}

/// The classes of the flags that [`spec_to_args`] writes.
pub(crate) proof fn lemma_classify_literals()
    ensures
        spec_classify(seq!['-', 'c']) == ArgClass::StopBeforeLink,
        spec_classify(seq!['-', 'S']) == ArgClass::StopBeforeAssemble,
        spec_classify(seq!['-', 'E']) == ArgClass::StopAfterPreprocessing,
        spec_classify(seq!['-', 'p', 'i', 'p', 'e']) == ArgClass::Pipe,
        spec_classify(seq!['-', 's', 'h', 'a', 'r', 'e', 'd']) == ArgClass::Shared,
        spec_classify(seq!['-', 'n', 'o', '-', 'p', 'i', 'e']) == ArgClass::NoPie,
        spec_classify(seq!['-', 'd', 'D']) == ArgClass::KeepDefines,
        spec_classify(seq!['-', 'p', 'r', 'i', 'n', 't', '-', 's', 'y', 's', 'r', 'o', 'o', 't']) == ArgClass::PrintSysroot,
        spec_classify(seq!['-', 'A', 'a']) == ArgClass::Aa,
        spec_classify(seq!['-', 'v']) == ArgClass::Verbose,
        spec_classify(seq!['-', '-', 'c', '+', '+']) == ArgClass::CxxFlag,
        spec_classify(seq!['-', '-', 'e', 'c', '+', '+']) == ArgClass::EcxxFlag,
        spec_classify(seq!['-', '-', 'o', 'p', 'e', 'n', 'm', 'p']) == ArgClass::OpenmpFlag,
        spec_classify(seq!['-', 'M', 'D']) == ArgClass::DepGenerate,
        spec_classify(seq!['-', 'M', 'T']) == ArgClass::DepTarget,
        spec_classify(seq!['-', 'M', 'F']) == ArgClass::DepFile,
        spec_classify(seq!['-', 'i', 's', 'y', 's', 't', 'e', 'm']) == ArgClass::SystemInclude,
        spec_classify(seq!['-', 'X', 'l', 'i', 'n', 'k', 'e', 'r']) == ArgClass::Xlinker,
        spec_classify(seq!['-', 'i', 'n', 'c', 'l', 'u', 'd', 'e']) == ArgClass::Include,
        spec_classify(seq!['-', 'o']) == ArgClass::Output,
        spec_classify(seq!['-', 'x']) == ArgClass::Language,
{
    reveal(spec_classify);
    assert(seq!['-', 'i', 's', 'y', 's', 't', 'e', 'm'].take(8) =~= seq!['-', 'i', 's', 'y', 's', 't', 'e', 'm']);
    assert(seq!['-', 'X', 'l', 'i', 'n', 'k', 'e', 'r'].take(8) =~= seq!['-', 'X', 'l', 'i', 'n', 'k', 'e', 'r']);
    assert(seq!['-', '-', 'o', 'p', 'e', 'n', 'm', 'p'].take(8)[2] == 'o');
    assert(!is_prefix_of(seq!['-', '-', 't', 'a', 'r', 'g', 'e', 't'], seq!['-', '-', 'o', 'p', 'e', 'n', 'm', 'p']));
    assert(seq!['-', 'M', 'T'][2] == 'T');
    assert(seq!['-', 'M', 'F'][2] == 'F');
    assert(seq!['-', 'M', 'D'][2] == 'D');
}

// What each class of argument that stands alone adds.

pub(crate) proof fn lemma_single_update_define(cwd: Seq<char>, a: Seq<char>, m: GccArgsView, lang: Option<CodeLanguage>)
    ensures
        single_update(cwd, ArgClass::Define, a, m, lang) == (GccArgsView { defines: m.defines.push(a.skip(2)), ..m }),
{
    reveal(single_update);
}

pub(crate) proof fn lemma_single_update_user_include(cwd: Seq<char>, a: Seq<char>, m: GccArgsView, lang: Option<CodeLanguage>)
    ensures
        single_update(cwd, ArgClass::UserInclude, a, m, lang) == (GccArgsView { user_includes: m.user_includes.push(spec_make_absolute(cwd, a.skip(2))), ..m }),
{
    reveal(single_update);
}

pub(crate) proof fn lemma_single_update_linker_list(cwd: Seq<char>, a: Seq<char>, m: GccArgsView, lang: Option<CodeLanguage>)
    ensures
        single_update(cwd, ArgClass::LinkerList, a, m, lang) == (GccArgsView { linker_args: m.linker_args + split_commas(a.skip(4)), ..m }),
{
    reveal(single_update);
}

pub(crate) proof fn lemma_single_update_warning(cwd: Seq<char>, a: Seq<char>, m: GccArgsView, lang: Option<CodeLanguage>)
    ensures
        single_update(cwd, ArgClass::Warning, a, m, lang) == (GccArgsView { warnings: m.warnings.push(a), ..m }),
{
    reveal(single_update);
}

pub(crate) proof fn lemma_single_update_target(cwd: Seq<char>, a: Seq<char>, m: GccArgsView, lang: Option<CodeLanguage>)
    ensures
        single_update(cwd, ArgClass::Target, a, m, lang) == (GccArgsView { target_flags: m.target_flags.push(a), ..m }),
{
    reveal(single_update);
}

pub(crate) proof fn lemma_single_update_machine(cwd: Seq<char>, a: Seq<char>, m: GccArgsView, lang: Option<CodeLanguage>)
    ensures
        single_update(cwd, ArgClass::Machine, a, m, lang) == (GccArgsView { machine_args: m.machine_args.push(a), ..m }),
{
    reveal(single_update);
}

pub(crate) proof fn lemma_single_update_pipe(cwd: Seq<char>, a: Seq<char>, m: GccArgsView, lang: Option<CodeLanguage>)
    ensures
        single_update(cwd, ArgClass::Pipe, a, m, lang) == (GccArgsView { pipe: true, ..m }),
{
    reveal(single_update);
}

pub(crate) proof fn lemma_single_update_shared(cwd: Seq<char>, a: Seq<char>, m: GccArgsView, lang: Option<CodeLanguage>)
    ensures
        single_update(cwd, ArgClass::Shared, a, m, lang) == (GccArgsView { shared: true, ..m }),
{
    reveal(single_update);
}

pub(crate) proof fn lemma_single_update_print_sysroot(cwd: Seq<char>, a: Seq<char>, m: GccArgsView, lang: Option<CodeLanguage>)
    ensures
        single_update(cwd, ArgClass::PrintSysroot, a, m, lang) == (GccArgsView { print_sysroot: true, ..m }),
{
    reveal(single_update);
}

pub(crate) proof fn lemma_single_update_verbose(cwd: Seq<char>, a: Seq<char>, m: GccArgsView, lang: Option<CodeLanguage>)
    ensures
        single_update(cwd, ArgClass::Verbose, a, m, lang) == (GccArgsView { flag_v: true, ..m }),
{
    reveal(single_update);
}

pub(crate) proof fn lemma_single_update_aa(cwd: Seq<char>, a: Seq<char>, m: GccArgsView, lang: Option<CodeLanguage>)
    ensures
        single_update(cwd, ArgClass::Aa, a, m, lang) == (GccArgsView { aa_flag: true, ..m }),
{
    reveal(single_update);
}

pub(crate) proof fn lemma_single_update_cxx_flag(cwd: Seq<char>, a: Seq<char>, m: GccArgsView, lang: Option<CodeLanguage>)
    ensures
        single_update(cwd, ArgClass::CxxFlag, a, m, lang) == (GccArgsView { cxx_flag: true, ..m }),
{
    reveal(single_update);
}

pub(crate) proof fn lemma_single_update_ecxx_flag(cwd: Seq<char>, a: Seq<char>, m: GccArgsView, lang: Option<CodeLanguage>)
    ensures
        single_update(cwd, ArgClass::EcxxFlag, a, m, lang) == (GccArgsView { ecxx_flag: true, ..m }),
{
    reveal(single_update);
}

pub(crate) proof fn lemma_single_update_openmp_flag(cwd: Seq<char>, a: Seq<char>, m: GccArgsView, lang: Option<CodeLanguage>)
    ensures
        single_update(cwd, ArgClass::OpenmpFlag, a, m, lang) == (GccArgsView { openmp_flag: true, ..m }),
{
    reveal(single_update);
}

pub(crate) proof fn lemma_single_update_keep_defines(cwd: Seq<char>, a: Seq<char>, m: GccArgsView, lang: Option<CodeLanguage>)
    ensures
        single_update(cwd, ArgClass::KeepDefines, a, m, lang) == (GccArgsView { preprocess_keep_defines: true, ..m }),
{
    reveal(single_update);
}

pub(crate) proof fn lemma_single_update_f_flag(cwd: Seq<char>, a: Seq<char>, m: GccArgsView, lang: Option<CodeLanguage>)
    ensures
        single_update(cwd, ArgClass::FFlag, a, m, lang) == (GccArgsView { f_flags: m.f_flags.push(a), ..m }),
{
    reveal(single_update);
}

pub(crate) proof fn lemma_single_update_opt_flag(cwd: Seq<char>, a: Seq<char>, m: GccArgsView, lang: Option<CodeLanguage>)
    ensures
        single_update(cwd, ArgClass::OptFlag, a, m, lang) == (GccArgsView { opt_flags: m.opt_flags.push(a), ..m }),
{
    reveal(single_update);
}

pub(crate) proof fn lemma_single_update_lang_std(cwd: Seq<char>, a: Seq<char>, m: GccArgsView, lang: Option<CodeLanguage>)
    ensures
        single_update(cwd, ArgClass::LangStd, a, m, lang) == (GccArgsView { lang_std: Some(a), ..m }),
{
    reveal(single_update);
}

pub(crate) proof fn lemma_single_update_dep_generate(cwd: Seq<char>, a: Seq<char>, m: GccArgsView, lang: Option<CodeLanguage>)
    ensures
        single_update(cwd, ArgClass::DepGenerate, a, m, lang) == (GccArgsView { depfile_generate: true, ..m }),
{
    reveal(single_update);
}

pub(crate) proof fn lemma_single_update_stop_before_link(cwd: Seq<char>, a: Seq<char>, m: GccArgsView, lang: Option<CodeLanguage>)
    ensures
        single_update(cwd, ArgClass::StopBeforeLink, a, m, lang) == (GccArgsView { stop_before_link: true, ..m }),
{
    reveal(single_update);
}

pub(crate) proof fn lemma_single_update_stop_before_assemble(cwd: Seq<char>, a: Seq<char>, m: GccArgsView, lang: Option<CodeLanguage>)
    ensures
        single_update(cwd, ArgClass::StopBeforeAssemble, a, m, lang) == (GccArgsView { stop_before_assemble: true, ..m }),
{
    reveal(single_update);
}

pub(crate) proof fn lemma_single_update_stop_after_preprocessing(cwd: Seq<char>, a: Seq<char>, m: GccArgsView, lang: Option<CodeLanguage>)
    ensures
        single_update(cwd, ArgClass::StopAfterPreprocessing, a, m, lang) == (GccArgsView { stop_after_preprocessing: true, ..m }),
{
    reveal(single_update);
}

pub(crate) proof fn lemma_single_update_g_flag(cwd: Seq<char>, a: Seq<char>, m: GccArgsView, lang: Option<CodeLanguage>)
    ensures
        single_update(cwd, ArgClass::GFlag, a, m, lang) == (GccArgsView { g_flags: m.g_flags.push(a), ..m }),
{
    reveal(single_update);
}

pub(crate) proof fn lemma_single_update_library(cwd: Seq<char>, a: Seq<char>, m: GccArgsView, lang: Option<CodeLanguage>)
    ensures
        single_update(cwd, ArgClass::Library, a, m, lang) == (GccArgsView { libraries: m.libraries.push(a.skip(2)), ..m }),
{
    reveal(single_update);
}

pub(crate) proof fn lemma_single_update_no_pie(cwd: Seq<char>, a: Seq<char>, m: GccArgsView, lang: Option<CodeLanguage>)
    ensures
        single_update(cwd, ArgClass::NoPie, a, m, lang) == (GccArgsView { no_pie: true, ..m }),
{
    reveal(single_update);
}

pub(crate) proof fn lemma_single_update_link_dir(cwd: Seq<char>, a: Seq<char>, m: GccArgsView, lang: Option<CodeLanguage>)
    ensures
        single_update(cwd, ArgClass::LinkDir, a, m, lang) == (GccArgsView { link_dirs: m.link_dirs.push(spec_make_absolute(cwd, a.skip(2))), ..m }),
{
    reveal(single_update);
}

pub(crate) proof fn lemma_single_update_source(cwd: Seq<char>, a: Seq<char>, m: GccArgsView, lang: Option<CodeLanguage>)
    ensures
        single_update(cwd, ArgClass::Source, a, m, lang) == (GccArgsView { sources: m.sources.push(SourceFileView { path: spec_make_absolute(cwd, a), language_override: lang }), ..m }),
{
    reveal(single_update);
}

// What each flag that takes a value does with the value.

pub(crate) proof fn lemma_value_update_system_include(cwd: Seq<char>, v: Seq<char>, st: ParseState)
    ensures
        value_update(cwd, ArgClass::SystemInclude, v, st) == Ok::<ParseState, ErrorView>(
            ParseState { args: GccArgsView { system_includes: st.args.system_includes.push(spec_make_absolute(cwd, v)), ..st.args }, ..st },
        ),
{
    reveal(value_update);
}

pub(crate) proof fn lemma_value_update_include(cwd: Seq<char>, v: Seq<char>, st: ParseState)
    ensures
        value_update(cwd, ArgClass::Include, v, st) == Ok::<ParseState, ErrorView>(
            ParseState { args: GccArgsView { include_files: st.args.include_files.push(SourceFileView { path: spec_make_absolute(cwd, v), language_override: st.language }), ..st.args }, ..st },
        ),
{
    reveal(value_update);
}

pub(crate) proof fn lemma_value_update_dep_target(cwd: Seq<char>, v: Seq<char>, st: ParseState)
    ensures
        value_update(cwd, ArgClass::DepTarget, v, st) == Ok::<ParseState, ErrorView>(
            ParseState { args: GccArgsView { depfile_target_name: Some(v), ..st.args }, ..st },
        ),
{
    reveal(value_update);
}

pub(crate) proof fn lemma_value_update_dep_file(cwd: Seq<char>, v: Seq<char>, st: ParseState)
    ensures
        value_update(cwd, ArgClass::DepFile, v, st) == Ok::<ParseState, ErrorView>(
            ParseState { args: GccArgsView { depfile_output_path: Some(spec_make_absolute(cwd, v)), ..st.args }, ..st },
        ),
{
    reveal(value_update);
}

pub(crate) proof fn lemma_value_update_output(cwd: Seq<char>, v: Seq<char>, st: ParseState)
    ensures
        value_update(cwd, ArgClass::Output, v, st) == Ok::<ParseState, ErrorView>(
            ParseState { args: GccArgsView { primary_output: Some(spec_make_absolute(cwd, v)), ..st.args }, ..st },
        ),
{
    reveal(value_update);
}

pub(crate) proof fn lemma_value_update_xlinker(cwd: Seq<char>, v: Seq<char>, st: ParseState)
    ensures
        value_update(cwd, ArgClass::Xlinker, v, st) == Ok::<ParseState, ErrorView>(
            ParseState { args: GccArgsView { linker_args: st.args.linker_args.push(v), ..st.args }, ..st },
        ),
{
    reveal(value_update);
}

pub(crate) proof fn lemma_value_update_language(cwd: Seq<char>, v: Seq<char>, st: ParseState)
    ensures
        value_update(cwd, ArgClass::Language, v, st) == (match spec_from_gcc_x_arg(v) {
            Some(l) => Ok::<ParseState, ErrorView>(ParseState { language: l, ..st }),
            None => Err(ErrorView::UnknownLanguageName(v)),
        }),
{
    reveal(value_update);
}


pub(crate) proof fn lemma_run_target_flags(cwd: Seq<char>, items: Seq<Seq<char>>, st: ParseState)
    requires
        forall|i: int| 0 <= i < items.len() ==> spec_classify(#[trigger] items[i]) == ArgClass::Target,
    ensures
        spec_run(cwd, items, st) == Ok::<ParseState, ErrorView>(
            ParseState { args: GccArgsView { target_flags: st.args.target_flags + items, ..st.args }, ..st },
        ),
    decreases items.len(),
{
    reveal(spec_run);
    if items.len() == 0 {
        assert(st.args.target_flags + items =~= st.args.target_flags);
        assert(ParseState { args: GccArgsView { target_flags: st.args.target_flags + items, ..st.args }, ..st } =~= st);
    } else {
        let init = items.drop_last();
        let x = items.last();
        lemma_run_target_flags(cwd, init, st);
        let mid = ParseState { args: GccArgsView { target_flags: st.args.target_flags + init, ..st.args }, ..st };
        lemma_run_concat(cwd, init, seq![x], st);
        assert(init + seq![x] =~= items);
        assert(spec_classify(items[items.len() - 1]) == ArgClass::Target);
        lemma_run_single(cwd, x, mid);
        lemma_single_update_target(cwd, x, mid.args, mid.language);
        assert((st.args.target_flags + init).push(x) =~= st.args.target_flags + items);
    }
}

pub(crate) proof fn lemma_run_opt_flags(cwd: Seq<char>, items: Seq<Seq<char>>, st: ParseState)
    requires
        forall|i: int| 0 <= i < items.len() ==> spec_classify(#[trigger] items[i]) == ArgClass::OptFlag,
    ensures
        spec_run(cwd, items, st) == Ok::<ParseState, ErrorView>(
            ParseState { args: GccArgsView { opt_flags: st.args.opt_flags + items, ..st.args }, ..st },
        ),
    decreases items.len(),
{
    reveal(spec_run);
    if items.len() == 0 {
        assert(st.args.opt_flags + items =~= st.args.opt_flags);
        assert(ParseState { args: GccArgsView { opt_flags: st.args.opt_flags + items, ..st.args }, ..st } =~= st);
    } else {
        let init = items.drop_last();
        let x = items.last();
        lemma_run_opt_flags(cwd, init, st);
        let mid = ParseState { args: GccArgsView { opt_flags: st.args.opt_flags + init, ..st.args }, ..st };
        lemma_run_concat(cwd, init, seq![x], st);
        assert(init + seq![x] =~= items);
        assert(spec_classify(items[items.len() - 1]) == ArgClass::OptFlag);
        lemma_run_single(cwd, x, mid);
        lemma_single_update_opt_flag(cwd, x, mid.args, mid.language);
        assert((st.args.opt_flags + init).push(x) =~= st.args.opt_flags + items);
    }
}

pub(crate) proof fn lemma_run_g_flags(cwd: Seq<char>, items: Seq<Seq<char>>, st: ParseState)
    requires
        forall|i: int| 0 <= i < items.len() ==> spec_classify(#[trigger] items[i]) == ArgClass::GFlag,
    ensures
        spec_run(cwd, items, st) == Ok::<ParseState, ErrorView>(
            ParseState { args: GccArgsView { g_flags: st.args.g_flags + items, ..st.args }, ..st },
        ),
    decreases items.len(),
{
    reveal(spec_run);
    if items.len() == 0 {
        assert(st.args.g_flags + items =~= st.args.g_flags);
        assert(ParseState { args: GccArgsView { g_flags: st.args.g_flags + items, ..st.args }, ..st } =~= st);
    } else {
        let init = items.drop_last();
        let x = items.last();
        lemma_run_g_flags(cwd, init, st);
        let mid = ParseState { args: GccArgsView { g_flags: st.args.g_flags + init, ..st.args }, ..st };
        lemma_run_concat(cwd, init, seq![x], st);
        assert(init + seq![x] =~= items);
        assert(spec_classify(items[items.len() - 1]) == ArgClass::GFlag);
        lemma_run_single(cwd, x, mid);
        lemma_single_update_g_flag(cwd, x, mid.args, mid.language);
        assert((st.args.g_flags + init).push(x) =~= st.args.g_flags + items);
    }
}

pub(crate) proof fn lemma_run_f_flags(cwd: Seq<char>, items: Seq<Seq<char>>, st: ParseState)
    requires
        forall|i: int| 0 <= i < items.len() ==> spec_classify(#[trigger] items[i]) == ArgClass::FFlag,
    ensures
        spec_run(cwd, items, st) == Ok::<ParseState, ErrorView>(
            ParseState { args: GccArgsView { f_flags: st.args.f_flags + items, ..st.args }, ..st },
        ),
    decreases items.len(),
{
    reveal(spec_run);
    if items.len() == 0 {
        assert(st.args.f_flags + items =~= st.args.f_flags);
        assert(ParseState { args: GccArgsView { f_flags: st.args.f_flags + items, ..st.args }, ..st } =~= st);
    } else {
        let init = items.drop_last();
        let x = items.last();
        lemma_run_f_flags(cwd, init, st);
        let mid = ParseState { args: GccArgsView { f_flags: st.args.f_flags + init, ..st.args }, ..st };
        lemma_run_concat(cwd, init, seq![x], st);
        assert(init + seq![x] =~= items);
        assert(spec_classify(items[items.len() - 1]) == ArgClass::FFlag);
        lemma_run_single(cwd, x, mid);
        lemma_single_update_f_flag(cwd, x, mid.args, mid.language);
        assert((st.args.f_flags + init).push(x) =~= st.args.f_flags + items);
    }
}

pub(crate) proof fn lemma_run_warnings(cwd: Seq<char>, items: Seq<Seq<char>>, st: ParseState)
    requires
        forall|i: int| 0 <= i < items.len() ==> spec_classify(#[trigger] items[i]) == ArgClass::Warning,
    ensures
        spec_run(cwd, items, st) == Ok::<ParseState, ErrorView>(
            ParseState { args: GccArgsView { warnings: st.args.warnings + items, ..st.args }, ..st },
        ),
    decreases items.len(),
{
    reveal(spec_run);
    if items.len() == 0 {
        assert(st.args.warnings + items =~= st.args.warnings);
        assert(ParseState { args: GccArgsView { warnings: st.args.warnings + items, ..st.args }, ..st } =~= st);
    } else {
        let init = items.drop_last();
        let x = items.last();
        lemma_run_warnings(cwd, init, st);
        let mid = ParseState { args: GccArgsView { warnings: st.args.warnings + init, ..st.args }, ..st };
        lemma_run_concat(cwd, init, seq![x], st);
        assert(init + seq![x] =~= items);
        assert(spec_classify(items[items.len() - 1]) == ArgClass::Warning);
        lemma_run_single(cwd, x, mid);
        lemma_single_update_warning(cwd, x, mid.args, mid.language);
        assert((st.args.warnings + init).push(x) =~= st.args.warnings + items);
    }
}

pub(crate) proof fn lemma_run_machine_args(cwd: Seq<char>, items: Seq<Seq<char>>, st: ParseState)
    requires
        forall|i: int| 0 <= i < items.len() ==> spec_classify(#[trigger] items[i]) == ArgClass::Machine,
    ensures
        spec_run(cwd, items, st) == Ok::<ParseState, ErrorView>(
            ParseState { args: GccArgsView { machine_args: st.args.machine_args + items, ..st.args }, ..st },
        ),
    decreases items.len(),
{
    reveal(spec_run);
    if items.len() == 0 {
        assert(st.args.machine_args + items =~= st.args.machine_args);
        assert(ParseState { args: GccArgsView { machine_args: st.args.machine_args + items, ..st.args }, ..st } =~= st);
    } else {
        let init = items.drop_last();
        let x = items.last();
        lemma_run_machine_args(cwd, init, st);
        let mid = ParseState { args: GccArgsView { machine_args: st.args.machine_args + init, ..st.args }, ..st };
        lemma_run_concat(cwd, init, seq![x], st);
        assert(init + seq![x] =~= items);
        assert(spec_classify(items[items.len() - 1]) == ArgClass::Machine);
        lemma_run_single(cwd, x, mid);
        lemma_single_update_machine(cwd, x, mid.args, mid.language);
        assert((st.args.machine_args + init).push(x) =~= st.args.machine_args + items);
    }
}

pub(crate) proof fn lemma_run_defines(cwd: Seq<char>, xs: Seq<Seq<char>>, st: ParseState)
    ensures
        spec_run(cwd, prefixed(seq!['-', 'D'], xs), st) == Ok::<ParseState, ErrorView>(
            ParseState { args: GccArgsView { defines: st.args.defines + xs, ..st.args }, ..st },
        ),
    decreases xs.len(),
{
    reveal(spec_run);
    if xs.len() == 0 {
        assert(prefixed(seq!['-', 'D'], xs) =~= Seq::<Seq<char>>::empty());
        assert(st.args.defines + xs =~= st.args.defines);
        assert(ParseState { args: GccArgsView { defines: st.args.defines + xs, ..st.args }, ..st } =~= st);
    } else {
        let init = xs.drop_last();
        let x = xs.last();
        lemma_run_defines(cwd, init, st);
        let mid = ParseState { args: GccArgsView { defines: st.args.defines + init, ..st.args }, ..st };
        let t = seq!['-', 'D'] + x;
        lemma_run_concat(cwd, prefixed(seq!['-', 'D'], init), seq![t], st);
        assert(prefixed(seq!['-', 'D'], init) + seq![t] =~= prefixed(seq!['-', 'D'], xs));
        assert(t[0] == '-' && t[1] == 'D');
        assert(t.skip(2) =~= x);
        lemma_classify_facts(t);
        lemma_run_single(cwd, t, mid);
        lemma_single_update_define(cwd, t, mid.args, mid.language);
        assert((st.args.defines + init).push(x) =~= st.args.defines + xs);
    }
}

pub(crate) proof fn lemma_run_libraries(cwd: Seq<char>, xs: Seq<Seq<char>>, st: ParseState)
    ensures
        spec_run(cwd, prefixed(seq!['-', 'l'], xs), st) == Ok::<ParseState, ErrorView>(
            ParseState { args: GccArgsView { libraries: st.args.libraries + xs, ..st.args }, ..st },
        ),
    decreases xs.len(),
{
    reveal(spec_run);
    if xs.len() == 0 {
        assert(prefixed(seq!['-', 'l'], xs) =~= Seq::<Seq<char>>::empty());
        assert(st.args.libraries + xs =~= st.args.libraries);
        assert(ParseState { args: GccArgsView { libraries: st.args.libraries + xs, ..st.args }, ..st } =~= st);
    } else {
        let init = xs.drop_last();
        let x = xs.last();
        lemma_run_libraries(cwd, init, st);
        let mid = ParseState { args: GccArgsView { libraries: st.args.libraries + init, ..st.args }, ..st };
        let t = seq!['-', 'l'] + x;
        lemma_run_concat(cwd, prefixed(seq!['-', 'l'], init), seq![t], st);
        assert(prefixed(seq!['-', 'l'], init) + seq![t] =~= prefixed(seq!['-', 'l'], xs));
        assert(t[0] == '-' && t[1] == 'l');
        assert(t.skip(2) =~= x);
        lemma_classify_facts(t);
        lemma_run_single(cwd, t, mid);
        lemma_single_update_library(cwd, t, mid.args, mid.language);
        assert((st.args.libraries + init).push(x) =~= st.args.libraries + xs);
    }
}

pub(crate) proof fn lemma_run_user_includes(cwd: Seq<char>, xs: Seq<Seq<char>>, st: ParseState)
    requires
        forall|i: int| 0 <= i < xs.len() ==> is_absolute(#[trigger] xs[i]),
    ensures
        spec_run(cwd, prefixed(seq!['-', 'I'], xs), st) == Ok::<ParseState, ErrorView>(
            ParseState { args: GccArgsView { user_includes: st.args.user_includes + xs, ..st.args }, ..st },
        ),
    decreases xs.len(),
{
    reveal(spec_run);
    if xs.len() == 0 {
        assert(prefixed(seq!['-', 'I'], xs) =~= Seq::<Seq<char>>::empty());
        assert(st.args.user_includes + xs =~= st.args.user_includes);
        assert(ParseState { args: GccArgsView { user_includes: st.args.user_includes + xs, ..st.args }, ..st } =~= st);
    } else {
        let init = xs.drop_last();
        let x = xs.last();
        lemma_run_user_includes(cwd, init, st);
        let mid = ParseState { args: GccArgsView { user_includes: st.args.user_includes + init, ..st.args }, ..st };
        let t = seq!['-', 'I'] + x;
        lemma_run_concat(cwd, prefixed(seq!['-', 'I'], init), seq![t], st);
        assert(prefixed(seq!['-', 'I'], init) + seq![t] =~= prefixed(seq!['-', 'I'], xs));
        assert(t[0] == '-' && t[1] == 'I');
        assert(t.skip(2) =~= x);
        lemma_classify_facts(t);
        assert(is_absolute(xs[xs.len() - 1]));
        lemma_run_single(cwd, t, mid);
        lemma_single_update_user_include(cwd, t, mid.args, mid.language);
        assert((st.args.user_includes + init).push(x) =~= st.args.user_includes + xs);
    }
}

pub(crate) proof fn lemma_run_link_dirs(cwd: Seq<char>, xs: Seq<Seq<char>>, st: ParseState)
    requires
        forall|i: int| 0 <= i < xs.len() ==> is_absolute(#[trigger] xs[i]),
    ensures
        spec_run(cwd, prefixed(seq!['-', 'L'], xs), st) == Ok::<ParseState, ErrorView>(
            ParseState { args: GccArgsView { link_dirs: st.args.link_dirs + xs, ..st.args }, ..st },
        ),
    decreases xs.len(),
{
    reveal(spec_run);
    if xs.len() == 0 {
        assert(prefixed(seq!['-', 'L'], xs) =~= Seq::<Seq<char>>::empty());
        assert(st.args.link_dirs + xs =~= st.args.link_dirs);
        assert(ParseState { args: GccArgsView { link_dirs: st.args.link_dirs + xs, ..st.args }, ..st } =~= st);
    } else {
        let init = xs.drop_last();
        let x = xs.last();
        lemma_run_link_dirs(cwd, init, st);
        let mid = ParseState { args: GccArgsView { link_dirs: st.args.link_dirs + init, ..st.args }, ..st };
        let t = seq!['-', 'L'] + x;
        lemma_run_concat(cwd, prefixed(seq!['-', 'L'], init), seq![t], st);
        assert(prefixed(seq!['-', 'L'], init) + seq![t] =~= prefixed(seq!['-', 'L'], xs));
        assert(t[0] == '-' && t[1] == 'L');
        assert(t.skip(2) =~= x);
        lemma_classify_facts(t);
        assert(is_absolute(xs[xs.len() - 1]));
        lemma_run_single(cwd, t, mid);
        lemma_single_update_link_dir(cwd, t, mid.args, mid.language);
        assert((st.args.link_dirs + init).push(x) =~= st.args.link_dirs + xs);
    }
}

pub(crate) proof fn lemma_run_system_includes(cwd: Seq<char>, xs: Seq<Seq<char>>, st: ParseState)
    requires
        forall|i: int| 0 <= i < xs.len() ==> is_absolute(#[trigger] xs[i]),
    ensures
        spec_run(cwd, paired(seq!['-', 'i', 's', 'y', 's', 't', 'e', 'm'], xs), st) == Ok::<ParseState, ErrorView>(
            ParseState { args: GccArgsView { system_includes: st.args.system_includes + xs, ..st.args }, ..st },
        ),
    decreases xs.len(),
{
    reveal(spec_run);
    if xs.len() == 0 {
        assert(st.args.system_includes + xs =~= st.args.system_includes);
        assert(ParseState { args: GccArgsView { system_includes: st.args.system_includes + xs, ..st.args }, ..st } =~= st);
    } else {
        let init = xs.drop_last();
        let x = xs.last();
        lemma_run_system_includes(cwd, init, st);
        let mid = ParseState { args: GccArgsView { system_includes: st.args.system_includes + init, ..st.args }, ..st };
        lemma_run_concat(cwd, paired(seq!['-', 'i', 's', 'y', 's', 't', 'e', 'm'], init), seq![seq!['-', 'i', 's', 'y', 's', 't', 'e', 'm'], x], st);
        lemma_classify_literals();
        assert(is_absolute(xs[xs.len() - 1]));
        lemma_run_pair(cwd, seq!['-', 'i', 's', 'y', 's', 't', 'e', 'm'], x, mid);
        lemma_value_update_system_include(cwd, x, mid);
        assert((st.args.system_includes + init).push(x) =~= st.args.system_includes + xs);
    }
}

pub(crate) proof fn lemma_run_linker_args(cwd: Seq<char>, xs: Seq<Seq<char>>, st: ParseState)
    ensures
        spec_run(cwd, paired(seq!['-', 'X', 'l', 'i', 'n', 'k', 'e', 'r'], xs), st) == Ok::<ParseState, ErrorView>(
            ParseState { args: GccArgsView { linker_args: st.args.linker_args + xs, ..st.args }, ..st },
        ),
    decreases xs.len(),
{
    reveal(spec_run);
    if xs.len() == 0 {
        assert(st.args.linker_args + xs =~= st.args.linker_args);
        assert(ParseState { args: GccArgsView { linker_args: st.args.linker_args + xs, ..st.args }, ..st } =~= st);
    } else {
        let init = xs.drop_last();
        let x = xs.last();
        lemma_run_linker_args(cwd, init, st);
        let mid = ParseState { args: GccArgsView { linker_args: st.args.linker_args + init, ..st.args }, ..st };
        lemma_run_concat(cwd, paired(seq!['-', 'X', 'l', 'i', 'n', 'k', 'e', 'r'], init), seq![seq!['-', 'X', 'l', 'i', 'n', 'k', 'e', 'r'], x], st);
        lemma_classify_literals();
        lemma_run_pair(cwd, seq!['-', 'X', 'l', 'i', 'n', 'k', 'e', 'r'], x, mid);
        lemma_value_update_xlinker(cwd, x, mid);
        assert((st.args.linker_args + init).push(x) =~= st.args.linker_args + xs);
    }
}

/// The state after reading the first `k` parts of what [`spec_to_args`] writes for `m`.
#[verifier::opaque]
pub(crate) open spec fn after_parts(m: GccArgsView, k: int) -> ParseState {
    ParseState {
        args: GccArgsView {
            sources: if k > 32 { m.sources } else { Seq::empty() },
            primary_output: if k > 30 { m.primary_output } else { None },
            user_includes: if k > 25 { m.user_includes } else { Seq::empty() },
            system_includes: if k > 26 { m.system_includes } else { Seq::empty() },
            defines: if k > 24 { m.defines } else { Seq::empty() },
            warnings: if k > 22 { m.warnings } else { Seq::empty() },
            machine_args: if k > 23 { m.machine_args } else { Seq::empty() },
            pipe: if k > 3 { m.pipe } else { false },
            f_flags: if k > 17 { m.f_flags } else { Seq::empty() },
            g_flags: if k > 16 { m.g_flags } else { Seq::empty() },
            opt_flags: if k > 15 { m.opt_flags } else { Seq::empty() },
            lang_std: if k > 14 { m.lang_std } else { None },
            depfile_generate: if k > 19 { m.depfile_generate } else { false },
            depfile_output_path: if k > 21 { m.depfile_output_path } else { None },
            depfile_target_name: if k > 20 { m.depfile_target_name } else { None },
            stop_before_link: if k > 0 { m.stop_before_link } else { false },
            stop_before_assemble: if k > 1 { m.stop_before_assemble } else { false },
            stop_after_preprocessing: if k > 2 { m.stop_after_preprocessing } else { false },
            shared: if k > 4 { m.shared } else { false },
            libraries: if k > 18 { m.libraries } else { Seq::empty() },
            no_pie: if k > 5 { m.no_pie } else { false },
            link_dirs: if k > 27 { m.link_dirs } else { Seq::empty() },
            linker_args: if k > 28 { m.linker_args } else { Seq::empty() },
            print_sysroot: if k > 7 { m.print_sysroot } else { false },
            flag_v: if k > 10 { m.flag_v } else { false },
            include_files: if k > 29 { m.include_files } else { Seq::empty() },
            aa_flag: if k > 9 { m.aa_flag } else { false },
            target_flags: if k > 8 { m.target_flags } else { Seq::empty() },
            cxx_flag: if k > 11 { m.cxx_flag } else { false },
            ecxx_flag: if k > 12 { m.ecxx_flag } else { false },
            openmp_flag: if k > 13 { m.openmp_flag } else { false },
            use_link_group: false,
            preprocess_keep_defines: if k > 6 { m.preprocess_keep_defines } else { false },
        },
        language: if k > 32 {
            language_after(m.sources, language_after(m.include_files, None))
        } else if k > 29 {
            language_after(m.include_files, None)
        } else {
            None
        },
    }
}

pub(crate) proof fn lemma_reads_back_step0(cwd: Seq<char>, m: GccArgsView)
    requires
        spec_gcc_args_wf(m),
    ensures
        spec_run(cwd, flag_arg(m.stop_before_link, seq!['-', 'c']), after_parts(m, 0)) == Ok::<ParseState, ErrorView>(after_parts(m, 1)),
{
    reveal(after_parts);
    let s = after_parts(m, 0);
    lemma_classify_literals();
    lemma_run_flag(cwd, m.stop_before_link, seq!['-', 'c'], s);
    lemma_single_update_stop_before_link(cwd, seq!['-', 'c'], s.args, s.language);
    assert(after_parts(m, 1) =~= after_parts(m, 1));
}

pub(crate) proof fn lemma_reads_back_step1(cwd: Seq<char>, m: GccArgsView)
    requires
        spec_gcc_args_wf(m),
    ensures
        spec_run(cwd, flag_arg(m.stop_before_assemble, seq!['-', 'S']), after_parts(m, 1)) == Ok::<ParseState, ErrorView>(after_parts(m, 2)),
{
    reveal(after_parts);
    let s = after_parts(m, 1);
    lemma_classify_literals();
    lemma_run_flag(cwd, m.stop_before_assemble, seq!['-', 'S'], s);
    lemma_single_update_stop_before_assemble(cwd, seq!['-', 'S'], s.args, s.language);
    assert(after_parts(m, 2) =~= after_parts(m, 2));
}

pub(crate) proof fn lemma_reads_back_step2(cwd: Seq<char>, m: GccArgsView)
    requires
        spec_gcc_args_wf(m),
    ensures
        spec_run(cwd, flag_arg(m.stop_after_preprocessing, seq!['-', 'E']), after_parts(m, 2)) == Ok::<ParseState, ErrorView>(after_parts(m, 3)),
{
    reveal(after_parts);
    let s = after_parts(m, 2);
    lemma_classify_literals();
    lemma_run_flag(cwd, m.stop_after_preprocessing, seq!['-', 'E'], s);
    lemma_single_update_stop_after_preprocessing(cwd, seq!['-', 'E'], s.args, s.language);
    assert(after_parts(m, 3) =~= after_parts(m, 3));
}

pub(crate) proof fn lemma_reads_back_step3(cwd: Seq<char>, m: GccArgsView)
    requires
        spec_gcc_args_wf(m),
    ensures
        spec_run(cwd, flag_arg(m.pipe, seq!['-', 'p', 'i', 'p', 'e']), after_parts(m, 3)) == Ok::<ParseState, ErrorView>(after_parts(m, 4)),
{
    reveal(after_parts);
    let s = after_parts(m, 3);
    lemma_classify_literals();
    lemma_run_flag(cwd, m.pipe, seq!['-', 'p', 'i', 'p', 'e'], s);
    lemma_single_update_pipe(cwd, seq!['-', 'p', 'i', 'p', 'e'], s.args, s.language);
    assert(after_parts(m, 4) =~= after_parts(m, 4));
}

pub(crate) proof fn lemma_reads_back_step4(cwd: Seq<char>, m: GccArgsView)
    requires
        spec_gcc_args_wf(m),
    ensures
        spec_run(cwd, flag_arg(m.shared, seq!['-', 's', 'h', 'a', 'r', 'e', 'd']), after_parts(m, 4)) == Ok::<ParseState, ErrorView>(after_parts(m, 5)),
{
    reveal(after_parts);
    let s = after_parts(m, 4);
    lemma_classify_literals();
    lemma_run_flag(cwd, m.shared, seq!['-', 's', 'h', 'a', 'r', 'e', 'd'], s);
    lemma_single_update_shared(cwd, seq!['-', 's', 'h', 'a', 'r', 'e', 'd'], s.args, s.language);
    assert(after_parts(m, 5) =~= after_parts(m, 5));
}

pub(crate) proof fn lemma_reads_back_step5(cwd: Seq<char>, m: GccArgsView)
    requires
        spec_gcc_args_wf(m),
    ensures
        spec_run(cwd, flag_arg(m.no_pie, seq!['-', 'n', 'o', '-', 'p', 'i', 'e']), after_parts(m, 5)) == Ok::<ParseState, ErrorView>(after_parts(m, 6)),
{
    reveal(after_parts);
    let s = after_parts(m, 5);
    lemma_classify_literals();
    lemma_run_flag(cwd, m.no_pie, seq!['-', 'n', 'o', '-', 'p', 'i', 'e'], s);
    lemma_single_update_no_pie(cwd, seq!['-', 'n', 'o', '-', 'p', 'i', 'e'], s.args, s.language);
    assert(after_parts(m, 6) =~= after_parts(m, 6));
}

pub(crate) proof fn lemma_reads_back_step6(cwd: Seq<char>, m: GccArgsView)
    requires
        spec_gcc_args_wf(m),
    ensures
        spec_run(cwd, flag_arg(m.preprocess_keep_defines, seq!['-', 'd', 'D']), after_parts(m, 6)) == Ok::<ParseState, ErrorView>(after_parts(m, 7)),
{
    reveal(after_parts);
    let s = after_parts(m, 6);
    lemma_classify_literals();
    lemma_run_flag(cwd, m.preprocess_keep_defines, seq!['-', 'd', 'D'], s);
    lemma_single_update_keep_defines(cwd, seq!['-', 'd', 'D'], s.args, s.language);
    assert(after_parts(m, 7) =~= after_parts(m, 7));
}

pub(crate) proof fn lemma_reads_back_step7(cwd: Seq<char>, m: GccArgsView)
    requires
        spec_gcc_args_wf(m),
    ensures
        spec_run(cwd, flag_arg(m.print_sysroot, seq!['-', 'p', 'r', 'i', 'n', 't', '-', 's', 'y', 's', 'r', 'o', 'o', 't']), after_parts(m, 7)) == Ok::<ParseState, ErrorView>(after_parts(m, 8)),
{
    reveal(after_parts);
    let s = after_parts(m, 7);
    lemma_classify_literals();
    lemma_run_flag(cwd, m.print_sysroot, seq!['-', 'p', 'r', 'i', 'n', 't', '-', 's', 'y', 's', 'r', 'o', 'o', 't'], s);
    lemma_single_update_print_sysroot(cwd, seq!['-', 'p', 'r', 'i', 'n', 't', '-', 's', 'y', 's', 'r', 'o', 'o', 't'], s.args, s.language);
    assert(after_parts(m, 8) =~= after_parts(m, 8));
}

pub(crate) proof fn lemma_reads_back_step8(cwd: Seq<char>, m: GccArgsView)
    requires
        spec_gcc_args_wf(m),
    ensures
        spec_run(cwd, m.target_flags, after_parts(m, 8)) == Ok::<ParseState, ErrorView>(after_parts(m, 9)),
{
    reveal(after_parts);
    let s = after_parts(m, 8);
    lemma_run_target_flags(cwd, m.target_flags, s);
    assert(s.args.target_flags + m.target_flags =~= m.target_flags);
    assert(after_parts(m, 9) =~= after_parts(m, 9));
}

pub(crate) proof fn lemma_reads_back_step9(cwd: Seq<char>, m: GccArgsView)
    requires
        spec_gcc_args_wf(m),
    ensures
        spec_run(cwd, flag_arg(m.aa_flag, seq!['-', 'A', 'a']), after_parts(m, 9)) == Ok::<ParseState, ErrorView>(after_parts(m, 10)),
{
    reveal(after_parts);
    let s = after_parts(m, 9);
    lemma_classify_literals();
    lemma_run_flag(cwd, m.aa_flag, seq!['-', 'A', 'a'], s);
    lemma_single_update_aa(cwd, seq!['-', 'A', 'a'], s.args, s.language);
    assert(after_parts(m, 10) =~= after_parts(m, 10));
}

pub(crate) proof fn lemma_reads_back_step10(cwd: Seq<char>, m: GccArgsView)
    requires
        spec_gcc_args_wf(m),
    ensures
        spec_run(cwd, flag_arg(m.flag_v, seq!['-', 'v']), after_parts(m, 10)) == Ok::<ParseState, ErrorView>(after_parts(m, 11)),
{
    reveal(after_parts);
    let s = after_parts(m, 10);
    lemma_classify_literals();
    lemma_run_flag(cwd, m.flag_v, seq!['-', 'v'], s);
    lemma_single_update_verbose(cwd, seq!['-', 'v'], s.args, s.language);
    assert(after_parts(m, 11) =~= after_parts(m, 11));
}

pub(crate) proof fn lemma_reads_back_step11(cwd: Seq<char>, m: GccArgsView)
    requires
        spec_gcc_args_wf(m),
    ensures
        spec_run(cwd, flag_arg(m.cxx_flag, seq!['-', '-', 'c', '+', '+']), after_parts(m, 11)) == Ok::<ParseState, ErrorView>(after_parts(m, 12)),
{
    reveal(after_parts);
    let s = after_parts(m, 11);
    lemma_classify_literals();
    lemma_run_flag(cwd, m.cxx_flag, seq!['-', '-', 'c', '+', '+'], s);
    lemma_single_update_cxx_flag(cwd, seq!['-', '-', 'c', '+', '+'], s.args, s.language);
    assert(after_parts(m, 12) =~= after_parts(m, 12));
}

pub(crate) proof fn lemma_reads_back_step12(cwd: Seq<char>, m: GccArgsView)
    requires
        spec_gcc_args_wf(m),
    ensures
        spec_run(cwd, flag_arg(m.ecxx_flag, seq!['-', '-', 'e', 'c', '+', '+']), after_parts(m, 12)) == Ok::<ParseState, ErrorView>(after_parts(m, 13)),
{
    reveal(after_parts);
    let s = after_parts(m, 12);
    lemma_classify_literals();
    lemma_run_flag(cwd, m.ecxx_flag, seq!['-', '-', 'e', 'c', '+', '+'], s);
    lemma_single_update_ecxx_flag(cwd, seq!['-', '-', 'e', 'c', '+', '+'], s.args, s.language);
    assert(after_parts(m, 13) =~= after_parts(m, 13));
}

pub(crate) proof fn lemma_reads_back_step13(cwd: Seq<char>, m: GccArgsView)
    requires
        spec_gcc_args_wf(m),
    ensures
        spec_run(cwd, flag_arg(m.openmp_flag, seq!['-', '-', 'o', 'p', 'e', 'n', 'm', 'p']), after_parts(m, 13)) == Ok::<ParseState, ErrorView>(after_parts(m, 14)),
{
    reveal(after_parts);
    let s = after_parts(m, 13);
    lemma_classify_literals();
    lemma_run_flag(cwd, m.openmp_flag, seq!['-', '-', 'o', 'p', 'e', 'n', 'm', 'p'], s);
    lemma_single_update_openmp_flag(cwd, seq!['-', '-', 'o', 'p', 'e', 'n', 'm', 'p'], s.args, s.language);
    assert(after_parts(m, 14) =~= after_parts(m, 14));
}

pub(crate) proof fn lemma_reads_back_step14(cwd: Seq<char>, m: GccArgsView)
    requires
        spec_gcc_args_wf(m),
    ensures
        spec_run(cwd, opt_arg(m.lang_std), after_parts(m, 14)) == Ok::<ParseState, ErrorView>(after_parts(m, 15)),
{
    reveal(after_parts);
    let s = after_parts(m, 14);
    lemma_run_lang_std(cwd, m.lang_std, s);
    assert(after_parts(m, 15) =~= after_parts(m, 15));
}

pub(crate) proof fn lemma_reads_back_step15(cwd: Seq<char>, m: GccArgsView)
    requires
        spec_gcc_args_wf(m),
    ensures
        spec_run(cwd, m.opt_flags, after_parts(m, 15)) == Ok::<ParseState, ErrorView>(after_parts(m, 16)),
{
    reveal(after_parts);
    let s = after_parts(m, 15);
    lemma_run_opt_flags(cwd, m.opt_flags, s);
    assert(s.args.opt_flags + m.opt_flags =~= m.opt_flags);
    assert(after_parts(m, 16) =~= after_parts(m, 16));
}

pub(crate) proof fn lemma_reads_back_step16(cwd: Seq<char>, m: GccArgsView)
    requires
        spec_gcc_args_wf(m),
    ensures
        spec_run(cwd, m.g_flags, after_parts(m, 16)) == Ok::<ParseState, ErrorView>(after_parts(m, 17)),
{
    reveal(after_parts);
    let s = after_parts(m, 16);
    lemma_run_g_flags(cwd, m.g_flags, s);
    assert(s.args.g_flags + m.g_flags =~= m.g_flags);
    assert(after_parts(m, 17) =~= after_parts(m, 17));
}

pub(crate) proof fn lemma_reads_back_step17(cwd: Seq<char>, m: GccArgsView)
    requires
        spec_gcc_args_wf(m),
    ensures
        spec_run(cwd, m.f_flags, after_parts(m, 17)) == Ok::<ParseState, ErrorView>(after_parts(m, 18)),
{
    reveal(after_parts);
    let s = after_parts(m, 17);
    lemma_run_f_flags(cwd, m.f_flags, s);
    assert(s.args.f_flags + m.f_flags =~= m.f_flags);
    assert(after_parts(m, 18) =~= after_parts(m, 18));
}

pub(crate) proof fn lemma_reads_back_step18(cwd: Seq<char>, m: GccArgsView)
    requires
        spec_gcc_args_wf(m),
    ensures
        spec_run(cwd, prefixed(seq!['-', 'l'], m.libraries), after_parts(m, 18)) == Ok::<ParseState, ErrorView>(after_parts(m, 19)),
{
    reveal(after_parts);
    let s = after_parts(m, 18);
    lemma_run_libraries(cwd, m.libraries, s);
    assert(s.args.libraries + m.libraries =~= m.libraries);
    assert(after_parts(m, 19) =~= after_parts(m, 19));
}

pub(crate) proof fn lemma_reads_back_step19(cwd: Seq<char>, m: GccArgsView)
    requires
        spec_gcc_args_wf(m),
    ensures
        spec_run(cwd, flag_arg(m.depfile_generate, seq!['-', 'M', 'D']), after_parts(m, 19)) == Ok::<ParseState, ErrorView>(after_parts(m, 20)),
{
    reveal(after_parts);
    let s = after_parts(m, 19);
    lemma_classify_literals();
    lemma_run_flag(cwd, m.depfile_generate, seq!['-', 'M', 'D'], s);
    lemma_single_update_dep_generate(cwd, seq!['-', 'M', 'D'], s.args, s.language);
    assert(after_parts(m, 20) =~= after_parts(m, 20));
}

pub(crate) proof fn lemma_reads_back_step20(cwd: Seq<char>, m: GccArgsView)
    requires
        spec_gcc_args_wf(m),
    ensures
        spec_run(cwd, opt_pair(seq!['-', 'M', 'T'], m.depfile_target_name), after_parts(m, 20)) == Ok::<ParseState, ErrorView>(after_parts(m, 21)),
{
    reveal(after_parts);
    let s = after_parts(m, 20);
    match m.depfile_target_name {
        Some(v) => {
            lemma_classify_literals();
            lemma_run_pair(cwd, seq!['-', 'M', 'T'], v, s);
            lemma_value_update_dep_target(cwd, v, s);
        },
        None => {
            lemma_run_empty(cwd, s);
        },
    }
    assert(after_parts(m, 21) =~= after_parts(m, 21));
}

pub(crate) proof fn lemma_reads_back_step21(cwd: Seq<char>, m: GccArgsView)
    requires
        spec_gcc_args_wf(m),
    ensures
        spec_run(cwd, opt_pair(seq!['-', 'M', 'F'], m.depfile_output_path), after_parts(m, 21)) == Ok::<ParseState, ErrorView>(after_parts(m, 22)),
{
    reveal(after_parts);
    let s = after_parts(m, 21);
    match m.depfile_output_path {
        Some(v) => {
            lemma_classify_literals();
            lemma_run_pair(cwd, seq!['-', 'M', 'F'], v, s);
            lemma_value_update_dep_file(cwd, v, s);
        },
        None => {
            lemma_run_empty(cwd, s);
        },
    }
    assert(after_parts(m, 22) =~= after_parts(m, 22));
}

pub(crate) proof fn lemma_reads_back_step22(cwd: Seq<char>, m: GccArgsView)
    requires
        spec_gcc_args_wf(m),
    ensures
        spec_run(cwd, m.warnings, after_parts(m, 22)) == Ok::<ParseState, ErrorView>(after_parts(m, 23)),
{
    reveal(after_parts);
    let s = after_parts(m, 22);
    lemma_run_warnings(cwd, m.warnings, s);
    assert(s.args.warnings + m.warnings =~= m.warnings);
    assert(after_parts(m, 23) =~= after_parts(m, 23));
}

pub(crate) proof fn lemma_reads_back_step23(cwd: Seq<char>, m: GccArgsView)
    requires
        spec_gcc_args_wf(m),
    ensures
        spec_run(cwd, m.machine_args, after_parts(m, 23)) == Ok::<ParseState, ErrorView>(after_parts(m, 24)),
{
    reveal(after_parts);
    let s = after_parts(m, 23);
    lemma_run_machine_args(cwd, m.machine_args, s);
    assert(s.args.machine_args + m.machine_args =~= m.machine_args);
    assert(after_parts(m, 24) =~= after_parts(m, 24));
}

pub(crate) proof fn lemma_reads_back_step24(cwd: Seq<char>, m: GccArgsView)
    requires
        spec_gcc_args_wf(m),
    ensures
        spec_run(cwd, prefixed(seq!['-', 'D'], m.defines), after_parts(m, 24)) == Ok::<ParseState, ErrorView>(after_parts(m, 25)),
{
    reveal(after_parts);
    let s = after_parts(m, 24);
    lemma_run_defines(cwd, m.defines, s);
    assert(s.args.defines + m.defines =~= m.defines);
    assert(after_parts(m, 25) =~= after_parts(m, 25));
}

pub(crate) proof fn lemma_reads_back_step25(cwd: Seq<char>, m: GccArgsView)
    requires
        spec_gcc_args_wf(m),
    ensures
        spec_run(cwd, prefixed(seq!['-', 'I'], m.user_includes), after_parts(m, 25)) == Ok::<ParseState, ErrorView>(after_parts(m, 26)),
{
    reveal(after_parts);
    let s = after_parts(m, 25);
    lemma_run_user_includes(cwd, m.user_includes, s);
    assert(s.args.user_includes + m.user_includes =~= m.user_includes);
    assert(after_parts(m, 26) =~= after_parts(m, 26));
}

pub(crate) proof fn lemma_reads_back_step26(cwd: Seq<char>, m: GccArgsView)
    requires
        spec_gcc_args_wf(m),
    ensures
        spec_run(cwd, paired(seq!['-', 'i', 's', 'y', 's', 't', 'e', 'm'], m.system_includes), after_parts(m, 26)) == Ok::<ParseState, ErrorView>(after_parts(m, 27)),
{
    reveal(after_parts);
    let s = after_parts(m, 26);
    lemma_run_system_includes(cwd, m.system_includes, s);
    assert(s.args.system_includes + m.system_includes =~= m.system_includes);
    assert(after_parts(m, 27) =~= after_parts(m, 27));
}

pub(crate) proof fn lemma_reads_back_step27(cwd: Seq<char>, m: GccArgsView)
    requires
        spec_gcc_args_wf(m),
    ensures
        spec_run(cwd, prefixed(seq!['-', 'L'], m.link_dirs), after_parts(m, 27)) == Ok::<ParseState, ErrorView>(after_parts(m, 28)),
{
    reveal(after_parts);
    let s = after_parts(m, 27);
    lemma_run_link_dirs(cwd, m.link_dirs, s);
    assert(s.args.link_dirs + m.link_dirs =~= m.link_dirs);
    assert(after_parts(m, 28) =~= after_parts(m, 28));
}

pub(crate) proof fn lemma_reads_back_step28(cwd: Seq<char>, m: GccArgsView)
    requires
        spec_gcc_args_wf(m),
    ensures
        spec_run(cwd, paired(seq!['-', 'X', 'l', 'i', 'n', 'k', 'e', 'r'], m.linker_args), after_parts(m, 28)) == Ok::<ParseState, ErrorView>(after_parts(m, 29)),
{
    reveal(after_parts);
    let s = after_parts(m, 28);
    lemma_run_linker_args(cwd, m.linker_args, s);
    assert(s.args.linker_args + m.linker_args =~= m.linker_args);
    assert(after_parts(m, 29) =~= after_parts(m, 29));
}

pub(crate) proof fn lemma_reads_back_step29(cwd: Seq<char>, m: GccArgsView)
    requires
        spec_gcc_args_wf(m),
    ensures
        spec_run(cwd, file_args(m.include_files, None, true), after_parts(m, 29)) == Ok::<ParseState, ErrorView>(after_parts(m, 30)),
{
    reveal(after_parts);
    let s = after_parts(m, 29);
    lemma_run_forced_files(cwd, m.include_files, None, s.args);
    assert(s.args.include_files + m.include_files =~= m.include_files);
    assert(after_parts(m, 30) =~= after_parts(m, 30));
}

pub(crate) proof fn lemma_reads_back_step30(cwd: Seq<char>, m: GccArgsView)
    requires
        spec_gcc_args_wf(m),
    ensures
        spec_run(cwd, opt_pair(seq!['-', 'o'], m.primary_output), after_parts(m, 30)) == Ok::<ParseState, ErrorView>(after_parts(m, 31)),
{
    reveal(after_parts);
    let s = after_parts(m, 30);
    match m.primary_output {
        Some(v) => {
            lemma_classify_literals();
            lemma_run_pair(cwd, seq!['-', 'o'], v, s);
            lemma_value_update_output(cwd, v, s);
        },
        None => {
            lemma_run_empty(cwd, s);
        },
    }
    assert(after_parts(m, 31) =~= after_parts(m, 31));
}

pub(crate) proof fn lemma_reads_back_step31(cwd: Seq<char>, m: GccArgsView)
    requires
        spec_gcc_args_wf(m),
    ensures
        spec_run(cwd, flag_arg(m.use_link_group, seq!['-', 'W', 'l', ',', '-', '-', 's', 't', 'a', 'r', 't', '-', 'g', 'r', 'o', 'u', 'p']), after_parts(m, 31)) == Ok::<ParseState, ErrorView>(after_parts(m, 32)),
{
    reveal(after_parts);
    let s = after_parts(m, 31);
    assert(flag_arg(m.use_link_group, seq!['-', 'W', 'l', ',', '-', '-', 's', 't', 'a', 'r', 't', '-', 'g', 'r', 'o', 'u', 'p']) =~= Seq::<Seq<char>>::empty());
    lemma_run_empty(cwd, s);
    assert(after_parts(m, 32) =~= after_parts(m, 32));
}

pub(crate) proof fn lemma_reads_back_step32(cwd: Seq<char>, m: GccArgsView)
    requires
        spec_gcc_args_wf(m),
    ensures
        spec_run(cwd, file_args(m.sources, language_after(m.include_files, None), false), after_parts(m, 32)) == Ok::<ParseState, ErrorView>(after_parts(m, 33)),
{
    reveal(after_parts);
    let s = after_parts(m, 32);
    lemma_run_source_files(cwd, m.sources, s.language, s.args);
    assert(s.args.sources + m.sources =~= m.sources);
    assert(after_parts(m, 33) =~= after_parts(m, 33));
}

pub(crate) proof fn lemma_reads_back_step33(cwd: Seq<char>, m: GccArgsView)
    requires
        spec_gcc_args_wf(m),
    ensures
        spec_run(cwd, flag_arg(m.use_link_group, seq!['-', 'W', 'l', ',', '-', '-', 'e', 'n', 'd', '-', 'g', 'r', 'o', 'u', 'p']), after_parts(m, 33)) == Ok::<ParseState, ErrorView>(after_parts(m, 34)),
{
    reveal(after_parts);
    let s = after_parts(m, 33);
    assert(flag_arg(m.use_link_group, seq!['-', 'W', 'l', ',', '-', '-', 'e', 'n', 'd', '-', 'g', 'r', 'o', 'u', 'p']) =~= Seq::<Seq<char>>::empty());
    lemma_run_empty(cwd, s);
    assert(after_parts(m, 34) =~= after_parts(m, 34));
}

#[verifier::opaque]
pub(crate) open spec fn prefix1(m: GccArgsView) -> Seq<Seq<char>> {
    flag_arg(m.stop_before_link, seq!['-', 'c'])
        + flag_arg(m.stop_before_assemble, seq!['-', 'S'])
        + flag_arg(m.stop_after_preprocessing, seq!['-', 'E'])
        + flag_arg(m.pipe, seq!['-', 'p', 'i', 'p', 'e'])
        + flag_arg(m.shared, seq!['-', 's', 'h', 'a', 'r', 'e', 'd'])
        + flag_arg(m.no_pie, seq!['-', 'n', 'o', '-', 'p', 'i', 'e'])
        + flag_arg(m.preprocess_keep_defines, seq!['-', 'd', 'D'])
        + flag_arg(m.print_sysroot, seq!['-', 'p', 'r', 'i', 'n', 't', '-', 's', 'y', 's', 'r', 'o', 'o', 't'])
        + m.target_flags
}

pub(crate) proof fn lemma_reads_back_part1(cwd: Seq<char>, m: GccArgsView)
    requires
        spec_gcc_args_wf(m),
    ensures
        spec_run(cwd, prefix1(m), initial_parse_state()) == Ok::<ParseState, ErrorView>(after_parts(m, 9)),
{
    let s0 = initial_parse_state();
    let mut acc: Seq<Seq<char>> = Seq::empty();
    lemma_run_empty(cwd, s0);
    assert(after_parts(m, 0) =~= s0) by {
        reveal(after_parts);
    }
    lemma_reads_back_step0(cwd, m);
    lemma_run_concat(cwd, acc, flag_arg(m.stop_before_link, seq!['-', 'c']), s0);
    acc = acc + flag_arg(m.stop_before_link, seq!['-', 'c']);
    assert(spec_run(cwd, acc, s0) == Ok::<ParseState, ErrorView>(after_parts(m, 1)));
    lemma_reads_back_step1(cwd, m);
    lemma_run_concat(cwd, acc, flag_arg(m.stop_before_assemble, seq!['-', 'S']), s0);
    acc = acc + flag_arg(m.stop_before_assemble, seq!['-', 'S']);
    assert(spec_run(cwd, acc, s0) == Ok::<ParseState, ErrorView>(after_parts(m, 2)));
    lemma_reads_back_step2(cwd, m);
    lemma_run_concat(cwd, acc, flag_arg(m.stop_after_preprocessing, seq!['-', 'E']), s0);
    acc = acc + flag_arg(m.stop_after_preprocessing, seq!['-', 'E']);
    assert(spec_run(cwd, acc, s0) == Ok::<ParseState, ErrorView>(after_parts(m, 3)));
    lemma_reads_back_step3(cwd, m);
    lemma_run_concat(cwd, acc, flag_arg(m.pipe, seq!['-', 'p', 'i', 'p', 'e']), s0);
    acc = acc + flag_arg(m.pipe, seq!['-', 'p', 'i', 'p', 'e']);
    assert(spec_run(cwd, acc, s0) == Ok::<ParseState, ErrorView>(after_parts(m, 4)));
    lemma_reads_back_step4(cwd, m);
    lemma_run_concat(cwd, acc, flag_arg(m.shared, seq!['-', 's', 'h', 'a', 'r', 'e', 'd']), s0);
    acc = acc + flag_arg(m.shared, seq!['-', 's', 'h', 'a', 'r', 'e', 'd']);
    assert(spec_run(cwd, acc, s0) == Ok::<ParseState, ErrorView>(after_parts(m, 5)));
    lemma_reads_back_step5(cwd, m);
    lemma_run_concat(cwd, acc, flag_arg(m.no_pie, seq!['-', 'n', 'o', '-', 'p', 'i', 'e']), s0);
    acc = acc + flag_arg(m.no_pie, seq!['-', 'n', 'o', '-', 'p', 'i', 'e']);
    assert(spec_run(cwd, acc, s0) == Ok::<ParseState, ErrorView>(after_parts(m, 6)));
    lemma_reads_back_step6(cwd, m);
    lemma_run_concat(cwd, acc, flag_arg(m.preprocess_keep_defines, seq!['-', 'd', 'D']), s0);
    acc = acc + flag_arg(m.preprocess_keep_defines, seq!['-', 'd', 'D']);
    assert(spec_run(cwd, acc, s0) == Ok::<ParseState, ErrorView>(after_parts(m, 7)));
    lemma_reads_back_step7(cwd, m);
    lemma_run_concat(cwd, acc, flag_arg(m.print_sysroot, seq!['-', 'p', 'r', 'i', 'n', 't', '-', 's', 'y', 's', 'r', 'o', 'o', 't']), s0);
    acc = acc + flag_arg(m.print_sysroot, seq!['-', 'p', 'r', 'i', 'n', 't', '-', 's', 'y', 's', 'r', 'o', 'o', 't']);
    assert(spec_run(cwd, acc, s0) == Ok::<ParseState, ErrorView>(after_parts(m, 8)));
    lemma_reads_back_step8(cwd, m);
    lemma_run_concat(cwd, acc, m.target_flags, s0);
    acc = acc + m.target_flags;
    assert(spec_run(cwd, acc, s0) == Ok::<ParseState, ErrorView>(after_parts(m, 9)));
    assert(acc == prefix1(m)) by {
        reveal(prefix1);
    }
}

#[verifier::opaque]
pub(crate) open spec fn prefix2(m: GccArgsView) -> Seq<Seq<char>> {
    prefix1(m)
        + flag_arg(m.aa_flag, seq!['-', 'A', 'a'])
        + flag_arg(m.flag_v, seq!['-', 'v'])
        + flag_arg(m.cxx_flag, seq!['-', '-', 'c', '+', '+'])
        + flag_arg(m.ecxx_flag, seq!['-', '-', 'e', 'c', '+', '+'])
        + flag_arg(m.openmp_flag, seq!['-', '-', 'o', 'p', 'e', 'n', 'm', 'p'])
        + opt_arg(m.lang_std)
        + m.opt_flags
        + m.g_flags
        + m.f_flags
        + prefixed(seq!['-', 'l'], m.libraries)
}

pub(crate) proof fn lemma_reads_back_part2(cwd: Seq<char>, m: GccArgsView)
    requires
        spec_gcc_args_wf(m),
        spec_run(cwd, prefix1(m), initial_parse_state()) == Ok::<ParseState, ErrorView>(after_parts(m, 9)),
    ensures
        spec_run(cwd, prefix2(m), initial_parse_state()) == Ok::<ParseState, ErrorView>(after_parts(m, 19)),
{
    let s0 = initial_parse_state();
    let mut acc = prefix1(m);
    lemma_reads_back_step9(cwd, m);
    lemma_run_concat(cwd, acc, flag_arg(m.aa_flag, seq!['-', 'A', 'a']), s0);
    acc = acc + flag_arg(m.aa_flag, seq!['-', 'A', 'a']);
    assert(spec_run(cwd, acc, s0) == Ok::<ParseState, ErrorView>(after_parts(m, 10)));
    lemma_reads_back_step10(cwd, m);
    lemma_run_concat(cwd, acc, flag_arg(m.flag_v, seq!['-', 'v']), s0);
    acc = acc + flag_arg(m.flag_v, seq!['-', 'v']);
    assert(spec_run(cwd, acc, s0) == Ok::<ParseState, ErrorView>(after_parts(m, 11)));
    lemma_reads_back_step11(cwd, m);
    lemma_run_concat(cwd, acc, flag_arg(m.cxx_flag, seq!['-', '-', 'c', '+', '+']), s0);
    acc = acc + flag_arg(m.cxx_flag, seq!['-', '-', 'c', '+', '+']);
    assert(spec_run(cwd, acc, s0) == Ok::<ParseState, ErrorView>(after_parts(m, 12)));
    lemma_reads_back_step12(cwd, m);
    lemma_run_concat(cwd, acc, flag_arg(m.ecxx_flag, seq!['-', '-', 'e', 'c', '+', '+']), s0);
    acc = acc + flag_arg(m.ecxx_flag, seq!['-', '-', 'e', 'c', '+', '+']);
    assert(spec_run(cwd, acc, s0) == Ok::<ParseState, ErrorView>(after_parts(m, 13)));
    lemma_reads_back_step13(cwd, m);
    lemma_run_concat(cwd, acc, flag_arg(m.openmp_flag, seq!['-', '-', 'o', 'p', 'e', 'n', 'm', 'p']), s0);
    acc = acc + flag_arg(m.openmp_flag, seq!['-', '-', 'o', 'p', 'e', 'n', 'm', 'p']);
    assert(spec_run(cwd, acc, s0) == Ok::<ParseState, ErrorView>(after_parts(m, 14)));
    lemma_reads_back_step14(cwd, m);
    lemma_run_concat(cwd, acc, opt_arg(m.lang_std), s0);
    acc = acc + opt_arg(m.lang_std);
    assert(spec_run(cwd, acc, s0) == Ok::<ParseState, ErrorView>(after_parts(m, 15)));
    lemma_reads_back_step15(cwd, m);
    lemma_run_concat(cwd, acc, m.opt_flags, s0);
    acc = acc + m.opt_flags;
    assert(spec_run(cwd, acc, s0) == Ok::<ParseState, ErrorView>(after_parts(m, 16)));
    lemma_reads_back_step16(cwd, m);
    lemma_run_concat(cwd, acc, m.g_flags, s0);
    acc = acc + m.g_flags;
    assert(spec_run(cwd, acc, s0) == Ok::<ParseState, ErrorView>(after_parts(m, 17)));
    lemma_reads_back_step17(cwd, m);
    lemma_run_concat(cwd, acc, m.f_flags, s0);
    acc = acc + m.f_flags;
    assert(spec_run(cwd, acc, s0) == Ok::<ParseState, ErrorView>(after_parts(m, 18)));
    lemma_reads_back_step18(cwd, m);
    lemma_run_concat(cwd, acc, prefixed(seq!['-', 'l'], m.libraries), s0);
    acc = acc + prefixed(seq!['-', 'l'], m.libraries);
    assert(spec_run(cwd, acc, s0) == Ok::<ParseState, ErrorView>(after_parts(m, 19)));
    assert(acc == prefix2(m)) by {
        reveal(prefix2);
    }
}

#[verifier::opaque]
pub(crate) open spec fn prefix3(m: GccArgsView) -> Seq<Seq<char>> {
    prefix2(m)
        + flag_arg(m.depfile_generate, seq!['-', 'M', 'D'])
        + opt_pair(seq!['-', 'M', 'T'], m.depfile_target_name)
        + opt_pair(seq!['-', 'M', 'F'], m.depfile_output_path)
        + m.warnings
        + m.machine_args
        + prefixed(seq!['-', 'D'], m.defines)
        + prefixed(seq!['-', 'I'], m.user_includes)
        + paired(seq!['-', 'i', 's', 'y', 's', 't', 'e', 'm'], m.system_includes)
        + prefixed(seq!['-', 'L'], m.link_dirs)
        + paired(seq!['-', 'X', 'l', 'i', 'n', 'k', 'e', 'r'], m.linker_args)
}

pub(crate) proof fn lemma_reads_back_part3(cwd: Seq<char>, m: GccArgsView)
    requires
        spec_gcc_args_wf(m),
        spec_run(cwd, prefix2(m), initial_parse_state()) == Ok::<ParseState, ErrorView>(after_parts(m, 19)),
    ensures
        spec_run(cwd, prefix3(m), initial_parse_state()) == Ok::<ParseState, ErrorView>(after_parts(m, 29)),
{
    let s0 = initial_parse_state();
    let mut acc = prefix2(m);
    lemma_reads_back_step19(cwd, m);
    lemma_run_concat(cwd, acc, flag_arg(m.depfile_generate, seq!['-', 'M', 'D']), s0);
    acc = acc + flag_arg(m.depfile_generate, seq!['-', 'M', 'D']);
    assert(spec_run(cwd, acc, s0) == Ok::<ParseState, ErrorView>(after_parts(m, 20)));
    lemma_reads_back_step20(cwd, m);
    lemma_run_concat(cwd, acc, opt_pair(seq!['-', 'M', 'T'], m.depfile_target_name), s0);
    acc = acc + opt_pair(seq!['-', 'M', 'T'], m.depfile_target_name);
    assert(spec_run(cwd, acc, s0) == Ok::<ParseState, ErrorView>(after_parts(m, 21)));
    lemma_reads_back_step21(cwd, m);
    lemma_run_concat(cwd, acc, opt_pair(seq!['-', 'M', 'F'], m.depfile_output_path), s0);
    acc = acc + opt_pair(seq!['-', 'M', 'F'], m.depfile_output_path);
    assert(spec_run(cwd, acc, s0) == Ok::<ParseState, ErrorView>(after_parts(m, 22)));
    lemma_reads_back_step22(cwd, m);
    lemma_run_concat(cwd, acc, m.warnings, s0);
    acc = acc + m.warnings;
    assert(spec_run(cwd, acc, s0) == Ok::<ParseState, ErrorView>(after_parts(m, 23)));
    lemma_reads_back_step23(cwd, m);
    lemma_run_concat(cwd, acc, m.machine_args, s0);
    acc = acc + m.machine_args;
    assert(spec_run(cwd, acc, s0) == Ok::<ParseState, ErrorView>(after_parts(m, 24)));
    lemma_reads_back_step24(cwd, m);
    lemma_run_concat(cwd, acc, prefixed(seq!['-', 'D'], m.defines), s0);
    acc = acc + prefixed(seq!['-', 'D'], m.defines);
    assert(spec_run(cwd, acc, s0) == Ok::<ParseState, ErrorView>(after_parts(m, 25)));
    lemma_reads_back_step25(cwd, m);
    lemma_run_concat(cwd, acc, prefixed(seq!['-', 'I'], m.user_includes), s0);
    acc = acc + prefixed(seq!['-', 'I'], m.user_includes);
    assert(spec_run(cwd, acc, s0) == Ok::<ParseState, ErrorView>(after_parts(m, 26)));
    lemma_reads_back_step26(cwd, m);
    lemma_run_concat(cwd, acc, paired(seq!['-', 'i', 's', 'y', 's', 't', 'e', 'm'], m.system_includes), s0);
    acc = acc + paired(seq!['-', 'i', 's', 'y', 's', 't', 'e', 'm'], m.system_includes);
    assert(spec_run(cwd, acc, s0) == Ok::<ParseState, ErrorView>(after_parts(m, 27)));
    lemma_reads_back_step27(cwd, m);
    lemma_run_concat(cwd, acc, prefixed(seq!['-', 'L'], m.link_dirs), s0);
    acc = acc + prefixed(seq!['-', 'L'], m.link_dirs);
    assert(spec_run(cwd, acc, s0) == Ok::<ParseState, ErrorView>(after_parts(m, 28)));
    lemma_reads_back_step28(cwd, m);
    lemma_run_concat(cwd, acc, paired(seq!['-', 'X', 'l', 'i', 'n', 'k', 'e', 'r'], m.linker_args), s0);
    acc = acc + paired(seq!['-', 'X', 'l', 'i', 'n', 'k', 'e', 'r'], m.linker_args);
    assert(spec_run(cwd, acc, s0) == Ok::<ParseState, ErrorView>(after_parts(m, 29)));
    assert(acc == prefix3(m)) by {
        reveal(prefix3);
    }
}

#[verifier::opaque]
pub(crate) open spec fn prefix4(m: GccArgsView) -> Seq<Seq<char>> {
    prefix3(m)
        + file_args(m.include_files, None, true)
        + opt_pair(seq!['-', 'o'], m.primary_output)
        + flag_arg(m.use_link_group, seq!['-', 'W', 'l', ',', '-', '-', 's', 't', 'a', 'r', 't', '-', 'g', 'r', 'o', 'u', 'p'])
        + file_args(m.sources, language_after(m.include_files, None), false)
        + flag_arg(m.use_link_group, seq!['-', 'W', 'l', ',', '-', '-', 'e', 'n', 'd', '-', 'g', 'r', 'o', 'u', 'p'])
}

pub(crate) proof fn lemma_reads_back_part4(cwd: Seq<char>, m: GccArgsView)
    requires
        spec_gcc_args_wf(m),
        spec_run(cwd, prefix3(m), initial_parse_state()) == Ok::<ParseState, ErrorView>(after_parts(m, 29)),
    ensures
        spec_run(cwd, prefix4(m), initial_parse_state()) == Ok::<ParseState, ErrorView>(after_parts(m, 34)),
{
    let s0 = initial_parse_state();
    let mut acc = prefix3(m);
    lemma_reads_back_step29(cwd, m);
    lemma_run_concat(cwd, acc, file_args(m.include_files, None, true), s0);
    acc = acc + file_args(m.include_files, None, true);
    assert(spec_run(cwd, acc, s0) == Ok::<ParseState, ErrorView>(after_parts(m, 30)));
    lemma_reads_back_step30(cwd, m);
    lemma_run_concat(cwd, acc, opt_pair(seq!['-', 'o'], m.primary_output), s0);
    acc = acc + opt_pair(seq!['-', 'o'], m.primary_output);
    assert(spec_run(cwd, acc, s0) == Ok::<ParseState, ErrorView>(after_parts(m, 31)));
    lemma_reads_back_step31(cwd, m);
    lemma_run_concat(cwd, acc, flag_arg(m.use_link_group, seq!['-', 'W', 'l', ',', '-', '-', 's', 't', 'a', 'r', 't', '-', 'g', 'r', 'o', 'u', 'p']), s0);
    acc = acc + flag_arg(m.use_link_group, seq!['-', 'W', 'l', ',', '-', '-', 's', 't', 'a', 'r', 't', '-', 'g', 'r', 'o', 'u', 'p']);
    assert(spec_run(cwd, acc, s0) == Ok::<ParseState, ErrorView>(after_parts(m, 32)));
    lemma_reads_back_step32(cwd, m);
    lemma_run_concat(cwd, acc, file_args(m.sources, language_after(m.include_files, None), false), s0);
    acc = acc + file_args(m.sources, language_after(m.include_files, None), false);
    assert(spec_run(cwd, acc, s0) == Ok::<ParseState, ErrorView>(after_parts(m, 33)));
    lemma_reads_back_step33(cwd, m);
    lemma_run_concat(cwd, acc, flag_arg(m.use_link_group, seq!['-', 'W', 'l', ',', '-', '-', 'e', 'n', 'd', '-', 'g', 'r', 'o', 'u', 'p']), s0);
    acc = acc + flag_arg(m.use_link_group, seq!['-', 'W', 'l', ',', '-', '-', 'e', 'n', 'd', '-', 'g', 'r', 'o', 'u', 'p']);
    assert(spec_run(cwd, acc, s0) == Ok::<ParseState, ErrorView>(after_parts(m, 34)));
    assert(acc == prefix4(m)) by {
        reveal(prefix4);
    }
}

/// Reading back what [`spec_to_args`] writes, in any directory, yields the same parts,
/// for parts whose paths are absolute and whose flags read as what they are.
pub proof fn lemma_to_args_reads_back(cwd: Seq<char>, m: GccArgsView)
    requires
        spec_gcc_args_wf(m),
    ensures
        spec_parse_gcc(cwd, spec_to_args(m)) == Ok::<GccArgsView, ErrorView>(m),
{
    lemma_reads_back_part1(cwd, m);
    lemma_reads_back_part2(cwd, m);
    lemma_reads_back_part3(cwd, m);
    lemma_reads_back_part4(cwd, m);
    assert(spec_to_args(m) == prefix4(m)) by {
        reveal(prefix1);
        reveal(prefix2);
        reveal(prefix3);
        reveal(prefix4);
    }
    assert(after_parts(m, 34).args =~= m) by {
        reveal(after_parts);
    }
}

/// What an argument that stands alone adds keeps the parts well formed, in an absolute
/// directory.
pub(crate) proof fn lemma_single_keeps_wf(
    cwd: Seq<char>,
    a: Seq<char>,
    m: GccArgsView,
    lang: Option<CodeLanguage>,
)
    requires
        is_absolute(cwd),
        spec_gcc_args_wf(m),
        !(spec_classify(a) is Unknown),
        !takes_value(spec_classify(a)),
    ensures
        spec_gcc_args_wf(single_update(cwd, spec_classify(a), a, m, lang)),
{
    lemma_classify_facts(a);
    match spec_classify(a) {
        ArgClass::Define => {
            lemma_single_update_define(cwd, a, m, lang);
        },
        ArgClass::UserInclude => {
            lemma_single_update_user_include(cwd, a, m, lang);
            lemma_make_absolute_is_absolute(cwd, a.skip(2));
        },
        ArgClass::LinkerList => {
            lemma_single_update_linker_list(cwd, a, m, lang);
        },
        ArgClass::Warning => {
            lemma_single_update_warning(cwd, a, m, lang);
        },
        ArgClass::Target => {
            lemma_single_update_target(cwd, a, m, lang);
        },
        ArgClass::Machine => {
            lemma_single_update_machine(cwd, a, m, lang);
        },
        ArgClass::Pipe => {
            lemma_single_update_pipe(cwd, a, m, lang);
        },
        ArgClass::Shared => {
            lemma_single_update_shared(cwd, a, m, lang);
        },
        ArgClass::PrintSysroot => {
            lemma_single_update_print_sysroot(cwd, a, m, lang);
        },
        ArgClass::Verbose => {
            lemma_single_update_verbose(cwd, a, m, lang);
        },
        ArgClass::Aa => {
            lemma_single_update_aa(cwd, a, m, lang);
        },
        ArgClass::CxxFlag => {
            lemma_single_update_cxx_flag(cwd, a, m, lang);
        },
        ArgClass::EcxxFlag => {
            lemma_single_update_ecxx_flag(cwd, a, m, lang);
        },
        ArgClass::OpenmpFlag => {
            lemma_single_update_openmp_flag(cwd, a, m, lang);
        },
        ArgClass::KeepDefines => {
            lemma_single_update_keep_defines(cwd, a, m, lang);
        },
        ArgClass::FFlag => {
            lemma_single_update_f_flag(cwd, a, m, lang);
        },
        ArgClass::OptFlag => {
            lemma_single_update_opt_flag(cwd, a, m, lang);
        },
        ArgClass::LangStd => {
            lemma_single_update_lang_std(cwd, a, m, lang);
        },
        ArgClass::DepGenerate => {
            lemma_single_update_dep_generate(cwd, a, m, lang);
        },
        ArgClass::StopBeforeLink => {
            lemma_single_update_stop_before_link(cwd, a, m, lang);
        },
        ArgClass::StopBeforeAssemble => {
            lemma_single_update_stop_before_assemble(cwd, a, m, lang);
        },
        ArgClass::StopAfterPreprocessing => {
            lemma_single_update_stop_after_preprocessing(cwd, a, m, lang);
        },
        ArgClass::GFlag => {
            lemma_single_update_g_flag(cwd, a, m, lang);
        },
        ArgClass::Library => {
            lemma_single_update_library(cwd, a, m, lang);
        },
        ArgClass::NoPie => {
            lemma_single_update_no_pie(cwd, a, m, lang);
        },
        ArgClass::LinkDir => {
            lemma_single_update_link_dir(cwd, a, m, lang);
            lemma_make_absolute_is_absolute(cwd, a.skip(2));
        },
        ArgClass::Source => {
            lemma_single_update_source(cwd, a, m, lang);
            lemma_make_absolute_is_absolute(cwd, a);
        },
        _ => {},
    }
}

/// What a flag that takes a value does keeps the parts well formed, in an absolute
/// directory.
pub(crate) proof fn lemma_value_keeps_wf(cwd: Seq<char>, c: ArgClass, v: Seq<char>, st: ParseState)
    requires
        is_absolute(cwd),
        spec_gcc_args_wf(st.args),
        takes_value(c),
        value_update(cwd, c, v, st) is Ok,
    ensures
        spec_gcc_args_wf(value_update(cwd, c, v, st)->Ok_0.args),
{
    match c {
        ArgClass::SystemInclude => {
            lemma_value_update_system_include(cwd, v, st);
            lemma_make_absolute_is_absolute(cwd, v);
        },
        ArgClass::Include => {
            lemma_value_update_include(cwd, v, st);
            lemma_make_absolute_is_absolute(cwd, v);
        },
        ArgClass::DepTarget => {
            lemma_value_update_dep_target(cwd, v, st);
        },
        ArgClass::DepFile => {
            lemma_value_update_dep_file(cwd, v, st);
            lemma_make_absolute_is_absolute(cwd, v);
        },
        ArgClass::Output => {
            lemma_value_update_output(cwd, v, st);
            lemma_make_absolute_is_absolute(cwd, v);
        },
        ArgClass::Xlinker => {
            lemma_value_update_xlinker(cwd, v, st);
        },
        _ => {
            lemma_value_update_language(cwd, v, st);
        },
    }
}

/// Reading keeps the parts well formed, in an absolute directory.
pub(crate) proof fn lemma_run_keeps_wf(cwd: Seq<char>, toks: Seq<Seq<char>>, st: ParseState)
    requires
        is_absolute(cwd),
        spec_gcc_args_wf(st.args),
        spec_run(cwd, toks, st) is Ok,
    ensures
        spec_gcc_args_wf(spec_run(cwd, toks, st)->Ok_0.args),
    decreases toks.len(),
{
    reveal(spec_run);
    reveal(spec_step);
    if toks.len() > 0 {
        let c = spec_classify(toks[0]);
        if takes_value(c) {
            lemma_value_keeps_wf(cwd, c, toks[1], st);
        } else {
            lemma_single_keeps_wf(cwd, toks[0], st.args, st.language);
        }
        let (k, next) = spec_step(cwd, toks, st)->Ok_0;
        lemma_run_keeps_wf(cwd, toks.skip(k), next);
    }
}

/// What gcc's arguments read as, in an absolute directory, is well formed.
pub proof fn lemma_parse_gcc_wf(cwd: Seq<char>, args: Seq<Seq<char>>)
    requires
        is_absolute(cwd),
        spec_parse_gcc(cwd, args) is Ok,
    ensures
        spec_gcc_args_wf(spec_parse_gcc(cwd, args)->Ok_0),
{
    lemma_run_keeps_wf(cwd, args, initial_parse_state());
}

/// Reading gcc's arguments in an absolute directory, writing the parts back and reading
/// what was written, in any directory, gives the same parts.
pub proof fn lemma_gcc_args_round_trip(cwd1: Seq<char>, cwd2: Seq<char>, args: Seq<Seq<char>>)
    requires
        is_absolute(cwd1),
        spec_parse_gcc(cwd1, args) is Ok,
    ensures
        spec_parse_gcc(cwd2, spec_to_args(spec_parse_gcc(cwd1, args)->Ok_0)) == spec_parse_gcc(
            cwd1,
            args,
        ),
{
    lemma_parse_gcc_wf(cwd1, args);
    lemma_to_args_reads_back(cwd2, spec_parse_gcc(cwd1, args)->Ok_0);
}

} // verus!
