//! gcc arguments as a list of words, each a flag, a flag with its value, or a source file,
//! and the rewrites of a compile command that the cache runs.

use vstd::prelude::*;
use crate::code_language::{CodeLanguage, spec_from_gcc_x_arg, spec_to_gcc_x_arg};
use crate::error::{Error, ErrorView};
use crate::path_utils::{make_absolute, spec_make_absolute};
use crate::source_file::{SourceFile, SourceFileView, spec_source_language};
use crate::text::{chars_eq, chars_of, push_str, string_of};

verus! {

/// One argument of gcc, or a flag together with the value after it.
#[derive(Debug)]
pub enum GccArg {
    /// A flag that stands alone.
    Single(String),
    /// A flag and the argument after it.
    Dual(String, String),
    /// A file to compile or link.
    Source(String),
}

/// A [`GccArg`] as a value of specifications.
pub enum GccArgView {
    Single(Seq<char>),
    Dual(Seq<char>, Seq<char>),
    Source(Seq<char>),
}

impl View for GccArg {
    type V = GccArgView;

    open spec fn view(&self) -> GccArgView {
        match self {
            GccArg::Single(a) => GccArgView::Single(a@),
            GccArg::Dual(a, b) => GccArgView::Dual(a@, b@),
            GccArg::Source(a) => GccArgView::Source(a@),
        }
    }
}

impl DeepView for GccArg {
    type V = GccArgView;

    open spec fn deep_view(&self) -> GccArgView {
        self@
    }
}

/// The flags that take the argument after them.
pub open spec fn is_dual_flag(a: Seq<char>) -> bool {
    a == seq!['-', 'i', 's', 'y', 's', 't', 'e', 'm'] || a == seq![
        '-',
        'i',
        'n',
        'c',
        'l',
        'u',
        'd',
        'e',
    ] || a == seq!['-', 'o'] || a == seq!['-', 'M', 'F'] || a == seq!['-', 'M', 'T'] || a == seq![
        '-',
        'x',
    ]
}

/// The words of gcc's arguments: a flag that takes a value with its value, another
/// argument that starts with `-` alone, and any other argument as a source file.
pub open spec fn spec_tokenize(args: Seq<Seq<char>>) -> Result<Seq<GccArgView>, ErrorView>
    decreases args.len(),
{
    if args.len() == 0 {
        Ok(Seq::empty())
    } else {
        let a = args[0];
        if is_dual_flag(a) {
            if args.len() < 2 {
                Err(ErrorView::ArgumentAfterMissing(a))
            } else {
                match spec_tokenize(args.skip(2)) {
                    Ok(rest) => Ok(seq![GccArgView::Dual(a, args[1])] + rest),
                    Err(e) => Err(e),
                }
            }
        } else {
            let t = if a.len() > 0 && a[0] == '-' {
                GccArgView::Single(a)
            } else {
                GccArgView::Source(a)
            };
            match spec_tokenize(args.skip(1)) {
                Ok(rest) => Ok(seq![t] + rest),
                Err(e) => Err(e),
            }
        }
    }
}

/// The arguments that a word stands for.
pub open spec fn arg_words(t: GccArgView) -> Seq<Seq<char>> {
    match t {
        GccArgView::Single(a) => seq![a],
        GccArgView::Dual(a, b) => seq![a, b],
        GccArgView::Source(a) => seq![a],
    }
}

/// The arguments that the words stand for, in order.
pub open spec fn spec_untokenize(toks: Seq<GccArgView>) -> Seq<Seq<char>>
    decreases toks.len(),
{
    if toks.len() == 0 {
        Seq::empty()
    } else {
        spec_untokenize(toks.drop_last()) + arg_words(toks.last())
    }
}

/// `p` put before what `r` holds, or the error of `r`.
pub open spec fn prepend_ok(p: Seq<GccArgView>, r: Result<Seq<GccArgView>, ErrorView>) -> Result<
    Seq<GccArgView>,
    ErrorView,
> {
    match r {
        Ok(x) => Ok(p + x),
        Err(e) => Err(e),
    }
}

/// The output after the first `-o`, if any.
pub open spec fn spec_first_output(toks: Seq<GccArgView>) -> Option<Seq<char>>
    decreases toks.len(),
{
    if toks.len() == 0 {
        None
    } else {
        match toks[0] {
            GccArgView::Dual(f, p) => if f == seq!['-', 'o'] {
                Some(p)
            } else {
                spec_first_output(toks.skip(1))
            },
            _ => spec_first_output(toks.skip(1)),
        }
    }
}

/// The source files, each with the language of the last `-x` before it (`lang` before the
/// first), or the error of an `-x` whose name denotes no language.
pub open spec fn spec_sources(toks: Seq<GccArgView>, lang: Option<CodeLanguage>) -> Result<
    Seq<SourceFileView>,
    ErrorView,
>
    decreases toks.len(),
{
    if toks.len() == 0 {
        Ok(Seq::empty())
    } else {
        match toks[0] {
            GccArgView::Source(p) => match spec_sources(toks.skip(1), lang) {
                Ok(r) => Ok(seq![SourceFileView { path: p, language_override: lang }] + r),
                Err(e) => Err(e),
            },
            GccArgView::Dual(f, v) => if f == seq!['-', 'x'] {
                match spec_from_gcc_x_arg(v) {
                    Some(l) => spec_sources(toks.skip(1), l),
                    None => Err(ErrorView::UnknownLanguageName(v)),
                }
            } else {
                spec_sources(toks.skip(1), lang)
            },
            _ => spec_sources(toks.skip(1), lang),
        }
    }
}

/// The files with their paths taken relative to `cwd`.
pub open spec fn absolute_files(cwd: Seq<char>, files: Seq<SourceFileView>) -> Seq<SourceFileView> {
    files.map_values(
        |f: SourceFileView|
            SourceFileView {
                path: spec_make_absolute(cwd, f.path),
                language_override: f.language_override,
            },
    )
}

/// gcc's arguments as words.
pub struct GccArgsInfo {
    pub args: Vec<GccArg>,
}

impl View for GccArgsInfo {
    type V = Seq<GccArgView>;

    open spec fn view(&self) -> Seq<GccArgView> {
        self.args.deep_view()
    }
}

fn copy_arg(a: &GccArg) -> (res: GccArg)
    ensures
        res@ == a@,
{
    match a {
        GccArg::Single(x) => GccArg::Single(x.clone()),
        GccArg::Dual(x, y) => GccArg::Dual(x.clone(), y.clone()),
        GccArg::Source(x) => GccArg::Source(x.clone()),
    }
}

fn push_arg(v: &mut Vec<GccArg>, a: GccArg)
    ensures
        final(v).deep_view() == old(v).deep_view().push(a@),
{
    v.push(a);
    proof {
        assert(v.deep_view() =~= old(v).deep_view().push(a@));
    }
}

fn is_dual_flag_exec(a: &[char]) -> (res: bool)
    ensures
        res == is_dual_flag(a@),
{
    chars_eq(a, &['-', 'i', 's', 'y', 's', 't', 'e', 'm']) || chars_eq(
        a,
        &['-', 'i', 'n', 'c', 'l', 'u', 'd', 'e'],
    ) || chars_eq(a, &['-', 'o']) || chars_eq(a, &['-', 'M', 'F']) || chars_eq(a, &['-', 'M', 'T'])
        || chars_eq(a, &['-', 'x'])
}

impl GccArgsInfo {
    /// Splits gcc's arguments into words.
    pub fn from_args(args: &[String]) -> (res: Result<GccArgsInfo, Error>)
        ensures
            match res {
                Ok(info) => spec_tokenize(args.deep_view()) == Ok::<Seq<GccArgView>, ErrorView>(
                    info@,
                ),
                Err(e) => spec_tokenize(args.deep_view()) == Err::<Seq<GccArgView>, ErrorView>(e@),
            },
    {
        let ghost all = args.deep_view();
        let mut toks: Vec<GccArg> = Vec::new();
        let mut i: usize = 0;
        proof {
            assert(all.skip(0) =~= all);
            assert(toks.deep_view() + Seq::<GccArgView>::empty() =~= Seq::<GccArgView>::empty());
        }
        while i < args.len()
            invariant
                i <= args@.len(),
                all == args.deep_view(),
                spec_tokenize(all) == prepend_ok(toks.deep_view(), spec_tokenize(all.skip(i as int))),
            decreases args@.len() - i,
        {
            let ghost rest = all.skip(i as int);
            let a = chars_of(args[i].as_str());
            proof {
                assert(rest[0] == a@);
            }
            if is_dual_flag_exec(a.as_slice()) {
                if i + 1 >= args.len() {
                    return Err(Error::ArgumentAfterMissing(args[i].clone()));
                }
                proof {
                    assert(rest[1] == args@[i + 1]@);
                    assert(rest.skip(2) =~= all.skip(i + 2));
                    assert(toks.deep_view().push(GccArgView::Dual(a@, rest[1])) + (match spec_tokenize(
                        all.skip(i + 2),
                    ) {
                        Ok(x) => x,
                        Err(_) => Seq::empty(),
                    }) =~= toks.deep_view() + (seq![GccArgView::Dual(a@, rest[1])] + (match spec_tokenize(
                        all.skip(i + 2),
                    ) {
                        Ok(x) => x,
                        Err(_) => Seq::empty(),
                    })));
                }
                push_arg(&mut toks, GccArg::Dual(args[i].clone(), args[i + 1].clone()));
                i = i + 2;
            } else {
                let t = if a.len() > 0 && a[0] == '-' {
                    GccArg::Single(args[i].clone())
                } else {
                    GccArg::Source(args[i].clone())
                };
                proof {
                    assert(rest.skip(1) =~= all.skip(i + 1));
                    assert(toks.deep_view().push(t@) + (match spec_tokenize(all.skip(i + 1)) {
                        Ok(x) => x,
                        Err(_) => Seq::empty(),
                    }) =~= toks.deep_view() + (seq![t@] + (match spec_tokenize(all.skip(i + 1)) {
                        Ok(x) => x,
                        Err(_) => Seq::empty(),
                    })));
                }
                push_arg(&mut toks, t);
                i = i + 1;
            }
        }
        proof {
            assert(all.skip(i as int) =~= Seq::<Seq<char>>::empty());
            assert(toks.deep_view() + Seq::<GccArgView>::empty() =~= toks.deep_view());
        }
        Ok(GccArgsInfo { args: toks })
    }

    /// The arguments that the words stand for, in order.
    pub fn to_args(&self) -> (res: Vec<String>)
        ensures
            res.deep_view() == spec_untokenize(self@),
    {
        let mut res: Vec<String> = Vec::new();
        let mut i: usize = 0;
        proof {
            assert(self@.take(0) =~= Seq::<GccArgView>::empty());
            assert(res.deep_view() =~= Seq::<Seq<char>>::empty());
        }
        while i < self.args.len()
            invariant
                i <= self@.len(),
                self@.len() == self.args@.len(),
                res.deep_view() == spec_untokenize(self@.take(i as int)),
            decreases self@.len() - i,
        {
            let ghost before = res.deep_view();
            match &self.args[i] {
                GccArg::Single(a) => {
                    crate::text::push_string(&mut res, a.clone());
                },
                GccArg::Dual(a, b) => {
                    crate::text::push_string(&mut res, a.clone());
                    crate::text::push_string(&mut res, b.clone());
                },
                GccArg::Source(a) => {
                    crate::text::push_string(&mut res, a.clone());
                },
            }
            proof {
                assert(self@.take(i + 1).drop_last() =~= self@.take(i as int));
                assert(self@[i as int] == self.args@[i as int]@);
                assert(res.deep_view() =~= before + arg_words(self@[i as int]));
            }
            i = i + 1;
        }
        proof {
            assert(self@.take(self@.len() as int) =~= self@);
        }
        res
    }

    /// The output after the first `-o`, if any.
    pub fn get_single_output(&self) -> (res: Option<String>)
        ensures
            res.deep_view() == spec_first_output(self@),
    {
        let mut i: usize = 0;
        proof {
            assert(self@.skip(0) =~= self@);
        }
        while i < self.args.len()
            invariant
                i <= self@.len(),
                self@.len() == self.args@.len(),
                spec_first_output(self@) == spec_first_output(self@.skip(i as int)),
            decreases self@.len() - i,
        {
            proof {
                assert(self@.skip(i as int)[0] == self.args@[i as int]@);
                assert(self@.skip(i as int).skip(1) =~= self@.skip(i + 1));
            }
            match &self.args[i] {
                GccArg::Dual(f, p) => {
                    let fc = chars_of(f.as_str());
                    if chars_eq(fc.as_slice(), &['-', 'o']) {
                        return Some(p.clone());
                    }
                },
                _ => {},
            }
            i = i + 1;
        }
        None
    }

    /// The source files, each with the language of the last `-x` before it.
    pub fn get_sources(&self) -> (res: Result<Vec<SourceFile>, Error>)
        ensures
            match res {
                Ok(v) => spec_sources(self@, None) == Ok::<Seq<SourceFileView>, ErrorView>(
                    v.deep_view(),
                ),
                Err(e) => spec_sources(self@, None) == Err::<Seq<SourceFileView>, ErrorView>(e@),
            },
    {
        let mut out: Vec<SourceFile> = Vec::new();
        let mut lang: Option<CodeLanguage> = None;
        let mut i: usize = 0;
        proof {
            assert(self@.skip(0) =~= self@);
            assert(out.deep_view() =~= Seq::<SourceFileView>::empty());
        }
        while i < self.args.len()
            invariant
                i <= self@.len(),
                self@.len() == self.args@.len(),
                spec_sources(self@, None) == (match spec_sources(self@.skip(i as int), lang) {
                    Ok(r) => Ok::<Seq<SourceFileView>, ErrorView>(out.deep_view() + r),
                    Err(e) => Err(e),
                }),
            decreases self@.len() - i,
        {
            let ghost rest = self@.skip(i as int);
            proof {
                assert(rest[0] == self.args@[i as int]@);
                assert(rest.skip(1) =~= self@.skip(i + 1));
            }
            match &self.args[i] {
                GccArg::Source(p) => {
                    let f = SourceFile { path: p.clone(), language_override: lang };
                    let ghost before = out.deep_view();
                    out.push(f);
                    proof {
                        assert(out.deep_view() =~= before.push(f@));
                        match spec_sources(self@.skip(i + 1), lang) {
                            Ok(r) => {
                                assert(before + (seq![f@] + r) =~= out.deep_view() + r);
                            },
                            Err(_) => {},
                        }
                    }
                },
                GccArg::Dual(f, v) => {
                    let fc = chars_of(f.as_str());
                    if chars_eq(fc.as_slice(), &['-', 'x']) {
                        let vc = chars_of(v.as_str());
                        match CodeLanguage::from_gcc_x_arg_chars(vc.as_slice()) {
                            Ok(l) => {
                                lang = l;
                            },
                            Err(e) => {
                                return Err(e);
                            },
                        }
                    }
                },
                _ => {},
            }
            i = i + 1;
        }
        proof {
            assert(self@.skip(i as int) =~= Seq::<GccArgView>::empty());
            assert(out.deep_view() + Seq::<SourceFileView>::empty() =~= out.deep_view());
        }
        Ok(out)
    }

    /// The source files with their paths taken relative to `cwd`.
    pub fn get_absolute_sources(&self, cwd: &str) -> (res: Result<Vec<SourceFile>, Error>)
        ensures
            match res {
                Ok(v) => spec_sources(self@, None) is Ok && v.deep_view() == absolute_files(
                    cwd@,
                    spec_sources(self@, None)->Ok_0,
                ),
                Err(e) => spec_sources(self@, None) == Err::<Seq<SourceFileView>, ErrorView>(e@),
            },
    {
        let sources = self.get_sources()?;
        let mut out: Vec<SourceFile> = Vec::new();
        let mut i: usize = 0;
        while i < sources.len()
            invariant
                i <= sources@.len(),
                out.deep_view() == absolute_files(cwd@, sources.deep_view().take(i as int)),
            decreases sources@.len() - i,
        {
            let f = SourceFile {
                path: make_absolute(cwd, sources[i].path.as_str()),
                language_override: sources[i].language_override,
            };
            let ghost before = out.deep_view();
            out.push(f);
            proof {
                assert(out.deep_view() =~= before.push(f@));
                assert(absolute_files(cwd@, sources.deep_view().take(i + 1)) =~= absolute_files(
                    cwd@,
                    sources.deep_view().take(i as int),
                ).push(f@));
            }
            i = i + 1;
        }
        proof {
            assert(sources.deep_view().take(sources@.len() as int) =~= sources.deep_view());
        }
        Ok(out)
    }

    /// The output after the first `-o`, taken relative to `cwd`.
    pub fn get_absolute_single_output(&self, cwd: &str) -> (res: Result<String, Error>)
        ensures
            match res {
                Ok(p) => spec_first_output(self@) matches Some(o) && p@ == spec_make_absolute(
                    cwd@,
                    o,
                ),
                Err(e) => spec_first_output(self@) is None && e@ == ErrorView::NoSingleOutput,
            },
    {
        match self.get_single_output() {
            Some(o) => Ok(make_absolute(cwd, o.as_str())),
            None => Err(Error::NoSingleOutput),
        }
    }

    /// There is a flag `-c` that stands alone.
    pub fn has_compile_only_flag(&self) -> (res: bool)
        ensures
            res == exists|i: int|
                0 <= i < self@.len() && #[trigger] self@[i] == GccArgView::Single(seq!['-', 'c']),
    {
        let mut i: usize = 0;
        while i < self.args.len()
            invariant
                i <= self@.len(),
                self@.len() == self.args@.len(),
                forall|j: int| 0 <= j < i ==> self@[j] != GccArgView::Single(seq!['-', 'c']),
            decreases self@.len() - i,
        {
            match &self.args[i] {
                GccArg::Single(a) => {
                    let ac = chars_of(a.as_str());
                    if chars_eq(ac.as_slice(), &['-', 'c']) {
                        proof {
                            assert(self@[i as int] == GccArgView::Single(seq!['-', 'c']));
                        }
                        return true;
                    }
                },
                _ => {},
            }
            proof {
                assert(self@[i as int] == self.args@[i as int]@);
            }
            i = i + 1;
        }
        false
    }
}

/// Which words a rewrite of a compile command keeps.
#[derive(Clone, Copy)]
pub enum RetainMode {
    /// Everything but `-c` and the output.
    ExtractLocalCode,
    /// Neither `-c`, the output, the dependency-file flags nor the sources.
    PreprocessFromStdin,
    /// Neither the output nor the sources.
    BuildFromStdin,
    /// Everything but the sources.
    LinkAsGroup,
}

/// The rewrite `mode` keeps the word `t`.
pub open spec fn keeps(mode: RetainMode, t: GccArgView) -> bool {
    match mode {
        RetainMode::ExtractLocalCode => match t {
            GccArgView::Single(a) => a != seq!['-', 'c'],
            GccArgView::Dual(f, _) => f != seq!['-', 'o'],
            GccArgView::Source(_) => true,
        },
        RetainMode::PreprocessFromStdin => match t {
            GccArgView::Single(a) => a != seq!['-', 'c'] && a != seq!['-', 'M', 'D'],
            GccArgView::Dual(f, _) => f != seq!['-', 'o'] && f != seq!['-', 'M', 'T'] && f != seq![
                '-',
                'M',
                'F',
            ],
            GccArgView::Source(_) => false,
        },
        RetainMode::BuildFromStdin => match t {
            GccArgView::Single(_) => true,
            GccArgView::Dual(f, _) => f != seq!['-', 'o'],
            GccArgView::Source(_) => false,
        },
        RetainMode::LinkAsGroup => !(t is Source),
    }
}

/// The words that the rewrite `mode` keeps, in order.
pub open spec fn retain_args(toks: Seq<GccArgView>, mode: RetainMode) -> Seq<GccArgView>
    decreases toks.len(),
{
    if toks.len() == 0 {
        Seq::empty()
    } else {
        let r = retain_args(toks.drop_last(), mode);
        if keeps(mode, toks.last()) {
            r.push(toks.last())
        } else {
            r
        }
    }
}

fn keeps_exec(mode: RetainMode, t: &GccArg) -> (res: bool)
    ensures
        res == keeps(mode, t@),
{
    match mode {
        RetainMode::ExtractLocalCode => match t {
            GccArg::Single(a) => !chars_eq(chars_of(a.as_str()).as_slice(), &['-', 'c']),
            GccArg::Dual(f, _) => !chars_eq(chars_of(f.as_str()).as_slice(), &['-', 'o']),
            GccArg::Source(_) => true,
        },
        RetainMode::PreprocessFromStdin => match t {
            GccArg::Single(a) => {
                let ac = chars_of(a.as_str());
                !chars_eq(ac.as_slice(), &['-', 'c']) && !chars_eq(ac.as_slice(), &['-', 'M', 'D'])
            },
            GccArg::Dual(f, _) => {
                let fc = chars_of(f.as_str());
                !chars_eq(fc.as_slice(), &['-', 'o']) && !chars_eq(fc.as_slice(), &['-', 'M', 'T'])
                    && !chars_eq(fc.as_slice(), &['-', 'M', 'F'])
            },
            GccArg::Source(_) => false,
        },
        RetainMode::BuildFromStdin => match t {
            GccArg::Single(_) => true,
            GccArg::Dual(f, _) => !chars_eq(chars_of(f.as_str()).as_slice(), &['-', 'o']),
            GccArg::Source(_) => false,
        },
        RetainMode::LinkAsGroup => match t {
            GccArg::Source(_) => false,
            _ => true,
        },
    }
}

/// The words that the rewrite `mode` keeps.
fn retain_words(toks: &Vec<GccArg>, mode: RetainMode) -> (res: Vec<GccArg>)
    ensures
        res.deep_view() == retain_args(toks.deep_view(), mode),
{
    let mut out: Vec<GccArg> = Vec::new();
    let mut i: usize = 0;
    proof {
        assert(out.deep_view() =~= retain_args(toks.deep_view().take(0), mode));
    }
    while i < toks.len()
        invariant
            i <= toks@.len(),
            out.deep_view() == retain_args(toks.deep_view().take(i as int), mode),
        decreases toks@.len() - i,
    {
        proof {
            assert(toks.deep_view().take(i + 1).drop_last() =~= toks.deep_view().take(i as int));
            assert(toks.deep_view().take(i + 1).last() == toks@[i as int]@);
        }
        if keeps_exec(mode, &toks[i]) {
            push_arg(&mut out, copy_arg(&toks[i]));
        }
        i = i + 1;
    }
    proof {
        assert(toks.deep_view().take(toks@.len() as int) =~= toks.deep_view());
    }
    out
}

/// The words of a compile command that prints the preprocessed source, with its
/// definitions, to the standard output.
pub open spec fn spec_extract_local_code(toks: Seq<GccArgView>) -> Seq<GccArgView> {
    retain_args(toks, RetainMode::ExtractLocalCode) + seq![
        GccArgView::Single(seq!['-', 'E']),
        GccArgView::Single(seq!['-', 'd', 'D']),
    ]
}

/// The words of a compile command that preprocesses code of language `lang` read from the
/// standard input and prints it.
pub open spec fn spec_preprocess_from_stdin(toks: Seq<GccArgView>, lang: CodeLanguage) -> Seq<
    GccArgView,
> {
    retain_args(toks, RetainMode::PreprocessFromStdin) + seq![
        GccArgView::Single(seq!['-', 'E']),
        GccArgView::Dual(seq!['-', 'x'], spec_to_gcc_x_arg(lang)),
        GccArgView::Single(seq!['-']),
    ]
}

/// The words of a compile command that builds `output` from code of language `lang` read
/// from the standard input.
pub open spec fn spec_build_from_stdin(
    toks: Seq<GccArgView>,
    output: Seq<char>,
    lang: CodeLanguage,
) -> Seq<GccArgView> {
    retain_args(toks, RetainMode::BuildFromStdin) + seq![
        GccArgView::Dual(seq!['-', 'o'], output),
        GccArgView::Dual(seq!['-', 'x'], spec_to_gcc_x_arg(lang)),
        GccArgView::Single(seq!['-']),
    ]
}

/// Each file after the `-x` that names its language (`-x none` where it has none known).
pub open spec fn group_sources(files: Seq<SourceFileView>) -> Seq<GccArgView>
    decreases files.len(),
{
    if files.len() == 0 {
        Seq::empty()
    } else {
        let f = files.last();
        group_sources(files.drop_last()) + (match spec_source_language(f) {
            Ok(l) => seq![GccArgView::Dual(seq!['-', 'x'], spec_to_gcc_x_arg(l))],
            Err(_) => seq![
                GccArgView::Single(seq!['-', 'x']),
                GccArgView::Single(seq!['n', 'o', 'n', 'e']),
            ],
        }) + seq![GccArgView::Source(f.path)]
    }
}

/// The words of a link command whose sources are replaced by `files`, in a link group.
pub open spec fn spec_link_as_group(toks: Seq<GccArgView>, files: Seq<SourceFileView>) -> Seq<
    GccArgView,
> {
    retain_args(toks, RetainMode::LinkAsGroup) + seq![
        GccArgView::Single(
            seq!['-', 'W', 'l', ',', '-', '-', 's', 't', 'a', 'r', 't', '-', 'g', 'r', 'o', 'u', 'p'],
        ),
    ] + group_sources(files) + seq![
        GccArgView::Single(
            seq!['-', 'W', 'l', ',', '-', '-', 'e', 'n', 'd', '-', 'g', 'r', 'o', 'u', 'p'],
        ),
    ]
}

/// What a word adds to the key of the arguments that are the same for every translation
/// unit: a flag, or a flag with its value other than the output and the dependency-file
/// names; nothing for a source.
pub open spec fn key_piece(t: GccArgView) -> Seq<char> {
    match t {
        GccArgView::Single(a) => a,
        GccArgView::Dual(f, v) => if f == seq!['-', 'o'] || f == seq!['-', 'M', 'T'] || f == seq![
            '-',
            'M',
            'F',
        ] {
            Seq::empty()
        } else {
            f + v
        },
        GccArgView::Source(_) => Seq::empty(),
    }
}

/// The key of the words that are the same for every translation unit.
pub open spec fn key_text(toks: Seq<GccArgView>) -> Seq<char>
    decreases toks.len(),
{
    if toks.len() == 0 {
        Seq::empty()
    } else {
        key_text(toks.drop_last()) + key_piece(toks.last())
    }
}

/// The result of rewriting the words of `args` with `f`, or the error of splitting them.
pub open spec fn rewritten(
    args: Seq<Seq<char>>,
    res: Result<Vec<String>, Error>,
    f: spec_fn(Seq<GccArgView>) -> Seq<GccArgView>,
) -> bool {
    match res {
        Ok(v) => spec_tokenize(args) is Ok && v.deep_view() == spec_untokenize(
            f(spec_tokenize(args)->Ok_0),
        ),
        Err(e) => spec_tokenize(args) == Err::<Seq<GccArgView>, ErrorView>(e@),
    }
}

fn gcc_x_name(lang: CodeLanguage) -> (res: String)
    ensures
        res@ == spec_to_gcc_x_arg(lang),
{
    let name = lang.to_gcc_x_arg();
    let cs = chars_of(name);
    string_of(cs.as_slice())
}

/// Arguments that build one object file, changed to print the preprocessed source, with
/// its definitions, instead.
pub fn rewrite_to_extract_local_code(args: &[String]) -> (res: Result<Vec<String>, Error>)
    ensures
        rewritten(args.deep_view(), res, |t: Seq<GccArgView>| spec_extract_local_code(t)),
{
    let info = GccArgsInfo::from_args(args)?;
    let mut words = retain_words(&info.args, RetainMode::ExtractLocalCode);
    push_arg(&mut words, GccArg::Single(string_of(&['-', 'E'])));
    push_arg(&mut words, GccArg::Single(string_of(&['-', 'd', 'D'])));
    let out = GccArgsInfo { args: words };
    proof {
        assert(out@ =~= spec_extract_local_code(info@));
    }
    Ok(out.to_args())
}

/// Arguments that build one object file, changed to preprocess code of language
/// `source_language` read from the standard input and print it.
pub fn update_build_object_args_to_just_output_preprocessed_from_stdin(
    args: &[String],
    source_language: CodeLanguage,
) -> (res: Result<Vec<String>, Error>)
    ensures
        rewritten(
            args.deep_view(),
            res,
            |t: Seq<GccArgView>| spec_preprocess_from_stdin(t, source_language),
        ),
{
    let info = GccArgsInfo::from_args(args)?;
    let mut words = retain_words(&info.args, RetainMode::PreprocessFromStdin);
    push_arg(&mut words, GccArg::Single(string_of(&['-', 'E'])));
    let x = string_of(&['-', 'x']);
    let dash = string_of(&['-']);
    proof {
        assert(x@ =~= seq!['-', 'x']);
        assert(dash@ =~= seq!['-']);
    }
    push_arg(&mut words, GccArg::Dual(x, gcc_x_name(source_language)));
    push_arg(&mut words, GccArg::Single(dash));
    let out = GccArgsInfo { args: words };
    proof {
        assert(out@ =~= spec_preprocess_from_stdin(info@, source_language));
    }
    Ok(out.to_args())
}

/// Arguments that build one object file, changed to build `output_path` from code of
/// language `language` read from the standard input.
pub fn update_to_build_object_from_stdin(
    args: &[String],
    output_path: &str,
    language: CodeLanguage,
) -> (res: Result<Vec<String>, Error>)
    ensures
        rewritten(
            args.deep_view(),
            res,
            |t: Seq<GccArgView>| spec_build_from_stdin(t, output_path@, language),
        ),
{
    let info = GccArgsInfo::from_args(args)?;
    let mut words = retain_words(&info.args, RetainMode::BuildFromStdin);
    let out_chars = chars_of(output_path);
    let o = string_of(&['-', 'o']);
    let x = string_of(&['-', 'x']);
    let dash = string_of(&['-']);
    proof {
        assert(o@ =~= seq!['-', 'o']);
        assert(x@ =~= seq!['-', 'x']);
        assert(dash@ =~= seq!['-']);
    }
    push_arg(&mut words, GccArg::Dual(o, string_of(out_chars.as_slice())));
    push_arg(&mut words, GccArg::Dual(x, gcc_x_name(language)));
    push_arg(&mut words, GccArg::Single(dash));
    let out = GccArgsInfo { args: words };
    proof {
        assert(out@ =~= spec_build_from_stdin(info@, output_path@, language));
    }
    Ok(out.to_args())
}

/// Link arguments with their sources replaced by `sources`, put in a link group so that
/// their order does not matter.
pub fn update_to_link_sources_as_group(args: &[String], sources: &[SourceFile]) -> (res: Result<
    Vec<String>,
    Error,
>)
    ensures
        rewritten(
            args.deep_view(),
            res,
            |t: Seq<GccArgView>| spec_link_as_group(t, sources.deep_view()),
        ),
{
    let info = GccArgsInfo::from_args(args)?;
    let mut words = retain_words(&info.args, RetainMode::LinkAsGroup);
    push_arg(
        &mut words,
        GccArg::Single(
            string_of(
                &['-', 'W', 'l', ',', '-', '-', 's', 't', 'a', 'r', 't', '-', 'g', 'r', 'o', 'u', 'p'],
            ),
        ),
    );
    let ghost head = words.deep_view();
    let mut i: usize = 0;
    proof {
        assert(words.deep_view() =~= head + group_sources(sources.deep_view().take(0)));
    }
    while i < sources.len()
        invariant
            i <= sources@.len(),
            words.deep_view() == head + group_sources(sources.deep_view().take(i as int)),
        decreases sources@.len() - i,
    {
        let ghost before = words.deep_view();
        match sources[i].language() {
            Ok(l) => {
                push_arg(&mut words, GccArg::Dual(string_of(&['-', 'x']), gcc_x_name(l)));
            },
            Err(_) => {
                push_arg(&mut words, GccArg::Single(string_of(&['-', 'x'])));
                push_arg(&mut words, GccArg::Single(string_of(&['n', 'o', 'n', 'e'])));
            },
        }
        push_arg(&mut words, GccArg::Source(sources[i].path.clone()));
        proof {
            let t = sources.deep_view().take(i + 1);
            assert(t.drop_last() =~= sources.deep_view().take(i as int));
            assert(t.last() == sources@[i as int]@);
            assert(words.deep_view() =~= head + group_sources(t));
        }
        i = i + 1;
    }
    proof {
        assert(sources.deep_view().take(sources@.len() as int) =~= sources.deep_view());
    }
    push_arg(
        &mut words,
        GccArg::Single(
            string_of(&['-', 'W', 'l', ',', '-', '-', 'e', 'n', 'd', '-', 'g', 'r', 'o', 'u', 'p']),
        ),
    );
    let out = GccArgsInfo { args: words };
    proof {
        assert(out@ =~= spec_link_as_group(info@, sources.deep_view()));
    }
    Ok(out.to_args())
}

/// Appends to `key` the arguments that are the same for every translation unit built
/// with these arguments.
pub fn add_translation_unit_unspecific_args_to_key(args: &[String], key: &mut String) -> (res:
    Result<(), Error>)
    ensures
        match res {
            Ok(()) => spec_tokenize(args.deep_view()) is Ok && final(key)@ == old(key)@ + key_text(
                spec_tokenize(args.deep_view())->Ok_0,
            ),
            Err(e) => spec_tokenize(args.deep_view()) == Err::<Seq<GccArgView>, ErrorView>(e@)
                && final(key)@ == old(key)@,
        },
{
    let info = GccArgsInfo::from_args(args)?;
    let mut i: usize = 0;
    proof {
        assert(old(key)@ + key_text(info@.take(0)) =~= old(key)@);
    }
    while i < info.args.len()
        invariant
            i <= info@.len(),
            info@.len() == info.args@.len(),
            key@ == old(key)@ + key_text(info@.take(i as int)),
        decreases info@.len() - i,
    {
        let ghost before = key@;
        match &info.args[i] {
            GccArg::Single(a) => {
                push_str(key, a.as_str());
            },
            GccArg::Dual(f, v) => {
                let fc = chars_of(f.as_str());
                if !chars_eq(fc.as_slice(), &['-', 'o']) && !chars_eq(fc.as_slice(), &['-', 'M', 'T'])
                    && !chars_eq(fc.as_slice(), &['-', 'M', 'F']) {
                    push_str(key, f.as_str());
                    push_str(key, v.as_str());
                }
            },
            GccArg::Source(_) => {},
        }
        proof {
            let t = info@.take(i + 1);
            assert(t.drop_last() =~= info@.take(i as int));
            assert(t.last() == info.args@[i as int]@);
            assert(key@ =~= old(key)@ + key_text(t));
        }
        i = i + 1;
    }
    proof {
        assert(info@.take(info@.len() as int) =~= info@);
    }
    Ok(())
}

/// The arguments build an object file: they hold `-c`.
pub fn is_build_object_file(args: &[String]) -> (res: Result<bool, Error>)
    ensures
        match res {
            Ok(b) => spec_tokenize(args.deep_view()) is Ok && b == exists|i: int|
                0 <= i < spec_tokenize(args.deep_view())->Ok_0.len() && #[trigger] spec_tokenize(
                    args.deep_view(),
                )->Ok_0[i] == GccArgView::Single(seq!['-', 'c']),
            Err(e) => spec_tokenize(args.deep_view()) == Err::<Seq<GccArgView>, ErrorView>(e@),
        },
{
    let info = GccArgsInfo::from_args(args)?;
    Ok(info.has_compile_only_flag())
}

/// Splitting arguments into words and writing the words back gives the arguments again.
pub proof fn lemma_tokenize_round_trip(args: Seq<Seq<char>>)
    requires
        spec_tokenize(args) is Ok,
    ensures
        spec_untokenize(spec_tokenize(args)->Ok_0) == args,
    decreases args.len(),
{
    if args.len() > 0 {
        let a = args[0];
        if is_dual_flag(a) {
            let rest = spec_tokenize(args.skip(2))->Ok_0;
            lemma_tokenize_round_trip(args.skip(2));
            lemma_untokenize_prepend(GccArgView::Dual(a, args[1]), rest);
            assert(seq![a, args[1]] + args.skip(2) =~= args);
        } else {
            let t = if a.len() > 0 && a[0] == '-' {
                GccArgView::Single(a)
            } else {
                GccArgView::Source(a)
            };
            let rest = spec_tokenize(args.skip(1))->Ok_0;
            lemma_tokenize_round_trip(args.skip(1));
            lemma_untokenize_prepend(t, rest);
            assert(seq![a] + args.skip(1) =~= args);
        }
    }
}

/// Writing a word and then more words.
proof fn lemma_untokenize_prepend(t: GccArgView, rest: Seq<GccArgView>)
    ensures
        spec_untokenize(seq![t] + rest) == arg_words(t) + spec_untokenize(rest),
    decreases rest.len(),
{
    if rest.len() == 0 {
        assert(seq![t] + rest =~= seq![t]);
        assert(seq![t].drop_last() =~= Seq::<GccArgView>::empty());
        assert(spec_untokenize(Seq::<GccArgView>::empty()) =~= Seq::<Seq<char>>::empty());
        assert(Seq::<Seq<char>>::empty() + arg_words(t) =~= arg_words(t));
        assert(arg_words(t) + Seq::<Seq<char>>::empty() =~= arg_words(t));
    } else {
        lemma_untokenize_prepend(t, rest.drop_last());
        assert((seq![t] + rest).drop_last() =~= seq![t] + rest.drop_last());
        assert((seq![t] + rest).last() == rest.last());
        assert(arg_words(t) + spec_untokenize(rest.drop_last()) + arg_words(rest.last())
            =~= arg_words(t) + (spec_untokenize(rest.drop_last()) + arg_words(rest.last())));
    }
}

/// The word is the output flag `-o` with its value.
pub open spec fn is_output_word(t: GccArgView) -> bool {
    t matches GccArgView::Dual(f, _) && f == seq!['-', 'o']
}

/// The output of a command is the value of its first `-o` word, and there is none
/// without such a word: no other flag's value, such as a dependency file's, is taken as
/// the output.
pub proof fn lemma_output_is_first_o_value(toks: Seq<GccArgView>)
    ensures
        match spec_first_output(toks) {
            Some(p) => exists|i: int|
                0 <= i < toks.len() && toks[i] == GccArgView::Dual(seq!['-', 'o'], p) && forall|
                    j: int,
                | 0 <= j < i ==> !is_output_word(#[trigger] toks[j]),
            None => forall|i: int| 0 <= i < toks.len() ==> !is_output_word(#[trigger] toks[i]),
        },
    decreases toks.len(),
{
    if toks.len() > 0 {
        let rest = toks.skip(1);
        lemma_output_is_first_o_value(rest);
        if is_output_word(toks[0]) {
            assert(toks[0] == GccArgView::Dual(seq!['-', 'o'], spec_first_output(toks)->Some_0));
        } else {
            assert(spec_first_output(toks) == spec_first_output(rest));
            match spec_first_output(rest) {
                Some(p) => {
                    let i = choose|i: int|
                        0 <= i < rest.len() && rest[i] == GccArgView::Dual(seq!['-', 'o'], p)
                            && forall|j: int| 0 <= j < i ==> !is_output_word(#[trigger] rest[j]);
                    assert(toks[i + 1] == rest[i]);
                    assert forall|j: int| 0 <= j < i + 1 implies !is_output_word(
                        #[trigger] toks[j],
                    ) by {
                        if j > 0 {
                            assert(toks[j] == rest[j - 1]);
                        }
                    }
                },
                None => {
                    assert forall|i: int| 0 <= i < toks.len() implies !is_output_word(
                        #[trigger] toks[i],
                    ) by {
                        if i > 0 {
                            assert(toks[i] == rest[i - 1]);
                        }
                    }
                },
            }
        }
    }
}

/// The key of words put one after the other is their keys one after the other.
pub proof fn lemma_key_text_append(p: Seq<GccArgView>, q: Seq<GccArgView>)
    ensures
        key_text(p + q) == key_text(p) + key_text(q),
    decreases q.len(),
{
    if q.len() == 0 {
        assert(p + q =~= p);
        assert(key_text(p) + key_text(q) =~= key_text(p));
    } else {
        lemma_key_text_append(p, q.drop_last());
        assert((p + q).drop_last() =~= p + q.drop_last());
        assert((p + q).last() == q.last());
        assert(key_text(p) + key_text(q.drop_last()) + key_piece(q.last()) =~= key_text(p) + (
        key_text(q.drop_last()) + key_piece(q.last())));
    }
}

/// Every stand-alone flag is in the key whole, where it stands among the other words: two
/// commands that differ in one such flag, `-DA=1` against `-DA=2` say, have different keys.
/// Every flag with a value is in it too, but the output and the dependency-file names; the
/// sources are not.
pub proof fn lemma_key_holds_every_flag(
    before: Seq<GccArgView>,
    t: GccArgView,
    after: Seq<GccArgView>,
)
    ensures
        t matches GccArgView::Single(a) ==> key_text(before + seq![t] + after) == key_text(before) + a
            + key_text(after),
        t matches GccArgView::Dual(f, v) ==> key_text(before + seq![t] + after) == key_text(before)
            + (if f == seq!['-', 'o'] || f == seq!['-', 'M', 'T'] || f == seq!['-', 'M', 'F'] {
            Seq::empty()
        } else {
            f + v
        }) + key_text(after),
        t is Source ==> key_text(before + seq![t] + after) == key_text(before) + key_text(after),
{
    lemma_key_text_append(before + seq![t], after);
    lemma_key_text_append(before, seq![t]);
    let one = seq![t];
    assert(one.drop_last() =~= Seq::<GccArgView>::empty());
    assert(key_text(one) == key_text(one.drop_last()) + key_piece(t));
    assert(key_text(one) =~= key_piece(t));
    if t is Source {
        assert(key_text(before) + Seq::<char>::empty() =~= key_text(before));
    }
}

/// The word is `-c`, or the output flag with its value.
pub open spec fn is_compile_or_output_word(t: GccArgView) -> bool {
    t == GccArgView::Single(seq!['-', 'c']) || is_output_word(t)
}

/// The command that prints the local code keeps every word of the original command, in
/// order, but `-c` and the output: include directories, definitions and sources all stay.
pub proof fn lemma_local_code_rewrite_keeps_other_words(toks: Seq<GccArgView>)
    ensures
        retain_args(toks, RetainMode::ExtractLocalCode) == toks.filter(
            |t: GccArgView| !is_compile_or_output_word(t),
        ),
    decreases toks.len(),
{
    let pred = |t: GccArgView| !is_compile_or_output_word(t);
    reveal(Seq::filter);
    if toks.len() == 0 {
        assert(toks.filter(pred) =~= Seq::<GccArgView>::empty());
    } else {
        lemma_local_code_rewrite_keeps_other_words(toks.drop_last());
        let t = toks.last();
        assert(keeps(RetainMode::ExtractLocalCode, t) == pred(t));
        assert(toks.filter(pred) == (if pred(t) {
            toks.drop_last().filter(pred).push(t)
        } else {
            toks.drop_last().filter(pred)
        }));
    }
}

/// The word asks for, or names, a dependency file: `-MD`, `-MT` or `-MF`.
pub open spec fn is_dependency_word(t: GccArgView) -> bool {
    t == GccArgView::Single(seq!['-', 'M', 'D']) || (t matches GccArgView::Dual(f, _) && (f
        == seq!['-', 'M', 'T'] || f == seq!['-', 'M', 'F']))
}

/// The other rewrites keep every word of the original command, in order, but these:
/// preprocessing from the standard input drops `-c`, the output, the dependency-file words
/// and the sources; building from the standard input drops the output and the sources;
/// linking as a group drops the sources.
pub proof fn lemma_rewrites_keep_other_words(toks: Seq<GccArgView>)
    ensures
        retain_args(toks, RetainMode::PreprocessFromStdin) == toks.filter(
            |t: GccArgView| !is_compile_or_output_word(t) && !is_dependency_word(t) && !(t is Source),
        ),
        retain_args(toks, RetainMode::BuildFromStdin) == toks.filter(
            |t: GccArgView| !is_output_word(t) && !(t is Source),
        ),
        retain_args(toks, RetainMode::LinkAsGroup) == toks.filter(|t: GccArgView| !(t is Source)),
    decreases toks.len(),
{
    let p1 = |t: GccArgView| !is_compile_or_output_word(t) && !is_dependency_word(t) && !(t is Source);
    let p2 = |t: GccArgView| !is_output_word(t) && !(t is Source);
    let p3 = |t: GccArgView| !(t is Source);
    reveal(Seq::filter);
    if toks.len() == 0 {
        assert(toks.filter(p1) =~= Seq::<GccArgView>::empty());
        assert(toks.filter(p2) =~= Seq::<GccArgView>::empty());
        assert(toks.filter(p3) =~= Seq::<GccArgView>::empty());
    } else {
        lemma_rewrites_keep_other_words(toks.drop_last());
        let t = toks.last();
        assert(keeps(RetainMode::PreprocessFromStdin, t) == p1(t));
        assert(keeps(RetainMode::BuildFromStdin, t) == p2(t));
        assert(keeps(RetainMode::LinkAsGroup, t) == p3(t));
        assert(toks.filter(p1) == (if p1(t) {
            toks.drop_last().filter(p1).push(t)
        } else {
            toks.drop_last().filter(p1)
        }));
        assert(toks.filter(p2) == (if p2(t) {
            toks.drop_last().filter(p2).push(t)
        } else {
            toks.drop_last().filter(p2)
        }));
        assert(toks.filter(p3) == (if p3(t) {
            toks.drop_last().filter(p3).push(t)
        } else {
            toks.drop_last().filter(p3)
        }));
    }
}

} // verus!
