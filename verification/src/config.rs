//! The settings read from `ccelerate.toml` files: which paths are built at once, which
//! headers are local to a project, and which definitions change global headers.

use vstd::prelude::*;
use crate::error::{Error, ErrorView};
use crate::text::{chars_eq, chars_of, copy_string};

verus! {

#[verifier::external_type_specification]
#[verifier::external_body]
pub struct ExGlobPattern(glob::Pattern);

/// The text is a valid pattern of the `glob` crate.
pub uninterp spec fn glob_pattern_valid(text: Seq<char>) -> bool;

/// What the `glob` crate's error for an invalid pattern text says: where near the syntax
/// error is and what it is.
pub uninterp spec fn glob_error_text(text: Seq<char>) -> Seq<char>;

/// The pattern `pattern` of the `glob` crate matches `path`, with the default options.
pub uninterp spec fn glob_matches(pattern: Seq<char>, path: Seq<char>) -> bool;

/// Calls `glob::Pattern::new`: the compiled pattern, or, where the text is not a valid
/// pattern, the text that the crate's error displays.
#[verifier::external_body]
fn compile_glob(text: &str) -> (res: Result<glob::Pattern, String>)
    ensures
        res is Ok == glob_pattern_valid(text@),
        res matches Err(m) ==> m@ == glob_error_text(text@),
{
    match glob::Pattern::new(text) {
        Ok(p) => Ok(p),
        Err(e) => Err(e.to_string()),
    }
}

/// A glob pattern, kept with the text it was compiled from.
pub struct GlobPattern {
    text: String,
    compiled: glob::Pattern,
}

impl GlobPattern {
    /// The text the pattern was compiled from.
    pub closed spec fn text(&self) -> Seq<char> {
        self.text@
    }

    /// Compiles a pattern; [`Error::InvalidPattern`], with what the `glob` crate says of
    /// it, where the text is not one.
    pub fn new(text: &str) -> (res: Result<GlobPattern, Error>)
        ensures
            match res {
                Ok(p) => glob_pattern_valid(text@) && p.text() == text@,
                Err(e) => !glob_pattern_valid(text@) && e@ == ErrorView::InvalidPattern(
                    glob_error_text(text@),
                ),
            },
    {
        let t = copy_string(&text.to_string());
        match compile_glob(text) {
            Ok(compiled) => Ok(GlobPattern { text: t, compiled }),
            Err(m) => Err(Error::InvalidPattern(m)),
        }
    }

    /// Calls `glob::Pattern::matches` on the compiled pattern, which was compiled from
    /// [`GlobPattern::text`] (the fields are set only by [`GlobPattern::new`]): the pattern
    /// matches the path.
    #[verifier::external_body]
    pub(crate) fn matches(&self, path: &str) -> (res: bool)
        ensures
            res == glob_matches(self.text(), path@),
    {
        self.compiled.matches(path)
    }
}

/// The settings of one `ccelerate.toml` file, as read.
#[derive(Debug, Clone, Default)]
pub struct ConfigFileData {
    pub eager_patterns: Vec<String>,
    pub local_header_patterns: Vec<String>,
    pub include_defines: Vec<String>,
    pub pure_c_header_patterns: Vec<String>,
    pub bad_global_symbols_patterns: Vec<String>,
}

/// The settings of a project.
pub struct Config {
    eager_patterns: Vec<GlobPattern>,
    local_header_patterns: Vec<GlobPattern>,
    include_defines: Vec<String>,
    pure_c_header_patterns: Vec<GlobPattern>,
    bad_global_symbols_patterns: Vec<GlobPattern>,
}

/// The texts of the patterns.
pub open spec fn pattern_texts(v: Seq<GlobPattern>) -> Seq<Seq<char>> {
    v.map_values(|p: GlobPattern| p.text())
}

/// The settings of a project, as values of specifications: the texts of its patterns and
/// its definitions.
#[verifier::ext_equal]
pub struct ConfigView {
    pub eager_patterns: Seq<Seq<char>>,
    pub local_header_patterns: Seq<Seq<char>>,
    pub include_defines: Seq<Seq<char>>,
    pub pure_c_header_patterns: Seq<Seq<char>>,
    pub bad_global_symbols_patterns: Seq<Seq<char>>,
}

impl View for Config {
    type V = ConfigView;

    closed spec fn view(&self) -> ConfigView {
        ConfigView {
            eager_patterns: pattern_texts(self.eager_patterns@),
            local_header_patterns: pattern_texts(self.local_header_patterns@),
            include_defines: self.include_defines.deep_view(),
            pure_c_header_patterns: pattern_texts(self.pure_c_header_patterns@),
            bad_global_symbols_patterns: pattern_texts(self.bad_global_symbols_patterns@),
        }
    }
}

/// Some pattern of the list matches the path.
pub open spec fn any_matches(patterns: Seq<Seq<char>>, path: Seq<char>) -> bool {
    exists|i: int| 0 <= i < patterns.len() && glob_matches(#[trigger] patterns[i], path)
}

/// The first text of the list that is not a valid pattern.
pub open spec fn first_invalid(texts: Seq<Seq<char>>) -> Option<Seq<char>>
    decreases texts.len(),
{
    if texts.len() == 0 {
        None
    } else if !glob_pattern_valid(texts[0]) {
        Some(texts[0])
    } else {
        first_invalid(texts.skip(1))
    }
}

/// The patterns of one file, in the order they are compiled.
pub open spec fn file_pattern_texts(f: ConfigFileView) -> Seq<Seq<char>> {
    f.eager_patterns + f.local_header_patterns + f.pure_c_header_patterns
        + f.bad_global_symbols_patterns
}

/// A [`ConfigFileData`] as a value of specifications.
pub struct ConfigFileView {
    pub eager_patterns: Seq<Seq<char>>,
    pub local_header_patterns: Seq<Seq<char>>,
    pub include_defines: Seq<Seq<char>>,
    pub pure_c_header_patterns: Seq<Seq<char>>,
    pub bad_global_symbols_patterns: Seq<Seq<char>>,
}

impl View for ConfigFileData {
    type V = ConfigFileView;

    open spec fn view(&self) -> ConfigFileView {
        ConfigFileView {
            eager_patterns: self.eager_patterns.deep_view(),
            local_header_patterns: self.local_header_patterns.deep_view(),
            include_defines: self.include_defines.deep_view(),
            pure_c_header_patterns: self.pure_c_header_patterns.deep_view(),
            bad_global_symbols_patterns: self.bad_global_symbols_patterns.deep_view(),
        }
    }
}

/// The settings made of the files, read in order: each file adds its patterns and
/// definitions after those of the files before it; the first text that is not a valid
/// pattern (file by file, in the order eager, local header, pure C header, bad global
/// symbol) is an error.
pub open spec fn spec_config_from_files(files: Seq<ConfigFileView>) -> Result<ConfigView, ErrorView>
    decreases files.len(),
{
    if files.len() == 0 {
        Ok(
            ConfigView {
                eager_patterns: Seq::empty(),
                local_header_patterns: Seq::empty(),
                include_defines: Seq::empty(),
                pure_c_header_patterns: Seq::empty(),
                bad_global_symbols_patterns: Seq::empty(),
            },
        )
    } else {
        match spec_config_from_files(files.drop_last()) {
            Err(e) => Err(e),
            Ok(c) => {
                let f = files.last();
                match first_invalid(file_pattern_texts(f)) {
                    Some(t) => Err(ErrorView::InvalidPattern(glob_error_text(t))),
                    None => Ok(
                        ConfigView {
                            eager_patterns: c.eager_patterns + f.eager_patterns,
                            local_header_patterns: c.local_header_patterns
                                + f.local_header_patterns,
                            include_defines: c.include_defines + f.include_defines,
                            pure_c_header_patterns: c.pure_c_header_patterns
                                + f.pure_c_header_patterns,
                            bad_global_symbols_patterns: c.bad_global_symbols_patterns
                                + f.bad_global_symbols_patterns,
                        },
                    ),
                }
            },
        }
    }
}

/// Compiles the patterns and appends them to `out`.
fn add_patterns(out: &mut Vec<GlobPattern>, texts: &Vec<String>) -> (res: Result<(), Error>)
    ensures
        match res {
            Ok(()) => first_invalid(texts.deep_view()) is None && pattern_texts(final(out)@)
                == pattern_texts(old(out)@) + texts.deep_view(),
            Err(e) => first_invalid(texts.deep_view()) matches Some(t) && e@
                == ErrorView::InvalidPattern(glob_error_text(t)),
        },
{
    let mut i: usize = 0;
    proof {
        assert(texts.deep_view().skip(0) =~= texts.deep_view());
        assert(texts.deep_view().take(0) =~= Seq::<Seq<char>>::empty());
    }
    while i < texts.len()
        invariant
            i <= texts@.len(),
            first_invalid(texts.deep_view()) == first_invalid(texts.deep_view().skip(i as int)),
            pattern_texts(out@) == pattern_texts(old(out)@) + texts.deep_view().take(i as int),
        decreases texts@.len() - i,
    {
        let ghost rest = texts.deep_view().skip(i as int);
        proof {
            assert(rest[0] == texts@[i as int]@);
            assert(rest.skip(1) =~= texts.deep_view().skip(i + 1));
        }
        let p = GlobPattern::new(texts[i].as_str())?;
        let ghost before = pattern_texts(out@);
        out.push(p);
        proof {
            assert(pattern_texts(out@) =~= before.push(p.text()));
            assert(texts.deep_view().take(i + 1) =~= texts.deep_view().take(i as int).push(
                texts@[i as int]@,
            ));
        }
        i = i + 1;
    }
    proof {
        assert(texts.deep_view().take(texts@.len() as int) =~= texts.deep_view());
        assert(texts.deep_view().skip(texts@.len() as int) =~= Seq::<Seq<char>>::empty());
    }
    Ok(())
}

/// The first invalid text of a concatenation.
proof fn lemma_first_invalid_concat(a: Seq<Seq<char>>, b: Seq<Seq<char>>)
    ensures
        first_invalid(a + b) == (match first_invalid(a) {
            Some(t) => Some(t),
            None => first_invalid(b),
        }),
    decreases a.len(),
{
    if a.len() == 0 {
        assert(a + b =~= b);
    } else {
        assert((a + b)[0] == a[0]);
        assert((a + b).skip(1) =~= a.skip(1) + b);
        lemma_first_invalid_concat(a.skip(1), b);
    }
}

fn any_pattern_matches(patterns: &Vec<GlobPattern>, path: &str) -> (res: bool)
    ensures
        res == any_matches(pattern_texts(patterns@), path@),
{
    let mut i: usize = 0;
    while i < patterns.len()
        invariant
            i <= patterns@.len(),
            forall|j: int| 0 <= j < i ==> !glob_matches(#[trigger] patterns@[j].text(), path@),
        decreases patterns@.len() - i,
    {
        if patterns[i].matches(path) {
            proof {
                assert(pattern_texts(patterns@)[i as int] == patterns@[i as int].text());
            }
            return true;
        }
        i = i + 1;
    }
    proof {
        assert forall|j: int|
            0 <= j < pattern_texts(patterns@).len() implies !glob_matches(
            #[trigger] pattern_texts(patterns@)[j],
            path@,
        ) by {
            assert(pattern_texts(patterns@)[j] == patterns@[j].text());
        }
    }
    false
}

impl Config {
    /// No patterns and no definitions.
    pub fn new() -> (res: Config)
        ensures
            res@ == spec_config_from_files(Seq::empty())->Ok_0,
    {
        let res = Config {
            eager_patterns: Vec::new(),
            local_header_patterns: Vec::new(),
            include_defines: Vec::new(),
            pure_c_header_patterns: Vec::new(),
            bad_global_symbols_patterns: Vec::new(),
        };
        proof {
            assert(res@ =~= spec_config_from_files(Seq::empty())->Ok_0);
        }
        res
    }

    /// The settings made of the files, read in order.
    pub fn new_from_files(files: &[ConfigFileData]) -> (res: Result<Config, Error>)
        ensures
            match res {
                Ok(c) => spec_config_from_files(files@.map_values(|f: ConfigFileData| f@)) == Ok::<
                    ConfigView,
                    ErrorView,
                >(c@),
                Err(e) => spec_config_from_files(files@.map_values(|f: ConfigFileData| f@))
                    == Err::<ConfigView, ErrorView>(e@),
            },
    {
        let mut config = Config::new();
        let ghost views = files@.map_values(|f: ConfigFileData| f@);
        let mut i: usize = 0;
        proof {
            assert(views.take(0) =~= Seq::<ConfigFileView>::empty());
        }
        while i < files.len()
            invariant
                i <= files@.len(),
                views == files@.map_values(|f: ConfigFileData| f@),
                spec_config_from_files(views.take(i as int)) == Ok::<ConfigView, ErrorView>(
                    config@,
                ),
            decreases files@.len() - i,
        {
            let f = &files[i];
            let ghost fv = f@;
            let ghost before = config@;
            proof {
                assert(views.take(i + 1).drop_last() =~= views.take(i as int));
                assert(views.take(i + 1).last() == fv);
                lemma_first_invalid_concat(
                    fv.eager_patterns + fv.local_header_patterns + fv.pure_c_header_patterns,
                    fv.bad_global_symbols_patterns,
                );
                lemma_first_invalid_concat(
                    fv.eager_patterns + fv.local_header_patterns,
                    fv.pure_c_header_patterns,
                );
                lemma_first_invalid_concat(fv.eager_patterns, fv.local_header_patterns);
            }
            match add_patterns(&mut config.eager_patterns, &f.eager_patterns) {
                Ok(()) => {},
                Err(e) => {
                    proof {
                        lemma_config_error_stays(views, i as int + 1);
                    }
                    return Err(e);
                },
            }
            match add_patterns(&mut config.local_header_patterns, &f.local_header_patterns) {
                Ok(()) => {},
                Err(e) => {
                    proof {
                        lemma_config_error_stays(views, i as int + 1);
                    }
                    return Err(e);
                },
            }
            match add_patterns(&mut config.pure_c_header_patterns, &f.pure_c_header_patterns) {
                Ok(()) => {},
                Err(e) => {
                    proof {
                        lemma_config_error_stays(views, i as int + 1);
                    }
                    return Err(e);
                },
            }
            match add_patterns(
                &mut config.bad_global_symbols_patterns,
                &f.bad_global_symbols_patterns,
            ) {
                Ok(()) => {},
                Err(e) => {
                    proof {
                        lemma_config_error_stays(views, i as int + 1);
                    }
                    return Err(e);
                },
            }
            crate::text::append_copies(&mut config.include_defines, &f.include_defines);
            proof {
                assert(first_invalid(file_pattern_texts(fv)) is None);
                assert(config@.eager_patterns =~= before.eager_patterns + fv.eager_patterns);
                assert(config@.include_defines =~= before.include_defines + fv.include_defines);
                assert(config@ =~= spec_config_from_files(views.take(i + 1))->Ok_0);
            }
            i = i + 1;
        }
        proof {
            assert(views.take(files@.len() as int) =~= views);
        }
        Ok(config)
    }

    /// A path whose command is run at once rather than deferred.
    pub fn is_eager_path(&self, path: &str) -> (res: bool)
        ensures
            res == any_matches(self@.eager_patterns, path@),
    {
        any_pattern_matches(&self.eager_patterns, path)
    }

    /// A header that belongs to the project rather than to a library.
    pub fn is_local_header(&self, path: &str) -> (res: bool)
        ensures
            res == any_matches(self@.local_header_patterns, path@),
    {
        any_pattern_matches(&self.local_header_patterns, path)
    }

    /// A header that must be included as C code.
    pub fn is_pure_c_header(&self, path: &str) -> (res: bool)
        ensures
            res == any_matches(self@.pure_c_header_patterns, path@),
    {
        any_pattern_matches(&self.pure_c_header_patterns, path)
    }

    /// A file that defines a symbol that must not be global.
    pub fn has_bad_global_symbol(&self, path: &str) -> (res: bool)
        ensures
            res == any_matches(self@.bad_global_symbols_patterns, path@),
    {
        any_pattern_matches(&self.bad_global_symbols_patterns, path)
    }

    /// A macro whose definition in a source file changes global headers.
    pub fn is_include_define(&self, name: &str) -> (res: bool)
        ensures
            res == self@.include_defines.contains(name@),
    {
        let n = chars_of(name);
        let mut i: usize = 0;
        while i < self.include_defines.len()
            invariant
                i <= self.include_defines@.len(),
                n@ == name@,
                forall|j: int| 0 <= j < i ==> self.include_defines@[j]@ != name@,
            decreases self.include_defines@.len() - i,
        {
            let d = chars_of(self.include_defines[i].as_str());
            if chars_eq(d.as_slice(), n.as_slice()) {
                proof {
                    assert(self@.include_defines[i as int] == name@);
                }
                return true;
            }
            i = i + 1;
        }
        proof {
            assert forall|j: int| 0 <= j < self@.include_defines.len() implies self@.include_defines[j]
                != name@ by {
                assert(self@.include_defines[j] == self.include_defines@[j]@);
            }
        }
        false
    }
}

/// Once the files read so far give an error, all the files give it.
proof fn lemma_config_error_stays(views: Seq<ConfigFileView>, k: int)
    requires
        0 <= k <= views.len(),
        spec_config_from_files(views.take(k)) is Err,
    ensures
        spec_config_from_files(views) == spec_config_from_files(views.take(k)),
    decreases views.len() - k,
{
    if k < views.len() {
        assert(views.take(k + 1).drop_last() =~= views.take(k));
        lemma_config_error_stays(views, k + 1);
    } else {
        assert(views.take(k) =~= views);
    }
}

} // verus!
