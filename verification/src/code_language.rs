//! The source languages the cache handles.

use vstd::prelude::*;
use crate::error::Error;
use crate::path_utils::{extension, spec_extension};
use crate::text::{chars_eq, chars_of, string_of};

verus! {

/// A language of a translation unit.
#[derive(Debug, PartialEq, Eq, Structural, Clone, Copy)]
pub enum CodeLanguage {
    /// C code.
    C,
    /// C++ code.
    Cxx,
    /// Preprocessed C code.
    I,
    /// Preprocessed C++ code.
    II,
}

/// The language that a file extension denotes.
pub open spec fn spec_from_ext(ext: Seq<char>) -> Option<CodeLanguage> {
    if ext == seq!['c'] {
        Some(CodeLanguage::C)
    } else if ext == seq!['c', 'c'] || ext == seq!['c', 'p'] || ext == seq!['c', 'p', 'p']
        || ext == seq!['c', 'x', 'x'] || ext == seq!['c', '+', '+'] {
        Some(CodeLanguage::Cxx)
    } else if ext == seq!['i'] {
        Some(CodeLanguage::I)
    } else if ext == seq!['i', 'i'] {
        Some(CodeLanguage::II)
    } else {
        None
    }
}

/// The language of a path, by the extension of its file name (an empty extension
/// where it has none).
pub open spec fn spec_from_path(path: Seq<char>) -> Option<CodeLanguage> {
    match spec_extension(path) {
        Some(e) => spec_from_ext(e),
        None => spec_from_ext(Seq::empty()),
    }
}

/// The extension that a file of the language is given.
pub open spec fn spec_valid_ext(l: CodeLanguage) -> Seq<char> {
    match l {
        CodeLanguage::C => seq!['c'],
        CodeLanguage::Cxx => seq!['c', 'c'],
        CodeLanguage::I => seq!['i'],
        CodeLanguage::II => seq!['i', 'i'],
    }
}

/// The language that a name given to gcc's `-x` denotes; `none` denotes no language.
pub open spec fn spec_from_gcc_x_arg(arg: Seq<char>) -> Option<Option<CodeLanguage>> {
    if arg == seq!['c'] {
        Some(Some(CodeLanguage::C))
    } else if arg == seq!['c', '+', '+'] {
        Some(Some(CodeLanguage::Cxx))
    } else if arg == seq!['c', 'p', 'p', '-', 'o', 'u', 't', 'p', 'u', 't'] {
        Some(Some(CodeLanguage::I))
    } else if arg == seq!['c', '+', '+', '-', 'c', 'p', 'p', '-', 'o', 'u', 't', 'p', 'u', 't'] {
        Some(Some(CodeLanguage::II))
    } else if arg == seq!['n', 'o', 'n', 'e'] {
        Some(None)
    } else {
        None
    }
}

/// The name that gcc's `-x` takes for the language.
pub open spec fn spec_to_gcc_x_arg(l: CodeLanguage) -> Seq<char> {
    match l {
        CodeLanguage::C => seq!['c'],
        CodeLanguage::Cxx => seq!['c', '+', '+'],
        CodeLanguage::I => seq!['c', 'p', 'p', '-', 'o', 'u', 't', 'p', 'u', 't'],
        CodeLanguage::II => seq!['c', '+', '+', '-', 'c', 'p', 'p', '-', 'o', 'u', 't', 'p', 'u', 't'],
    }
}

/// The language of the preprocessed form of code in a language.
pub open spec fn spec_to_preprocessed(l: CodeLanguage) -> Option<CodeLanguage> {
    match l {
        CodeLanguage::C => Some(CodeLanguage::I),
        CodeLanguage::Cxx => Some(CodeLanguage::II),
        _ => None,
    }
}

/// The name of the language as the library prints it.
pub open spec fn spec_language_name(l: CodeLanguage) -> Seq<char> {
    match l {
        CodeLanguage::C => seq!['C'],
        CodeLanguage::Cxx => seq!['C', 'x', 'x'],
        CodeLanguage::I => seq!['I'],
        CodeLanguage::II => seq!['I', 'I'],
    }
}

/// The language of code whose preprocessed form is in language `l`.
pub open spec fn spec_to_non_preprocessed(l: CodeLanguage) -> Option<CodeLanguage> {
    match l {
        CodeLanguage::I => Some(CodeLanguage::C),
        CodeLanguage::II => Some(CodeLanguage::Cxx),
        _ => None,
    }
}

impl CodeLanguage {
    /// The language that a file extension denotes.
    pub fn from_ext(ext: &str) -> (res: Result<CodeLanguage, Error>)
        ensures
            match res {
                Ok(l) => spec_from_ext(ext@) == Some(l),
                Err(e) => spec_from_ext(ext@) is None && e@ == crate::error::ErrorView::UnknownExtension(ext@),
            },
    {
        let e = chars_of(ext);
        Self::from_ext_chars(e.as_slice())
    }

    /// The language that a file extension, given as characters, denotes.
    pub fn from_ext_chars(e: &[char]) -> (res: Result<CodeLanguage, Error>)
        ensures
            match res {
                Ok(l) => spec_from_ext(e@) == Some(l),
                Err(err) => spec_from_ext(e@) is None && err@ == crate::error::ErrorView::UnknownExtension(e@),
            },
    {
        let lit0 = ['c'];
        let lit1 = ['c', 'c'];
        let lit2 = ['c', 'p'];
        let lit3 = ['c', 'p', 'p'];
        let lit4 = ['c', 'x', 'x'];
        let lit5 = ['c', '+', '+'];
        let lit6 = ['i'];
        let lit7 = ['i', 'i'];
        proof {
            assert(lit0@ == seq!['c']);
            assert(lit1@ == seq!['c', 'c']);
            assert(lit2@ == seq!['c', 'p']);
            assert(lit3@ == seq!['c', 'p', 'p']);
            assert(lit4@ == seq!['c', 'x', 'x']);
            assert(lit5@ == seq!['c', '+', '+']);
            assert(lit6@ == seq!['i']);
            assert(lit7@ == seq!['i', 'i']);
        }
        proof {
            lemma_language_literals();
        }
        if chars_eq(e, &lit0) {
            Ok(CodeLanguage::C)
        } else if chars_eq(e, &lit1) || chars_eq(e, &lit2) || chars_eq(e, &lit3)
            || chars_eq(e, &lit4) || chars_eq(e, &lit5) {
            Ok(CodeLanguage::Cxx)
        } else if chars_eq(e, &lit6) {
            Ok(CodeLanguage::I)
        } else if chars_eq(e, &lit7) {
            Ok(CodeLanguage::II)
        } else {
            Err(Error::UnknownExtension(string_of(e)))
        }
    }

    /// The language of a path, by its extension.
    pub fn from_path(path: &str) -> (res: Result<CodeLanguage, Error>)
        ensures
            match res {
                Ok(l) => spec_from_path(path@) == Some(l),
                Err(e) => spec_from_path(path@) is None && e@ == crate::error::ErrorView::UnknownExtension(
                    match spec_extension(path@) { Some(x) => x, None => Seq::empty() },
                ),
            },
    {
        let p = chars_of(path);
        match extension(p.as_slice()) {
            Some(e) => Self::from_ext_chars(e.as_slice()),
            None => {
                let empty: Vec<char> = Vec::new();
                proof {
                    assert(empty@ =~= Seq::<char>::empty());
                }
                Self::from_ext_chars(empty.as_slice())
            },
        }
    }

    /// The extension that a file of the language is given.
    pub fn to_valid_ext(self) -> (res: &'static str)
        ensures
            res@ == spec_valid_ext(self),
    {
        proof {
            reveal_strlit("c");
            reveal_strlit("cc");
            reveal_strlit("i");
            reveal_strlit("ii");
        }
        match self {
            CodeLanguage::C => "c",
            CodeLanguage::Cxx => "cc",
            CodeLanguage::I => "i",
            CodeLanguage::II => "ii",
        }
    }

    /// The language that a name given to gcc's `-x` denotes; `Ok(None)` for `none`.
    pub fn from_gcc_x_arg(arg: &str) -> (res: Result<Option<CodeLanguage>, Error>)
        ensures
            match res {
                Ok(l) => spec_from_gcc_x_arg(arg@) == Some(l),
                Err(e) => spec_from_gcc_x_arg(arg@) is None && e@ == crate::error::ErrorView::UnknownLanguageName(arg@),
            },
    {
        let a = chars_of(arg);
        Self::from_gcc_x_arg_chars(a.as_slice())
    }

    /// The language that a name given to gcc's `-x`, as characters, denotes.
    pub fn from_gcc_x_arg_chars(a: &[char]) -> (res: Result<Option<CodeLanguage>, Error>)
        ensures
            match res {
                Ok(l) => spec_from_gcc_x_arg(a@) == Some(l),
                Err(e) => spec_from_gcc_x_arg(a@) is None && e@ == crate::error::ErrorView::UnknownLanguageName(a@),
            },
    {
        let lit0 = ['c'];
        let lit1 = ['c', '+', '+'];
        let lit2 = ['c', 'p', 'p', '-', 'o', 'u', 't', 'p', 'u', 't'];
        let lit3 = ['c', '+', '+', '-', 'c', 'p', 'p', '-', 'o', 'u', 't', 'p', 'u', 't'];
        let lit4 = ['n', 'o', 'n', 'e'];
        proof {
            assert(lit0@ == seq!['c']);
            assert(lit1@ == seq!['c', '+', '+']);
            assert(lit2@ == seq!['c', 'p', 'p', '-', 'o', 'u', 't', 'p', 'u', 't']);
            assert(lit3@ == seq!['c', '+', '+', '-', 'c', 'p', 'p', '-', 'o', 'u', 't', 'p', 'u', 't']);
            assert(lit4@ == seq!['n', 'o', 'n', 'e']);
        }
        proof {
            lemma_language_literals();
        }
        if chars_eq(a, &lit0) {
            Ok(Some(CodeLanguage::C))
        } else if chars_eq(a, &lit1) {
            Ok(Some(CodeLanguage::Cxx))
        } else if chars_eq(a, &lit2) {
            Ok(Some(CodeLanguage::I))
        } else if chars_eq(a, &lit3) {
            Ok(Some(CodeLanguage::II))
        } else if chars_eq(a, &lit4) {
            Ok(None)
        } else {
            Err(Error::UnknownLanguageName(string_of(a)))
        }
    }

    /// The name that gcc's `-x` takes for the language.
    pub fn to_gcc_x_arg(self) -> (res: &'static str)
        ensures
            res@ == spec_to_gcc_x_arg(self),
    {
        proof {
            reveal_strlit("c");
            reveal_strlit("c++");
            reveal_strlit("cpp-output");
            reveal_strlit("c++-cpp-output");
        }
        match self {
            CodeLanguage::C => "c",
            CodeLanguage::Cxx => "c++",
            CodeLanguage::I => "cpp-output",
            CodeLanguage::II => "c++-cpp-output",
        }
    }

    /// The language of the preprocessed form of code in this language.
    pub fn to_preprocessed(self) -> (res: Result<CodeLanguage, Error>)
        ensures
            match res {
                Ok(l) => spec_to_preprocessed(self) == Some(l),
                Err(e) => spec_to_preprocessed(self) is None && e@ == crate::error::ErrorView::CannotPreprocess(self),
            },
    {
        match self {
            CodeLanguage::C => Ok(CodeLanguage::I),
            CodeLanguage::Cxx => Ok(CodeLanguage::II),
            _ => Err(Error::CannotPreprocess(self)),
        }
    }

    /// The name of the language as the library prints it.
    pub fn name(self) -> (res: String)
        ensures
            res@ == spec_language_name(self),
    {
        let cs: Vec<char> = match self {
            CodeLanguage::C => vec!['C'],
            CodeLanguage::Cxx => vec!['C', 'x', 'x'],
            CodeLanguage::I => vec!['I'],
            CodeLanguage::II => vec!['I', 'I'],
        };
        proof {
            assert(cs@ =~= spec_language_name(self));
        }
        crate::text::string_of(cs.as_slice())
    }

    /// The language of code whose preprocessed form is in this language.
    pub fn to_non_preprocessed(self) -> (res: Result<CodeLanguage, Error>)
        ensures
            match res {
                Ok(l) => spec_to_non_preprocessed(self) == Some(l),
                Err(e) => spec_to_non_preprocessed(self) is None && e@ == crate::error::ErrorView::NotPreprocessed(self),
            },
    {
        match self {
            CodeLanguage::I => Ok(CodeLanguage::C),
            CodeLanguage::II => Ok(CodeLanguage::Cxx),
            _ => Err(Error::NotPreprocessed(self)),
        }
    }
}

/// The literals that name languages, character by character.
proof fn lemma_language_literals()
    ensures
        seq!['c'].len() == 1,
        seq!['c'][0] == 'c',
        seq!['c', 'c'].len() == 2,
        seq!['c', 'c'][0] == 'c',
        seq!['c', 'c'][1] == 'c',
        seq!['c', 'p'].len() == 2,
        seq!['c', 'p'][0] == 'c',
        seq!['c', 'p'][1] == 'p',
        seq!['c', 'p', 'p'].len() == 3,
        seq!['c', 'p', 'p'][0] == 'c',
        seq!['c', 'p', 'p'][1] == 'p',
        seq!['c', 'p', 'p'][2] == 'p',
        seq!['c', 'x', 'x'].len() == 3,
        seq!['c', 'x', 'x'][0] == 'c',
        seq!['c', 'x', 'x'][1] == 'x',
        seq!['c', 'x', 'x'][2] == 'x',
        seq!['c', '+', '+'].len() == 3,
        seq!['c', '+', '+'][0] == 'c',
        seq!['c', '+', '+'][1] == '+',
        seq!['c', '+', '+'][2] == '+',
        seq!['i'].len() == 1,
        seq!['i'][0] == 'i',
        seq!['i', 'i'].len() == 2,
        seq!['i', 'i'][0] == 'i',
        seq!['i', 'i'][1] == 'i',
        seq!['c', 'p', 'p', '-', 'o', 'u', 't', 'p', 'u', 't'].len() == 10,
        seq!['c', 'p', 'p', '-', 'o', 'u', 't', 'p', 'u', 't'][0] == 'c',
        seq!['c', 'p', 'p', '-', 'o', 'u', 't', 'p', 'u', 't'][1] == 'p',
        seq!['c', 'p', 'p', '-', 'o', 'u', 't', 'p', 'u', 't'][2] == 'p',
        seq!['c', 'p', 'p', '-', 'o', 'u', 't', 'p', 'u', 't'][3] == '-',
        seq!['c', 'p', 'p', '-', 'o', 'u', 't', 'p', 'u', 't'][4] == 'o',
        seq!['c', 'p', 'p', '-', 'o', 'u', 't', 'p', 'u', 't'][5] == 'u',
        seq!['c', 'p', 'p', '-', 'o', 'u', 't', 'p', 'u', 't'][6] == 't',
        seq!['c', 'p', 'p', '-', 'o', 'u', 't', 'p', 'u', 't'][7] == 'p',
        seq!['c', 'p', 'p', '-', 'o', 'u', 't', 'p', 'u', 't'][8] == 'u',
        seq!['c', 'p', 'p', '-', 'o', 'u', 't', 'p', 'u', 't'][9] == 't',
        seq!['c', '+', '+', '-', 'c', 'p', 'p', '-', 'o', 'u', 't', 'p', 'u', 't'].len() == 14,
        seq!['c', '+', '+', '-', 'c', 'p', 'p', '-', 'o', 'u', 't', 'p', 'u', 't'][0] == 'c',
        seq!['c', '+', '+', '-', 'c', 'p', 'p', '-', 'o', 'u', 't', 'p', 'u', 't'][1] == '+',
        seq!['c', '+', '+', '-', 'c', 'p', 'p', '-', 'o', 'u', 't', 'p', 'u', 't'][2] == '+',
        seq!['c', '+', '+', '-', 'c', 'p', 'p', '-', 'o', 'u', 't', 'p', 'u', 't'][3] == '-',
        seq!['c', '+', '+', '-', 'c', 'p', 'p', '-', 'o', 'u', 't', 'p', 'u', 't'][4] == 'c',
        seq!['c', '+', '+', '-', 'c', 'p', 'p', '-', 'o', 'u', 't', 'p', 'u', 't'][5] == 'p',
        seq!['c', '+', '+', '-', 'c', 'p', 'p', '-', 'o', 'u', 't', 'p', 'u', 't'][6] == 'p',
        seq!['c', '+', '+', '-', 'c', 'p', 'p', '-', 'o', 'u', 't', 'p', 'u', 't'][7] == '-',
        seq!['c', '+', '+', '-', 'c', 'p', 'p', '-', 'o', 'u', 't', 'p', 'u', 't'][8] == 'o',
        seq!['c', '+', '+', '-', 'c', 'p', 'p', '-', 'o', 'u', 't', 'p', 'u', 't'][9] == 'u',
        seq!['c', '+', '+', '-', 'c', 'p', 'p', '-', 'o', 'u', 't', 'p', 'u', 't'][10] == 't',
        seq!['c', '+', '+', '-', 'c', 'p', 'p', '-', 'o', 'u', 't', 'p', 'u', 't'][11] == 'p',
        seq!['c', '+', '+', '-', 'c', 'p', 'p', '-', 'o', 'u', 't', 'p', 'u', 't'][12] == 'u',
        seq!['c', '+', '+', '-', 'c', 'p', 'p', '-', 'o', 'u', 't', 'p', 'u', 't'][13] == 't',
        seq!['n', 'o', 'n', 'e'].len() == 4,
        seq!['n', 'o', 'n', 'e'][0] == 'n',
        seq!['n', 'o', 'n', 'e'][1] == 'o',
        seq!['n', 'o', 'n', 'e'][2] == 'n',
        seq!['n', 'o', 'n', 'e'][3] == 'e',
{
}

/// Reading back the name given to `-x` yields the language again.
pub proof fn lemma_gcc_x_arg_round_trip(l: CodeLanguage)
    ensures
        spec_from_gcc_x_arg(spec_to_gcc_x_arg(l)) == Some(Some(l)),
{
    lemma_language_literals();
}

/// The extension given to a language's files denotes that language again.
pub proof fn lemma_valid_ext_round_trip(l: CodeLanguage)
    ensures
        spec_from_ext(spec_valid_ext(l)) == Some(l),
{
    lemma_language_literals();
}

/// Code preprocessed and then taken back to the language it came from is in its language
/// again; and only C and C++ code can be preprocessed.
pub proof fn lemma_preprocessed_round_trip(l: CodeLanguage)
    ensures
        spec_to_preprocessed(l) is Some <==> spec_to_non_preprocessed(l) is None,
        spec_to_preprocessed(l) matches Some(p) ==> spec_to_non_preprocessed(p) == Some(l),
{
}

} // verus!
