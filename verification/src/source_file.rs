//! A translation unit's file, with the language it was explicitly given.

use vstd::prelude::*;
use crate::code_language::{CodeLanguage, spec_from_ext};
use crate::error::{Error, ErrorView};
use crate::path_utils::{extension, spec_extension};
use crate::text::chars_of;

verus! {

/// A file that the compiler reads, and the language that `-x` gave it, if any.
#[derive(Debug, PartialEq, Eq, Clone)]
pub struct SourceFile {
    pub path: String,
    pub language_override: Option<CodeLanguage>,
}

/// A [`SourceFile`] as a value of specifications.
#[verifier::ext_equal]
pub struct SourceFileView {
    pub path: Seq<char>,
    pub language_override: Option<CodeLanguage>,
}

impl View for SourceFile {
    type V = SourceFileView;

    open spec fn view(&self) -> SourceFileView {
        SourceFileView { path: self.path@, language_override: self.language_override }
    }
}

impl DeepView for SourceFile {
    type V = SourceFileView;

    open spec fn deep_view(&self) -> SourceFileView {
        self@
    }
}

/// The language of a file: the one it was given, else the one its extension denotes.
pub open spec fn spec_source_language(f: SourceFileView) -> Result<CodeLanguage, ErrorView> {
    match f.language_override {
        Some(l) => Ok(l),
        None => match spec_extension(f.path) {
            None => Err(ErrorView::MissingExtension),
            Some(e) => match spec_from_ext(e) {
                Some(l) => Ok(l),
                None => Err(ErrorView::UnknownExtension(e)),
            },
        },
    }
}

impl SourceFile {
    /// The language of the file: the one it was given, else the one its extension denotes.
    pub fn language(&self) -> (res: Result<CodeLanguage, Error>)
        ensures
            match res {
                Ok(l) => spec_source_language(self@) == Ok::<CodeLanguage, ErrorView>(l),
                Err(e) => spec_source_language(self@) == Err::<CodeLanguage, ErrorView>(e@),
            },
    {
        if let Some(language) = self.language_override {
            return Ok(language);
        }
        let p = chars_of(&self.path);
        match extension(p.as_slice()) {
            None => Err(Error::MissingExtension),
            Some(e) => CodeLanguage::from_ext_chars(e.as_slice()),
        }
    }
}

} // verus!
