use ccelerate::code_language::CodeLanguage;
use ccelerate::error::Error;
use ccelerate::source_file::SourceFile;

#[test]
fn languages_from_extensions() {
    assert_eq!(CodeLanguage::from_ext("c").unwrap(), CodeLanguage::C);
    for ext in ["cc", "cp", "cpp", "cxx", "c++"] {
        assert_eq!(CodeLanguage::from_ext(ext).unwrap(), CodeLanguage::Cxx);
    }
    assert_eq!(CodeLanguage::from_ext("i").unwrap(), CodeLanguage::I);
    assert_eq!(CodeLanguage::from_ext("ii").unwrap(), CodeLanguage::II);
    assert!(matches!(CodeLanguage::from_ext("h"), Err(Error::UnknownExtension(e)) if e == "h"));
}

#[test]
fn languages_from_paths() {
    assert_eq!(CodeLanguage::from_path("/a/b.cpp").unwrap(), CodeLanguage::Cxx);
    assert_eq!(CodeLanguage::from_path("x.tar.c").unwrap(), CodeLanguage::C);
    assert!(matches!(CodeLanguage::from_path("/a/Makefile"), Err(Error::UnknownExtension(e)) if e.is_empty()));
    assert!(matches!(CodeLanguage::from_path("/a/.hidden"), Err(Error::UnknownExtension(e)) if e.is_empty()));
}

#[test]
fn valid_extensions_read_back() {
    for l in [CodeLanguage::C, CodeLanguage::Cxx, CodeLanguage::I, CodeLanguage::II] {
        assert_eq!(CodeLanguage::from_ext(l.to_valid_ext()).unwrap(), l);
    }
    assert_eq!(CodeLanguage::Cxx.to_valid_ext(), "cc");
}

#[test]
fn gcc_x_names() {
    assert_eq!(CodeLanguage::from_gcc_x_arg("c++").unwrap(), Some(CodeLanguage::Cxx));
    assert_eq!(CodeLanguage::from_gcc_x_arg("cpp-output").unwrap(), Some(CodeLanguage::I));
    assert_eq!(CodeLanguage::from_gcc_x_arg("none").unwrap(), None);
    assert!(matches!(CodeLanguage::from_gcc_x_arg("fortran"), Err(Error::UnknownLanguageName(n)) if n == "fortran"));
    for l in [CodeLanguage::C, CodeLanguage::Cxx, CodeLanguage::I, CodeLanguage::II] {
        assert_eq!(CodeLanguage::from_gcc_x_arg(l.to_gcc_x_arg()).unwrap(), Some(l));
    }
    assert_eq!(CodeLanguage::II.to_gcc_x_arg(), "c++-cpp-output");
}

#[test]
fn preprocessed_languages() {
    assert_eq!(CodeLanguage::C.to_preprocessed().unwrap(), CodeLanguage::I);
    assert_eq!(CodeLanguage::Cxx.to_preprocessed().unwrap(), CodeLanguage::II);
    assert!(matches!(CodeLanguage::II.to_preprocessed(), Err(Error::CannotPreprocess(CodeLanguage::II))));
}

#[test]
fn source_file_language() {
    let f = SourceFile { path: "/a/x.c".to_string(), language_override: None };
    assert_eq!(f.language().unwrap(), CodeLanguage::C);
    let f = SourceFile { path: "/a/x.c".to_string(), language_override: Some(CodeLanguage::Cxx) };
    assert_eq!(f.language().unwrap(), CodeLanguage::Cxx);
    let f = SourceFile { path: "/a/x".to_string(), language_override: None };
    assert!(f.language().is_err());
}

#[test]
fn preprocessing_round_trip() {
    for l in [CodeLanguage::C, CodeLanguage::Cxx] {
        assert_eq!(l.to_preprocessed().unwrap().to_non_preprocessed().unwrap(), l);
    }
    assert!(matches!(CodeLanguage::C.to_non_preprocessed(), Err(Error::NotPreprocessed(CodeLanguage::C))));
}
