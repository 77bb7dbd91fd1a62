use ccelerate::args_processing::{
    add_object_compatibility_args_to_key, rewrite_to_extract_local_code, rewrite_to_link_sources,
    BuildFilesInfo, BuildObjectFileInfo, LinkFileInfo,
};
use ccelerate::code_language::CodeLanguage;
use ccelerate::error::Error;
use ccelerate::gcc_args::{
    add_translation_unit_unspecific_args_to_key, is_build_object_file,
    update_build_object_args_to_just_output_preprocessed_from_stdin,
    update_to_build_object_from_stdin, update_to_link_sources_as_group, GccArgsInfo,
};
use ccelerate::source_file::SourceFile;
use ccelerate::wrapped_binary::WrappedBinary;

fn strings(v: &[&str]) -> Vec<String> {
    v.iter().map(|s| s.to_string()).collect()
}

#[test]
fn words_round_trip() {
    let args = strings(&["-c", "-o", "a.o", "-x", "c", "a.c", "-isystem", "/inc"]);
    let info = GccArgsInfo::from_args(&args).unwrap();
    assert_eq!(info.to_args(), args);
    assert_eq!(info.get_single_output(), Some("a.o".to_string()));
    assert!(info.has_compile_only_flag());
    let sources = info.get_sources().unwrap();
    assert_eq!(
        sources,
        vec![SourceFile { path: "a.c".to_string(), language_override: Some(CodeLanguage::C) }]
    );
    assert_eq!(
        info.get_absolute_sources("/w").unwrap(),
        vec![SourceFile { path: "/w/a.c".to_string(), language_override: Some(CodeLanguage::C) }]
    );
    assert_eq!(info.get_absolute_single_output("/w").unwrap(), "/w/a.o");
}

#[test]
fn missing_argument_after_flag() {
    assert!(matches!(GccArgsInfo::from_args(&strings(&["a.c", "-MF"])), Err(Error::ArgumentAfterMissing(f)) if f == "-MF"));
    assert!(matches!(is_build_object_file(&strings(&["-o"])), Err(Error::ArgumentAfterMissing(_))));
}

#[test]
fn object_build_detection() {
    assert!(is_build_object_file(&strings(&["-c", "a.c"])).unwrap());
    assert!(!is_build_object_file(&strings(&["a.o", "-o", "app"])).unwrap());
}

#[test]
fn rewrite_for_local_code() {
    let args = strings(&["-c", "-MD", "-MT", "t", "-MF", "a.d", "a.cc", "-o", "a.o"]);
    assert_eq!(
        rewrite_to_extract_local_code(WrappedBinary::Gxx, &args).unwrap(),
        strings(&["-MD", "-MT", "t", "-MF", "a.d", "a.cc", "-E", "-dD"])
    );
    assert!(matches!(
        rewrite_to_extract_local_code(WrappedBinary::Ar, &args),
        Err(Error::RewriteUnsupported(WrappedBinary::Ar))
    ));
}

#[test]
fn rewrite_for_preprocessing_from_stdin() {
    let args = strings(&["-c", "-MD", "-MT", "t", "-MF", "a.d", "-O2", "a.cc", "-o", "a.o"]);
    assert_eq!(
        update_build_object_args_to_just_output_preprocessed_from_stdin(&args, CodeLanguage::Cxx)
            .unwrap(),
        strings(&["-O2", "-E", "-x", "c++", "-"])
    );
}

#[test]
fn rewrite_for_building_from_stdin() {
    let args = strings(&["-c", "-O2", "a.cc", "-o", "a.o"]);
    assert_eq!(
        update_to_build_object_from_stdin(&args, "/t/out.o", CodeLanguage::II).unwrap(),
        strings(&["-c", "-O2", "-o", "/t/out.o", "-x", "c++-cpp-output", "-"])
    );
}

#[test]
fn rewrite_for_link_group() {
    let args = strings(&["a.o", "-o", "app", "-lm"]);
    let sources = vec![
        SourceFile { path: "/x/b.o".to_string(), language_override: None },
        SourceFile { path: "/x/c.c".to_string(), language_override: None },
    ];
    assert_eq!(
        update_to_link_sources_as_group(&args, &sources).unwrap(),
        strings(&[
            "-o", "app", "-lm", "-Wl,--start-group", "-x", "none", "/x/b.o", "-x", "c", "/x/c.c",
            "-Wl,--end-group",
        ])
    );
    assert_eq!(
        rewrite_to_link_sources(WrappedBinary::Gcc, &args, &strings(&["/x/lib.a"])).unwrap(),
        strings(&["-o", "app", "-lm", "-Wl,--start-group", "-x", "none", "/x/lib.a", "-Wl,--end-group"])
    );
}

#[test]
fn key_leaves_out_files() {
    let args = strings(&["-c", "-O2", "-MT", "t", "-MF", "d", "-isystem", "/i", "a.cc", "-o", "a.o"]);
    let mut key = String::from("k:");
    add_translation_unit_unspecific_args_to_key(&args, &mut key).unwrap();
    assert_eq!(key, "k:-c-O2-isystem/i");
    let mut key2 = String::new();
    add_object_compatibility_args_to_key(WrappedBinary::Clang, &args, &mut key2).unwrap();
    assert_eq!(key2, "-c-O2-isystem/i");
    let mut key3 = String::from("x");
    assert!(add_object_compatibility_args_to_key(WrappedBinary::Ar, &args, &mut key3).is_err());
    assert_eq!(key3, "x");
}

#[test]
fn build_object_info() {
    let args = strings(&["-c", "-x", "c++", "src/a.h", "-o", "a.o"]);
    let info = BuildObjectFileInfo::from_args(WrappedBinary::Gcc, "/w", &args).unwrap();
    assert_eq!(info.source_path, "/w/src/a.h");
    assert_eq!(info.source_language, CodeLanguage::Cxx);
    assert_eq!(info.object_path, "/w/a.o");
    assert!(matches!(
        BuildObjectFileInfo::from_args(WrappedBinary::Gcc, "/w", &strings(&["-c", "a.h", "-o", "a.o"])),
        Err(Error::UnknownExtension(e)) if e == "h"
    ));
    assert!(BuildObjectFileInfo::from_args(WrappedBinary::Ar, "/w", &args).is_err());
}

#[test]
fn link_and_build_files_info() {
    let args = strings(&["a.o", "/l/b.a", "-o", "bin/app"]);
    let info = LinkFileInfo::from_args(WrappedBinary::Gxx, "/w", &args).unwrap();
    assert_eq!(info.output, "/w/bin/app");
    assert_eq!(
        info.sources,
        vec![
            SourceFile { path: "/w/a.o".to_string(), language_override: None },
            SourceFile { path: "/l/b.a".to_string(), language_override: None },
        ]
    );
    assert!(matches!(
        LinkFileInfo::from_args(WrappedBinary::Gxx, "/w", &strings(&["a.o"])),
        Err(Error::NoSingleOutput)
    ));
    let files = BuildFilesInfo::from_args("/w", &strings(&["a.o"])).unwrap();
    assert_eq!(files.output, None);
    assert_eq!(files.sources.len(), 1);
}

#[test]
fn build_object_with_unknown_source_language() {
    let args = strings(&["-c", "-x", "fortran", "a.f", "-o", "a.o"]);
    let res = BuildObjectFileInfo::from_gcc_args("/w", &args);
    match res {
        Err(e) => {
            assert!(matches!(&e, Error::SourcesUnknownLanguage(n) if n == "fortran"));
            assert_eq!(e.message(), "Error parsing sources: Unknown language fortran");
        },
        Ok(_) => panic!("the language is unknown"),
    }
}
