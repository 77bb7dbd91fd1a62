use ccelerate::directives::{
    extract_preprocessor_directives, get_corresponding_directives_path, get_original_path,
    plan_directives_update, DirectivesAction, DirectivesUpdate,
};
use ccelerate::error::Error;

#[test]
fn directives_are_extracted() {
    let code = "#include <a.h>\nint x = 1;\n  #define Y 2 // c\nchar *s = \"#no\";\n";
    assert_eq!(
        extract_preprocessor_directives(code).unwrap(),
        "#include <a.h>\n  #define Y 2 // c\n"
    );
}

#[test]
fn directives_skip_comments_strings_and_chars() {
    let code = "/* #no */ // #no\nchar c = '#';\n#if A\nint a = 1'000;\n#endif";
    assert_eq!(extract_preprocessor_directives(code).unwrap(), "#if A\n#endif");
}

#[test]
fn directives_continue_over_escaped_newlines() {
    let code = "#define M(x) \\\n  (x)\nint y;\n";
    assert_eq!(extract_preprocessor_directives(code).unwrap(), "#define M(x) \\\n  (x)\n");
}

#[test]
fn directives_skip_raw_strings() {
    let code = "auto s = R\"d(\n#no\n)d\";\n#pragma once\n";
    assert_eq!(extract_preprocessor_directives(code).unwrap(), "#pragma once\n");
}

#[test]
fn directive_errors() {
    assert!(matches!(extract_preprocessor_directives("/* open"), Err(Error::UnterminatedBlockComment)));
    assert!(matches!(extract_preprocessor_directives("x = \"open"), Err(Error::UnterminatedString)));
    assert!(matches!(extract_preprocessor_directives("x = 'a"), Err(Error::UnterminatedChar)));
    assert!(matches!(extract_preprocessor_directives("R\"d(x)e\""), Err(Error::UnterminatedRawString)));
}

#[test]
fn directive_paths() {
    assert_eq!(get_corresponding_directives_path("/d", "/a/b.h").unwrap(), "/d/a/b.h");
    assert!(matches!(get_corresponding_directives_path("/d", "a/b.h"), Err(Error::RelativePath)));
    assert_eq!(get_original_path("/d", "/d/a/b.h"), "/a/b.h");
    assert_eq!(get_original_path("/d", "/x/y"), "/x/y");
    let derived = get_corresponding_directives_path("/d", "/a/b.h").unwrap();
    assert_eq!(get_original_path("/d", &derived), "/a/b.h");
}

#[test]
fn directive_updates() {
    let keep = plan_directives_update(Some("#x\nint a;\n"), Some("#x\n")).unwrap();
    assert!(matches!(keep, DirectivesAction::Keep));
    assert!(matches!(keep.update(), DirectivesUpdate::Unchanged));
    let write = plan_directives_update(Some("#y\nint a;\n"), Some("#x\n")).unwrap();
    assert!(matches!(&write, DirectivesAction::Write(d) if d == "#y\n"));
    assert!(matches!(write.update(), DirectivesUpdate::Changed));
    let fresh = plan_directives_update(Some("#y\n"), None).unwrap();
    assert!(matches!(&fresh, DirectivesAction::Write(d) if d == "#y\n"));
    let gone = plan_directives_update(None, Some("#x\n")).unwrap();
    assert!(matches!(gone, DirectivesAction::Remove));
    assert!(matches!(gone.update(), DirectivesUpdate::Removed));
    assert!(matches!(plan_directives_update(None, None).unwrap(), DirectivesAction::Keep));
    assert!(plan_directives_update(Some("/* x"), None).is_err());
}

#[test]
fn updates_settle() {
    let original = "#define X 1\nint a;\n";
    let written = match plan_directives_update(Some(original), Some("#old\n")).unwrap() {
        DirectivesAction::Write(d) => d,
        other => panic!("unexpected {other:?}"),
    };
    assert!(matches!(
        plan_directives_update(Some(original), Some(&written)).unwrap(),
        DirectivesAction::Keep
    ));
}

#[test]
fn directives_read_again_are_unchanged() {
    let code = "int a; /* x */ #define A 1\nint b = '\\'';\n  #if B // c\n\"s\\\n\"\n#endif\r\n#define C \\\n  2\n";
    let once = extract_preprocessor_directives(code).unwrap();
    assert_eq!(once, " #define A 1\n  #if B // c\n#endif\r\n#define C \\\n  2\n");
    let twice = extract_preprocessor_directives(&once).unwrap();
    assert_eq!(twice, once);
}
