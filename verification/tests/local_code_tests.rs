use ccelerate::config::{Config, ConfigFileData};
use ccelerate::error::Error;
use ccelerate::local_code::LocalCode;

fn project_config() -> Config {
    let file = ConfigFileData {
        eager_patterns: vec![],
        local_header_patterns: vec!["/project/*".to_string()],
        include_defines: vec!["DNA_DEPRECATED_ALLOW".to_string()],
        pure_c_header_patterns: vec![],
        bad_global_symbols_patterns: vec![],
    };
    Config::new_from_files(&[file]).expect("valid configuration")
}

const PREPROCESSED: &str = "# 1 \"/project/src/a.cc\"
# 1 \"<built-in>\"
#define __GNUC__ 14
# 1 \"<command-line>\"
# 1 \"/project/src/a.cc\"
#define DNA_DEPRECATED_ALLOW
# 1 \"/usr/include/stdio.h\" 1 3 4
int printf(const char*, ...);
# 2 \"/project/src/a.cc\" 2
# 1 \"/project/src/b.h\" 1
int b();
# 3 \"/project/src/a.cc\" 2
int main() { return 0; }
";

#[test]
fn local_code_keeps_source_and_local_headers() {
    let lc = LocalCode::from_preprocessed_code(PREPROCESSED.as_bytes(), "/project/src/a.cc", &project_config())
        .expect("source has a directory");
    assert_eq!(
        lc.local_code,
        "#pragma GCC diagnostic push\n# 1 \"/project/src/b.h\"\nint b();\n# 3 \"/project/src/a.cc\"\nint main() { return 0; }\n\n#pragma GCC diagnostic pop\n"
    );
    assert_eq!(lc.global_includes, vec!["/usr/include/stdio.h".to_string()]);
    assert_eq!(lc.include_defines, vec!["#define DNA_DEPRECATED_ALLOW".to_string()]);
}

#[test]
fn local_code_makes_global_includes_absolute() {
    let code = "# 1 \"a.cc\"\n# 1 \"sys/x.h\" 1\nint x;\n# 2 \"a.cc\" 2\nint y;";
    let lc = LocalCode::from_preprocessed_code(code.as_bytes(), "/work/a.cc", &Config::new()).unwrap();
    assert_eq!(lc.global_includes, vec!["/work/sys/x.h".to_string()]);
    assert_eq!(
        lc.local_code,
        "#pragma GCC diagnostic push\n# 2 \"/work/a.cc\"\nint y;\n#pragma GCC diagnostic pop\n"
    );
    assert!(lc.include_defines.is_empty());
}

#[test]
fn local_code_ignores_undef_and_bad_markers() {
    let code = "#undef X\n# 12 no quotes\n# x \"f\"\nint z;\n";
    let lc = LocalCode::from_preprocessed_code(code.as_bytes(), "/w/a.c", &Config::new()).unwrap();
    assert_eq!(
        lc.local_code,
        "#pragma GCC diagnostic push\nint z;\n\n#pragma GCC diagnostic pop\n"
    );
}

#[test]
fn local_code_defines_outside_local_code_are_ignored() {
    let code = "# 1 \"/usr/include/g.h\" 1\n#define DNA_DEPRECATED_ALLOW 1\n# 2 \"/project/a.cc\" 2\n";
    let lc = LocalCode::from_preprocessed_code(code.as_bytes(), "/project/a.cc", &project_config()).unwrap();
    assert!(lc.include_defines.is_empty());
    assert_eq!(lc.global_includes, vec!["/usr/include/g.h".to_string()]);
}

#[test]
fn local_code_keeps_marker_before_non_blank_line() {
    let code = "# 7 \"/project/a.cc\"\n\n# 9 \"/project/a.cc\"\nint q;";
    let lc = LocalCode::from_preprocessed_code(code.as_bytes(), "/project/a.cc", &Config::new()).unwrap();
    assert_eq!(
        lc.local_code,
        "#pragma GCC diagnostic push\n# 9 \"/project/a.cc\"\nint q;\n#pragma GCC diagnostic pop\n"
    );
}

#[test]
fn local_code_line_number_too_large_is_skipped() {
    let code = "# 99999999999999999999999 \"/project/a.cc\"\nint q;";
    let lc = LocalCode::from_preprocessed_code(code.as_bytes(), "/project/a.cc", &Config::new()).unwrap();
    assert_eq!(
        lc.local_code,
        "#pragma GCC diagnostic push\nint q;\n#pragma GCC diagnostic pop\n"
    );
}

#[test]
fn local_code_without_source_directory_fails() {
    let res = LocalCode::from_preprocessed_code(b"int x;", "", &Config::new());
    assert!(matches!(res, Err(Error::NoSourceDirectory)));
    let res = LocalCode::from_preprocessed_code(b"int x;", "/", &Config::new());
    assert!(matches!(res, Err(Error::NoSourceDirectory)));
}

#[test]
fn local_code_in_dir_uses_given_directory() {
    let code = "# 1 \"h.h\" 1\n# 2 \"a.c\" 2\n";
    let lc = LocalCode::from_preprocessed_code_in_dir(code.as_bytes(), "a.c", "/given", &Config::new());
    assert_eq!(lc.global_includes, vec!["/given/h.h".to_string()]);
}

#[test]
fn local_code_unicode_white_space_separates() {
    let code = "#define \u{3000}DNA_DEPRECATED_ALLOW\n# 1 \"/usr/include/g.h\"\u{a0}1\nint g;\n# 2 \"/project/a.cc\" 2\n";
    let lc = LocalCode::from_preprocessed_code(code.as_bytes(), "/project/a.cc", &project_config()).unwrap();
    assert_eq!(lc.include_defines, vec!["#define \u{3000}DNA_DEPRECATED_ALLOW".to_string()]);
    assert_eq!(lc.global_includes, vec!["/usr/include/g.h".to_string()]);
    assert_eq!(
        lc.local_code,
        "#pragma GCC diagnostic push\n# 2 \"/project/a.cc\"\n\n#pragma GCC diagnostic pop\n"
    );
}

#[test]
fn local_code_macro_names_are_unicode_words() {
    let file = ConfigFileData {
        include_defines: vec!["café".to_string(), "x".to_string()],
        ..ConfigFileData::default()
    };
    let config = Config::new_from_files(&[file]).unwrap();
    let code = "#define café 1\n#define x\u{2019}y 2\n";
    let lc = LocalCode::from_preprocessed_code(code.as_bytes(), "/p/a.c", &config).unwrap();
    assert_eq!(lc.include_defines, vec!["#define café 1".to_string(), "#define x\u{2019}y 2".to_string()]);
}

#[test]
fn local_code_lines_that_are_not_utf8() {
    let file = ConfigFileData {
        include_defines: vec!["A".to_string()],
        ..ConfigFileData::default()
    };
    let config = Config::new_from_files(&[file]).unwrap();
    let mut code: Vec<u8> = Vec::new();
    code.extend_from_slice(b"#define A \xff\n");
    code.extend_from_slice(b"# 3 \"/p/\xfe.h\" 1\n");
    code.extend_from_slice(b"#undef \xff\n");
    code.extend_from_slice(b"char s[] = \"\xe9\";\n");
    code.extend_from_slice(b"#define A 1\n");
    let lc = LocalCode::from_preprocessed_code(&code, "/p/a.c", &config).unwrap();
    assert_eq!(lc.include_defines, vec!["#define A 1".to_string()]);
    assert!(lc.global_includes.is_empty());
    assert_eq!(
        lc.local_code,
        "#pragma GCC diagnostic push\nchar s[] = \"\u{fffd}\";\n\n#pragma GCC diagnostic pop\n"
    );
}

#[test]
fn local_code_markers_with_digits_outside_ascii_are_skipped() {
    let code = "int a;\n# 1 \"/p/a.h\" \u{661}\n# \u{661} \"/p/b.h\"\n# \u{661} \"x\" # 2 \"/p/c.h\"\nint b;\n";
    let lc = LocalCode::from_preprocessed_code(code.as_bytes(), "/p/a.c", &Config::new()).unwrap();
    assert_eq!(
        lc.local_code,
        "#pragma GCC diagnostic push\nint a;\nint b;\n\n#pragma GCC diagnostic pop\n"
    );
    let code = "int a;\n# 1 \"/p/a.h\" 1\nint b;\n";
    let lc = LocalCode::from_preprocessed_code(code.as_bytes(), "/p/a.c", &Config::new()).unwrap();
    assert_eq!(lc.global_includes, vec!["/p/a.h".to_string()]);
}
