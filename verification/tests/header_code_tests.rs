use ccelerate::config::{Config, ConfigFileData};
use ccelerate::error::Error;
use ccelerate::header_code::get_include_code_for_objects;
use ccelerate::link_objects::{CompileObjectRecord, ObjectData, ObjectLocalCodeRecord};
use ccelerate::wrapped_binary::WrappedBinary;

fn strings(v: &[&str]) -> Vec<String> {
    v.iter().map(|s| s.to_string()).collect()
}

fn object(local_code_file: &str, includes: &[&str], defines: &[&str]) -> ObjectData {
    ObjectData {
        path: "/w/x.o".to_string(),
        create: CompileObjectRecord {
            binary: WrappedBinary::Gxx,
            cwd: "/w".to_string(),
            args: strings(&["-c", "x.cc", "-o", "x.o"]),
        },
        local_code: ObjectLocalCodeRecord {
            local_code_file: local_code_file.to_string(),
            global_includes: strings(includes),
            include_defines: strings(defines),
            bad_includes: vec![],
        },
    }
}

#[test]
fn include_code_lists_headers_once_in_order() {
    let config = Config::new_from_files(&[ConfigFileData {
        pure_c_header_patterns: strings(&["/usr/include/zlib.h"]),
        ..ConfigFileData::default()
    }])
    .unwrap();
    let objects = vec![
        object("/d/ab/ab_a.cc.ii", &["/usr/include/vector", "/usr/include/zlib.h"], &["#define A"]),
        object("/d/cd/cd_b.cc.ii", &["/usr/include/zlib.h", "/usr/include/map"], &["#define A", "#define B"]),
    ];
    assert_eq!(
        get_include_code_for_objects(&objects, &config).unwrap(),
        "// Include code for the following files:\n// /d/ab/ab_a.cc.ii\n// /d/cd/cd_b.cc.ii\n#define A\n#define B\n#include </usr/include/vector>\nextern \"C\" {\n#include </usr/include/zlib.h>\n}\n#include </usr/include/map>\n"
    );
}

#[test]
fn include_code_for_c_needs_no_c_block() {
    let config = Config::new_from_files(&[ConfigFileData {
        pure_c_header_patterns: strings(&["*.h"]),
        ..ConfigFileData::default()
    }])
    .unwrap();
    let objects = vec![object("/d/ab/ab_a.c.i", &["/usr/include/stdio.h"], &[])];
    assert_eq!(
        get_include_code_for_objects(&objects, &config).unwrap(),
        "// Include code for the following files:\n// /d/ab/ab_a.c.i\n#include </usr/include/stdio.h>\n"
    );
}

#[test]
fn include_code_needs_preprocessed_local_code() {
    let objects = vec![object("/d/ab/ab_a.cc", &[], &[])];
    assert!(matches!(
        get_include_code_for_objects(&objects, &Config::new()),
        Err(Error::NotPreprocessed(ccelerate::code_language::CodeLanguage::Cxx))
    ));
    let objects = vec![object("/d/ab/ab_a.txt", &[], &[])];
    assert!(matches!(
        get_include_code_for_objects(&objects, &Config::new()),
        Err(Error::UnknownExtension(e)) if e == "txt"
    ));
}
