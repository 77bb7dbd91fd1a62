use ccelerate::code_language::CodeLanguage;
use ccelerate::compile_object::{
    local_code_file_name, local_code_file_path, local_code_file_path_for_hash, plan_preprocess,
    sharded_path,
};
use ccelerate::error::Error;

#[test]
fn file_name_takes_eight_hex_digits() {
    assert_eq!(
        local_code_file_name(0x1234abcd5678ef90, "/p/src/a.cc", CodeLanguage::II),
        "1234abcd_a.cc.ii"
    );
    assert_eq!(
        local_code_file_name(0x0fff_ffff_ffff_ffff, "/p/src/a.c", CodeLanguage::I),
        "ffffffff_a.c.i"
    );
}

#[test]
fn file_name_keeps_short_hashes_whole() {
    assert_eq!(local_code_file_name(0xab, "x/b.c", CodeLanguage::I), "ab_b.c.i");
    assert_eq!(local_code_file_name(5, "x/b.c", CodeLanguage::I), "5_b.c.i");
}

#[test]
fn file_name_without_source_name_is_unknown() {
    assert_eq!(local_code_file_name(0xab, "/", CodeLanguage::II), "ab_unknown.ii");
    assert_eq!(local_code_file_name(0xab, "a/..", CodeLanguage::II), "ab_unknown.ii");
}

#[test]
fn file_path_is_sharded_by_hash() {
    assert_eq!(
        local_code_file_path_for_hash("/data", 0x1234abcd5678ef90, "/p/src/a.cc", CodeLanguage::II),
        "/data/preprocessed/12/1234abcd_a.cc.ii"
    );
    assert_eq!(
        local_code_file_path_for_hash("/data/", 0xab, "a.c", CodeLanguage::I),
        "/data/preprocessed/ab/ab_a.c.i"
    );
}

#[test]
fn file_path_hashes_the_local_code() {
    let code = "int main() { return 0; }\n";
    let hash = twox_hash::XxHash64::oneshot(0, code.as_bytes());
    let mut hex = format!("{:x}", hash);
    hex.truncate(8);
    let expected = format!("/d/preprocessed/{}/{}_m.cc.ii", &hex[..2], hex);
    assert_eq!(
        local_code_file_path("/d", code, "/src/m.cc", CodeLanguage::II),
        Some(expected.clone())
    );
    // A different text gives a different file.
    assert_ne!(
        local_code_file_path("/d", "int main() { return 1; }\n", "/src/m.cc", CodeLanguage::II),
        Some(expected)
    );
}

#[test]
fn plan_for_object_build() {
    let args: Vec<String> = ["-c", "a.cc", "-o", "out/a.o", "-O2"].iter().map(|s| s.to_string()).collect();
    let plan = plan_preprocess("/p", &args).expect("builds one object");
    assert_eq!(plan.info.source_path, "/p/a.cc");
    assert_eq!(plan.info.object_path, "/p/out/a.o");
    assert_eq!(plan.info.source_language, CodeLanguage::Cxx);
    assert_eq!(plan.preprocessed_language, CodeLanguage::II);
    assert_eq!(plan.preprocessing_args, vec!["a.cc", "-O2", "-E", "-dD"]);
}

#[test]
fn plan_for_c_source() {
    let args: Vec<String> = ["-c", "/abs/x.c", "-o", "x.o"].iter().map(|s| s.to_string()).collect();
    let plan = plan_preprocess("/p", &args).unwrap();
    assert_eq!(plan.info.source_path, "/abs/x.c");
    assert_eq!(plan.preprocessed_language, CodeLanguage::I);
}

#[test]
fn plan_errors() {
    let args: Vec<String> = ["-c", "a.i", "-o", "a.o"].iter().map(|s| s.to_string()).collect();
    assert!(matches!(plan_preprocess("/p", &args), Err(Error::CannotPreprocess(CodeLanguage::I))));
    let args: Vec<String> = ["-c", "a.cc"].iter().map(|s| s.to_string()).collect();
    assert!(matches!(plan_preprocess("/p", &args), Err(Error::NoSingleOutput)));
    let args: Vec<String> = ["-c", "a.cc", "-o", "a.so"].iter().map(|s| s.to_string()).collect();
    assert!(matches!(plan_preprocess("/p", &args), Err(Error::OutputNotObject)));
    let args: Vec<String> = ["-c", "a.cc", "b.cc", "-o", "a.o"].iter().map(|s| s.to_string()).collect();
    assert!(matches!(plan_preprocess("/p", &args), Err(Error::NotExactlyOneSource)));
}

#[test]
fn sharded_paths() {
    assert_eq!(
        sharded_path("/data", "objects", "0f3c-1.o"),
        "/data/objects/0f/0f3c-1.o"
    );
    // The local code file is kept the same way, under its name.
    let name = local_code_file_name(0x1234abcd5678ef90, "/p/a.cc", CodeLanguage::II);
    assert_eq!(
        sharded_path("/data", "preprocessed", &name),
        local_code_file_path_for_hash("/data", 0x1234abcd5678ef90, "/p/a.cc", CodeLanguage::II)
    );
}
