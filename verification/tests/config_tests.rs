use std::collections::HashMap;

use ccelerate::config::{Config, ConfigFileData, GlobPattern};
use ccelerate::error::Error;
use ccelerate::task_rows::get_task_row_index;

fn file(eager: &[&str], local: &[&str], defines: &[&str], pure_c: &[&str], bad: &[&str]) -> ConfigFileData {
    let s = |v: &[&str]| v.iter().map(|x| x.to_string()).collect::<Vec<_>>();
    ConfigFileData {
        eager_patterns: s(eager),
        local_header_patterns: s(local),
        include_defines: s(defines),
        pure_c_header_patterns: s(pure_c),
        bad_global_symbols_patterns: s(bad),
    }
}

#[test]
fn patterns_match_paths() {
    assert!(GlobPattern::new("/src/**/*.h").is_ok());
    let config = Config::new_from_files(&[file(&["/src/**/*.h"], &[], &[], &[], &[])]).unwrap();
    assert!(config.is_eager_path("/src/a/b/c.h"));
    assert!(!config.is_eager_path("/src/a/b/c.cc"));
    assert!(matches!(GlobPattern::new("a**b"), Err(Error::InvalidPattern(t)) if t == "Pattern syntax error near position 0: recursive wildcards must form a single path component"));
}

#[test]
fn configuration_from_files() {
    let config = Config::new_from_files(&[
        file(&["/gen/*"], &["/p/*"], &["D1"], &["*.c.h"], &[]),
        file(&[], &[], &["D2"], &[], &["/bad/*"]),
    ])
    .unwrap();
    assert!(config.is_eager_path("/gen/x.cc"));
    assert!(!config.is_eager_path("/src/x.cc"));
    assert!(config.is_local_header("/p/a.h"));
    assert!(config.is_pure_c_header("/q/a.c.h"));
    assert!(config.has_bad_global_symbol("/bad/x.o"));
    assert!(config.is_include_define("D1") && config.is_include_define("D2"));
    assert!(!config.is_include_define("D3"));
}

#[test]
fn configuration_with_invalid_pattern() {
    let res = Config::new_from_files(&[file(&["ok"], &["a**b"], &[], &[], &[])]);
    match res {
        Err(e) => assert_eq!(
            e.message(),
            "Pattern syntax error near position 0: recursive wildcards must form a single path component"
        ),
        Ok(_) => panic!("the pattern is invalid"),
    }
    let empty = Config::new();
    assert!(!empty.is_eager_path("/x"));
}

#[test]
fn task_rows_are_reused_once_free() {
    let mut ends: HashMap<usize, u64> = HashMap::new();
    assert_eq!(get_task_row_index(0, 10, &mut ends), 0);
    assert_eq!(get_task_row_index(5, 8, &mut ends), 1);
    assert_eq!(get_task_row_index(6, 7, &mut ends), 2);
    assert_eq!(get_task_row_index(10, 12, &mut ends), 0);
    assert_eq!(get_task_row_index(9, 20, &mut ends), 1);
    assert_eq!(ends.get(&0), Some(&12));
    assert_eq!(ends.get(&1), Some(&20));
    assert_eq!(ends.get(&2), Some(&7));
}
