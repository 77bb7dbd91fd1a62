use ccelerate::config_lookup::{ancestors, candidate_config_files, config_file_in, ConfigSearchState};

fn strings(v: &[&str]) -> Vec<String> {
    v.iter().map(|s| s.to_string()).collect()
}

#[test]
fn ancestors_nearest_first() {
    assert_eq!(ancestors("/a/b/c"), strings(&["/a/b/c", "/a/b", "/a", "/"]));
    assert_eq!(ancestors("a/b"), strings(&["a/b", "a", ""]));
    assert_eq!(ancestors("/"), strings(&["/"]));
}

#[test]
fn config_file_of_directory() {
    assert_eq!(config_file_in("/a"), "/a/ccelerate.toml");
    assert_eq!(config_file_in("/"), "/ccelerate.toml");
}

#[test]
fn candidates_cover_all_ancestors() {
    assert_eq!(
        candidate_config_files(&strings(&["/a/b", "/c"])),
        strings(&[
            "/a/b/ccelerate.toml",
            "/a/ccelerate.toml",
            "/ccelerate.toml",
            "/c/ccelerate.toml",
            "/ccelerate.toml",
        ])
    );
}

#[test]
fn lookup_finds_files_from_the_root_down() {
    let mut state = ConfigSearchState::new();
    let present = strings(&["/a/ccelerate.toml", "/a/b/ccelerate.toml"]);
    let files = state.lookup(&strings(&["/a/b/c.cc"]), &present);
    assert_eq!(files, Some(strings(&["/a/ccelerate.toml", "/a/b/ccelerate.toml"])));
    assert_eq!(state.dirs_without_config, strings(&["/", "/a/b/c.cc"]));
    assert!(state.config_files.is_empty());
    state.use_config_files(files.unwrap());
    assert_eq!(state.config_files, strings(&["/a/ccelerate.toml", "/a/b/ccelerate.toml"]));
}

#[test]
fn lookup_puts_new_files_before_those_in_use() {
    let mut state = ConfigSearchState::new();
    state.use_config_files(strings(&["/old/ccelerate.toml"]));
    let files = state.lookup(&strings(&["/a/x.c"]), &strings(&["/a/ccelerate.toml"]));
    assert_eq!(files, Some(strings(&["/a/ccelerate.toml", "/old/ccelerate.toml"])));
}

#[test]
fn lookup_remembers_directories_without_configuration() {
    let mut state = ConfigSearchState::new();
    assert_eq!(state.lookup(&strings(&["/x/y"]), &vec![]), None);
    assert_eq!(state.dirs_without_config, strings(&["/", "/x", "/x/y"]));
    // All its directories are known to lack a file now: the path is not looked at
    // again, even where a file has appeared since.
    assert_eq!(state.lookup(&strings(&["/x/y"]), &strings(&["/x/ccelerate.toml"])), None);
    assert_eq!(state.dirs_without_config, strings(&["/", "/x", "/x/y"]));
    // A sibling path is looked at, and no directory is recorded twice.
    assert_eq!(state.lookup(&strings(&["/x/z"]), &vec![]), None);
    assert_eq!(state.dirs_without_config, strings(&["/", "/x", "/x/y", "/x/z"]));
}
