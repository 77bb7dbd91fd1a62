use ccelerate::config::{Config, ConfigFileData};
use ccelerate::routing::{
    config_paths, gcc_args_have_marker, gcc_args_or_cwd_have_marker, gcc_route,
    is_gcc_cmakescratch, is_gcc_compiler_id_check, GccRoute,
};

fn strings(v: &[&str]) -> Vec<String> {
    v.iter().map(|s| s.to_string()).collect()
}

fn eager_config(pattern: &str) -> Config {
    let file = ConfigFileData {
        eager_patterns: vec![pattern.to_string()],
        ..ConfigFileData::default()
    };
    Config::new_from_files(&[file]).unwrap()
}

#[test]
fn markers_in_args_or_cwd() {
    let args = strings(&["-c", "CMakeFiles/CMakeScratch/x.c"]);
    assert!(gcc_args_have_marker(&args, "CMakeScratch"));
    assert!(!gcc_args_have_marker(&args, "CompilerIdC"));
    assert!(gcc_args_or_cwd_have_marker(&strings(&["-c"]), "/b/CompilerIdC", "CompilerIdC"));
    assert!(!gcc_args_or_cwd_have_marker(&strings(&["-c"]), "/b", "CompilerIdC"));
    assert!(is_gcc_cmakescratch(&args, "/b"));
    assert!(is_gcc_compiler_id_check(&strings(&["CMakeCCompilerId.c"]), "/b/CompilerIdC"));
    assert!(!is_gcc_compiler_id_check(&args, "/b"));
}

#[test]
fn config_paths_are_cwd_then_sources() {
    let args = strings(&["-c", "a.cc", "/abs/b.cc", "-o", "x"]);
    assert_eq!(config_paths("/w", &args), strings(&["/w", "/w/a.cc", "/abs/b.cc"]));
    // Arguments that cannot be read name no sources.
    assert_eq!(config_paths("/w", &strings(&["-o"])), strings(&["/w"]));
}

#[test]
fn route_object_build() {
    let args = strings(&["-c", "a.cc", "-o", "a.o"]);
    assert_eq!(gcc_route("/w", &args, &Config::new()).unwrap(), GccRoute::CompileObjectFile);
}

#[test]
fn route_final_link() {
    let args = strings(&["a.o", "b.o", "-o", "app"]);
    assert_eq!(gcc_route("/w", &args, &Config::new()).unwrap(), GccRoute::FinalLink);
}

#[test]
fn route_eager_cases() {
    // No output.
    assert_eq!(
        gcc_route("/w", &strings(&["-c", "a.cc"]), &Config::new()).unwrap(),
        GccRoute::Eager
    );
    // CMake trial build.
    assert_eq!(
        gcc_route("/w/CMakeScratch/1", &strings(&["-c", "a.cc", "-o", "a.o"]), &Config::new())
            .unwrap(),
        GccRoute::Eager
    );
    // CMake compiler check.
    assert_eq!(
        gcc_route("/w", &strings(&["CompilerIdC.c", "-o", "a.out"]), &Config::new()).unwrap(),
        GccRoute::Eager
    );
    // A source that the configuration marks as eager.
    assert_eq!(
        gcc_route("/w", &strings(&["-c", "gen/a.cc", "-o", "a.o"]), &eager_config("/w/gen/*"))
            .unwrap(),
        GccRoute::Eager
    );
    assert_eq!(
        gcc_route("/w", &strings(&["-c", "src/a.cc", "-o", "a.o"]), &eager_config("/w/gen/*"))
            .unwrap(),
        GccRoute::CompileObjectFile
    );
    // Arguments that cannot be read: no known output, so run at once.
    assert_eq!(gcc_route("/w", &strings(&["-o"]), &Config::new()).unwrap(), GccRoute::Eager);
}

#[test]
fn route_unknown_language_runs_eagerly() {
    let res = gcc_route("/w", &strings(&["-x", "nonsense", "a", "-o", "b"]), &Config::new());
    assert_eq!(res.unwrap(), GccRoute::Eager);
}
