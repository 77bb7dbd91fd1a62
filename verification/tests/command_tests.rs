use ccelerate::command::{Command, CommandArgs};
use ccelerate::error::Error;
use ccelerate::wrapped_binary::WrappedBinary;

fn strings(v: &[&str]) -> Vec<String> {
    v.iter().map(|s| s.to_string()).collect()
}

#[test]
fn commands_read_by_binary() {
    let c = Command::new(WrappedBinary::Gxx, "/w", &strings(&["-c", "a.cc", "-o", "a.o"])).unwrap();
    assert!(matches!(c.args, CommandArgs::Gcc(_)));
    assert_eq!(c.primary_output_path(), Some("/w/a.o".to_string()));
    let again = Command::new(WrappedBinary::Gxx, "/x", &c.to_args()).unwrap();
    assert_eq!(again.primary_output_path(), c.primary_output_path());

    let a = Command::new(WrappedBinary::Ar, "/w", &strings(&["qc", "lib.a", "x.o"])).unwrap();
    assert!(matches!(a.args, CommandArgs::Ar(_)));
    assert_eq!(a.primary_output_path(), Some("/w/lib.a".to_string()));
    assert_eq!(a.to_args(), strings(&["qc", "/w/lib.a", "/w/x.o"]));
    assert_eq!(a.cwd, "/w");
}

#[test]
fn command_errors() {
    assert!(matches!(Command::new(WrappedBinary::Ar, "/w", &[]), Err(Error::MissingFirstArgument)));
    assert!(matches!(
        Command::new(WrappedBinary::Gcc, "/w", &strings(&["--nonsense"])),
        Err(Error::UnknownFlag(f)) if f == "--nonsense"
    ));
}

#[test]
fn missing_flag_values_are_named() {
    match Command::new(WrappedBinary::Gcc, "/w", &strings(&["-c", "a.c", "-o"])) {
        Err(e) => assert_eq!(e.message(), "Missing path for -o flag"),
        Ok(_) => panic!("the value of -o is missing"),
    }
    match Command::new(WrappedBinary::Gcc, "/w", &strings(&["a.o", "-Xlinker"])) {
        Err(e) => assert_eq!(e.message(), "Missing argument for -Xlinker flag: -Xlinker"),
        Ok(_) => panic!("the value of -Xlinker is missing"),
    }
}
