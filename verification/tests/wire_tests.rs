use ccelerate::command_output::{CommandOutput, RunResult};
use ccelerate::error::Error;
use ccelerate::wire::{RunRequestData, RunRequestDataWire, RunResponseData, RunResponseDataWire};
use ccelerate::wrapped_binary::WrappedBinary;

#[test]
fn request_round_trip() {
    let request = RunRequestData {
        binary: WrappedBinary::Gxx,
        args: vec![b"-c".to_vec(), vec![0xff, 0x00, 0x41]],
        cwd: b"/w".to_vec(),
    };
    let wire = request.clone().to_wire();
    assert_eq!(wire.args, vec!["LWM=".to_string(), "/wBB".to_string()]);
    assert_eq!(wire.cwd, "L3c=");
    let back = RunRequestData::from_wire(&wire).unwrap();
    assert_eq!(back.args, request.args);
    assert_eq!(back.cwd, request.cwd);
    assert!(matches!(back.binary, WrappedBinary::Gxx));
}

#[test]
fn request_with_bad_base64() {
    let wire = RunRequestDataWire {
        binary: WrappedBinary::Gcc,
        args: vec!["not base64!".to_string()],
        cwd: "L3c=".to_string(),
    };
    assert!(matches!(
        RunRequestData::from_wire(&wire),
        Err(Error::InvalidBase64(m)) if m == "Invalid symbol 32, offset 3."
    ));
}

#[test]
fn response_round_trip() {
    let response = RunResponseData { stdout: b"hi".to_vec(), stderr: vec![], status: 3 };
    let wire = response.to_wire();
    assert_eq!(wire.stdout, "aGk=");
    assert_eq!(wire.stderr, "");
    assert_eq!(wire.status, 3);
    let back = RunResponseData::from_wire(wire).unwrap();
    assert_eq!(back.stdout, b"hi".to_vec());
    assert_eq!(back.status, 3);
    let bad = RunResponseDataWire { stdout: "a".to_string(), stderr: String::new(), status: 0 };
    assert!(matches!(
        RunResponseData::from_wire(bad),
        Err(Error::InvalidBase64(m)) if m == "Invalid input length: 1"
    ));
}

#[test]
fn binaries_by_name() {
    for b in [WrappedBinary::Gcc, WrappedBinary::Gxx, WrappedBinary::Clang, WrappedBinary::Clangxx, WrappedBinary::Ar] {
        let name = b.to_standard_binary_name();
        assert!(matches!(WrappedBinary::from_standard_binary_name(&name), Some(x) if x == b));
    }
    assert_eq!(WrappedBinary::Clangxx.to_standard_binary_name(), "clang++");
    assert!(WrappedBinary::from_standard_binary_name("cc").is_none());
    assert!(WrappedBinary::Clang.is_gcc_compatible() && !WrappedBinary::Clang.is_ar_compatible());
    assert!(WrappedBinary::Ar.is_ar_compatible() && !WrappedBinary::Ar.is_gcc_compatible());
}

#[test]
fn command_outputs() {
    let ok = CommandOutput::new_ok();
    assert!(ok.stdout.is_empty() && ok.stderr.is_empty() && ok.status == 0);
    let out = CommandOutput::from_result(Ok(CommandOutput { stdout: b"x".to_vec(), stderr: vec![], status: 2 }));
    assert_eq!(out.stdout, b"x".to_vec());
    assert_eq!(out.status, 2);
    let err = CommandOutput::from_result(Err(Error::NoSingleOutput));
    assert_eq!(err.stderr, b"There has to be one output".to_vec());
    assert_eq!(err.status, 1);
    assert!(err.stdout.is_empty());
    let r = RunResult::new_success();
    assert_eq!(r.exit_code, 0);
    let r = RunResult::new_error(Error::UnknownFlag("-zz".to_string()));
    assert_eq!(r.stderr, b"Unknown GCC flag: -zz".to_vec());
    assert_eq!(r.exit_code, 1);
    let r = RunResult::new_error_str("boom");
    assert_eq!(r.stderr, b"boom".to_vec());
    assert_eq!(r.exit_code, 1);
}

#[test]
fn error_messages() {
    assert_eq!(Error::MissingArgument("-o".to_string()).message(), "Missing path for -o flag");
    assert_eq!(Error::MissingArgument("-x".to_string()).message(), "Missing name");
    assert_eq!(Error::MissingArgument("-MT".to_string()).message(), "Missing name");
    assert_eq!(Error::MissingArgument("-MF".to_string()).message(), "Missing path for -MF flag");
    assert_eq!(Error::MissingArgument("-isystem".to_string()).message(), "Missing path after -isystem");
    assert_eq!(Error::MissingArgument("-Xlinker".to_string()).message(), "Missing argument for -Xlinker flag: -Xlinker");
    assert_eq!(Error::ArgumentAfterMissing("-o".to_string()).message(), "argument after \"-o\" is missing");
    assert_eq!(Error::CannotPreprocess(ccelerate::code_language::CodeLanguage::I).message(), "Cannot preprocess language I");
    assert_eq!(Error::UnknownArFlag('z').message(), "Unknown ar flag: z");
    assert_eq!(Error::UnknownExtension("h".to_string()).message(), "Unknown language extension: h");
    assert_eq!(Error::UnknownLanguageName("f".to_string()).message(), "Unknown language f");
    assert_eq!(
        Error::BuildArgsUnsupported(WrappedBinary::Ar).message(),
        "Cannot extract build object args for binary: Ar"
    );
    assert_eq!(Error::RewriteUnsupported(WrappedBinary::Ar).message(), "Cannot rewrite args for binary: Ar");
    assert_eq!(
        Error::CompatibilityArgsUnsupported(WrappedBinary::Ar).message(),
        "Cannot add object compatibility args for binary: Ar"
    );
}

#[test]
fn response_outside_the_alphabet_is_refused() {
    let bad = RunResponseDataWire { stdout: "!!".to_string(), stderr: String::new(), status: 0 };
    assert!(matches!(
        RunResponseData::from_wire(bad),
        Err(Error::InvalidBase64(m)) if m == "Invalid symbol 33, offset 0."
    ));
    let bad = RunResponseDataWire { stdout: "aGk=".to_string(), stderr: "a\u{e9}==".to_string(), status: 0 };
    let err = RunResponseData::from_wire(bad).unwrap_err();
    assert_eq!(err.message(), "Invalid symbol 195, offset 1.");
}
