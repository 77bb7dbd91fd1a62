use ccelerate::ar_args::{make_args_to_build_thin_static_archive, BuildStaticArchiveInfo};
use ccelerate::error::Error;
use ccelerate::parse_ar::ArArgs;

fn strings(v: &[&str]) -> Vec<String> {
    v.iter().map(|s| s.to_string()).collect()
}

#[test]
fn static_archive_info() {
    let info = BuildStaticArchiveInfo::from_args(
        "/w",
        &strings(&["-X32_64", "qc", "--thin", "lib/libz.a", "a.o", "/abs/b.o"]),
    )
    .unwrap();
    assert_eq!(info.archive_path, "/w/lib/libz.a");
    assert_eq!(info.archive_name, "libz.a");
    assert_eq!(info.member_paths, strings(&["/w/a.o", "/abs/b.o"]));
}

#[test]
fn static_archive_errors() {
    assert!(matches!(BuildStaticArchiveInfo::from_args("/w", &[]), Err(Error::MissingOperation)));
    assert!(matches!(BuildStaticArchiveInfo::from_args("/w", &strings(&["qc"])), Err(Error::MissingArchive)));
    assert!(matches!(
        BuildStaticArchiveInfo::from_args("/w", &strings(&["t", "lib.a"])),
        Err(Error::NoCreateFlag)
    ));
    assert!(matches!(
        BuildStaticArchiveInfo::from_args("/w", &strings(&["qc", "/"])),
        Err(Error::NoArchiveName)
    ));
}

#[test]
fn thin_archive_args() {
    assert_eq!(
        make_args_to_build_thin_static_archive("/d/x.a", &strings(&["/o/1.o", "/o/2.o"])),
        strings(&["qc", "--thin", "/d/x.a", "/o/1.o", "/o/2.o"])
    );
}

#[test]
fn ar_args_parse_and_print() {
    let args = ArArgs::parse("/w", &strings(&["csT", "out.a", "a.o"])).unwrap();
    assert!(args.flag_c && args.flag_s && args.flag_T && !args.flag_q);
    assert_eq!(args.output, Some("/w/out.a".to_string()));
    assert_eq!(args.sources, strings(&["/w/a.o"]));
    let again = ArArgs::parse("/elsewhere", &args.to_args()).unwrap();
    assert_eq!(again, args);
    assert!(matches!(ArArgs::parse("/w", &[]), Err(Error::MissingFirstArgument)));
    assert!(matches!(ArArgs::parse("/w", &strings(&["qz", "a"])), Err(Error::UnknownArFlag('z'))));
}

#[test]
fn thin_archive_args_read_back() {
    let members = strings(&["/o/1.o", "/o/2.o"]);
    let args = make_args_to_build_thin_static_archive("/d/x.a", &members);
    let info = BuildStaticArchiveInfo::from_args("/elsewhere", &args).unwrap();
    assert_eq!(info.archive_path, "/d/x.a");
    assert_eq!(info.archive_name, "x.a");
    assert_eq!(info.member_paths, members);
}
