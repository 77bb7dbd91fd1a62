use ccelerate::error::Error;
use ccelerate::link_objects::{
    chunk_step, group_compatible_objects, ChunkStep, link_source_kind, CompileObjectRecord, CreateArchiveRecord,
    LinkSourceKind, LinkSourceLookup, ObjectData, ObjectLocalCodeRecord, OriginalLinkSources,
};
use ccelerate::source_file::SourceFile;
use ccelerate::wrapped_binary::WrappedBinary;

fn strings(v: &[&str]) -> Vec<String> {
    v.iter().map(|s| s.to_string()).collect()
}

fn object(path: &str, binary: WrappedBinary, args: &[&str], defines: &[&str]) -> ObjectData {
    ObjectData {
        path: path.to_string(),
        create: CompileObjectRecord { binary, cwd: "/w".to_string(), args: strings(args) },
        local_code: ObjectLocalCodeRecord {
            local_code_file: format!("{path}.ii"),
            global_includes: vec![],
            include_defines: strings(defines),
            bad_includes: vec![],
        },
    }
}

fn source(path: &str) -> SourceFile {
    SourceFile { path: path.to_string(), language_override: None }
}

#[test]
fn objects_are_grouped_by_compatibility() {
    let objects = vec![
        object("/w/a.o", WrappedBinary::Gxx, &["-c", "a.cc", "-o", "a.o", "-O2"], &[]),
        object("/w/c.o", WrappedBinary::Gxx, &["-c", "c.cc", "-o", "c.o", "-O0"], &[]),
        object("/w/b.o", WrappedBinary::Gxx, &["-O2", "-c", "b.cc", "-o", "b.o"], &[]),
        object("/w/d.o", WrappedBinary::Gxx, &["-c", "d.cc", "-o", "d.o", "-O2"], &["#define X"]),
        object("/w/e.o", WrappedBinary::Gxx, &["-c", "e.cc", "-o", "e.o", "-O2"], &[]),
    ];
    let groups = group_compatible_objects(&objects).unwrap();
    let paths: Vec<Vec<String>> = groups
        .iter()
        .map(|g| g.objects.iter().map(|o| o.path.clone()).collect())
        .collect();
    assert_eq!(
        paths,
        vec![
            strings(&["/w/a.o", "/w/e.o"]),
            strings(&["/w/c.o"]),
            strings(&["/w/b.o"]),
            strings(&["/w/d.o"]),
        ]
    );
}

#[test]
fn grouping_fails_for_objects_without_key() {
    let objects = vec![
        object("/w/a.o", WrappedBinary::Gcc, &["-c", "a.c", "-o", "a.o"], &[]),
        object("/w/b.o", WrappedBinary::Gcc, &["-c", "b.c"], &[]),
    ];
    assert!(matches!(group_compatible_objects(&objects), Err(Error::NoSingleOutput)));
    let objects = vec![object("/w/a.o", WrappedBinary::Ar, &["qc", "a.o"], &[])];
    assert!(matches!(group_compatible_objects(&objects), Err(Error::BuildArgsUnsupported(WrappedBinary::Ar))));
}

#[test]
fn link_source_kinds() {
    assert_eq!(link_source_kind("/l/libz.a"), LinkSourceKind::StaticLibrary);
    assert_eq!(link_source_kind("x.o"), LinkSourceKind::ObjectFile);
    assert_eq!(link_source_kind("/l/libz.so"), LinkSourceKind::Other);
    assert_eq!(link_source_kind("/l/a"), LinkSourceKind::Other);
}

#[test]
fn link_sources_are_searched_depth_first() {
    let mut search = OriginalLinkSources::new(&[source("/w/x.so"), source("/w/lib.a"), source("/w/a.o")]);
    let lib = match search.next_lookup() {
        LinkSourceLookup::StaticLibrary(p) => p,
        other => panic!("unexpected {other:?}"),
    };
    assert_eq!(lib, "/w/lib.a");
    let record = CreateArchiveRecord {
        cwd: "/w".to_string(),
        binary: WrappedBinary::Ar,
        args: strings(&["qc", "lib.a", "m1.o", "m2.o"]),
    };
    search.archive_found(&lib, Some(&record)).unwrap();
    match search.next_lookup() {
        LinkSourceLookup::ObjectFile(p) => {
            assert_eq!(p, "/w/m1.o");
            search
                .object_found(&p, Some(object("/w/m1.o", WrappedBinary::Gcc, &["-c", "m1.c", "-o", "m1.o"], &[])))
                .unwrap();
        }
        other => panic!("unexpected {other:?}"),
    }
    match search.next_lookup() {
        LinkSourceLookup::ObjectFile(p) => {
            assert_eq!(p, "/w/m2.o");
            search.object_found(&p, None).unwrap();
        }
        other => panic!("unexpected {other:?}"),
    }
    match search.next_lookup() {
        LinkSourceLookup::ObjectFile(p) => {
            assert_eq!(p, "/w/a.o");
            let bad = object("/w/a.o", WrappedBinary::Ar, &["qc", "a.o"], &[]);
            assert!(matches!(search.object_found(&p, Some(bad)), Err(Error::ObjectNotFromGcc(q)) if q == "/w/a.o"));
        }
        other => panic!("unexpected {other:?}"),
    }
    assert!(matches!(search.next_lookup(), LinkSourceLookup::Done));
    assert_eq!(search.unknown_sources, strings(&["/w/x.so", "/w/m2.o"]));
    let known: Vec<String> = search.known_object_files.iter().map(|o| o.path.clone()).collect();
    assert_eq!(known, strings(&["/w/m1.o"]));
}

#[test]
fn link_sources_are_looked_up_once() {
    let mut search = OriginalLinkSources::new(&[source("/w/a.o"), source("/w/lib.a"), source("/w/a.o")]);
    assert!(matches!(search.next_lookup(), LinkSourceLookup::ObjectFile(p) if p == "/w/a.o"));
    search.object_found("/w/a.o", None).unwrap();
    assert!(matches!(search.next_lookup(), LinkSourceLookup::StaticLibrary(p) if p == "/w/lib.a"));
    search.archive_found("/w/lib.a", None).unwrap();
    assert!(matches!(search.next_lookup(), LinkSourceLookup::Done));
    assert_eq!(search.unknown_sources, strings(&["/w/a.o", "/w/lib.a"]));
}

#[test]
fn archives_not_created_by_ar_are_refused() {
    let mut search = OriginalLinkSources::new(&[source("/w/lib.a")]);
    assert!(matches!(search.next_lookup(), LinkSourceLookup::StaticLibrary(_)));
    let record = CreateArchiveRecord { cwd: "/w".to_string(), binary: WrappedBinary::Gcc, args: vec![] };
    assert!(matches!(search.archive_found("/w/lib.a", Some(&record)), Err(Error::ArchiveNotFromAr(p)) if p == "/w/lib.a"));
    let record = CreateArchiveRecord { cwd: "/w".to_string(), binary: WrappedBinary::Ar, args: strings(&["t", "lib.a"]) };
    assert!(matches!(search.archive_found("/w/lib.a", Some(&record)), Err(Error::NoCreateFlag)));
}

#[test]
fn chunks_are_split_in_halves() {
    assert_eq!(chunk_step(1, false), ChunkStep::Compile);
    assert_eq!(chunk_step(10, false), ChunkStep::Compile);
    assert_eq!(chunk_step(11, false), ChunkStep::Split(5));
    assert_eq!(chunk_step(1, true), ChunkStep::Fail);
    assert_eq!(chunk_step(7, true), ChunkStep::Split(3));
}
