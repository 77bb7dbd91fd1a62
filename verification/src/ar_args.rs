//! What an `ar` command that creates an archive builds, and the command that builds a thin
//! archive.

use vstd::prelude::*;
use crate::error::{Error, ErrorView};
use crate::path_utils::{file_name, is_absolute, make_absolute, spec_file_name, spec_make_absolute};
use crate::text::{chars_eq, chars_of, push_string, starts_with, string_of, is_prefix_of};

verus! {

/// The operation, the archive and the members of an `ar` command, as far as read.
pub struct ArPartsView {
    pub operation: Option<Seq<char>>,
    pub archive: Option<Seq<char>>,
    pub members: Seq<Seq<char>>,
}

/// What one more argument adds: `-X32_64` nothing; else the first argument is the
/// operation; after it, options (`--...`) add nothing, the next argument is the archive
/// and the others are members.
pub open spec fn ar_parts_step(st: ArPartsView, a: Seq<char>) -> ArPartsView {
    if a == seq!['-', 'X', '3', '2', '_', '6', '4'] {
        st
    } else if st.operation is None {
        ArPartsView { operation: Some(a), ..st }
    } else if is_prefix_of(seq!['-', '-'], a) {
        st
    } else if st.archive is None {
        ArPartsView { archive: Some(a), ..st }
    } else {
        ArPartsView { members: st.members.push(a), ..st }
    }
}

/// The parts of the arguments, read in order.
pub open spec fn ar_parts(args: Seq<Seq<char>>) -> ArPartsView
    decreases args.len(),
{
    if args.len() == 0 {
        ArPartsView { operation: None, archive: None, members: Seq::empty() }
    } else {
        ar_parts_step(ar_parts(args.drop_last()), args.last())
    }
}

/// An archive that an `ar` command creates: its path, its file name and the paths of its
/// members.
#[derive(Debug)]
pub struct BuildStaticArchiveInfo {
    pub archive_path: String,
    pub archive_name: String,
    pub member_paths: Vec<String>,
}

/// What the `ar` command with arguments `args`, run in `cwd`, creates: it has an
/// operation that holds `c`, and an archive with a file name; paths are taken relative to
/// `cwd`.
pub open spec fn spec_static_archive(cwd: Seq<char>, args: Seq<Seq<char>>) -> Result<
    (Seq<char>, Seq<char>, Seq<Seq<char>>),
    ErrorView,
> {
    let parts = ar_parts(args);
    match parts.operation {
        None => Err(ErrorView::MissingOperation),
        Some(op) => match parts.archive {
            None => Err(ErrorView::MissingArchive),
            Some(archive) => if !op.contains('c') {
                Err(ErrorView::NoCreateFlag)
            } else {
                let path = spec_make_absolute(cwd, archive);
                match spec_file_name(path) {
                    None => Err(ErrorView::NoArchiveName),
                    Some(name) => Ok(
                        (
                            path,
                            name,
                            parts.members.map_values(|m: Seq<char>| spec_make_absolute(cwd, m)),
                        ),
                    ),
                }
            },
        },
    }
}

struct ArParts {
    operation: Option<String>,
    archive: Option<String>,
    members: Vec<String>,
}

fn parse_ar_args(args: &[String]) -> (res: ArParts)
    ensures
        res.operation.deep_view() == ar_parts(args.deep_view()).operation,
        res.archive.deep_view() == ar_parts(args.deep_view()).archive,
        res.members.deep_view() == ar_parts(args.deep_view()).members,
{
    let mut operation: Option<String> = None;
    let mut archive: Option<String> = None;
    let mut members: Vec<String> = Vec::new();
    let mut i: usize = 0;
    proof {
        assert(args.deep_view().take(0) =~= Seq::<Seq<char>>::empty());
        assert(members.deep_view() =~= Seq::<Seq<char>>::empty());
    }
    while i < args.len()
        invariant
            i <= args@.len(),
            operation.deep_view() == ar_parts(args.deep_view().take(i as int)).operation,
            archive.deep_view() == ar_parts(args.deep_view().take(i as int)).archive,
            members.deep_view() == ar_parts(args.deep_view().take(i as int)).members,
        decreases args@.len() - i,
    {
        proof {
            assert(args.deep_view().take(i + 1).drop_last() =~= args.deep_view().take(i as int));
            assert(args.deep_view().take(i + 1).last() == args@[i as int]@);
        }
        let a = chars_of(args[i].as_str());
        let x = ['-', 'X', '3', '2', '_', '6', '4'];
        let dd = ['-', '-'];
        proof {
            assert(x@ =~= seq!['-', 'X', '3', '2', '_', '6', '4']);
            assert(dd@ =~= seq!['-', '-']);
        }
        if chars_eq(a.as_slice(), &x) {
        } else if operation.is_none() {
            operation = Some(args[i].clone());
        } else if starts_with(a.as_slice(), &dd) {
        } else if archive.is_none() {
            archive = Some(args[i].clone());
        } else {
            push_string(&mut members, args[i].clone());
        }
        i = i + 1;
    }
    proof {
        assert(args.deep_view().take(args@.len() as int) =~= args.deep_view());
    }
    ArParts { operation, archive, members }
}

fn contains_char(s: &[char], c: char) -> (res: bool)
    ensures
        res == s@.contains(c),
{
    let mut i: usize = 0;
    while i < s.len()
        invariant
            i <= s@.len(),
            forall|j: int| 0 <= j < i ==> s@[j] != c,
        decreases s@.len() - i,
    {
        if s[i] == c {
            return true;
        }
        i = i + 1;
    }
    false
}

impl BuildStaticArchiveInfo {
    /// What an `ar` command run in `cwd` creates.
    pub fn from_args(cwd: &str, args: &[String]) -> (res: Result<BuildStaticArchiveInfo, Error>)
        ensures
            match res {
                Ok(i) => spec_static_archive(cwd@, args.deep_view()) == Ok::<
                    (Seq<char>, Seq<char>, Seq<Seq<char>>),
                    ErrorView,
                >((i.archive_path@, i.archive_name@, i.member_paths.deep_view())),
                Err(e) => spec_static_archive(cwd@, args.deep_view()) == Err::<
                    (Seq<char>, Seq<char>, Seq<Seq<char>>),
                    ErrorView,
                >(e@),
            },
    {
        let parts = parse_ar_args(args);
        let operation = match parts.operation {
            Some(o) => o,
            None => {
                return Err(Error::MissingOperation);
            },
        };
        let archive = match parts.archive {
            Some(a) => a,
            None => {
                return Err(Error::MissingArchive);
            },
        };
        let op = chars_of(operation.as_str());
        if !contains_char(op.as_slice(), 'c') {
            return Err(Error::NoCreateFlag);
        }
        let archive_path = make_absolute(cwd, archive.as_str());
        let path_chars = chars_of(archive_path.as_str());
        let archive_name = match file_name(path_chars.as_slice()) {
            Some(n) => string_of(n.as_slice()),
            None => {
                return Err(Error::NoArchiveName);
            },
        };
        let mut member_paths: Vec<String> = Vec::new();
        let mut i: usize = 0;
        while i < parts.members.len()
            invariant
                i <= parts.members@.len(),
                member_paths.deep_view() == parts.members.deep_view().take(i as int).map_values(
                    |m: Seq<char>| spec_make_absolute(cwd@, m),
                ),
            decreases parts.members@.len() - i,
        {
            push_string(&mut member_paths, make_absolute(cwd, parts.members[i].as_str()));
            proof {
                assert(parts.members.deep_view().take(i + 1) =~= parts.members.deep_view().take(
                    i as int,
                ).push(parts.members@[i as int]@));
                assert(parts.members.deep_view().take(i + 1).map_values(
                    |m: Seq<char>| spec_make_absolute(cwd@, m),
                ) =~= parts.members.deep_view().take(i as int).map_values(
                    |m: Seq<char>| spec_make_absolute(cwd@, m),
                ).push(spec_make_absolute(cwd@, parts.members@[i as int]@)));
            }
            i = i + 1;
        }
        proof {
            assert(parts.members.deep_view().take(parts.members@.len() as int)
                =~= parts.members.deep_view());
        }
        Ok(BuildStaticArchiveInfo { archive_path, archive_name, member_paths })
    }
}

/// The arguments of `ar` that build a thin archive at `archive_path` of the members
/// `member_paths`.
pub open spec fn spec_thin_archive_args(archive_path: Seq<char>, member_paths: Seq<Seq<char>>) -> Seq<
    Seq<char>,
> {
    seq![seq!['q', 'c'], seq!['-', '-', 't', 'h', 'i', 'n'], archive_path] + member_paths
}

/// The arguments of `ar` that build a thin archive at `archive_path` of the members
/// `member_paths`.
pub fn make_args_to_build_thin_static_archive(archive_path: &str, member_paths: &[String]) -> (res:
    Vec<String>)
    ensures
        res.deep_view() == spec_thin_archive_args(archive_path@, member_paths.deep_view()),
{
    let mut args: Vec<String> = Vec::new();
    let qc = string_of(&['q', 'c']);
    let thin = string_of(&['-', '-', 't', 'h', 'i', 'n']);
    proof {
        assert(qc@ =~= seq!['q', 'c']);
        assert(thin@ =~= seq!['-', '-', 't', 'h', 'i', 'n']);
    }
    push_string(&mut args, qc);
    push_string(&mut args, thin);
    let ac = chars_of(archive_path);
    push_string(&mut args, string_of(ac.as_slice()));
    let ghost head = args.deep_view();
    let mut i: usize = 0;
    while i < member_paths.len()
        invariant
            i <= member_paths@.len(),
            args.deep_view() == head + member_paths.deep_view().take(i as int),
        decreases member_paths@.len() - i,
    {
        push_string(&mut args, member_paths[i].clone());
        proof {
            assert(member_paths.deep_view().take(i + 1) =~= member_paths.deep_view().take(
                i as int,
            ).push(member_paths@[i as int]@));
        }
        i = i + 1;
    }
    proof {
        assert(member_paths.deep_view().take(member_paths@.len() as int)
            =~= member_paths.deep_view());
        assert(args.deep_view() =~= spec_thin_archive_args(archive_path@, member_paths.deep_view()));
    }
    args
}

/// Reading the parts of the thin-archive arguments with `k` of the members gives the
/// operation `qc`, the archive and those members.
proof fn lemma_thin_archive_parts(archive_path: Seq<char>, member_paths: Seq<Seq<char>>, k: int)
    requires
        is_absolute(archive_path),
        forall|i: int| 0 <= i < member_paths.len() ==> is_absolute(#[trigger] member_paths[i]),
        0 <= k <= member_paths.len(),
    ensures
        ar_parts(spec_thin_archive_args(archive_path, member_paths).take(3 + k)) == (ArPartsView {
            operation: Some(seq!['q', 'c']),
            archive: Some(archive_path),
            members: member_paths.take(k),
        }),
    decreases k,
{
    let args = spec_thin_archive_args(archive_path, member_paths);
    let x = seq!['-', 'X', '3', '2', '_', '6', '4'];
    if k == 0 {
        let a3 = args.take(3);
        let a2 = a3.drop_last();
        let a1 = a2.drop_last();
        let empty = ArPartsView { operation: None, archive: None, members: Seq::empty() };
        assert(a1.drop_last() =~= Seq::<Seq<char>>::empty());
        assert(ar_parts(a1.drop_last()) == empty);
        assert(a1.last() == seq!['q', 'c']);
        assert(seq!['q', 'c'] != x) by {
            assert(seq!['q', 'c'].len() != x.len());
        }
        let p1 = ArPartsView { operation: Some(seq!['q', 'c']), ..empty };
        assert(ar_parts(a1) == p1);
        assert(a2.last() == seq!['-', '-', 't', 'h', 'i', 'n']);
        assert(seq!['-', '-', 't', 'h', 'i', 'n'] != x) by {
            assert(seq!['-', '-', 't', 'h', 'i', 'n'].len() != x.len());
        }
        assert(is_prefix_of(seq!['-', '-'], seq!['-', '-', 't', 'h', 'i', 'n'])) by {
            assert(seq!['-', '-', 't', 'h', 'i', 'n'].take(2) =~= seq!['-', '-']);
        }
        assert(ar_parts(a2) == p1);
        assert(a3.last() == archive_path);
        assert(archive_path != x) by {
            assert(archive_path[0] == '/');
        }
        assert(!is_prefix_of(seq!['-', '-'], archive_path)) by {
            if archive_path.len() >= 2 {
                assert(archive_path.take(2)[0] == '/');
            }
        }
        assert(member_paths.take(0) =~= Seq::<Seq<char>>::empty());
    } else {
        lemma_thin_archive_parts(archive_path, member_paths, k - 1);
        let m = member_paths[k - 1];
        assert(args.take(3 + k).drop_last() =~= args.take(3 + k - 1));
        assert(args.take(3 + k).last() == m);
        assert(is_absolute(m));
        assert(m != x) by {
            assert(m[0] == '/');
        }
        assert(!is_prefix_of(seq!['-', '-'], m)) by {
            if m.len() >= 2 {
                assert(m.take(2)[0] == '/');
            }
        }
        assert(member_paths.take(k) =~= member_paths.take(k - 1).push(m));
    }
}

/// Reading back the arguments that build a thin archive gives the archive, its file name
/// and the members again, where the paths are absolute and the archive has a file name.
pub proof fn lemma_thin_archive_reads_back(
    cwd: Seq<char>,
    archive_path: Seq<char>,
    member_paths: Seq<Seq<char>>,
)
    requires
        is_absolute(archive_path),
        spec_file_name(archive_path) is Some,
        forall|i: int| 0 <= i < member_paths.len() ==> is_absolute(#[trigger] member_paths[i]),
    ensures
        spec_static_archive(cwd, spec_thin_archive_args(archive_path, member_paths)) == Ok::<
            (Seq<char>, Seq<char>, Seq<Seq<char>>),
            ErrorView,
        >((archive_path, spec_file_name(archive_path)->Some_0, member_paths)),
{
    let args = spec_thin_archive_args(archive_path, member_paths);
    lemma_thin_archive_parts(archive_path, member_paths, member_paths.len() as int);
    assert(args.take(3 + member_paths.len() as int) =~= args);
    assert(member_paths.take(member_paths.len() as int) =~= member_paths);
    assert(seq!['q', 'c'].contains('c')) by {
        assert(seq!['q', 'c'][1] == 'c');
    }
    assert(member_paths.map_values(|m: Seq<char>| spec_make_absolute(cwd, m)) =~= member_paths);
}

/// An `ar` command with an operation and an archive creates the archive exactly when the
/// operation holds the letter `c`, wherever in it: `cr`, `qc` and `rcs` all create one.
pub proof fn lemma_create_flag_anywhere(cwd: Seq<char>, args: Seq<Seq<char>>)
    requires
        ar_parts(args).operation is Some,
        ar_parts(args).archive is Some,
    ensures
        (spec_static_archive(cwd, args) == Err::<(Seq<char>, Seq<char>, Seq<Seq<char>>), ErrorView>(
            ErrorView::NoCreateFlag,
        )) <==> !(exists|i: int|
            0 <= i < ar_parts(args).operation->Some_0.len() && #[trigger] ar_parts(
                args,
            ).operation->Some_0[i] == 'c'),
{
    let op = ar_parts(args).operation->Some_0;
    if exists|i: int| 0 <= i < op.len() && #[trigger] op[i] == 'c' {
        let i = choose|i: int| 0 <= i < op.len() && #[trigger] op[i] == 'c';
        assert(op.contains('c'));
    }
}

} // verus!
