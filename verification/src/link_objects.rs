//! What a final link is made of: the object files whose builds were recorded here, found
//! through the static libraries that hold them, and the other link sources; and the
//! grouping of the recorded objects into sets that can be compiled together.

use vstd::prelude::*;
use crate::ar_args::{BuildStaticArchiveInfo, spec_static_archive};
use crate::args_processing::{BuildObjectFileInfo, add_object_compatibility_args_to_key};
use crate::args_processing::spec_build_object_info;
use crate::code_language::spec_valid_ext;
use crate::error::{Error, ErrorView};
use crate::gcc_args::{key_text, spec_tokenize};
use crate::path_utils::{extension, spec_extension};
use crate::source_file::{SourceFile, SourceFileView};
use crate::text::{chars_eq, chars_of, copy_string, copy_strings, holds_string, push_str};
use crate::wrapped_binary::{WrappedBinary, spec_is_gcc_compatible, spec_standard_binary_name};

verus! {

/// How an object file was built.
#[derive(Debug, Clone)]
pub struct CompileObjectRecord {
    pub binary: WrappedBinary,
    pub cwd: String,
    pub args: Vec<String>,
}

/// What was found in the source of an object file.
#[derive(Debug, Clone)]
pub struct ObjectLocalCodeRecord {
    pub local_code_file: String,
    pub global_includes: Vec<String>,
    pub include_defines: Vec<String>,
    pub bad_includes: Vec<String>,
}

/// An object file whose build was recorded.
#[derive(Debug, Clone)]
pub struct ObjectData {
    pub path: String,
    pub create: CompileObjectRecord,
    pub local_code: ObjectLocalCodeRecord,
}

/// How a static library was created.
#[derive(Debug, Clone)]
pub struct CreateArchiveRecord {
    pub cwd: String,
    pub binary: WrappedBinary,
    pub args: Vec<String>,
}

/// An [`ObjectData`] as a value of specifications.
pub struct ObjectDataView {
    pub path: Seq<char>,
    pub binary: WrappedBinary,
    pub cwd: Seq<char>,
    pub args: Seq<Seq<char>>,
    pub local_code_file: Seq<char>,
    pub global_includes: Seq<Seq<char>>,
    pub include_defines: Seq<Seq<char>>,
    pub bad_includes: Seq<Seq<char>>,
}

impl View for ObjectData {
    type V = ObjectDataView;

    open spec fn view(&self) -> ObjectDataView {
        ObjectDataView {
            path: self.path@,
            binary: self.create.binary,
            cwd: self.create.cwd@,
            args: self.create.args.deep_view(),
            local_code_file: self.local_code.local_code_file@,
            global_includes: self.local_code.global_includes.deep_view(),
            include_defines: self.local_code.include_defines.deep_view(),
            bad_includes: self.local_code.bad_includes.deep_view(),
        }
    }
}

impl DeepView for ObjectData {
    type V = ObjectDataView;

    open spec fn deep_view(&self) -> ObjectDataView {
        self@
    }
}

/// A copy of a recorded object file.
pub fn copy_object(o: &ObjectData) -> (res: ObjectData)
    ensures
        res@ == o@,
{
    ObjectData {
        path: copy_string(&o.path),
        create: CompileObjectRecord {
            binary: o.create.binary,
            cwd: copy_string(&o.create.cwd),
            args: copy_strings(&o.create.args),
        },
        local_code: ObjectLocalCodeRecord {
            local_code_file: copy_string(&o.local_code.local_code_file),
            global_includes: copy_strings(&o.local_code.global_includes),
            include_defines: copy_strings(&o.local_code.include_defines),
            bad_includes: copy_strings(&o.local_code.bad_includes),
        },
    }
}

/// The texts one after the other.
pub open spec fn concat(v: Seq<Seq<char>>) -> Seq<char>
    decreases v.len(),
{
    if v.len() == 0 {
        Seq::empty()
    } else {
        concat(v.drop_last()) + v.last()
    }
}

/// The key under which objects can be compiled together: the binary, the language of the
/// source, the directory of the build, the definitions that change global headers, and
/// the arguments that are the same for every translation unit. An error where the build
/// does not build one object file.
pub open spec fn compat_key(o: ObjectDataView) -> Result<Seq<char>, ErrorView> {
    if !spec_is_gcc_compatible(o.binary) {
        Err(ErrorView::BuildArgsUnsupported(o.binary))
    } else {
        match spec_build_object_info(o.cwd, o.args) {
            Err(e) => Err(e),
            Ok(info) => match spec_tokenize(o.args) {
                Err(e) => Err(e),
                Ok(toks) => Ok(
                    spec_standard_binary_name(o.binary) + spec_valid_ext(info.source_language)
                        + o.cwd + concat(o.include_defines) + key_text(toks),
                ),
            },
        }
    }
}

/// The key under which the object can be compiled with others.
fn create_object_compatibility_key(object: &ObjectData) -> (res: Result<String, Error>)
    ensures
        match res {
            Ok(k) => compat_key(object@) == Ok::<Seq<char>, ErrorView>(k@),
            Err(e) => compat_key(object@) == Err::<Seq<char>, ErrorView>(e@),
        },
{
    let info = match BuildObjectFileInfo::from_args(
        object.create.binary,
        object.create.cwd.as_str(),
        object.create.args.as_slice(),
    ) {
        Ok(i) => i,
        Err(e) => {
            return Err(e);
        },
    };
    let mut key = object.create.binary.to_standard_binary_name();
    push_str(&mut key, info.source_language.to_valid_ext());
    push_str(&mut key, object.create.cwd.as_str());
    let defines = &object.local_code.include_defines;
    let mut i: usize = 0;
    let ghost base = key@;
    proof {
        assert(defines.deep_view().take(0) =~= Seq::<Seq<char>>::empty());
    }
    while i < defines.len()
        invariant
            i <= defines@.len(),
            key@ == base + concat(defines.deep_view().take(i as int)),
        decreases defines@.len() - i,
    {
        push_str(&mut key, defines[i].as_str());
        proof {
            assert(defines.deep_view().take(i + 1).drop_last() =~= defines.deep_view().take(
                i as int,
            ));
            assert(defines.deep_view()[i as int] == defines@[i as int]@);
        }
        i = i + 1;
    }
    proof {
        assert(defines.deep_view().take(defines@.len() as int) =~= defines.deep_view());
    }
    match add_object_compatibility_args_to_key(
        object.create.binary,
        object.create.args.as_slice(),
        &mut key,
    ) {
        Ok(()) => Ok(key),
        Err(e) => Err(e),
    }
}

/// The first group whose key is `key`, from position `j` on.
pub open spec fn find_group(keys: Seq<Seq<char>>, key: Seq<char>, j: int) -> Option<int>
    decreases keys.len() - j,
{
    if j < 0 || j >= keys.len() {
        None
    } else if keys[j] == key {
        Some(j)
    } else {
        find_group(keys, key, j + 1)
    }
}

/// Objects in groups with their keys, in the order in which the keys first came.
pub struct Grouping {
    pub keys: Seq<Seq<char>>,
    pub groups: Seq<Seq<ObjectDataView>>,
}

/// The grouping with `o`, whose key is `key`, added: to the group of that key, or as a
/// new group at the end.
pub open spec fn add_to_grouping(g: Grouping, key: Seq<char>, o: ObjectDataView) -> Grouping {
    match find_group(g.keys, key, 0) {
        Some(j) => Grouping { keys: g.keys, groups: g.groups.update(j, g.groups[j].push(o)) },
        None => Grouping { keys: g.keys.push(key), groups: g.groups.push(seq![o]) },
    }
}

/// The objects grouped by their keys; the error of the first object without a key.
pub open spec fn spec_group_objects(objs: Seq<ObjectDataView>) -> Result<Grouping, ErrorView>
    decreases objs.len(),
{
    if objs.len() == 0 {
        Ok(Grouping { keys: Seq::empty(), groups: Seq::empty() })
    } else {
        match spec_group_objects(objs.drop_last()) {
            Err(e) => Err(e),
            Ok(g) => match compat_key(objs.last()) {
                Err(e) => Err(e),
                Ok(k) => Ok(add_to_grouping(g, k, objs.last())),
            },
        }
    }
}

/// Objects that can be compiled together.
#[derive(Debug)]
pub struct CompatibleObjects {
    pub objects: Vec<ObjectData>,
}

/// The groups as values of specifications.
pub open spec fn groups_view(v: Seq<CompatibleObjects>) -> Seq<Seq<ObjectDataView>> {
    v.map_values(|c: CompatibleObjects| c.objects.deep_view())
}

/// The position of the group with key `key`, if any.
fn find_group_exec(keys: &Vec<String>, key: &str) -> (res: Option<usize>)
    ensures
        match res {
            Some(j) => find_group(keys.deep_view(), key@, 0) == Some(j as int) && j < keys@.len(),
            None => find_group(keys.deep_view(), key@, 0) is None,
        },
{
    let kc = chars_of(key);
    let mut j: usize = 0;
    while j < keys.len()
        invariant
            j <= keys@.len(),
            kc@ == key@,
            find_group(keys.deep_view(), key@, 0) == find_group(keys.deep_view(), key@, j as int),
        decreases keys@.len() - j,
    {
        let c = chars_of(keys[j].as_str());
        proof {
            assert(keys.deep_view()[j as int] == keys@[j as int]@);
        }
        if chars_eq(c.as_slice(), kc.as_slice()) {
            return Some(j);
        }
        j = j + 1;
    }
    None
}

/// Groups the recorded objects into sets that can be compiled together: the objects of a
/// set share their key. The sets come in the order in which their keys first come, and
/// each keeps the order of its objects. An error where an object has no key.
pub fn group_compatible_objects(objects: &[ObjectData]) -> (res: Result<
    Vec<CompatibleObjects>,
    Error,
>)
    ensures
        match res {
            Ok(v) => spec_group_objects(objects.deep_view()) is Ok && groups_view(v@)
                == spec_group_objects(objects.deep_view())->Ok_0.groups,
            Err(e) => spec_group_objects(objects.deep_view()) == Err::<Grouping, ErrorView>(e@),
        },
{
    let mut keys: Vec<String> = Vec::new();
    let mut groups: Vec<CompatibleObjects> = Vec::new();
    let mut i: usize = 0;
    proof {
        assert(objects.deep_view().take(0) =~= Seq::<ObjectDataView>::empty());
        assert(keys.deep_view() =~= Seq::<Seq<char>>::empty());
        assert(groups_view(groups@) =~= Seq::<Seq<ObjectDataView>>::empty());
    }
    while i < objects.len()
        invariant
            i <= objects@.len(),
            spec_group_objects(objects.deep_view().take(i as int)) == Ok::<Grouping, ErrorView>(
                Grouping { keys: keys.deep_view(), groups: groups_view(groups@) },
            ),
            keys@.len() == groups@.len(),
        decreases objects@.len() - i,
    {
        proof {
            assert(objects.deep_view().take(i + 1).drop_last() =~= objects.deep_view().take(
                i as int,
            ));
            assert(objects.deep_view().take(i + 1).last() == objects@[i as int]@);
        }
        let key = match create_object_compatibility_key(&objects[i]) {
            Ok(k) => k,
            Err(e) => {
                proof {
                    lemma_group_error_stays(objects.deep_view(), i + 1);
                }
                return Err(e);
            },
        };
        let ghost g0 = groups_view(groups@);
        let ghost k0 = keys.deep_view();
        let o = copy_object(&objects[i]);
        match find_group_exec(&keys, key.as_str()) {
            Some(j) => {
                let mut g = groups.remove(j);
                let ghost before = g.objects.deep_view();
                g.objects.push(o);
                proof {
                    assert(g.objects.deep_view() =~= before.push(objects@[i as int]@));
                }
                groups.insert(j, g);
                proof {
                    assert(groups_view(groups@) =~= g0.update(
                        j as int,
                        g0[j as int].push(objects@[i as int]@),
                    ));
                }
            },
            None => {
                let mut v: Vec<ObjectData> = Vec::new();
                v.push(o);
                keys.push(key);
                groups.push(CompatibleObjects { objects: v });
                proof {
                    assert(keys.deep_view() =~= k0.push(key@));
                    assert(v.deep_view() =~= seq![objects@[i as int]@]);
                    assert(groups_view(groups@) =~= g0.push(seq![objects@[i as int]@]));
                }
            },
        }
        i = i + 1;
    }
    proof {
        assert(objects.deep_view().take(objects@.len() as int) =~= objects.deep_view());
    }
    Ok(groups)
}

/// Once an object has no key, grouping more objects gives the same error.
proof fn lemma_group_error_stays(objs: Seq<ObjectDataView>, k: int)
    requires
        0 <= k <= objs.len(),
        spec_group_objects(objs.take(k)) is Err,
    ensures
        spec_group_objects(objs) == spec_group_objects(objs.take(k)),
    decreases objs.len() - k,
{
    if k < objs.len() {
        assert(objs.take(k + 1).drop_last() =~= objs.take(k));
        lemma_group_error_stays(objs, k + 1);
    } else {
        assert(objs.take(k) =~= objs);
    }
}

/// What a link source is, by its extension: a static library (`.a`), an object file
/// (`.o`), or something else.
#[derive(Debug, Clone, Copy, PartialEq, Eq, Structural)]
pub enum LinkSourceKind {
    StaticLibrary,
    ObjectFile,
    Other,
}

/// The kind of the link source at `p`.
pub open spec fn spec_link_source_kind(p: Seq<char>) -> LinkSourceKind {
    match spec_extension(p) {
        Some(e) => if e == seq!['a'] {
            LinkSourceKind::StaticLibrary
        } else if e == seq!['o'] {
            LinkSourceKind::ObjectFile
        } else {
            LinkSourceKind::Other
        },
        None => LinkSourceKind::Other,
    }
}

/// The kind of the link source at `path`.
pub fn link_source_kind(path: &str) -> (res: LinkSourceKind)
    ensures
        res == spec_link_source_kind(path@),
{
    let pc = chars_of(path);
    match extension(pc.as_slice()) {
        Some(e) => {
            let a = ['a'];
            let o = ['o'];
            proof {
                assert(a@ =~= seq!['a']);
                assert(o@ =~= seq!['o']);
            }
            if chars_eq(e.as_slice(), &a) {
                LinkSourceKind::StaticLibrary
            } else if chars_eq(e.as_slice(), &o) {
                LinkSourceKind::ObjectFile
            } else {
                LinkSourceKind::Other
            }
        },
        None => LinkSourceKind::Other,
    }
}

/// A link source whose record is to be looked up: a static library or an object file.
#[derive(Debug)]
pub enum LinkSourceLookup {
    StaticLibrary(String),
    ObjectFile(String),
    /// Every link source has been looked at.
    Done,
}

/// The search through the link sources, as values of specifications: the paths still to
/// look at (the next one last), the sources that were not built here, the object files
/// whose builds were recorded, and the paths already looked up.
pub struct LinkSearchView {
    pub pending: Seq<Seq<char>>,
    pub unknown: Seq<Seq<char>>,
    pub known: Seq<ObjectDataView>,
    pub handled: Seq<Seq<char>>,
}

/// The next path to look up, with the search after it: paths of other kinds become
/// unknown sources, and a path already looked up is passed over.
pub open spec fn spec_next_lookup(s: LinkSearchView) -> (LinkSearchView, Option<
    (LinkSourceKind, Seq<char>),
>)
    decreases s.pending.len(),
{
    if s.pending.len() == 0 {
        (s, None)
    } else {
        let p = s.pending.last();
        let rest = LinkSearchView { pending: s.pending.drop_last(), ..s };
        if spec_link_source_kind(p) == LinkSourceKind::Other {
            spec_next_lookup(LinkSearchView { unknown: rest.unknown.push(p), ..rest })
        } else if s.handled.contains(p) {
            spec_next_lookup(rest)
        } else {
            (
                LinkSearchView { handled: rest.handled.push(p), ..rest },
                Some((spec_link_source_kind(p), p)),
            )
        }
    }
}

/// A static library's record as values of specifications: the binary, the directory and
/// the arguments that created it.
pub open spec fn archive_record_view(r: &CreateArchiveRecord) -> (WrappedBinary, Seq<char>, Seq<
    Seq<char>,
>) {
    (r.binary, r.cwd@, r.args.deep_view())
}

/// The search after the record of the static library `path` was looked up: without one
/// the library is an unknown source; with one, its members are looked at next, in order.
/// An error where it was not created by `ar` or its arguments create no archive.
pub open spec fn spec_archive_found(
    s: LinkSearchView,
    path: Seq<char>,
    record: Option<(WrappedBinary, Seq<char>, Seq<Seq<char>>)>,
) -> Result<LinkSearchView, ErrorView> {
    match record {
        None => Ok(LinkSearchView { unknown: s.unknown.push(path), ..s }),
        Some((binary, cwd, args)) => if !(binary is Ar) {
            Err(ErrorView::ArchiveNotFromAr(path))
        } else {
            match spec_static_archive(cwd, args) {
                Err(e) => Err(e),
                Ok((_, _, members)) => Ok(
                    LinkSearchView { pending: s.pending + members.reverse(), ..s },
                ),
            }
        },
    }
}

/// The search after the record of the object file `path` was looked up: without one the
/// object is an unknown source; with one, it is a known object file. An error where it was
/// not built by a gcc-compatible compiler.
pub open spec fn spec_object_found(
    s: LinkSearchView,
    path: Seq<char>,
    record: Option<ObjectDataView>,
) -> Result<LinkSearchView, ErrorView> {
    match record {
        None => Ok(LinkSearchView { unknown: s.unknown.push(path), ..s }),
        Some(o) => if !spec_is_gcc_compatible(o.binary) {
            Err(ErrorView::ObjectNotFromGcc(path))
        } else {
            Ok(LinkSearchView { known: s.known.push(o), ..s })
        },
    }
}

/// The sources of a final link, sorted while their records are looked up.
pub struct OriginalLinkSources {
    /// Link sources that were not built here.
    pub unknown_sources: Vec<String>,
    /// Object files whose builds were recorded here.
    pub known_object_files: Vec<ObjectData>,
    /// The paths still to look at, the next one last.
    pub pending: Vec<String>,
    /// The paths whose records have been looked up.
    pub handled_paths: Vec<String>,
}

impl View for OriginalLinkSources {
    type V = LinkSearchView;

    open spec fn view(&self) -> LinkSearchView {
        LinkSearchView {
            pending: self.pending.deep_view(),
            unknown: self.unknown_sources.deep_view(),
            known: self.known_object_files.deep_view(),
            handled: self.handled_paths.deep_view(),
        }
    }
}

/// The paths of the sources, the first last.
pub open spec fn reversed_paths(sources: Seq<SourceFileView>) -> Seq<Seq<char>> {
    sources.map_values(|f: SourceFileView| f.path).reverse()
}

impl OriginalLinkSources {
    /// A search that looks at the link sources `sources` in order.
    pub fn new(sources: &[SourceFile]) -> (res: OriginalLinkSources)
        ensures
            res@ == (LinkSearchView {
                pending: reversed_paths(sources.deep_view()),
                unknown: Seq::empty(),
                known: Seq::empty(),
                handled: Seq::empty(),
            }),
    {
        let mut pending: Vec<String> = Vec::new();
        let mut i: usize = sources.len();
        while i > 0
            invariant
                i <= sources@.len(),
                pending.deep_view() == reversed_paths(sources.deep_view()).take(
                    sources@.len() - i,
                ),
            decreases i,
        {
            let ghost before = pending.deep_view();
            pending.push(copy_string(&sources[i - 1].path));
            proof {
                let r = reversed_paths(sources.deep_view());
                let k = sources@.len() - i;
                assert(sources.deep_view()[i - 1] == sources@[i - 1]@);
                assert(r[k] == sources@[i - 1]@.path);
                assert(pending.deep_view() =~= before.push(sources@[i - 1]@.path));
                assert(r.take(k + 1) =~= r.take(k).push(r[k]));
            }
            i = i - 1;
        }
        proof {
            assert(reversed_paths(sources.deep_view()).take(sources@.len() as int)
                =~= reversed_paths(sources.deep_view()));
        }
        let res = OriginalLinkSources {
            unknown_sources: Vec::new(),
            known_object_files: Vec::new(),
            pending,
            handled_paths: Vec::new(),
        };
        proof {
            assert(res@.unknown =~= Seq::<Seq<char>>::empty());
            assert(res@.known =~= Seq::<ObjectDataView>::empty());
            assert(res@.handled =~= Seq::<Seq<char>>::empty());
        }
        res
    }

    /// The next static library or object file whose record is to be looked up, or `Done`.
    pub fn next_lookup(&mut self) -> (res: LinkSourceLookup)
        ensures
            final(self)@ == spec_next_lookup(old(self)@).0,
            match res {
                LinkSourceLookup::StaticLibrary(p) => spec_next_lookup(old(self)@).1 == Some(
                    (LinkSourceKind::StaticLibrary, p@),
                ),
                LinkSourceLookup::ObjectFile(p) => spec_next_lookup(old(self)@).1 == Some(
                    (LinkSourceKind::ObjectFile, p@),
                ),
                LinkSourceLookup::Done => spec_next_lookup(old(self)@).1 is None,
            },
        decreases old(self)@.pending.len(),
    {
        let ghost s0 = self@;
        match self.pending.pop() {
            None => {
                proof {
                    assert(self@ == s0);
                }
                LinkSourceLookup::Done
            },
            Some(p) => {
                proof {
                    assert(self.pending.deep_view() =~= s0.pending.drop_last());
                    assert(p@ == s0.pending.last());
                }
                let kind = link_source_kind(p.as_str());
                if kind == LinkSourceKind::Other {
                    let ghost u0 = self.unknown_sources.deep_view();
                    self.unknown_sources.push(p);
                    proof {
                        assert(self.unknown_sources.deep_view() =~= u0.push(s0.pending.last()));
                    }
                    self.next_lookup()
                } else if holds_string(&self.handled_paths, p.as_str()) {
                    self.next_lookup()
                } else {
                    let ghost h0 = self.handled_paths.deep_view();
                    self.handled_paths.push(copy_string(&p));
                    proof {
                        assert(self.handled_paths.deep_view() =~= h0.push(p@));
                    }
                    if kind == LinkSourceKind::StaticLibrary {
                        LinkSourceLookup::StaticLibrary(p)
                    } else {
                        LinkSourceLookup::ObjectFile(p)
                    }
                }
            },
        }
    }

    /// Takes in the record of the static library `path`, as looked up.
    pub fn archive_found(&mut self, path: &str, record: Option<&CreateArchiveRecord>) -> (res:
        Result<(), Error>)
        ensures
            ({
                let rv = match record {
                    Some(r) => Some(archive_record_view(r)),
                    None => None,
                };
                match res {
                    Ok(()) => spec_archive_found(old(self)@, path@, rv) == Ok::<
                        LinkSearchView,
                        ErrorView,
                    >(final(self)@),
                    Err(e) => spec_archive_found(old(self)@, path@, rv) == Err::<
                        LinkSearchView,
                        ErrorView,
                    >(e@) && final(self)@ == old(self)@,
                }
            }),
    {
        match record {
            None => {
                let ghost u0 = self.unknown_sources.deep_view();
                self.unknown_sources.push(path.to_owned());
                proof {
                    assert(self.unknown_sources.deep_view() =~= u0.push(path@));
                }
                Ok(())
            },
            Some(r) => {
                if !r.binary.is_ar_compatible() {
                    return Err(Error::ArchiveNotFromAr(path.to_owned()));
                }
                let info = match BuildStaticArchiveInfo::from_args(r.cwd.as_str(), r.args.as_slice()) {
                    Ok(i) => i,
                    Err(e) => {
                        return Err(e);
                    },
                };
                let members = &info.member_paths;
                let ghost p0 = self.pending.deep_view();
                let mut i: usize = members.len();
                while i > 0
                    invariant
                        i <= members@.len(),
                        self.pending.deep_view() == p0 + members.deep_view().reverse().take(
                            members@.len() - i,
                        ),
                        self.unknown_sources == old(self).unknown_sources,
                        self.known_object_files == old(self).known_object_files,
                        self.handled_paths == old(self).handled_paths,
                    decreases i,
                {
                    let ghost before = self.pending.deep_view();
                    self.pending.push(copy_string(&members[i - 1]));
                    proof {
                        let r = members.deep_view().reverse();
                        let k = members@.len() - i;
                        assert(members.deep_view()[i - 1] == members@[i - 1]@);
                        assert(r[k] == members@[i - 1]@);
                        assert(self.pending.deep_view() =~= before.push(members@[i - 1]@));
                        assert(r.take(k + 1) =~= r.take(k).push(r[k]));
                        assert(self.pending.deep_view() =~= p0 + r.take(k + 1));
                    }
                    i = i - 1;
                }
                proof {
                    assert(members.deep_view().reverse().take(members@.len() as int)
                        =~= members.deep_view().reverse());
                }
                Ok(())
            },
        }
    }

    /// Takes in the record of the object file `path`, as looked up.
    pub fn object_found(&mut self, path: &str, record: Option<ObjectData>) -> (res: Result<(), Error>)
        ensures
            ({
                let rv = match record {
                    Some(o) => Some(o@),
                    None => None,
                };
                match res {
                    Ok(()) => spec_object_found(old(self)@, path@, rv) == Ok::<
                        LinkSearchView,
                        ErrorView,
                    >(final(self)@),
                    Err(e) => spec_object_found(old(self)@, path@, rv) == Err::<
                        LinkSearchView,
                        ErrorView,
                    >(e@) && final(self)@ == old(self)@,
                }
            }),
    {
        match record {
            None => {
                let ghost u0 = self.unknown_sources.deep_view();
                self.unknown_sources.push(path.to_owned());
                proof {
                    assert(self.unknown_sources.deep_view() =~= u0.push(path@));
                }
                Ok(())
            },
            Some(o) => {
                if !o.create.binary.is_gcc_compatible() {
                    return Err(Error::ObjectNotFromGcc(path.to_owned()));
                }
                let ghost k0 = self.known_object_files.deep_view();
                let ghost ov = o@;
                self.known_object_files.push(o);
                proof {
                    assert(self.known_object_files.deep_view() =~= k0.push(ov));
                }
                Ok(())
            },
        }
    }
}

/// The groups line up with their keys, none is empty, the objects of a group all have
/// its key, and no two groups have the same key.
pub open spec fn grouping_ok(g: Grouping) -> bool {
    &&& g.keys.len() == g.groups.len()
    &&& forall|j: int| 0 <= j < g.groups.len() ==> #[trigger] g.groups[j].len() > 0
    &&& forall|j: int, m: int|
        0 <= j < g.groups.len() && 0 <= m < g.groups[j].len() ==> compat_key(
            #[trigger] g.groups[j][m],
        ) == Ok::<Seq<char>, ErrorView>(g.keys[j])
    &&& forall|j: int, k: int| 0 <= j < k < g.keys.len() ==> #[trigger] g.keys[j] != #[trigger] g.keys[k]
}

proof fn lemma_find_group(keys: Seq<Seq<char>>, key: Seq<char>, j: int)
    requires
        0 <= j,
    ensures
        match find_group(keys, key, j) {
            Some(i) => j <= i < keys.len() && keys[i] == key,
            None => forall|i: int| j <= i < keys.len() ==> keys[i] != key,
        },
    decreases keys.len() - j,
{
    if j < keys.len() && keys[j] != key {
        lemma_find_group(keys, key, j + 1);
    }
}

/// Objects that can be compiled together are grouped by their keys: no group is empty,
/// the objects of a group all have its key, and no two groups have the same key.
pub proof fn lemma_groups_share_keys(objs: Seq<ObjectDataView>)
    requires
        spec_group_objects(objs) is Ok,
    ensures
        grouping_ok(spec_group_objects(objs)->Ok_0),
    decreases objs.len(),
{
    if objs.len() > 0 {
        lemma_groups_share_keys(objs.drop_last());
        let g = spec_group_objects(objs.drop_last())->Ok_0;
        let k = compat_key(objs.last())->Ok_0;
        let o = objs.last();
        lemma_find_group(g.keys, k, 0);
        let g2 = add_to_grouping(g, k, o);
        match find_group(g.keys, k, 0) {
            Some(j) => {
                assert forall|a: int, m: int|
                    0 <= a < g2.groups.len() && 0 <= m < g2.groups[a].len() implies compat_key(
                    #[trigger] g2.groups[a][m],
                ) == Ok::<Seq<char>, ErrorView>(g2.keys[a]) by {
                    if a == j && m == g.groups[j].len() {
                        assert(g2.groups[a][m] == o);
                    } else if a == j {
                        assert(g2.groups[a][m] == g.groups[a][m]);
                    }
                }
                assert forall|a: int| 0 <= a < g2.groups.len() implies #[trigger] g2.groups[a].len()
                    > 0 by {
                    if a != j {
                        assert(g2.groups[a] == g.groups[a]);
                    }
                }
            },
            None => {
                assert forall|a: int, m: int|
                    0 <= a < g2.groups.len() && 0 <= m < g2.groups[a].len() implies compat_key(
                    #[trigger] g2.groups[a][m],
                ) == Ok::<Seq<char>, ErrorView>(g2.keys[a]) by {
                    if a < g.groups.len() {
                        assert(g2.groups[a] == g.groups[a]);
                        assert(g2.keys[a] == g.keys[a]);
                    }
                }
                assert forall|a: int| 0 <= a < g2.groups.len() implies #[trigger] g2.groups[a].len()
                    > 0 by {
                    if a < g.groups.len() {
                        assert(g2.groups[a] == g.groups[a]);
                    }
                }
                assert forall|a: int, b: int| 0 <= a < b < g2.keys.len() implies #[trigger] g2.keys[a]
                    != #[trigger] g2.keys[b] by {
                    if b == g.keys.len() {
                        assert(g2.keys[a] == g.keys[a]);
                    } else {
                        assert(g2.keys[a] == g.keys[a]);
                        assert(g2.keys[b] == g.keys[b]);
                    }
                }
            },
        }
    }
}


/// No path is looked up twice: the path that the search gives to look up next has not been
/// looked up before, and from then on it counts as looked up; the paths looked up are
/// kept as they are while the search goes on, so it never comes again.
pub proof fn lemma_lookups_fresh(s: LinkSearchView)
    ensures
        spec_next_lookup(s).1 matches Some((k, p)) ==> !s.handled.contains(p)
            && spec_next_lookup(s).0.handled == s.handled.push(p),
        spec_next_lookup(s).1 is None ==> spec_next_lookup(s).0.handled == s.handled
            && spec_next_lookup(s).0.pending.len() == 0,
    decreases s.pending.len(),
{
    if s.pending.len() > 0 {
        let p = s.pending.last();
        let rest = LinkSearchView { pending: s.pending.drop_last(), ..s };
        if spec_link_source_kind(p) == LinkSourceKind::Other {
            lemma_lookups_fresh(LinkSearchView { unknown: rest.unknown.push(p), ..rest });
        } else if s.handled.contains(p) {
            lemma_lookups_fresh(rest);
        }
    }
}

/// Taking in a record leaves the paths looked up as they are.
pub proof fn lemma_records_keep_lookups(
    s: LinkSearchView,
    path: Seq<char>,
    archive: Option<(WrappedBinary, Seq<char>, Seq<Seq<char>>)>,
    object: Option<ObjectDataView>,
)
    ensures
        spec_archive_found(s, path, archive) matches Ok(t) ==> t.handled == s.handled,
        spec_object_found(s, path, object) matches Ok(t) ==> t.handled == s.handled,
{
}

/// A path that the search passes over without looking it up: one of another kind, or one
/// already looked up.
pub open spec fn passed_over(s: LinkSearchView, q: Seq<char>) -> bool {
    spec_link_source_kind(q) == LinkSourceKind::Other || s.handled.contains(q)
}

/// The search looks at the paths in the order they stand, the next one last: the path it
/// gives to look up is the last pending one that is not passed over, every path after it
/// is passed over, and the paths before it stay pending. Where it gives none, every
/// pending path is passed over.
pub proof fn lemma_lookup_order(s: LinkSearchView)
    ensures
        match spec_next_lookup(s).1 {
            Some((k, p)) => exists|i: int|
                #![trigger s.pending.take(i)]
                0 <= i < s.pending.len() && s.pending[i] == p && spec_next_lookup(s).0.pending
                    == s.pending.take(i) && !passed_over(s, p) && forall|j: int|
                    i < j < s.pending.len() ==> passed_over(s, #[trigger] s.pending[j]),
            None => forall|j: int|
                0 <= j < s.pending.len() ==> passed_over(s, #[trigger] s.pending[j]),
        },
    decreases s.pending.len(),
{
    if s.pending.len() > 0 {
        let p = s.pending.last();
        let rest = LinkSearchView { pending: s.pending.drop_last(), ..s };
        let n = s.pending.len() - 1;
        if spec_link_source_kind(p) == LinkSourceKind::Other || s.handled.contains(p) {
            let t = if spec_link_source_kind(p) == LinkSourceKind::Other {
                LinkSearchView { unknown: rest.unknown.push(p), ..rest }
            } else {
                rest
            };
            assert(spec_next_lookup(s) == spec_next_lookup(t));
            lemma_lookup_order(t);
            assert(t.handled == s.handled);
            match spec_next_lookup(t).1 {
                Some((k, q)) => {
                    let i = choose|i: int|
                        #![trigger t.pending.take(i)]
                        0 <= i < t.pending.len() && t.pending[i] == q
                            && spec_next_lookup(t).0.pending == t.pending.take(i) && !passed_over(
                            t,
                            q,
                        ) && forall|j: int|
                            i < j < t.pending.len() ==> passed_over(t, #[trigger] t.pending[j]);
                    assert(s.pending.take(i) =~= t.pending.take(i));
                    assert forall|j: int| i < j < s.pending.len() implies passed_over(
                        s,
                        #[trigger] s.pending[j],
                    ) by {
                        if j < n {
                            assert(s.pending[j] == t.pending[j]);
                        }
                    }
                },
                None => {
                    assert forall|j: int| 0 <= j < s.pending.len() implies passed_over(
                        s,
                        #[trigger] s.pending[j],
                    ) by {
                        if j < n {
                            assert(s.pending[j] == t.pending[j]);
                        }
                    }
                },
            }
        } else {
            assert(s.pending.take(n) =~= s.pending.drop_last());
            assert(s.pending[n] == p);
        }
    }
}

/// The most objects that are compiled as one chunk.
pub const MAX_CHUNK_OBJECTS: usize = 10;

/// What is done with a run of objects that can be compiled together.
#[derive(Debug, Clone, Copy, PartialEq, Eq, Structural)]
pub enum ChunkStep {
    /// Compile them as one chunk.
    Compile,
    /// Compile the first `k` and the rest apart.
    Split(usize),
    /// Report the failure.
    Fail,
}

/// What is done with a run of `n` objects, where compiling them as one chunk has failed
/// (`failed`) or not been tried: at most ten are compiled as one chunk; after that fails,
/// a single object fails, and more are split in halves; more than ten are split in halves
/// at once. A split leaves both parts nonempty.
pub fn chunk_step(n: usize, failed: bool) -> (res: ChunkStep)
    requires
        n > 0,
    ensures
        res == (if !failed && n <= MAX_CHUNK_OBJECTS {
            ChunkStep::Compile
        } else if n == 1 {
            ChunkStep::Fail
        } else {
            ChunkStep::Split(n / 2)
        }),
        res matches ChunkStep::Split(k) ==> 0 < k < n,
{
    if !failed && n <= MAX_CHUNK_OBJECTS {
        ChunkStep::Compile
    } else if n == 1 {
        ChunkStep::Fail
    } else {
        ChunkStep::Split(n / 2)
    }
}

} // verus!
