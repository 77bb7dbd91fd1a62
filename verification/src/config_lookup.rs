//! Which configuration files apply to a set of paths: each directory from the root down
//! to a path may hold a `ccelerate.toml`. The directories found without one are
//! remembered, so that a path all of whose directories are known to lack one is not
//! looked at again.

use vstd::prelude::*;
use crate::directives::{path_without_prefix, strip_path_prefix};
use crate::local_code::{parent_of, path_parent};
use crate::path_utils::{join, make_absolute};
use crate::text::{chars_of, copy_strings, holds_string};

verus! {

/// The name of the configuration file that a directory may hold.
pub open spec fn config_file_name() -> Seq<char> {
    seq!['c', 'c', 'e', 'l', 'e', 'r', 'a', 't', 'e', '.', 't', 'o', 'm', 'l']
}

/// The configuration file that the directory `dir` may hold.
pub open spec fn config_file_of(dir: Seq<char>) -> Seq<char> {
    join(dir, config_file_name())
}

/// The path and its ancestors, nearest first, as std's `Path::ancestors` gives them: each
/// the parent of the one before, until there is none.
pub open spec fn spec_ancestors(p: Seq<char>) -> Seq<Seq<char>>
    decreases p.len(),
{
    match path_parent(p) {
        None => seq![p],
        Some(q) => if q.len() < p.len() {
            seq![p] + spec_ancestors(q)
        } else {
            seq![p]
        },
    }
}

/// `s` with `a` added, unless it holds it already.
pub open spec fn set_insert(s: Seq<Seq<char>>, a: Seq<char>) -> Seq<Seq<char>> {
    if s.contains(a) {
        s
    } else {
        s.push(a)
    }
}

/// The directories known to lack a configuration file and the configuration files found,
/// after looking at the directory `a`: `present` holds the configuration files that exist.
pub open spec fn look_at_dir(
    without: Seq<Seq<char>>,
    found: Seq<Seq<char>>,
    a: Seq<char>,
    present: Seq<Seq<char>>,
) -> (Seq<Seq<char>>, Seq<Seq<char>>) {
    if present.contains(config_file_of(a)) {
        (without, found.push(config_file_of(a)))
    } else {
        (set_insert(without, a), found)
    }
}

/// The same after looking at the directories `dirs` in order.
pub open spec fn look_at_dirs(
    without: Seq<Seq<char>>,
    found: Seq<Seq<char>>,
    dirs: Seq<Seq<char>>,
    present: Seq<Seq<char>>,
) -> (Seq<Seq<char>>, Seq<Seq<char>>)
    decreases dirs.len(),
{
    if dirs.len() == 0 {
        (without, found)
    } else {
        let (w, f) = look_at_dirs(without, found, dirs.drop_last(), present);
        look_at_dir(w, f, dirs.last(), present)
    }
}

/// The path lies below a directory whose configuration is already in use, or all its
/// ancestors are known to lack a configuration file.
pub open spec fn path_skipped(
    included: Seq<Seq<char>>,
    without: Seq<Seq<char>>,
    path: Seq<char>,
) -> bool {
    ||| exists|i: int|
        0 <= i < included.len() && #[trigger] path_without_prefix(path, included[i]) is Some
    ||| forall|i: int|
        0 <= i < spec_ancestors(path).len() ==> without.contains(#[trigger] spec_ancestors(path)[i])
}

/// The same after looking at a path: unless it is skipped, its ancestors from the root
/// down.
pub open spec fn look_at_path(
    included: Seq<Seq<char>>,
    without: Seq<Seq<char>>,
    found: Seq<Seq<char>>,
    path: Seq<char>,
    present: Seq<Seq<char>>,
) -> (Seq<Seq<char>>, Seq<Seq<char>>) {
    if path_skipped(included, without, path) {
        (without, found)
    } else {
        look_at_dirs(without, found, spec_ancestors(path).reverse(), present)
    }
}

/// The same after looking at the paths in order, starting with no file found.
pub open spec fn look_at_paths(
    included: Seq<Seq<char>>,
    without: Seq<Seq<char>>,
    paths: Seq<Seq<char>>,
    present: Seq<Seq<char>>,
) -> (Seq<Seq<char>>, Seq<Seq<char>>)
    decreases paths.len(),
{
    if paths.len() == 0 {
        (without, Seq::empty())
    } else {
        let (w, f) = look_at_paths(included, without, paths.drop_last(), present);
        look_at_path(included, w, f, paths.last(), present)
    }
}

/// The configuration files that a lookup of the paths may ask about: those of all their
/// ancestors.
pub open spec fn candidate_files(paths: Seq<Seq<char>>) -> Seq<Seq<char>>
    decreases paths.len(),
{
    if paths.len() == 0 {
        Seq::empty()
    } else {
        candidate_files(paths.drop_last()) + spec_ancestors(paths.last()).map_values(
            |a: Seq<char>| config_file_of(a),
        )
    }
}

/// What the lookup of configuration files remembers between requests.
pub struct ConfigSearchState {
    /// The configuration files in use, in the order in which they are read.
    pub config_files: Vec<String>,
    /// The directories whose configuration is in use.
    pub included_dirs: Vec<String>,
    /// The directories known to hold no configuration file.
    pub dirs_without_config: Vec<String>,
}

/// A [`ConfigSearchState`] as a value of specifications.
pub struct ConfigSearchStateView {
    pub config_files: Seq<Seq<char>>,
    pub included_dirs: Seq<Seq<char>>,
    pub dirs_without_config: Seq<Seq<char>>,
}

impl View for ConfigSearchState {
    type V = ConfigSearchStateView;

    open spec fn view(&self) -> ConfigSearchStateView {
        ConfigSearchStateView {
            config_files: self.config_files.deep_view(),
            included_dirs: self.included_dirs.deep_view(),
            dirs_without_config: self.dirs_without_config.deep_view(),
        }
    }
}

/// The configuration file that the directory `dir` may hold.
pub fn config_file_in(dir: &str) -> (res: String)
    ensures
        res@ == config_file_of(dir@),
{
    proof {
        reveal_strlit("ccelerate.toml");
        assert("ccelerate.toml"@ =~= config_file_name());
    }
    make_absolute(dir, "ccelerate.toml")
}

/// The path and its ancestors, nearest first.
pub fn ancestors(path: &str) -> (res: Vec<String>)
    ensures
        res.deep_view() == spec_ancestors(path@),
{
    let mut res: Vec<String> = Vec::new();
    let mut cur = path.to_owned();
    proof {
        assert(res.deep_view() + spec_ancestors(cur@) =~= spec_ancestors(path@));
    }
    loop
        invariant
            res.deep_view() + spec_ancestors(cur@) == spec_ancestors(path@),
        decreases cur@.len(),
    {
        let ghost before = res.deep_view();
        let ghost c = cur@;
        match parent_of(cur.as_str()) {
            Some(q) => {
                let qn = chars_of(q.as_str());
                let cn = chars_of(cur.as_str());
                if qn.len() < cn.len() {
                    res.push(cur);
                    proof {
                        assert(res.deep_view() =~= before.push(c));
                        assert(spec_ancestors(c) == seq![c] + spec_ancestors(q@));
                        assert(res.deep_view() + spec_ancestors(q@) =~= before + spec_ancestors(c));
                    }
                    cur = q;
                } else {
                    res.push(cur);
                    proof {
                        assert(res.deep_view() =~= before + spec_ancestors(c));
                    }
                    return res;
                }
            },
            None => {
                res.push(cur);
                proof {
                    assert(res.deep_view() =~= before + spec_ancestors(c));
                }
                return res;
            },
        }
    }
}

/// The configuration files that a lookup of `paths` may ask about, those of all their
/// ancestors; the caller tells the lookup which of them exist.
pub fn candidate_config_files(paths: &[String]) -> (res: Vec<String>)
    ensures
        res.deep_view() == candidate_files(paths.deep_view()),
{
    let mut res: Vec<String> = Vec::new();
    let mut i: usize = 0;
    proof {
        assert(paths.deep_view().take(0) =~= Seq::<Seq<char>>::empty());
        assert(res.deep_view() =~= Seq::<Seq<char>>::empty());
    }
    while i < paths.len()
        invariant
            i <= paths@.len(),
            res.deep_view() == candidate_files(paths.deep_view().take(i as int)),
        decreases paths@.len() - i,
    {
        let anc = ancestors(paths[i].as_str());
        let ghost before = res.deep_view();
        let mut j: usize = 0;
        while j < anc.len()
            invariant
                j <= anc@.len(),
                res.deep_view() == before + anc.deep_view().take(j as int).map_values(
                    |a: Seq<char>| config_file_of(a),
                ),
            decreases anc@.len() - j,
        {
            let ghost r0 = res.deep_view();
            res.push(config_file_in(anc[j].as_str()));
            proof {
                assert(anc.deep_view()[j as int] == anc@[j as int]@);
                assert(res.deep_view() =~= r0.push(config_file_of(anc@[j as int]@)));
                assert(anc.deep_view().take(j + 1) =~= anc.deep_view().take(j as int).push(
                    anc@[j as int]@,
                ));
                assert(res.deep_view() =~= before + anc.deep_view().take(j + 1).map_values(
                    |a: Seq<char>| config_file_of(a),
                ));
            }
            j = j + 1;
        }
        proof {
            assert(anc.deep_view().take(anc@.len() as int) =~= anc.deep_view());
            assert(paths.deep_view().take(i + 1).drop_last() =~= paths.deep_view().take(i as int));
            assert(paths.deep_view()[i as int] == paths@[i as int]@);
        }
        i = i + 1;
    }
    proof {
        assert(paths.deep_view().take(paths@.len() as int) =~= paths.deep_view());
    }
    res
}

impl ConfigSearchState {
    /// No configuration in use and nothing known.
    pub fn new() -> (res: ConfigSearchState)
        ensures
            res@.config_files == Seq::<Seq<char>>::empty(),
            res@.included_dirs == Seq::<Seq<char>>::empty(),
            res@.dirs_without_config == Seq::<Seq<char>>::empty(),
    {
        let res = ConfigSearchState {
            config_files: Vec::new(),
            included_dirs: Vec::new(),
            dirs_without_config: Vec::new(),
        };
        proof {
            assert(res@.config_files =~= Seq::<Seq<char>>::empty());
            assert(res@.included_dirs =~= Seq::<Seq<char>>::empty());
            assert(res@.dirs_without_config =~= Seq::<Seq<char>>::empty());
        }
        res
    }

    /// Whether the path is skipped: it lies below a directory whose configuration is in
    /// use, or all its ancestors are known to lack a configuration file.
    fn skips(&self, path: &str, anc: &Vec<String>) -> (res: bool)
        requires
            anc.deep_view() == spec_ancestors(path@),
        ensures
            res == path_skipped(self@.included_dirs, self@.dirs_without_config, path@),
    {
        let mut i: usize = 0;
        while i < self.included_dirs.len()
            invariant
                i <= self.included_dirs@.len(),
                forall|j: int|
                    0 <= j < i ==> #[trigger] path_without_prefix(
                        path@,
                        self@.included_dirs[j],
                    ) is None,
            decreases self.included_dirs@.len() - i,
        {
            proof {
                assert(self@.included_dirs[i as int] == self.included_dirs@[i as int]@);
            }
            if strip_path_prefix(path, self.included_dirs[i].as_str()).is_some() {
                return true;
            }
            i = i + 1;
        }
        let mut k: usize = 0;
        while k < anc.len()
            invariant
                k <= anc@.len(),
                anc.deep_view() == spec_ancestors(path@),
                forall|j: int|
                    0 <= j < self@.included_dirs.len() ==> #[trigger] path_without_prefix(
                        path@,
                        self@.included_dirs[j],
                    ) is None,
                forall|j: int|
                    0 <= j < k ==> self@.dirs_without_config.contains(
                        #[trigger] spec_ancestors(path@)[j],
                    ),
            decreases anc@.len() - k,
        {
            proof {
                assert(anc.deep_view()[k as int] == anc@[k as int]@);
            }
            if !holds_string(&self.dirs_without_config, anc[k].as_str()) {
                proof {
                    assert(!self@.dirs_without_config.contains(spec_ancestors(path@)[k as int]));
                }
                return false;
            }
            k = k + 1;
        }
        true
    }

    /// Looks at the directory `dir`: records the configuration file found there, or that
    /// it has none.
    fn look_at(&mut self, found: &mut Vec<String>, dir: &str, present: &Vec<String>)
        ensures
            (final(self)@.dirs_without_config, final(found).deep_view()) == look_at_dir(
                old(self)@.dirs_without_config,
                old(found).deep_view(),
                dir@,
                present.deep_view(),
            ),
            final(self)@.config_files == old(self)@.config_files,
            final(self)@.included_dirs == old(self)@.included_dirs,
    {
        let file = config_file_in(dir);
        if holds_string(present, file.as_str()) {
            let ghost f0 = found.deep_view();
            found.push(file);
            proof {
                assert(found.deep_view() =~= f0.push(config_file_of(dir@)));
            }
        } else if !holds_string(&self.dirs_without_config, dir) {
            let ghost w0 = self@.dirs_without_config;
            self.dirs_without_config.push(dir.to_owned());
            proof {
                assert(self@.dirs_without_config =~= w0.push(dir@));
            }
        }
    }

    /// Looks at the configuration files that apply to `paths`, of which those in `present`
    /// exist. The directories found without one are remembered. The result is `None` where
    /// no new file was found; else the files to read: those found, in order, then those in
    /// use.
    pub fn lookup(&mut self, paths: &[String], present: &Vec<String>) -> (res: Option<Vec<String>>)
        ensures
            final(self)@.dirs_without_config == look_at_paths(
                old(self)@.included_dirs,
                old(self)@.dirs_without_config,
                paths.deep_view(),
                present.deep_view(),
            ).0,
            final(self)@.config_files == old(self)@.config_files,
            final(self)@.included_dirs == old(self)@.included_dirs,
            ({
                let found = look_at_paths(
                    old(self)@.included_dirs,
                    old(self)@.dirs_without_config,
                    paths.deep_view(),
                    present.deep_view(),
                ).1;
                match res {
                    Some(files) => found.len() > 0 && files.deep_view() == found + old(
                        self,
                    )@.config_files,
                    None => found.len() == 0,
                }
            }),
    {
        let mut found: Vec<String> = Vec::new();
        let mut i: usize = 0;
        proof {
            assert(paths.deep_view().take(0) =~= Seq::<Seq<char>>::empty());
            assert(found.deep_view() =~= Seq::<Seq<char>>::empty());
        }
        while i < paths.len()
            invariant
                i <= paths@.len(),
                self@.config_files == old(self)@.config_files,
                self@.included_dirs == old(self)@.included_dirs,
                (self@.dirs_without_config, found.deep_view()) == look_at_paths(
                    old(self)@.included_dirs,
                    old(self)@.dirs_without_config,
                    paths.deep_view().take(i as int),
                    present.deep_view(),
                ),
            decreases paths@.len() - i,
        {
            proof {
                assert(paths.deep_view().take(i + 1).drop_last() =~= paths.deep_view().take(
                    i as int,
                ));
                assert(paths.deep_view()[i as int] == paths@[i as int]@);
            }
            let anc = ancestors(paths[i].as_str());
            if !self.skips(paths[i].as_str(), &anc) {
                let ghost w0 = self@.dirs_without_config;
                let ghost f0 = found.deep_view();
                let ghost order = anc.deep_view().reverse();
                let mut k: usize = anc.len();
                proof {
                    assert(order.take(0) =~= Seq::<Seq<char>>::empty());
                }
                while k > 0
                    invariant
                        k <= anc@.len(),
                        order == anc.deep_view().reverse(),
                        self@.config_files == old(self)@.config_files,
                        self@.included_dirs == old(self)@.included_dirs,
                        (self@.dirs_without_config, found.deep_view()) == look_at_dirs(
                            w0,
                            f0,
                            order.take(anc@.len() - k),
                            present.deep_view(),
                        ),
                    decreases k,
                {
                    proof {
                        let n = anc@.len() - k;
                        assert(order.take(n + 1).drop_last() =~= order.take(n));
                        assert(order.take(n + 1).last() == anc.deep_view()[k - 1]);
                        assert(anc.deep_view()[k - 1] == anc@[k - 1]@);
                    }
                    self.look_at(&mut found, anc[k - 1].as_str(), present);
                    k = k - 1;
                }
                proof {
                    assert(order.take(anc@.len() as int) =~= order);
                }
            }
            i = i + 1;
        }
        proof {
            assert(paths.deep_view().take(paths@.len() as int) =~= paths.deep_view());
        }
        if found.len() == 0 {
            return None;
        }
        let mut files = found;
        let mut rest = copy_strings(&self.config_files);
        let ghost f = files.deep_view();
        let ghost r = rest.deep_view();
        files.append(&mut rest);
        proof {
            assert(files.deep_view() =~= f + r);
        }
        Some(files)
    }

    /// Puts the configuration read from `files` in use.
    pub fn use_config_files(&mut self, files: Vec<String>)
        ensures
            final(self)@.config_files == files.deep_view(),
            final(self)@.included_dirs == old(self)@.included_dirs,
            final(self)@.dirs_without_config == old(self)@.dirs_without_config,
    {
        self.config_files = files;
    }
}

/// Looking at directories keeps what was known, finds no fewer files, and where it finds
/// none, leaves every directory looked at known to lack a file.
proof fn lemma_look_at_dirs_facts(
    without: Seq<Seq<char>>,
    found: Seq<Seq<char>>,
    dirs: Seq<Seq<char>>,
    present: Seq<Seq<char>>,
)
    ensures
        look_at_dirs(without, found, dirs, present).1.len() >= found.len(),
        forall|x: Seq<char>|
            without.contains(x) ==> #[trigger] look_at_dirs(without, found, dirs, present).0.contains(
                x,
            ),
        look_at_dirs(without, found, dirs, present).1.len() == found.len() ==> forall|i: int|
            0 <= i < dirs.len() ==> look_at_dirs(without, found, dirs, present).0.contains(
                #[trigger] dirs[i],
            ),
    decreases dirs.len(),
{
    if dirs.len() > 0 {
        lemma_look_at_dirs_facts(without, found, dirs.drop_last(), present);
        let (w1, f1) = look_at_dirs(without, found, dirs.drop_last(), present);
        let a = dirs.last();
        if !present.contains(config_file_of(a)) {
            let w2 = set_insert(w1, a);
            if !w1.contains(a) {
                assert(w2[w1.len() as int] == a);
            }
            assert(w2.contains(a));
            assert forall|x: Seq<char>| w1.contains(x) implies w2.contains(x) by {
                if !w1.contains(a) {
                    let k = choose|k: int| 0 <= k < w1.len() && w1[k] == x;
                    assert(w2[k] == x);
                }
            }
            if look_at_dirs(without, found, dirs, present).1.len() == found.len() {
                assert forall|i: int| 0 <= i < dirs.len() implies w2.contains(#[trigger] dirs[i]) by {
                    if i < dirs.len() - 1 {
                        assert(dirs.drop_last()[i] == dirs[i]);
                    }
                }
            }
        }
    }
}

/// A path stays skipped when more directories become known to lack a file.
proof fn lemma_skipped_stays(
    included: Seq<Seq<char>>,
    without: Seq<Seq<char>>,
    more: Seq<Seq<char>>,
    path: Seq<char>,
)
    requires
        path_skipped(included, without, path),
        forall|x: Seq<char>| without.contains(x) ==> #[trigger] more.contains(x),
    ensures
        path_skipped(included, more, path),
{
}

/// Looking at a path keeps what was known, finds no fewer files, and where it finds none,
/// leaves the path skipped.
proof fn lemma_look_at_path_facts(
    included: Seq<Seq<char>>,
    without: Seq<Seq<char>>,
    found: Seq<Seq<char>>,
    path: Seq<char>,
    present: Seq<Seq<char>>,
)
    ensures
        look_at_path(included, without, found, path, present).1.len() >= found.len(),
        forall|x: Seq<char>|
            without.contains(x) ==> #[trigger] look_at_path(
                included,
                without,
                found,
                path,
                present,
            ).0.contains(x),
        look_at_path(included, without, found, path, present).1.len() == found.len()
            ==> path_skipped(included, look_at_path(included, without, found, path, present).0, path),
{
    if !path_skipped(included, without, path) {
        let dirs = spec_ancestors(path).reverse();
        lemma_look_at_dirs_facts(without, found, dirs, present);
        let w2 = look_at_dirs(without, found, dirs, present).0;
        if look_at_dirs(without, found, dirs, present).1.len() == found.len() {
            let anc = spec_ancestors(path);
            assert forall|i: int| 0 <= i < anc.len() implies w2.contains(#[trigger] anc[i]) by {
                assert(dirs[anc.len() - 1 - i] == anc[i]);
            }
        }
    }
}

/// Directories found without a configuration file are remembered: after a lookup that
/// finds no file, every path it looked at is skipped by later lookups, so its
/// directories are not looked at again.
pub proof fn lemma_lookup_remembers(
    included: Seq<Seq<char>>,
    without: Seq<Seq<char>>,
    paths: Seq<Seq<char>>,
    present: Seq<Seq<char>>,
)
    requires
        look_at_paths(included, without, paths, present).1.len() == 0,
    ensures
        forall|i: int|
            0 <= i < paths.len() ==> path_skipped(
                included,
                look_at_paths(included, without, paths, present).0,
                #[trigger] paths[i],
            ),
    decreases paths.len(),
{
    if paths.len() > 0 {
        let (w1, f1) = look_at_paths(included, without, paths.drop_last(), present);
        lemma_look_at_path_facts(included, w1, f1, paths.last(), present);
        let w2 = look_at_paths(included, without, paths, present).0;
        lemma_lookup_remembers(included, without, paths.drop_last(), present);
        assert forall|i: int| 0 <= i < paths.len() implies path_skipped(
            included,
            w2,
            #[trigger] paths[i],
        ) by {
            if i < paths.len() - 1 {
                assert(paths.drop_last()[i] == paths[i]);
                lemma_skipped_stays(included, w1, w2, paths[i]);
            }
        }
    }
}

} // verus!