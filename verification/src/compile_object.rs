//! What building one object file through the cache decides: how its source is
//! preprocessed, and under which name its local code is kept.

use vstd::prelude::*;
use crate::args_processing::{BuildObjectFileInfo, BuildObjectFileInfoView, spec_build_object_info};
use crate::code_language::{CodeLanguage, spec_to_preprocessed, spec_valid_ext};
use crate::error::{Error, ErrorView};
use crate::gcc_args::{spec_extract_local_code, spec_tokenize, spec_untokenize};
use crate::path_utils::{file_name, join, make_absolute, spec_file_name};
use crate::text::{chars_of, push_chars, push_str, utf8_bytes};

verus! {

/// The lowercase hexadecimal digit of a value below 16.
pub open spec fn hex_char(d: nat) -> char {
    seq!['0', '1', '2', '3', '4', '5', '6', '7', '8', '9', 'a', 'b', 'c', 'd', 'e', 'f'][d as int]
}

/// The lowercase hexadecimal digits of a number, most significant first, without
/// leading zeros.
pub open spec fn hex_digits(n: nat) -> Seq<char>
    decreases n,
{
    if n < 16 {
        seq![hex_char(n)]
    } else {
        hex_digits(n / 16).push(hex_char(n % 16))
    }
}

/// A number has two hexadecimal digits or more exactly when it is 16 or more.
pub proof fn lemma_hex_digits_len(n: nat)
    ensures
        hex_digits(n).len() >= 1,
        hex_digits(n).len() >= 2 <==> n >= 16,
    decreases n,
{
    if n >= 16 {
        lemma_hex_digits_len(n / 16);
    }
}

/// Appends the lowercase hexadecimal digits of `n` to `s`.
fn push_hex(s: &mut String, n: u64)
    ensures
        final(s)@ == old(s)@ + hex_digits(n as nat),
    decreases n,
{
    let digits = ['0', '1', '2', '3', '4', '5', '6', '7', '8', '9', 'a', 'b', 'c', 'd', 'e', 'f'];
    proof {
        assert(digits@ =~= seq![
            '0',
            '1',
            '2',
            '3',
            '4',
            '5',
            '6',
            '7',
            '8',
            '9',
            'a',
            'b',
            'c',
            'd',
            'e',
            'f',
        ]);
    }
    if n < 16 {
        s.push(digits[n as usize]);
        proof {
            assert(old(s)@.push(hex_char(n as nat)) =~= old(s)@ + hex_digits(n as nat));
        }
    } else {
        push_hex(s, n / 16);
        s.push(digits[(n % 16) as usize]);
        proof {
            assert((old(s)@ + hex_digits((n / 16) as nat)).push(hex_char((n % 16) as nat)) =~= old(
                s,
            )@ + hex_digits(n as nat));
        }
    }
}

/// The 64-bit xxHash of `data` with seed `seed`.
pub uninterp spec fn xxhash64(seed: u64, data: Seq<u8>) -> u64;

/// Calls `twox_hash::XxHash64::oneshot`: the 64-bit xxHash of the bytes with the given
/// seed, which depends on the seed and the bytes alone.
#[verifier::external_body]
fn xxhash64_oneshot(seed: u64, data: &[u8]) -> (res: u64)
    ensures
        res == xxhash64(seed, data@),
{
    twox_hash::XxHash64::oneshot(seed, data)
}

/// The hash under which local code is kept: at most the first eight hexadecimal digits
/// of its hash.
pub open spec fn short_hash(hash: u64) -> Seq<char> {
    let d = hex_digits(hash as nat);
    if d.len() <= 8 {
        d
    } else {
        d.take(8)
    }
}

/// The name of a source in the names of files derived from it: its file name, or
/// `unknown` where it has none.
pub open spec fn debug_name(source: Seq<char>) -> Seq<char> {
    match spec_file_name(source) {
        Some(n) => n,
        None => seq!['u', 'n', 'k', 'n', 'o', 'w', 'n'],
    }
}

/// The name of the file that keeps the local code of `source`, preprocessed into the
/// language `lang`, whose hash is `hash`: `HASH_NAME.EXT`.
pub open spec fn spec_local_code_file_name(hash: u64, source: Seq<char>, lang: CodeLanguage) -> Seq<
    char,
> {
    short_hash(hash) + seq!['_'] + debug_name(source) + seq!['.'] + spec_valid_ext(lang)
}

/// The file that keeps that local code: below `data_dir`, in `preprocessed`, in the
/// directory named by the first two digits of the hash.
pub open spec fn spec_local_code_file_path(
    data_dir: Seq<char>,
    hash: u64,
    source: Seq<char>,
    lang: CodeLanguage,
) -> Seq<char> {
    join(
        join(
            join(data_dir, seq!['p', 'r', 'e', 'p', 'r', 'o', 'c', 'e', 's', 's', 'e', 'd']),
            short_hash(hash).take(2),
        ),
        spec_local_code_file_name(hash, source, lang),
    )
}

/// The file `name` kept below `data_dir`, in the directory `category`, in the
/// subdirectory named by the first two characters of the name, so that no directory holds
/// too many files.
pub open spec fn spec_sharded_path(data_dir: Seq<char>, category: Seq<char>, name: Seq<char>) -> Seq<
    char,
> {
    join(join(join(data_dir, category), name.take(2)), name)
}

/// The file `name` kept below `data_dir`, in the directory `category`, in the
/// subdirectory named by the first two characters of the name, which must be ASCII.
pub fn sharded_path(data_dir: &str, category: &str, name: &str) -> (res: String)
    requires
        name@.len() >= 2,
        name@[0] <= '\x7f',
        name@[1] <= '\x7f',
    ensures
        res@ == spec_sharded_path(data_dir@, category@, name@),
{
    let nc = chars_of(name);
    let mut shard = String::new();
    shard.push(nc[0]);
    shard.push(nc[1]);
    proof {
        assert(shard@ =~= name@.take(2));
    }
    let dir = join_path(data_dir, category);
    let dir = join_path(dir.as_str(), shard.as_str());
    join_path(dir.as_str(), name)
}

/// The file that keeps local code is kept as the files of other categories are: in the
/// subdirectory named by the first two characters of its name.
pub proof fn lemma_local_code_path_is_sharded(
    data_dir: Seq<char>,
    hash: u64,
    source: Seq<char>,
    lang: CodeLanguage,
)
    requires
        hash >= 16,
    ensures
        spec_local_code_file_path(data_dir, hash, source, lang) == spec_sharded_path(
            data_dir,
            seq!['p', 'r', 'e', 'p', 'r', 'o', 'c', 'e', 's', 's', 'e', 'd'],
            spec_local_code_file_name(hash, source, lang),
        ),
{
    lemma_hex_digits_len(hash as nat);
    let name = spec_local_code_file_name(hash, source, lang);
    assert(name.take(2) =~= short_hash(hash).take(2));
}

/// The hash of local code: the xxHash, with seed 0, of its UTF-8 bytes.
pub open spec fn local_code_hash(local_code: Seq<char>) -> u64 {
    xxhash64(0, vstd::utf8::encode_utf8(local_code))
}

/// `path` joined to `base`.
fn join_path(base: &str, path: &str) -> (res: String)
    ensures
        res@ == join(base@, path@),
{
    make_absolute(base, path)
}

/// The name of the file that keeps the local code of `source`, whose hash is `hash`.
pub fn local_code_file_name(hash: u64, source: &str, lang: CodeLanguage) -> (res: String)
    ensures
        res@ == spec_local_code_file_name(hash, source@, lang),
{
    let mut digits = String::new();
    push_hex(&mut digits, hash);
    let dc = chars_of(digits.as_str());
    let mut res = String::new();
    let mut i: usize = 0;
    while i < dc.len() && i < 8
        invariant
            i <= dc@.len(),
            i <= 8,
            dc@ == hex_digits(hash as nat),
            res@ == dc@.take(i as int),
        decreases dc@.len() - i,
    {
        res.push(dc[i]);
        proof {
            assert(dc@.take(i + 1) =~= dc@.take(i as int).push(dc@[i as int]));
        }
        i = i + 1;
    }
    proof {
        if dc@.len() <= 8 {
            assert(dc@.take(dc@.len() as int) =~= dc@);
        }
        assert(res@ == short_hash(hash));
    }
    res.push('_');
    let sc = chars_of(source);
    match file_name(sc.as_slice()) {
        Some(n) => push_chars(&mut res, n.as_slice()),
        None => {
            push_str(&mut res, "unknown");
            proof {
                reveal_strlit("unknown");
            }
        },
    }
    res.push('.');
    push_str(&mut res, lang.to_valid_ext());
    proof {
        assert(res@ =~= spec_local_code_file_name(hash, source@, lang));
    }
    res
}

/// The file below `data_dir` that keeps the local code of `source`, whose hash is `hash`.
pub fn local_code_file_path_for_hash(
    data_dir: &str,
    hash: u64,
    source: &str,
    lang: CodeLanguage,
) -> (res: String)
    requires
        hash >= 16,
    ensures
        res@ == spec_local_code_file_path(data_dir@, hash, source@, lang),
{
    let name = local_code_file_name(hash, source, lang);
    let nc = chars_of(name.as_str());
    proof {
        lemma_hex_digits_len(hash as nat);
        assert(nc@.take(2) =~= short_hash(hash).take(2));
    }
    let mut shard = String::new();
    shard.push(nc[0]);
    shard.push(nc[1]);
    proof {
        reveal_strlit("preprocessed");
        assert(shard@ =~= short_hash(hash).take(2));
    }
    let dir = join_path(data_dir, "preprocessed");
    let dir = join_path(dir.as_str(), shard.as_str());
    join_path(dir.as_str(), name.as_str())
}

/// The file below `data_dir` that keeps the local code `local_code` of `source`; `None`
/// where the hash of the code has fewer than two hexadecimal digits, so that it names no
/// directory.
pub fn local_code_file_path(data_dir: &str, local_code: &str, source: &str, lang: CodeLanguage) -> (res:
    Option<String>)
    ensures
        match res {
            Some(p) => local_code_hash(local_code@) >= 16 && p@ == spec_local_code_file_path(
                data_dir@,
                local_code_hash(local_code@),
                source@,
                lang,
            ),
            None => local_code_hash(local_code@) < 16,
        },
{
    let bytes = utf8_bytes(local_code);
    let hash = xxhash64_oneshot(0, bytes.as_slice());
    if hash < 16 {
        None
    } else {
        Some(local_code_file_path_for_hash(data_dir, hash, source, lang))
    }
}

/// How a command that builds one object file is preprocessed.
pub struct PreprocessPlan {
    /// The source and object file of the command.
    pub info: BuildObjectFileInfo,
    /// The language of the preprocessed source.
    pub preprocessed_language: CodeLanguage,
    /// The arguments that print the preprocessed source with its definitions.
    pub preprocessing_args: Vec<String>,
}

/// A [`PreprocessPlan`] as a value of specifications.
pub struct PreprocessPlanView {
    pub info: BuildObjectFileInfoView,
    pub preprocessed_language: CodeLanguage,
    pub preprocessing_args: Seq<Seq<char>>,
}

impl View for PreprocessPlan {
    type V = PreprocessPlanView;

    open spec fn view(&self) -> PreprocessPlanView {
        PreprocessPlanView {
            info: self.info@,
            preprocessed_language: self.preprocessed_language,
            preprocessing_args: self.preprocessing_args.deep_view(),
        }
    }
}

/// How the gcc command run in `cwd` with `args` is preprocessed: what it builds, the
/// preprocessed language of its source, and its arguments changed to print the
/// preprocessed source with its definitions.
pub open spec fn spec_preprocess_plan(cwd: Seq<char>, args: Seq<Seq<char>>) -> Result<
    PreprocessPlanView,
    ErrorView,
> {
    match spec_build_object_info(cwd, args) {
        Err(e) => Err(e),
        Ok(info) => match spec_to_preprocessed(info.source_language) {
            None => Err(ErrorView::CannotPreprocess(info.source_language)),
            Some(pl) => match spec_tokenize(args) {
                Err(e) => Err(e),
                Ok(toks) => Ok(
                    PreprocessPlanView {
                        info,
                        preprocessed_language: pl,
                        preprocessing_args: spec_untokenize(spec_extract_local_code(toks)),
                    },
                ),
            },
        },
    }
}

/// How the gcc command run in `cwd` with `args`, which builds one object file, is
/// preprocessed.
pub fn plan_preprocess(cwd: &str, args: &[String]) -> (res: Result<PreprocessPlan, Error>)
    ensures
        match res {
            Ok(p) => spec_preprocess_plan(cwd@, args.deep_view()) == Ok::<
                PreprocessPlanView,
                ErrorView,
            >(p@),
            Err(e) => spec_preprocess_plan(cwd@, args.deep_view()) == Err::<
                PreprocessPlanView,
                ErrorView,
            >(e@),
        },
{
    let info = match BuildObjectFileInfo::from_gcc_args(cwd, args) {
        Ok(i) => i,
        Err(e) => {
            return Err(e);
        },
    };
    let preprocessed_language = match info.source_language.to_preprocessed() {
        Ok(l) => l,
        Err(e) => {
            return Err(e);
        },
    };
    let preprocessing_args = match crate::gcc_args::rewrite_to_extract_local_code(args) {
        Ok(a) => a,
        Err(e) => {
            return Err(e);
        },
    };
    Ok(PreprocessPlan { info, preprocessed_language, preprocessing_args })
}

} // verus!
