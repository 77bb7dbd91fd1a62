//! The code of a translation unit without its global headers: what the preprocessor
//! output holds of the source file and of its project's own headers, with line markers
//! that point back at them.

use vstd::prelude::*;
use crate::config::{Config, ConfigView, any_matches};
use crate::error::{Error, ErrorView};
use crate::path_utils::{make_absolute, spec_make_absolute};
use vstd::utf8::{decode_utf8, valid_utf8};
use bstr::ByteSlice;
use crate::text::{chars_of, chars_range, decimal, is_prefix_of, push_decimal, push_str, starts_with, string_of};

verus! {

/// The pieces of a byte string between its line ends (`\n`), in order; the last piece
/// follows the last line end.
pub open spec fn split_lines(s: Seq<u8>) -> Seq<Seq<u8>>
    decreases s.len(),
{
    if s.len() == 0 {
        seq![Seq::empty()]
    } else {
        let init = split_lines(s.drop_last());
        if s.last() == 10u8 {
            init.push(Seq::empty())
        } else {
            init.update(init.len() - 1, init.last().push(s.last()))
        }
    }
}

/// A character that `\s` matches: one with the Unicode property `White_Space`.
pub open spec fn is_space_char(c: char) -> bool {
    ('\t' <= c && c <= '\r') || c == ' ' || c == '\u{85}' || c == '\u{a0}' || c == '\u{1680}'
        || ('\u{2000}' <= c && c <= '\u{200a}') || c == '\u{2028}' || c == '\u{2029}' || c
        == '\u{202f}' || c == '\u{205f}' || c == '\u{3000}'
}

/// A Unicode word character, the ones that `\w` matches: as `regex_syntax` defines them, in
/// the `Alphabetic` or `Join_Control` properties or the `Decimal_Number`, `Mark` or
/// `Connector_Punctuation` general categories.
pub uninterp spec fn unicode_word_char(c: char) -> bool;

/// Calls `regex_syntax::is_word_character`: whether the character is a Unicode word
/// character. It depends on the character alone, and does not panic, as the crate's
/// `unicode-perl` feature is on by default.
#[verifier::external_body]
fn is_unicode_word_char(c: char) -> (res: bool)
    ensures
        res == unicode_word_char(c),
{
    regex_syntax::is_word_character(c)
}

/// A character that `\w` matches.
pub open spec fn is_word_char(c: char) -> bool {
    unicode_word_char(c)
}

/// The ranges of the character class that a regular expression denotes, as `regex_syntax`
/// parses it with its default options; `None` where it does not parse to one Unicode
/// class.
pub uninterp spec fn regex_class_ranges(pattern: Seq<char>) -> Option<Seq<(char, char)>>;

/// Calls `regex_syntax::parse` on a pattern and hands out the ranges of the Unicode class
/// that it parses to; `None` where it does not parse to one.
#[verifier::external_body]
fn class_ranges(pattern: &str) -> (res: Option<Vec<(char, char)>>)
    ensures
        match res {
            Some(v) => regex_class_ranges(pattern@) == Some(v@),
            None => regex_class_ranges(pattern@) is None,
        },
{
    match regex_syntax::parse(pattern) {
        Ok(hir) => match hir.kind() {
            regex_syntax::hir::HirKind::Class(regex_syntax::hir::Class::Unicode(c)) => {
                Some(c.ranges().iter().map(|r| (r.start(), r.end())).collect())
            },
            _ => None,
        },
        Err(_) => None,
    }
}

/// The ranges of the characters that `\d` matches: the Unicode decimal digits.
pub open spec fn digit_ranges() -> Seq<(char, char)> {
    match regex_class_ranges(seq!['\\', 'd']) {
        Some(rs) => rs,
        None => Seq::empty(),
    }
}

/// `c` lies in one of the ranges.
pub open spec fn in_ranges(rs: Seq<(char, char)>, c: char) -> bool {
    exists|i: int| 0 <= i < rs.len() && (#[trigger] rs[i]).0 <= c && c <= rs[i].1
}

/// A character that `\d` matches.
pub open spec fn is_digit_char(c: char) -> bool {
    in_ranges(digit_ranges(), c)
}

/// An ASCII decimal digit, the only digits that a number is read from.
pub open spec fn is_ascii_digit(c: char) -> bool {
    '0' <= c && c <= '9'
}

/// Every character is an ASCII decimal digit.
pub open spec fn all_ascii_digits(d: Seq<char>) -> bool {
    forall|i: int| 0 <= i < d.len() ==> is_ascii_digit(#[trigger] d[i])
}

/// The kinds of characters that the scanners skip over.
pub enum CharKind {
    Space,
    Word,
    Digit,
}

/// `c` is of kind `k`.
pub open spec fn of_kind(c: char, k: CharKind) -> bool {
    match k {
        CharKind::Space => is_space_char(c),
        CharKind::Word => is_word_char(c),
        CharKind::Digit => is_digit_char(c),
    }
}

/// The end of the run of characters of kind `k` from `i` on.
pub open spec fn run_end(s: Seq<char>, i: int, k: CharKind) -> int
    decreases s.len() - i,
{
    if i < 0 || i >= s.len() || !of_kind(s[i], k) {
        i
    } else {
        run_end(s, i + 1, k)
    }
}

/// The name that a line `#define NAME ...` defines: after `#define` and spaces, the
/// longest run of word characters, which must not be empty.
pub open spec fn macro_name(line: Seq<char>) -> Option<Seq<char>> {
    let a = run_end(line, 7, CharKind::Space);
    let b = run_end(line, a, CharKind::Word);
    if is_prefix_of(seq!['#', 'd', 'e', 'f', 'i', 'n', 'e'], line) && a > 7 && b > a {
        Some(line.subrange(a, b))
    } else {
        None
    }
}

/// The value of a run of decimal digits.
pub open spec fn digits_value(d: Seq<char>) -> nat
    decreases d.len(),
{
    if d.len() == 0 {
        0
    } else {
        digits_value(d.drop_last()) * 10 + (d.last() as nat - '0' as nat) as nat
    }
}

/// The position of the last `"`.
pub open spec fn last_quote(s: Seq<char>) -> Option<int>
    decreases s.len(),
{
    if s.len() == 0 {
        None
    } else if s.last() == '"' {
        Some(s.len() - 1)
    } else {
        last_quote(s.drop_last())
    }
}

/// A line marker `# N "NAME"` starts at `p`: `# `, digits, a space, a quote, and a
/// later quote.
pub open spec fn marker_at(s: Seq<char>, p: int) -> bool {
    let k = run_end(s, p + 2, CharKind::Digit);
    &&& 0 <= p && p + 1 < s.len() && s[p] == '#' && s[p + 1] == ' '
    &&& k > p + 2
    &&& k + 1 < s.len() && s[k] == ' ' && s[k + 1] == '"'
    &&& last_quote(s) matches Some(q) && q > k + 1
}

/// The first position from `p` on where a line marker starts.
pub open spec fn first_marker(s: Seq<char>, p: int) -> Option<int>
    decreases s.len() - p,
{
    if p < 0 || p >= s.len() {
        None
    } else if marker_at(s, p) {
        Some(p)
    } else {
        first_marker(s, p + 1)
    }
}

/// The up to `n` flag digits after `i`: each after optional spaces, a digit or nothing.
pub open spec fn marker_flags(s: Seq<char>, i: int, n: nat) -> Seq<char>
    decreases n,
{
    if n == 0 {
        Seq::empty()
    } else {
        let j = run_end(s, i, CharKind::Space);
        if 0 <= j < s.len() && is_digit_char(s[j]) {
            seq![s[j]] + marker_flags(s, j + 1, (n - 1) as nat)
        } else {
            marker_flags(s, j, (n - 1) as nat)
        }
    }
}

/// What a line marker says: the line number, the file, and whether the file starts
/// (flag 1) or is returned to (flag 2).
pub struct LineMarkerView {
    pub line_number: nat,
    pub header_name: Seq<char>,
    pub is_start_of_new_file: bool,
    pub is_return_to_file: bool,
}

/// The line marker that a line holds: the first `# N "NAME"` in it, `NAME` running to
/// the last quote of the line; `None` where there is none, where `N` is not written in
/// ASCII digits or does not fit a `usize`, or where a flag is a digit outside ASCII.
pub open spec fn spec_parse_line_marker(s: Seq<char>) -> Option<LineMarkerView> {
    match first_marker(s, 0) {
        None => None,
        Some(p) => {
            let k = run_end(s, p + 2, CharKind::Digit);
            let n = digits_value(s.subrange(p + 2, k));
            match last_quote(s) {
                None => None,
                Some(q) => if !all_ascii_digits(s.subrange(p + 2, k)) || n > usize::MAX {
                    None
                } else {
                    let flags = marker_flags(s, q + 1, 4);
                    if !all_ascii_digits(flags) {
                        None
                    } else {
                        Some(
                            LineMarkerView {
                                line_number: n,
                                header_name: s.subrange(k + 2, q),
                                is_start_of_new_file: flags.contains('1'),
                                is_return_to_file: flags.contains('2'),
                            },
                        )
                    }
                },
            }
        },
    }
}

/// What has been read of the preprocessed code: the local code written so far, the files
/// entered, how many of them are local, where the last line marker written starts while
/// only blank lines follow it, and the global includes and include definitions found.
pub struct LocalState {
    pub out: Seq<char>,
    pub stack: Seq<Seq<char>>,
    pub local_depth: nat,
    pub revertable: Option<nat>,
    pub global_includes: Seq<Seq<char>>,
    pub include_defines: Seq<Seq<char>>,
}

/// The state before the first line.
pub open spec fn initial_local_state() -> LocalState {
    LocalState {
        out: "#pragma GCC diagnostic push\n"@,
        stack: Seq::empty(),
        local_depth: 0,
        revertable: None,
        global_includes: Seq::empty(),
        include_defines: Seq::empty(),
    }
}

/// The line is empty once ASCII white space is taken off.
pub open spec fn is_blank_line(line: Seq<char>) -> bool {
    forall|i: int|
        0 <= i < line.len() ==> (#[trigger] line[i] == ' ' || line[i] == '\t' || line[i] == '\n'
            || line[i] == '\x0C' || line[i] == '\r')
}

/// The line marker written into the local code.
pub open spec fn marker_text(line_number: nat, path: Seq<char>) -> Seq<char> {
    seq!['#', ' '] + decimal(line_number) + seq![' ', '"'] + path + seq!['"', '\n']
}

/// What a line marker does: a file starts (global where it is entered from local code
/// and is not a local header) or is returned to; then, where the code is local, the marker
/// is written, replacing the previous marker where only blank lines followed it.
pub open spec fn marker_step(
    config: ConfigView,
    source: Seq<char>,
    st: LocalState,
    lm: LineMarkerView,
) -> LocalState {
    let is_local = st.stack.len() == st.local_depth;
    let header = lm.header_name;
    let entered = if lm.is_start_of_new_file {
        let local_header = any_matches(config.local_header_patterns, header);
        LocalState {
            local_depth: if is_local && local_header {
                st.local_depth + 1
            } else {
                st.local_depth
            },
            global_includes: if is_local && !local_header {
                st.global_includes.push(header)
            } else {
                st.global_includes
            },
            stack: st.stack.push(header),
            ..st
        }
    } else if lm.is_return_to_file {
        let stack = if st.stack.len() > 0 {
            st.stack.drop_last()
        } else {
            st.stack
        };
        LocalState {
            stack,
            local_depth: if st.local_depth <= stack.len() {
                st.local_depth
            } else {
                stack.len()
            },
            ..st
        }
    } else {
        st
    };
    if entered.stack.len() == entered.local_depth {
        let kept = match entered.revertable {
            Some(len) => if len <= entered.out.len() {
                entered.out.take(len as int)
            } else {
                entered.out
            },
            None => entered.out,
        };
        let path = if entered.stack.len() > 0 {
            entered.stack.last()
        } else {
            source
        };
        LocalState {
            revertable: Some(kept.len()),
            out: kept + marker_text(lm.line_number, path),
            ..entered
        }
    } else {
        entered
    }
}

/// What one line of the preprocessed code does.
pub open spec fn local_step(
    config: ConfigView,
    source: Seq<char>,
    st: LocalState,
    line: Seq<char>,
) -> LocalState {
    let is_local = st.stack.len() == st.local_depth;
    if is_prefix_of(seq!['#', 'd', 'e', 'f', 'i', 'n', 'e', ' '], line) {
        match macro_name(line) {
            Some(name) => if is_local && config.include_defines.contains(name) {
                LocalState { include_defines: st.include_defines.push(line), ..st }
            } else {
                st
            },
            None => st,
        }
    } else if is_prefix_of(seq!['#', 'u', 'n', 'd', 'e', 'f', ' '], line) {
        st
    } else if is_prefix_of(seq!['#', ' '], line) {
        match spec_parse_line_marker(line) {
            None => st,
            Some(lm) => marker_step(config, source, st, lm),
        }
    } else if is_local {
        LocalState {
            out: st.out + line + seq!['\n'],
            revertable: if is_blank_line(line) {
                st.revertable
            } else {
                None
            },
            ..st
        }
    } else {
        st
    }
}

/// The text that `bstr` writes for a byte string through `Display`: its valid UTF-8 as
/// it stands, each invalid part replaced by U+FFFD.
pub uninterp spec fn utf8_lossy(bytes: Seq<u8>) -> Seq<char>;

/// Calls `bstr`'s `Display` for `BStr`: the text of a byte string, with each invalid
/// UTF-8 part replaced by U+FFFD.
#[verifier::external_body]
fn lossy_text(bytes: &[u8]) -> (res: String)
    ensures
        res@ == utf8_lossy(bytes@),
{
    format!("{}", bytes.as_bstr())
}

/// Calls std's `str::from_utf8`: the text of a byte string where it is valid UTF-8, and
/// `None` where it is not.
#[verifier::external_body]
fn utf8_text(bytes: &[u8]) -> (res: Option<String>)
    ensures
        res is Some <==> valid_utf8(bytes@),
        res matches Some(t) ==> t@ == decode_utf8(bytes@),
{
    match std::str::from_utf8(bytes) {
        Ok(t) => Some(t.to_owned()),
        Err(_) => None,
    }
}

/// `p` starts the byte string `s`.
pub open spec fn is_byte_prefix(p: Seq<u8>, s: Seq<u8>) -> bool {
    p.len() <= s.len() && s.take(p.len() as int) == p
}

/// The bytes are all ASCII white space.
pub open spec fn is_blank_bytes(line: Seq<u8>) -> bool {
    forall|i: int|
        0 <= i < line.len() ==> (#[trigger] line[i] == 32u8 || line[i] == 9u8 || line[i] == 10u8
            || line[i] == 12u8 || line[i] == 13u8)
}

/// What a line that is not valid UTF-8 does: a `#define`, `#undef` or line marker line
/// is passed over, as none of them can be read; any other line is written, as far as it
/// can be shown, where the code is local.
pub open spec fn invalid_line_step(st: LocalState, line: Seq<u8>) -> LocalState {
    if is_byte_prefix(seq![35u8, 100u8, 101u8, 102u8, 105u8, 110u8, 101u8, 32u8], line)
        || is_byte_prefix(seq![35u8, 117u8, 110u8, 100u8, 101u8, 102u8, 32u8], line)
        || is_byte_prefix(seq![35u8, 32u8], line) {
        st
    } else if st.stack.len() == st.local_depth {
        LocalState {
            out: st.out + utf8_lossy(line) + seq!['\n'],
            revertable: if is_blank_bytes(line) {
                st.revertable
            } else {
                None
            },
            ..st
        }
    } else {
        st
    }
}

/// What one line of the preprocessed code, as bytes, does: a line of valid UTF-8 is read
/// as its text.
pub open spec fn line_step(
    config: ConfigView,
    source: Seq<char>,
    st: LocalState,
    line: Seq<u8>,
) -> LocalState {
    if valid_utf8(line) {
        local_step(config, source, st, decode_utf8(line))
    } else {
        invalid_line_step(st, line)
    }
}

/// The state after the lines.
pub open spec fn local_run(config: ConfigView, source: Seq<char>, lines: Seq<Seq<u8>>) -> LocalState
    decreases lines.len(),
{
    if lines.len() == 0 {
        initial_local_state()
    } else {
        line_step(config, source, local_run(config, source, lines.drop_last()), lines.last())
    }
}

/// The line that opens the local code.
pub open spec fn push_line() -> Seq<char> {
    "#pragma GCC diagnostic push\n"@
}

/// The line that closes the local code.
pub open spec fn pop_line() -> Seq<char> {
    "#pragma GCC diagnostic pop\n"@
}

/// What is written so far starts with the opening line, and a marker that may be taken
/// back lies after it.
pub open spec fn framed(st: LocalState) -> bool {
    &&& is_prefix_of(push_line(), st.out)
    &&& (st.revertable matches Some(l) ==> push_line().len() <= l)
}

/// Every definition kept is a `#define` line of a name that the configuration lists.
pub open spec fn defines_configured(config: ConfigView, defines: Seq<Seq<char>>) -> bool {
    forall|i: int|
        0 <= i < defines.len() ==> {
            &&& is_prefix_of(seq!['#', 'd', 'e', 'f', 'i', 'n', 'e', ' '], #[trigger] defines[i])
            &&& macro_name(defines[i]) is Some
            &&& config.include_defines.contains(macro_name(defines[i])->0)
        }
}

proof fn lemma_prefix_extends(p: Seq<char>, s: Seq<char>, t: Seq<char>)
    requires
        is_prefix_of(p, s),
    ensures
        is_prefix_of(p, s + t),
{
    assert((s + t).take(p.len() as int) =~= s.take(p.len() as int));
}

proof fn lemma_prefix_take(p: Seq<char>, s: Seq<char>, l: int)
    requires
        is_prefix_of(p, s),
        p.len() <= l <= s.len(),
    ensures
        is_prefix_of(p, s.take(l)),
{
    assert(s.take(l).take(p.len() as int) =~= s.take(p.len() as int));
}

/// One line keeps the local code framed and its definitions configured.
proof fn lemma_step_keeps(config: ConfigView, source: Seq<char>, st: LocalState, line: Seq<char>)
    requires
        framed(st),
        defines_configured(config, st.include_defines),
    ensures
        framed(local_step(config, source, st, line)),
        defines_configured(config, local_step(config, source, st, line).include_defines),
{
    let next = local_step(config, source, st, line);
    if is_prefix_of(seq!['#', 'd', 'e', 'f', 'i', 'n', 'e', ' '], line) {
        assert forall|i: int| 0 <= i < next.include_defines.len() implies {
            &&& is_prefix_of(seq!['#', 'd', 'e', 'f', 'i', 'n', 'e', ' '], #[trigger] next.include_defines[i])
            &&& macro_name(next.include_defines[i]) is Some
            &&& config.include_defines.contains(macro_name(next.include_defines[i])->0)
        } by {
            if i < st.include_defines.len() {
                assert(next.include_defines[i] == st.include_defines[i]);
            }
        }
    } else if is_prefix_of(seq!['#', 'u', 'n', 'd', 'e', 'f', ' '], line) {
    } else if is_prefix_of(seq!['#', ' '], line) {
        match spec_parse_line_marker(line) {
            None => {},
            Some(lm) => {
                let is_local = st.stack.len() == st.local_depth;
                let entered = if lm.is_start_of_new_file {
                    let local_header = any_matches(config.local_header_patterns, lm.header_name);
                    LocalState {
                        local_depth: if is_local && local_header {
                            st.local_depth + 1
                        } else {
                            st.local_depth
                        },
                        global_includes: if is_local && !local_header {
                            st.global_includes.push(lm.header_name)
                        } else {
                            st.global_includes
                        },
                        stack: st.stack.push(lm.header_name),
                        ..st
                    }
                } else if lm.is_return_to_file {
                    let stack = if st.stack.len() > 0 {
                        st.stack.drop_last()
                    } else {
                        st.stack
                    };
                    LocalState {
                        stack,
                        local_depth: if st.local_depth <= stack.len() {
                            st.local_depth
                        } else {
                            stack.len()
                        },
                        ..st
                    }
                } else {
                    st
                };
                assert(entered.out == st.out && entered.revertable == st.revertable);
                assert(entered.include_defines == st.include_defines);
                if entered.stack.len() == entered.local_depth {
                    let kept = match entered.revertable {
                        Some(len) => if len <= entered.out.len() {
                            entered.out.take(len as int)
                        } else {
                            entered.out
                        },
                        None => entered.out,
                    };
                    match entered.revertable {
                        Some(len) => if len <= entered.out.len() {
                            lemma_prefix_take(push_line(), entered.out, len as int);
                        },
                        None => {},
                    }
                    let path = if entered.stack.len() > 0 {
                        entered.stack.last()
                    } else {
                        source
                    };
                    lemma_prefix_extends(push_line(), kept, marker_text(lm.line_number, path));
                }
            },
        }
    } else if st.stack.len() == st.local_depth {
        lemma_prefix_extends(push_line(), st.out, line + seq!['\n']);
        assert(st.out + line + seq!['\n'] =~= st.out + (line + seq!['\n']));
    }
}

/// One line, as bytes, keeps the local code framed and its definitions configured.
proof fn lemma_line_step_keeps(config: ConfigView, source: Seq<char>, st: LocalState, line: Seq<u8>)
    requires
        framed(st),
        defines_configured(config, st.include_defines),
    ensures
        framed(line_step(config, source, st, line)),
        defines_configured(config, line_step(config, source, st, line).include_defines),
{
    if valid_utf8(line) {
        lemma_step_keeps(config, source, st, decode_utf8(line));
    } else if st.stack.len() == st.local_depth {
        lemma_prefix_extends(push_line(), st.out, utf8_lossy(line) + seq!['\n']);
        assert(st.out + utf8_lossy(line) + seq!['\n'] =~= st.out + (utf8_lossy(line) + seq!['\n']));
    }
}

/// Every state that the lines lead to keeps the local code framed and its definitions
/// configured.
proof fn lemma_run_keeps(config: ConfigView, source: Seq<char>, lines: Seq<Seq<u8>>)
    ensures
        framed(local_run(config, source, lines)),
        defines_configured(config, local_run(config, source, lines).include_defines),
    decreases lines.len(),
{
    if lines.len() == 0 {
        assert(push_line().take(push_line().len() as int) =~= push_line());
    } else {
        lemma_run_keeps(config, source, lines.drop_last());
        lemma_line_step_keeps(
            config,
            source,
            local_run(config, source, lines.drop_last()),
            lines.last(),
        );
    }
}

/// The local code always opens with `#pragma GCC diagnostic push` and closes with
/// `#pragma GCC diagnostic pop`, and every definition kept from the source is a
/// `#define` line of a name that the configuration lists as changing global headers.
pub proof fn lemma_local_code_shape(
    config: ConfigView,
    code: Seq<u8>,
    source: Seq<char>,
    dir: Seq<char>,
)
    ensures
        is_prefix_of(push_line(), local_code_in_dir(config, code, source, dir).local_code),
        local_code_in_dir(config, code, source, dir).local_code.len() >= pop_line().len(),
        local_code_in_dir(config, code, source, dir).local_code.skip(
            local_code_in_dir(config, code, source, dir).local_code.len() - pop_line().len(),
        ) == pop_line(),
        defines_configured(config, local_code_in_dir(config, code, source, dir).include_defines),
{
    let st = local_run(config, source, split_lines(code));
    lemma_run_keeps(config, source, split_lines(code));
    lemma_prefix_extends(push_line(), st.out, pop_line());
    let out = st.out + pop_line();
    assert(out.skip(out.len() - pop_line().len()) =~= pop_line());
}

/// The directory of a path, as std's `Path::parent` gives it; `None` for a root or an
/// empty path.
pub uninterp spec fn path_parent(p: Seq<char>) -> Option<Seq<char>>;

/// Calls std's `Path::parent`: the directory of the path. The parent of a path given as a
/// string is a string again, so the conversion back loses nothing.
#[verifier::external_body]
pub(crate) fn parent_of(p: &str) -> (res: Option<String>)
    ensures
        res.deep_view() == path_parent(p@),
{
    match std::path::Path::new(p).parent() {
        Some(d) => Some(d.to_string_lossy().into_owned()),
        None => None,
    }
}

/// The local code of a translation unit, as values of specifications.
pub struct LocalCodeView {
    pub local_code: Seq<char>,
    pub global_includes: Seq<Seq<char>>,
    pub include_defines: Seq<Seq<char>>,
}

/// The local code of the preprocessed code `code` of the source file `source`, whose
/// directory is `dir`: its lines read in order, between `#pragma GCC diagnostic push` and
/// `pop`; the global includes taken relative to `dir`.
pub open spec fn local_code_in_dir(
    config: ConfigView,
    code: Seq<u8>,
    source: Seq<char>,
    dir: Seq<char>,
) -> LocalCodeView {
    let st = local_run(config, source, split_lines(code));
    LocalCodeView {
        local_code: st.out + "#pragma GCC diagnostic pop\n"@,
        global_includes: st.global_includes.map_values(|p: Seq<char>| spec_make_absolute(dir, p)),
        include_defines: st.include_defines,
    }
}

/// The local code of the preprocessed code `code` of the source file `source`; an error
/// where the source path has no directory.
pub open spec fn spec_local_code(config: ConfigView, code: Seq<u8>, source: Seq<char>) -> Result<
    LocalCodeView,
    ErrorView,
> {
    match path_parent(source) {
        None => Err(ErrorView::NoSourceDirectory),
        Some(dir) => Ok(local_code_in_dir(config, code, source, dir)),
    }
}

/// The code of a translation unit without its global headers.
#[derive(Debug, Default)]
pub struct LocalCode {
    /// The preprocessed code of the source file and of the project's own headers.
    pub local_code: String,
    /// The headers from outside the project that the file includes.
    pub global_includes: Vec<String>,
    /// The definitions in the file that change headers that are otherwise global.
    pub include_defines: Vec<String>,
}

impl View for LocalCode {
    type V = LocalCodeView;

    open spec fn view(&self) -> LocalCodeView {
        LocalCodeView {
            local_code: self.local_code@,
            global_includes: self.global_includes.deep_view(),
            include_defines: self.include_defines.deep_view(),
        }
    }
}

/// The ranges of the characters that `\d` matches.
fn digit_ranges_exec() -> (res: Vec<(char, char)>)
    ensures
        res@ == digit_ranges(),
{
    let pattern = "\\d";
    proof {
        reveal_strlit("\\d");
        assert(pattern@ =~= seq!['\\', 'd']);
    }
    match class_ranges(pattern) {
        Some(v) => v,
        None => Vec::new(),
    }
}

/// `c` lies in one of the ranges.
fn in_ranges_exec(rs: &[(char, char)], c: char) -> (res: bool)
    ensures
        res == in_ranges(rs@, c),
{
    let mut i: usize = 0;
    while i < rs.len()
        invariant
            i <= rs@.len(),
            forall|j: int| 0 <= j < i ==> !((#[trigger] rs@[j]).0 <= c && c <= rs@[j].1),
        decreases rs@.len() - i,
    {
        let (lo, hi) = rs[i];
        if lo <= c && c <= hi {
            return true;
        }
        i = i + 1;
    }
    false
}

/// `c` is of kind `k`; `digits` are the ranges of the digits.
fn of_kind_exec(c: char, k: &CharKind, digits: &[(char, char)]) -> (res: bool)
    requires
        *k is Digit ==> digits@ == digit_ranges(),
    ensures
        res == of_kind(c, *k),
{
    match k {
        CharKind::Space => ('\t' <= c && c <= '\r') || c == ' ' || c == '\u{85}' || c == '\u{a0}'
            || c == '\u{1680}' || ('\u{2000}' <= c && c <= '\u{200a}') || c == '\u{2028}' || c
            == '\u{2029}' || c == '\u{202f}' || c == '\u{205f}' || c == '\u{3000}',
        CharKind::Word => is_unicode_word_char(c),
        CharKind::Digit => in_ranges_exec(digits, c),
    }
}

/// The end of the run of characters of kind `k` from `i` on; `digits` are the ranges of
/// the digits.
fn run_end_exec(s: &[char], i: usize, k: &CharKind, digits: &[(char, char)]) -> (res: usize)
    requires
        i <= s@.len(),
        *k is Digit ==> digits@ == digit_ranges(),
    ensures
        res == run_end(s@, i as int, *k),
        i <= res <= s@.len(),
        forall|j: int| i <= j < res ==> of_kind(#[trigger] s@[j], *k),
{
    let mut j = i;
    while j < s.len() && of_kind_exec(s[j], k, digits)
        invariant
            i <= j <= s@.len(),
            *k is Digit ==> digits@ == digit_ranges(),
            run_end(s@, i as int, *k) == run_end(s@, j as int, *k),
            forall|m: int| i <= m < j ==> of_kind(#[trigger] s@[m], *k),
        decreases s@.len() - j,
    {
        j = j + 1;
    }
    j
}

/// The position of the last `"`.
fn last_quote_exec(s: &[char]) -> (res: Option<usize>)
    ensures
        match res {
            Some(q) => last_quote(s@) == Some(q as int) && q < s@.len(),
            None => last_quote(s@) is None,
        },
{
    let mut j = s.len();
    proof {
        assert(s@.take(s@.len() as int) =~= s@);
    }
    while j > 0
        invariant
            j <= s@.len(),
            last_quote(s@) == last_quote(s@.take(j as int)),
        decreases j,
    {
        proof {
            assert(s@.take(j as int).drop_last() =~= s@.take(j - 1));
        }
        if s[j - 1] == '"' {
            return Some(j - 1);
        }
        j = j - 1;
    }
    None
}

/// The pieces of the byte string between its line ends.
fn split_lines_exec(s: &[u8]) -> (res: Vec<Vec<u8>>)
    ensures
        res.deep_view() == split_lines(s@),
{
    let mut done: Vec<Vec<u8>> = Vec::new();
    let mut cur: Vec<u8> = Vec::new();
    let mut i: usize = 0;
    proof {
        assert(s@.take(0) =~= Seq::<u8>::empty());
        assert(done.deep_view().push(cur@) =~= split_lines(s@.take(0)));
    }
    while i < s.len()
        invariant
            i <= s@.len(),
            done.deep_view().push(cur@) == split_lines(s@.take(i as int)),
        decreases s@.len() - i,
    {
        let c = s[i];
        proof {
            assert(s@.take(i + 1).drop_last() =~= s@.take(i as int));
        }
        let ghost before = done.deep_view();
        if c == 10u8 {
            let line = cur;
            done.push(line);
            cur = Vec::new();
            proof {
                assert(line.deep_view() =~= line@);
                assert(done.deep_view() =~= before.push(line@));
                assert(done.deep_view().push(cur@) =~= split_lines(s@.take(i + 1)));
            }
        } else {
            let ghost old_cur = cur@;
            cur.push(c);
            proof {
                assert(done.deep_view().push(cur@) =~= before.push(old_cur).update(
                    before.len() as int,
                    old_cur.push(c),
                ));
            }
        }
        i = i + 1;
    }
    proof {
        assert(s@.take(s@.len() as int) =~= s@);
    }
    let ghost before = done.deep_view();
    let ghost last = cur@;
    done.push(cur);
    proof {
        assert(done@[done@.len() - 1].deep_view() =~= last);
        assert(done.deep_view() =~= before.push(last));
    }
    done
}

/// A line marker as the scanner reads it.
struct LineMarker {
    line_number: usize,
    header_name: String,
    is_start_of_new_file: bool,
    is_return_to_file: bool,
}

impl View for LineMarker {
    type V = LineMarkerView;

    closed spec fn view(&self) -> LineMarkerView {
        LineMarkerView {
            line_number: self.line_number as nat,
            header_name: self.header_name@,
            is_start_of_new_file: self.is_start_of_new_file,
            is_return_to_file: self.is_return_to_file,
        }
    }
}

/// Without a quote in the line no line marker starts anywhere in it.
proof fn lemma_no_marker_without_quote(s: Seq<char>, p: int)
    requires
        last_quote(s) is None,
    ensures
        first_marker(s, p) is None,
    decreases s.len() - p,
{
    if 0 <= p < s.len() {
        lemma_no_marker_without_quote(s, p + 1);
    }
}

/// The first position where a line marker starts; `q` is the last quote of the line.
fn first_marker_exec(s: &[char], q: usize, digits: &[(char, char)]) -> (res: Option<usize>)
    requires
        last_quote(s@) == Some(q as int),
        digits@ == digit_ranges(),
    ensures
        match res {
            Some(p) => first_marker(s@, 0) == Some(p as int) && marker_at(s@, p as int),
            None => first_marker(s@, 0) is None,
        },
{
    let mut p: usize = 0;
    while p < s.len()
        invariant
            p <= s@.len(),
            last_quote(s@) == Some(q as int),
            digits@ == digit_ranges(),
            first_marker(s@, 0) == first_marker(s@, p as int),
        decreases s@.len() - p,
    {
        if p + 1 < s.len() && s[p] == '#' && s[p + 1] == ' ' {
            let k = run_end_exec(s, p + 2, &CharKind::Digit, digits);
            if k > p + 2 && k < s.len() && s.len() - k > 1 && s[k] == ' ' && s[k + 1] == '"' && q
                > k && q - k > 1 {
                return Some(p);
            }
        }
        p = p + 1;
    }
    None
}

/// A longer run of digits has a value at least as large.
proof fn lemma_digits_value_grows(s: Seq<char>, a: int, i: int, b: int)
    requires
        0 <= a <= i <= b <= s.len(),
        forall|j: int| a <= j < b ==> is_ascii_digit(#[trigger] s[j]),
    ensures
        digits_value(s.subrange(a, i)) <= digits_value(s.subrange(a, b)),
    decreases b - i,
{
    if i < b {
        lemma_digits_value_grows(s, a, i, b - 1);
        assert(s.subrange(a, b).drop_last() =~= s.subrange(a, b - 1));
        assert(is_ascii_digit(s[b - 1]));
    }
}

/// The value of the digits of `s` from `a` up to `b`; `None` where it does not fit a
/// `usize`.
fn digits_value_exec(s: &[char], a: usize, b: usize) -> (res: Option<usize>)
    requires
        a <= b <= s@.len(),
        forall|j: int| a <= j < b ==> is_ascii_digit(#[trigger] s@[j]),
    ensures
        match res {
            Some(v) => v == digits_value(s@.subrange(a as int, b as int)),
            None => digits_value(s@.subrange(a as int, b as int)) > usize::MAX,
        },
{
    let mut v: usize = 0;
    let mut i: usize = a;
    proof {
        assert(s@.subrange(a as int, a as int) =~= Seq::<char>::empty());
    }
    while i < b
        invariant
            a <= i <= b <= s@.len(),
            forall|j: int| a <= j < b ==> is_ascii_digit(#[trigger] s@[j]),
            v == digits_value(s@.subrange(a as int, i as int)),
        decreases b - i,
    {
        proof {
            assert(s@.subrange(a as int, i + 1).drop_last() =~= s@.subrange(a as int, i as int));
            assert(is_ascii_digit(s@[i as int]));
        }
        let d = (s[i] as u32) - ('0' as u32);
        let next = match v.checked_mul(10) {
            Some(t) => t.checked_add(d as usize),
            None => None,
        };
        match next {
            Some(w) => {
                v = w;
            },
            None => {
                proof {
                    lemma_digits_value_grows(s@, a as int, i + 1, b as int);
                }
                return None;
            },
        }
        i = i + 1;
    }
    Some(v)
}

/// The flag digits of a line marker: up to `n` of them from `i` on.
fn marker_flags_exec(s: &[char], i: usize, n: usize, digits: &[(char, char)]) -> (res: Vec<char>)
    requires
        i <= s@.len(),
        digits@ == digit_ranges(),
    ensures
        res@ == marker_flags(s@, i as int, n as nat),
    decreases n,
{
    if n == 0 {
        return Vec::new();
    }
    let j = run_end_exec(s, i, &CharKind::Space, digits);
    if j < s.len() && in_ranges_exec(digits, s[j]) {
        let mut r: Vec<char> = Vec::new();
        r.push(s[j]);
        let mut rest = marker_flags_exec(s, j + 1, n - 1, digits);
        r.append(&mut rest);
        r
    } else {
        marker_flags_exec(s, j, n - 1, digits)
    }
}

/// `c` is among the characters of `v`.
fn has_char(v: &[char], c: char) -> (res: bool)
    ensures
        res == v@.contains(c),
{
    let mut i: usize = 0;
    while i < v.len()
        invariant
            i <= v@.len(),
            forall|j: int| 0 <= j < i ==> v@[j] != c,
        decreases v@.len() - i,
    {
        if v[i] == c {
            return true;
        }
        i = i + 1;
    }
    false
}

/// The characters of `s` from `a` up to `b` are all ASCII decimal digits.
fn ascii_digits_exec(s: &[char], a: usize, b: usize) -> (res: bool)
    requires
        a <= b <= s@.len(),
    ensures
        res == all_ascii_digits(s@.subrange(a as int, b as int)),
{
    let mut i = a;
    while i < b
        invariant
            a <= i <= b <= s@.len(),
            forall|j: int| a <= j < i ==> is_ascii_digit(#[trigger] s@[j]),
        decreases b - i,
    {
        if !('0' <= s[i] && s[i] <= '9') {
            proof {
                assert(s@.subrange(a as int, b as int)[i - a] == s@[i as int]);
            }
            return false;
        }
        i = i + 1;
    }
    proof {
        assert forall|j: int| 0 <= j < b - a implies is_ascii_digit(
            #[trigger] s@.subrange(a as int, b as int)[j],
        ) by {
            assert(s@.subrange(a as int, b as int)[j] == s@[a + j]);
        }
    }
    true
}

/// The line marker that a line holds.
fn parse_line_marker(s: &[char]) -> (res: Option<LineMarker>)
    ensures
        match res {
            Some(lm) => spec_parse_line_marker(s@) == Some(lm@),
            None => spec_parse_line_marker(s@) is None,
        },
{
    let q = match last_quote_exec(s) {
        Some(q) => q,
        None => {
            proof {
                lemma_no_marker_without_quote(s@, 0);
            }
            return None;
        },
    };
    let len = s.len();
    assert(q < len);
    let digits = digit_ranges_exec();
    let p = match first_marker_exec(s, q, digits.as_slice()) {
        Some(p) => p,
        None => {
            return None;
        },
    };
    let k = run_end_exec(s, p + 2, &CharKind::Digit, digits.as_slice());
    if !ascii_digits_exec(s, p + 2, k) {
        return None;
    }
    proof {
        assert forall|j: int| p + 2 <= j < k implies is_ascii_digit(#[trigger] s@[j]) by {
            assert(s@.subrange(p + 2, k as int)[j - (p + 2)] == s@[j]);
        }
    }
    let n = match digits_value_exec(s, p + 2, k) {
        Some(n) => n,
        None => {
            return None;
        },
    };
    let name = chars_range(s, k + 2, q);
    let flags = marker_flags_exec(s, q + 1, 4, digits.as_slice());
    if !ascii_digits_exec(flags.as_slice(), 0, flags.len()) {
        proof {
            assert(flags@.subrange(0, flags@.len() as int) =~= flags@);
        }
        return None;
    }
    proof {
        assert(flags@.subrange(0, flags@.len() as int) =~= flags@);
    }
    let lm = LineMarker {
        line_number: n,
        header_name: string_of(name.as_slice()),
        is_start_of_new_file: has_char(flags.as_slice(), '1'),
        is_return_to_file: has_char(flags.as_slice(), '2'),
    };
    Some(lm)
}

/// The name that a `#define` line defines.
fn macro_name_exec(line: &[char]) -> (res: Option<Vec<char>>)
    ensures
        match res {
            Some(n) => macro_name(line@) == Some(n@),
            None => macro_name(line@) is None,
        },
{
    let define = ['#', 'd', 'e', 'f', 'i', 'n', 'e'];
    proof {
        assert(define@ =~= seq!['#', 'd', 'e', 'f', 'i', 'n', 'e']);
    }
    if !starts_with(line, &define) {
        return None;
    }
    let a = run_end_exec(line, 7, &CharKind::Space, &[]);
    let b = run_end_exec(line, a, &CharKind::Word, &[]);
    if a > 7 && b > a {
        Some(chars_range(line, a, b))
    } else {
        None
    }
}

/// The scanner's state while it reads the preprocessed code.
struct LocalScan {
    out: Vec<char>,
    stack: Vec<String>,
    local_depth: usize,
    revertable: Option<usize>,
    global_includes: Vec<String>,
    include_defines: Vec<String>,
}

impl LocalScan {
    /// No more files are local than are entered.
    spec fn wf(&self) -> bool {
        self.local_depth <= self.stack@.len()
    }

    /// The state as a value of the specifications.
    spec fn state(&self) -> LocalState {
        LocalState {
            out: self.out@,
            stack: self.stack.deep_view(),
            local_depth: self.local_depth as nat,
            revertable: match self.revertable {
                Some(len) => Some(len as nat),
                None => None,
            },
            global_includes: self.global_includes.deep_view(),
            include_defines: self.include_defines.deep_view(),
        }
    }
}

/// The line `# N "PATH"` written into the local code.
fn marker_line(line_number: usize, path: &str) -> (res: Vec<char>)
    ensures
        res@ == marker_text(line_number as nat, path@),
{
    let mut t = String::new();
    push_str(&mut t, "# ");
    push_decimal(&mut t, line_number as u64);
    push_str(&mut t, " \"");
    push_str(&mut t, path);
    push_str(&mut t, "\"\n");
    proof {
        reveal_strlit("# ");
        reveal_strlit(" \"");
        reveal_strlit("\"\n");
        assert(t@ =~= marker_text(line_number as nat, path@));
    }
    chars_of(t.as_str())
}

/// Applies a line marker to the scanner's state.
fn marker_step_exec(config: &Config, source: &str, st: &mut LocalScan, lm: &LineMarker)
    requires
        old(st).wf(),
    ensures
        final(st).wf(),
        final(st).state() == marker_step(config@, source@, old(st).state(), lm@),
{
    let ghost st0 = st.state();
    let is_local = st.stack.len() == st.local_depth;
    if lm.is_start_of_new_file {
        let local_header = config.is_local_header(lm.header_name.as_str());
        let ghost stack0 = st.stack.deep_view();
        st.stack.push(lm.header_name.clone());
        proof {
            assert(st.stack.deep_view() =~= stack0.push(lm@.header_name));
        }
        if is_local && local_header {
            st.local_depth = st.stack.len();
        }
        if is_local && !local_header {
            let ghost g0 = st.global_includes.deep_view();
            st.global_includes.push(lm.header_name.clone());
            proof {
                assert(st.global_includes.deep_view() =~= g0.push(lm@.header_name));
            }
        }
    } else if lm.is_return_to_file {
        if st.stack.len() > 0 {
            let ghost stack0 = st.stack.deep_view();
            let _ = st.stack.pop();
            proof {
                assert(st.stack.deep_view() =~= stack0.drop_last());
            }
        }
        if st.local_depth > st.stack.len() {
            st.local_depth = st.stack.len();
        }
    }
    let ghost entered = st.state();
    if st.stack.len() == st.local_depth {
        match st.revertable {
            Some(len) => {
                st.out.truncate(len);
            },
            None => {},
        }
        let ghost kept = st.out@;
        let path = if st.stack.len() > 0 {
            st.stack[st.stack.len() - 1].clone()
        } else {
            source.to_owned()
        };
        proof {
            if st.stack@.len() > 0 {
                assert(path@ == entered.stack.last());
            }
        }
        st.revertable = Some(st.out.len());
        let mut m = marker_line(lm.line_number, path.as_str());
        st.out.append(&mut m);
        proof {
            assert(st.out@ == kept + marker_text(lm@.line_number, path@));
        }
    }
}

/// `line` is empty once ASCII white space is taken off.
fn is_blank_exec(line: &[char]) -> (res: bool)
    ensures
        res == is_blank_line(line@),
{
    let mut i: usize = 0;
    while i < line.len()
        invariant
            i <= line@.len(),
            forall|j: int|
                0 <= j < i ==> (#[trigger] line@[j] == ' ' || line@[j] == '\t' || line@[j] == '\n'
                    || line@[j] == '\x0C' || line@[j] == '\r'),
        decreases line@.len() - i,
    {
        let c = line[i];
        if !(c == ' ' || c == '\t' || c == '\n' || c == '\x0C' || c == '\r') {
            return false;
        }
        i = i + 1;
    }
    true
}

/// Applies one line of the preprocessed code to the scanner's state.
fn local_step_exec(config: &Config, source: &str, st: &mut LocalScan, line: &[char])
    requires
        old(st).wf(),
    ensures
        final(st).wf(),
        final(st).state() == local_step(config@, source@, old(st).state(), line@),
{
    let is_local = st.stack.len() == st.local_depth;
    let define = ['#', 'd', 'e', 'f', 'i', 'n', 'e', ' '];
    let undef = ['#', 'u', 'n', 'd', 'e', 'f', ' '];
    let hash = ['#', ' '];
    proof {
        assert(define@ =~= seq!['#', 'd', 'e', 'f', 'i', 'n', 'e', ' ']);
        assert(undef@ =~= seq!['#', 'u', 'n', 'd', 'e', 'f', ' ']);
        assert(hash@ =~= seq!['#', ' ']);
    }
    if starts_with(line, &define) {
        match macro_name_exec(line) {
            Some(name) => {
                if is_local {
                    let n = string_of(name.as_slice());
                    if config.is_include_define(n.as_str()) {
                        let ghost d0 = st.include_defines.deep_view();
                        st.include_defines.push(string_of(line));
                        proof {
                            assert(st.include_defines.deep_view() =~= d0.push(line@));
                        }
                    }
                }
            },
            None => {},
        }
    } else if starts_with(line, &undef) {
    } else if starts_with(line, &hash) {
        match parse_line_marker(line) {
            Some(lm) => marker_step_exec(config, source, st, &lm),
            None => {},
        }
    } else if is_local {
        let mut cs = vstd::slice::slice_to_vec(line);
        cs.push('\n');
        let ghost out0 = st.out@;
        st.out.append(&mut cs);
        proof {
            assert(st.out@ =~= out0 + line@ + seq!['\n']);
        }
        if !is_blank_exec(line) {
            st.revertable = None;
        }
    }
}

/// `p` starts the byte string `s`.
fn starts_with_bytes(s: &[u8], p: &[u8]) -> (res: bool)
    ensures
        res == is_byte_prefix(p@, s@),
{
    if p.len() > s.len() {
        return false;
    }
    let mut i: usize = 0;
    while i < p.len()
        invariant
            i <= p@.len() <= s@.len(),
            forall|j: int| 0 <= j < i ==> s@[j] == p@[j],
        decreases p@.len() - i,
    {
        if s[i] != p[i] {
            proof {
                assert(s@.take(p@.len() as int)[i as int] != p@[i as int]);
            }
            return false;
        }
        i = i + 1;
    }
    proof {
        assert(s@.take(p@.len() as int) =~= p@);
    }
    true
}

/// The bytes are all ASCII white space.
fn is_blank_bytes_exec(line: &[u8]) -> (res: bool)
    ensures
        res == is_blank_bytes(line@),
{
    let mut i: usize = 0;
    while i < line.len()
        invariant
            i <= line@.len(),
            forall|j: int|
                0 <= j < i ==> (#[trigger] line@[j] == 32u8 || line@[j] == 9u8 || line@[j] == 10u8
                    || line@[j] == 12u8 || line@[j] == 13u8),
        decreases line@.len() - i,
    {
        let b = line[i];
        if !(b == 32u8 || b == 9u8 || b == 10u8 || b == 12u8 || b == 13u8) {
            return false;
        }
        i = i + 1;
    }
    true
}

/// Applies a line that is not valid UTF-8 to the scanner's state.
fn invalid_line_step_exec(st: &mut LocalScan, line: &[u8])
    requires
        old(st).wf(),
    ensures
        final(st).wf(),
        final(st).state() == invalid_line_step(old(st).state(), line@),
{
    let define: [u8; 8] = [35u8, 100u8, 101u8, 102u8, 105u8, 110u8, 101u8, 32u8];
    let undef: [u8; 7] = [35u8, 117u8, 110u8, 100u8, 101u8, 102u8, 32u8];
    let hash: [u8; 2] = [35u8, 32u8];
    proof {
        assert(define@ =~= seq![35u8, 100u8, 101u8, 102u8, 105u8, 110u8, 101u8, 32u8]);
        assert(undef@ =~= seq![35u8, 117u8, 110u8, 100u8, 101u8, 102u8, 32u8]);
        assert(hash@ =~= seq![35u8, 32u8]);
    }
    if starts_with_bytes(line, &define) || starts_with_bytes(line, &undef) || starts_with_bytes(
        line,
        &hash,
    ) {
    } else if st.stack.len() == st.local_depth {
        let text = lossy_text(line);
        let mut cs = chars_of(text.as_str());
        cs.push('\n');
        let ghost out0 = st.out@;
        st.out.append(&mut cs);
        proof {
            assert(st.out@ =~= out0 + utf8_lossy(line@) + seq!['\n']);
        }
        if !is_blank_bytes_exec(line) {
            st.revertable = None;
        }
    }
}

/// Applies one line of the preprocessed code, as bytes, to the scanner's state.
fn line_step_exec(config: &Config, source: &str, st: &mut LocalScan, line: &[u8])
    requires
        old(st).wf(),
    ensures
        final(st).wf(),
        final(st).state() == line_step(config@, source@, old(st).state(), line@),
{
    match utf8_text(line) {
        Some(text) => {
            let cs = chars_of(text.as_str());
            local_step_exec(config, source, st, cs.as_slice());
        },
        None => invalid_line_step_exec(st, line),
    }
}

/// The paths of `v`, each taken relative to `dir`.
fn absolute_paths(dir: &str, v: &Vec<String>) -> (res: Vec<String>)
    ensures
        res.deep_view() == v.deep_view().map_values(|p: Seq<char>| spec_make_absolute(dir@, p)),
{
    let mut res: Vec<String> = Vec::new();
    let mut i: usize = 0;
    while i < v.len()
        invariant
            i <= v@.len(),
            res@.len() == i,
            forall|j: int| 0 <= j < i ==> #[trigger] res@[j]@ == spec_make_absolute(dir@, v@[j]@),
        decreases v@.len() - i,
    {
        res.push(make_absolute(dir, v[i].as_str()));
        i = i + 1;
    }
    proof {
        assert(res.deep_view() =~= v.deep_view().map_values(
            |p: Seq<char>| spec_make_absolute(dir@, p),
        ));
    }
    res
}

impl LocalCode {
    /// The local code of the preprocessed code `code` of the source file `source`, whose
    /// directory is `source_dir`.
    pub fn from_preprocessed_code_in_dir(
        code: &[u8],
        source: &str,
        source_dir: &str,
        config: &Config,
    ) -> (res: LocalCode)
        ensures
            res@ == local_code_in_dir(config@, code@, source@, source_dir@),
    {
        let lines = split_lines_exec(code);
        let mut st = LocalScan {
            out: chars_of("#pragma GCC diagnostic push\n"),
            stack: Vec::new(),
            local_depth: 0,
            revertable: None,
            global_includes: Vec::new(),
            include_defines: Vec::new(),
        };
        proof {
            assert(st.stack.deep_view() =~= Seq::<Seq<char>>::empty());
            assert(st.global_includes.deep_view() =~= Seq::<Seq<char>>::empty());
            assert(st.include_defines.deep_view() =~= Seq::<Seq<char>>::empty());
            assert(lines.deep_view().take(0) =~= Seq::<Seq<u8>>::empty());
        }
        let mut i: usize = 0;
        while i < lines.len()
            invariant
                i <= lines@.len(),
                lines.deep_view() == split_lines(code@),
                st.wf(),
                st.state() == local_run(config@, source@, lines.deep_view().take(i as int)),
            decreases lines@.len() - i,
        {
            proof {
                assert(lines.deep_view().take(i + 1).drop_last() =~= lines.deep_view().take(
                    i as int,
                ));
                assert(lines@[i as int].deep_view() =~= lines@[i as int]@);
                assert(lines.deep_view().take(i + 1).last() == lines@[i as int]@);
            }
            line_step_exec(config, source, &mut st, lines[i].as_slice());
            i = i + 1;
        }
        proof {
            assert(lines.deep_view().take(lines@.len() as int) =~= lines.deep_view());
        }
        let mut out = st.out;
        let mut pop = chars_of("#pragma GCC diagnostic pop\n");
        out.append(&mut pop);
        LocalCode {
            local_code: string_of(out.as_slice()),
            global_includes: absolute_paths(source_dir, &st.global_includes),
            include_defines: st.include_defines,
        }
    }

    /// The local code of the preprocessed code `code` of the source file `source`: the code
    /// of the file and of the project's own headers, the global headers it includes, and the
    /// definitions in it that change such headers. An error where the source path has no
    /// directory.
    pub fn from_preprocessed_code(code: &[u8], source: &str, config: &Config) -> (res: Result<
        LocalCode,
        Error,
    >)
        ensures
            match res {
                Ok(lc) => spec_local_code(config@, code@, source@) == Ok::<LocalCodeView, ErrorView>(
                    lc@,
                ),
                Err(e) => spec_local_code(config@, code@, source@) == Err::<LocalCodeView, ErrorView>(
                    e@,
                ),
            },
    {
        match parent_of(source) {
            Some(dir) => Ok(LocalCode::from_preprocessed_code_in_dir(code, source, dir.as_str(), config)),
            None => Err(Error::NoSourceDirectory),
        }
    }
}

/// The global includes are the headers entered right from local code: a line marker that
/// starts a file while the scan is in local code adds that file where it is not a
/// project header; one met inside a global header, such as the headers a system header
/// includes itself, adds nothing. No other line adds anything.
pub proof fn lemma_global_includes_entered_from_local_code(
    config: ConfigView,
    source: Seq<char>,
    st: LocalState,
    line: Seq<u8>,
)
    ensures
        line_step(config, source, st, line).global_includes == st.global_includes || (
        st.stack.len() == st.local_depth && exists|lm: LineMarkerView|
            lm.is_start_of_new_file && !any_matches(config.local_header_patterns, lm.header_name)
                && #[trigger] line_step(config, source, st, line).global_includes
                == st.global_includes.push(lm.header_name)),
        st.stack.len() != st.local_depth ==> line_step(config, source, st, line).global_includes
            == st.global_includes,
{
    if valid_utf8(line) {
        let text = decode_utf8(line);
        if !is_prefix_of(seq!['#', 'd', 'e', 'f', 'i', 'n', 'e', ' '], text) && !is_prefix_of(
            seq!['#', 'u', 'n', 'd', 'e', 'f', ' '],
            text,
        ) && is_prefix_of(seq!['#', ' '], text) {
            match spec_parse_line_marker(text) {
                Some(lm) => {
                    lemma_marker_global_includes(config, source, st, lm);
                },
                None => {},
            }
        }
    }
}

/// A line marker that starts a file adds it to the global includes exactly when the scan
/// is in local code and the file is not a project header; no other marker adds anything.
pub proof fn lemma_marker_global_includes(
    config: ConfigView,
    source: Seq<char>,
    st: LocalState,
    lm: LineMarkerView,
)
    ensures
        marker_step(config, source, st, lm).global_includes == if lm.is_start_of_new_file
            && st.stack.len() == st.local_depth && !any_matches(
            config.local_header_patterns,
            lm.header_name,
        ) {
            st.global_includes.push(lm.header_name)
        } else {
            st.global_includes
        },
{
}

} // verus!
