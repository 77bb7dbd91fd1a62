//! The preprocessor directives of a C or C++ file, found by skipping its comments and
//! literals, and the paths under which they are kept.

use vstd::prelude::*;
use crate::error::{Error, ErrorView};
use crate::path_utils::{is_absolute, join};
use crate::text::{occurs_at, occurs_at_exec, push_chars};

verus! {

/// What starts at a position of the code: a directive (blanks then `#` at the start of a
/// line), a line comment, a block comment, a string, a character literal or a raw string.
#[derive(PartialEq, Eq, Structural, Clone, Copy)]
pub enum StartKind {
    Directive,
    LineComment,
    BlockComment,
    Str,
    Char,
    Raw,
}

/// What ends or is skipped inside a directive: a line end, a line comment, a block
/// comment, a string, a character literal or a raw string.
#[derive(PartialEq, Eq, Structural, Clone, Copy)]
pub enum DirectiveEvent {
    Newline,
    LineComment,
    BlockComment,
    Str,
    Char,
    Raw,
}

/// From `a` on, the code holds blanks (spaces or tabs) and then `#`.
pub open spec fn blanks_then_hash(c: Seq<char>, a: int) -> bool
    decreases c.len() - a,
{
    if a < 0 || a >= c.len() {
        false
    } else if c[a] == '#' {
        true
    } else if c[a] == ' ' || c[a] == '\t' {
        blanks_then_hash(c, a + 1)
    } else {
        false
    }
}

/// From `p` on, the code holds a `(` before any `\r` or `\n`.
pub open spec fn paren_ahead(c: Seq<char>, p: int) -> bool
    decreases c.len() - p,
{
    if p < 0 || p >= c.len() {
        false
    } else if c[p] == '(' {
        true
    } else if c[p] == '\r' || c[p] == '\n' {
        false
    } else {
        paren_ahead(c, p + 1)
    }
}

/// The two characters at `a` are `x` and `y`.
pub open spec fn pair_at(c: Seq<char>, a: int, x: char, y: char) -> bool {
    0 <= a && a + 1 < c.len() && c[a] == x && c[a + 1] == y
}

/// A raw string starts at `a`: `R"`, a delimiter, then `(`.
pub open spec fn raw_at(c: Seq<char>, a: int) -> bool {
    pair_at(c, a, 'R', '"') && paren_ahead(c, a + 2)
}

/// What starts at `a`, in the code read from `pos` on (so that `pos` counts as the start of
/// a line); the first kind in the order of [`StartKind`] wins.
pub open spec fn start_kind_at(c: Seq<char>, pos: int, a: int) -> Option<StartKind> {
    if (a == pos || (a > 0 && c[a - 1] == '\n')) && blanks_then_hash(c, a) {
        Some(StartKind::Directive)
    } else if pair_at(c, a, '/', '/') {
        Some(StartKind::LineComment)
    } else if pair_at(c, a, '/', '*') {
        Some(StartKind::BlockComment)
    } else if 0 <= a < c.len() && c[a] == '"' {
        Some(StartKind::Str)
    } else if 0 <= a < c.len() && c[a] == '\'' {
        Some(StartKind::Char)
    } else if raw_at(c, a) {
        Some(StartKind::Raw)
    } else {
        None
    }
}

/// The first position from `a` on where something starts, and what.
pub open spec fn first_start(c: Seq<char>, pos: int, a: int) -> Option<(int, StartKind)>
    decreases c.len() - a,
{
    if a < 0 || a >= c.len() {
        None
    } else {
        match start_kind_at(c, pos, a) {
            Some(k) => Some((a, k)),
            None => first_start(c, pos, a + 1),
        }
    }
}

/// What ends or is skipped at `a` inside a directive.
pub open spec fn event_at(c: Seq<char>, a: int) -> Option<DirectiveEvent> {
    if 0 <= a < c.len() && c[a] == '\n' {
        Some(DirectiveEvent::Newline)
    } else if pair_at(c, a, '/', '/') {
        Some(DirectiveEvent::LineComment)
    } else if pair_at(c, a, '/', '*') {
        Some(DirectiveEvent::BlockComment)
    } else if 0 <= a < c.len() && c[a] == '"' {
        Some(DirectiveEvent::Str)
    } else if 0 <= a < c.len() && c[a] == '\'' {
        Some(DirectiveEvent::Char)
    } else if raw_at(c, a) {
        Some(DirectiveEvent::Raw)
    } else {
        None
    }
}

/// The first position from `a` on where something ends or is skipped inside a
/// directive, and what.
pub open spec fn first_event(c: Seq<char>, a: int) -> Option<(int, DirectiveEvent)>
    decreases c.len() - a,
{
    if a < 0 || a >= c.len() {
        None
    } else {
        match event_at(c, a) {
            Some(k) => Some((a, k)),
            None => first_event(c, a + 1),
        }
    }
}

/// The first position from `i` on where `needle` occurs.
pub open spec fn find_from(hay: Seq<char>, needle: Seq<char>, i: int) -> Option<int>
    decreases hay.len() - i,
{
    if i < 0 || i >= hay.len() || i + needle.len() > hay.len() {
        None
    } else if occurs_at(hay, needle, i) {
        Some(i)
    } else {
        find_from(hay, needle, i + 1)
    }
}

/// The end of a line comment that starts at `s`: after the first line end that is not
/// escaped by a backslash (or a backslash and `\r`), or the end of the code.
pub open spec fn line_comment_end(c: Seq<char>, s: int) -> int {
    line_comment_scan(c, s, s)
}

/// The end of a line comment that starts at `s`, looking from `i` on.
pub open spec fn line_comment_scan(c: Seq<char>, s: int, i: int) -> int
    decreases c.len() - i,
{
    if i < s || i >= c.len() {
        c.len() as int
    } else if c[i] == '\n' && !(i > s && c[i - 1] == '\\') && !(i > s + 1 && c[i - 2] == '\\'
        && c[i - 1] == '\r') {
        i + 1
    } else {
        line_comment_scan(c, s, i + 1)
    }
}

/// The end of a block comment that starts at `s`: after the first `*/` from `s` on.
pub open spec fn block_comment_end(c: Seq<char>, s: int) -> Result<int, ErrorView> {
    match find_from(c, seq!['*', '/'], s) {
        Some(e) => Ok(e + 2),
        None => Err(ErrorView::UnterminatedBlockComment),
    }
}

/// The number of backslashes right before `i`, not counting those before `s`.
pub open spec fn backslashes_before(c: Seq<char>, s: int, i: int) -> nat
    decreases i - s,
{
    if i <= s || i > c.len() || c[i - 1] != '\\' {
        0
    } else {
        1 + backslashes_before(c, s, i - 1)
    }
}

/// The end of a literal that starts at `s` with the quote `q`: after the first `q` from
/// `i` on that an even number of backslashes precedes.
pub open spec fn quoted_scan(c: Seq<char>, s: int, q: char, i: int) -> Option<int>
    decreases c.len() - i,
{
    if i <= s || i >= c.len() {
        None
    } else if c[i] == q && backslashes_before(c, s, i) % 2 == 0 {
        Some(i + 1)
    } else {
        quoted_scan(c, s, q, i + 1)
    }
}

/// The end of a literal that starts at `s` with the quote `q`.
pub open spec fn quoted_end(c: Seq<char>, s: int, q: char) -> Option<int> {
    quoted_scan(c, s, q, s + 1)
}

/// The first position from `i` on that holds `ch`.
pub open spec fn find_char_from(c: Seq<char>, ch: char, i: int) -> Option<int>
    decreases c.len() - i,
{
    if i < 0 || i >= c.len() {
        None
    } else if c[i] == ch {
        Some(i)
    } else {
        find_char_from(c, ch, i + 1)
    }
}

/// What closes a raw string with delimiter `d`: `)`, the delimiter, `"`.
pub open spec fn raw_closing(d: Seq<char>) -> Seq<char> {
    seq![')'] + d + seq!['"']
}

/// The end of a raw string that starts at `s`: its delimiter runs from after `R"` up to
/// the first `(`, and it ends after the first `)`, delimiter and `"` from `s` on.
pub open spec fn raw_end(c: Seq<char>, s: int) -> Result<int, ErrorView> {
    match find_char_from(c, '(', s) {
        None => Err(ErrorView::MissingRawDelimiter),
        Some(p) => if p < s + 2 {
            Err(ErrorView::MissingRawDelimiter)
        } else {
            let closing = raw_closing(c.subrange(s + 2, p));
            match find_from(c, closing, s) {
                Some(e) => Ok(e + closing.len()),
                None => Err(ErrorView::UnterminatedRawString),
            }
        },
    }
}

/// The end of the literal or comment that an event at `i` inside a directive starts.
pub open spec fn skipped_end(c: Seq<char>, i: int, ev: DirectiveEvent) -> Result<int, ErrorView> {
    match ev {
        DirectiveEvent::BlockComment => block_comment_end(c, i),
        DirectiveEvent::Str => match quoted_end(c, i, '"') {
            Some(e) => Ok(e),
            None => Err(ErrorView::UnterminatedString),
        },
        DirectiveEvent::Char => match quoted_end(c, i, '\'') {
            Some(e) => Ok(e),
            None => Err(ErrorView::UnterminatedChar),
        },
        _ => raw_end(c, i),
    }
}

/// The end of a directive that starts at `d`, looking from `cur` on: after the first line
/// end that a backslash does not continue, at the end of a line comment, or at the end of
/// the code; comments and literals in between are skipped.
pub open spec fn directive_scan(c: Seq<char>, d: int, cur: int) -> Result<int, ErrorView>
    decreases c.len() - cur,
{
    if cur < 0 || cur > c.len() {
        Ok(c.len() as int)
    } else {
        match first_event(c, cur) {
            None => Ok(c.len() as int),
            Some((i, ev)) => match ev {
                DirectiveEvent::Newline => if i > d && c[i - 1] == '\\' {
                    if cur < i + 1 <= c.len() {
                        directive_scan(c, d, i + 1)
                    } else {
                        Ok(i + 1)
                    }
                } else {
                    Ok(i + 1)
                },
                DirectiveEvent::LineComment => Ok(line_comment_end(c, i)),
                _ => match skipped_end(c, i, ev) {
                    Err(e) => Err(e),
                    Ok(e) => if cur < e <= c.len() {
                        directive_scan(c, d, e)
                    } else {
                        Ok(e)
                    },
                },
            },
        }
    }
}

/// The end of a directive that starts at `d`.
pub open spec fn directive_end(c: Seq<char>, d: int) -> Result<int, ErrorView> {
    directive_scan(c, d, d)
}

/// The end of what starts at `q`, and the text it adds to the directives: the directive
/// itself, or nothing for what is skipped. A quote right after a hexadecimal digit
/// separates digits and is skipped alone.
pub open spec fn start_end(c: Seq<char>, pos: int, q: int, k: StartKind) -> Result<
    (int, Seq<char>),
    ErrorView,
> {
    match k {
        StartKind::Directive => match directive_end(c, q) {
            Ok(e) => if q <= e <= c.len() {
                Ok((e, c.subrange(q, e)))
            } else {
                Ok((e, Seq::empty()))
            },
            Err(x) => Err(x),
        },
        StartKind::LineComment => Ok((line_comment_end(c, q), Seq::empty())),
        StartKind::BlockComment => match block_comment_end(c, q) {
            Ok(e) => Ok((e, Seq::empty())),
            Err(x) => Err(x),
        },
        StartKind::Str => match quoted_end(c, q, '"') {
            Some(e) => Ok((e, Seq::empty())),
            None => Err(ErrorView::UnterminatedString),
        },
        StartKind::Char => if q > pos && is_hex_digit(c[q - 1]) {
            Ok((q + 1, Seq::empty()))
        } else {
            match quoted_end(c, q, '\'') {
                Some(e) => Ok((e, Seq::empty())),
                None => Err(ErrorView::UnterminatedChar),
            }
        },
        StartKind::Raw => match raw_end(c, q) {
            Ok(e) => Ok((e, Seq::empty())),
            Err(x) => Err(x),
        },
    }
}

/// An ASCII hexadecimal digit.
pub open spec fn is_hex_digit(ch: char) -> bool {
    ('0' <= ch && ch <= '9') || ('a' <= ch && ch <= 'f') || ('A' <= ch && ch <= 'F')
}

/// The directives of the code from `pos` on, one after the other.
pub open spec fn extract_from(c: Seq<char>, pos: int) -> Result<Seq<char>, ErrorView>
    decreases c.len() - pos,
{
    if pos < 0 || pos >= c.len() {
        Ok(Seq::empty())
    } else {
        match first_start(c, pos, pos) {
            None => Ok(Seq::empty()),
            Some((q, k)) => match start_end(c, pos, q, k) {
                Err(x) => Err(x),
                Ok((e, part)) => if pos < e <= c.len() {
                    match extract_from(c, e) {
                        Ok(rest) => Ok(part + rest),
                        Err(x) => Err(x),
                    }
                } else {
                    Ok(part)
                },
            },
        }
    }
}

/// The preprocessor directives of the code, one after the other.
pub open spec fn spec_extract_directives(c: Seq<char>) -> Result<Seq<char>, ErrorView> {
    extract_from(c, 0)
}

fn blanks_then_hash_exec(c: &[char], a: usize) -> (res: bool)
    ensures
        res == blanks_then_hash(c@, a as int),
{
    let mut i = a;
    while i < c.len() && (c[i] == ' ' || c[i] == '\t')
        invariant
            a <= i,
            blanks_then_hash(c@, a as int) == blanks_then_hash(c@, i as int),
        decreases c@.len() - i,
    {
        i = i + 1;
    }
    i < c.len() && c[i] == '#'
}

fn paren_ahead_exec(c: &[char], p: usize) -> (res: bool)
    ensures
        res == paren_ahead(c@, p as int),
{
    let mut i = p;
    while i < c.len() && c[i] != '(' && c[i] != '\r' && c[i] != '\n'
        invariant
            p <= i,
            paren_ahead(c@, p as int) == paren_ahead(c@, i as int),
        decreases c@.len() - i,
    {
        i = i + 1;
    }
    i < c.len() && c[i] == '('
}

fn pair_at_exec(c: &[char], a: usize, x: char, y: char) -> (res: bool)
    ensures
        res == pair_at(c@, a as int, x, y),
{
    a < c.len() && c.len() - a >= 2 && c[a] == x && c[a + 1] == y
}

fn raw_at_exec(c: &[char], a: usize) -> (res: bool)
    ensures
        res == raw_at(c@, a as int),
{
    let n = c.len();
    if pair_at_exec(c, a, 'R', '"') {
        paren_ahead_exec(c, a + 2)
    } else {
        false
    }
}

fn start_kind_at_exec(c: &[char], pos: usize, a: usize) -> (res: Option<StartKind>)
    requires
        pos <= a < c@.len(),
    ensures
        res == start_kind_at(c@, pos as int, a as int),
{
    if (a == pos || c[a - 1] == '\n') && blanks_then_hash_exec(c, a) {
        Some(StartKind::Directive)
    } else if pair_at_exec(c, a, '/', '/') {
        Some(StartKind::LineComment)
    } else if pair_at_exec(c, a, '/', '*') {
        Some(StartKind::BlockComment)
    } else if c[a] == '"' {
        Some(StartKind::Str)
    } else if c[a] == '\'' {
        Some(StartKind::Char)
    } else if raw_at_exec(c, a) {
        Some(StartKind::Raw)
    } else {
        None
    }
}

fn first_start_exec(c: &[char], pos: usize) -> (res: Option<(usize, StartKind)>)
    requires
        pos <= c@.len(),
    ensures
        match res {
            Some((q, k)) => first_start(c@, pos as int, pos as int) == Some((q as int, k)) && pos
                <= q < c@.len(),
            None => first_start(c@, pos as int, pos as int) is None,
        },
{
    let mut a = pos;
    while a < c.len()
        invariant
            pos <= a <= c@.len(),
            first_start(c@, pos as int, pos as int) == first_start(c@, pos as int, a as int),
        decreases c@.len() - a,
    {
        match start_kind_at_exec(c, pos, a) {
            Some(k) => {
                return Some((a, k));
            },
            None => {},
        }
        a = a + 1;
    }
    None
}

fn event_at_exec(c: &[char], a: usize) -> (res: Option<DirectiveEvent>)
    requires
        a < c@.len(),
    ensures
        res == event_at(c@, a as int),
{
    if c[a] == '\n' {
        Some(DirectiveEvent::Newline)
    } else if pair_at_exec(c, a, '/', '/') {
        Some(DirectiveEvent::LineComment)
    } else if pair_at_exec(c, a, '/', '*') {
        Some(DirectiveEvent::BlockComment)
    } else if c[a] == '"' {
        Some(DirectiveEvent::Str)
    } else if c[a] == '\'' {
        Some(DirectiveEvent::Char)
    } else if raw_at_exec(c, a) {
        Some(DirectiveEvent::Raw)
    } else {
        None
    }
}

fn first_event_exec(c: &[char], from: usize) -> (res: Option<(usize, DirectiveEvent)>)
    requires
        from <= c@.len(),
    ensures
        match res {
            Some((i, ev)) => first_event(c@, from as int) == Some((i as int, ev)) && from <= i
                < c@.len(),
            None => first_event(c@, from as int) is None,
        },
{
    let mut a = from;
    while a < c.len()
        invariant
            from <= a <= c@.len(),
            first_event(c@, from as int) == first_event(c@, a as int),
        decreases c@.len() - a,
    {
        match event_at_exec(c, a) {
            Some(ev) => {
                return Some((a, ev));
            },
            None => {},
        }
        a = a + 1;
    }
    None
}

fn find_from_exec(hay: &[char], needle: &[char], start: usize) -> (res: Option<usize>)
    ensures
        match res {
            Some(e) => find_from(hay@, needle@, start as int) == Some(e as int) && start <= e
                && e + needle@.len() <= hay@.len(),
            None => find_from(hay@, needle@, start as int) is None,
        },
{
    if needle.len() > hay.len() {
        return None;
    }
    let last = hay.len() - needle.len();
    let mut i = start;
    while i <= last && i < hay.len()
        invariant
            start <= i,
            last == hay@.len() - needle@.len(),
            find_from(hay@, needle@, start as int) == find_from(hay@, needle@, i as int),
        decreases last + 1 - i,
    {
        if occurs_at_exec(hay, needle, i) {
            return Some(i);
        }
        i = i + 1;
    }
    None
}

fn line_comment_end_exec(c: &[char], s: usize) -> (res: usize)
    requires
        s < c@.len(),
    ensures
        res == line_comment_end(c@, s as int),
        s < res <= c@.len(),
{
    let mut i = s;
    while i < c.len()
        invariant
            s <= i <= c@.len(),
            line_comment_end(c@, s as int) == line_comment_scan(c@, s as int, i as int),
        decreases c@.len() - i,
    {
        if c[i] == '\n' && !(i > s && c[i - 1] == '\\') && !(i > s + 1 && c[i - 2] == '\\' && c[i
            - 1] == '\r') {
            return i + 1;
        }
        i = i + 1;
    }
    c.len()
}

fn block_comment_end_exec(c: &[char], s: usize) -> (res: Result<usize, Error>)
    ensures
        match res {
            Ok(e) => block_comment_end(c@, s as int) == Ok::<int, ErrorView>(e as int) && s + 2
                <= e <= c@.len(),
            Err(x) => block_comment_end(c@, s as int) == Err::<int, ErrorView>(x@),
        },
{
    let n = c.len();
    let close = ['*', '/'];
    proof {
        assert(close@ =~= seq!['*', '/']);
        assert(close@.len() == 2);
    }
    match find_from_exec(c, &close, s) {
        Some(e) => Ok(e + 2),
        None => Err(Error::UnterminatedBlockComment),
    }
}

fn backslashes_before_exec(c: &[char], s: usize, i: usize) -> (res: usize)
    requires
        s <= i <= c@.len(),
    ensures
        res == backslashes_before(c@, s as int, i as int),
{
    let mut k = i;
    let mut n: usize = 0;
    while k > s && c[k - 1] == '\\'
        invariant
            s <= k <= i <= c@.len(),
            n == i - k,
            backslashes_before(c@, s as int, i as int) == n + backslashes_before(
                c@,
                s as int,
                k as int,
            ),
        decreases k,
    {
        k = k - 1;
        n = n + 1;
    }
    n
}

fn quoted_end_exec(c: &[char], s: usize, q: char) -> (res: Option<usize>)
    requires
        s < c@.len(),
    ensures
        match res {
            Some(e) => quoted_end(c@, s as int, q) == Some(e as int) && s + 2 <= e <= c@.len(),
            None => quoted_end(c@, s as int, q) is None,
        },
{
    let n = c.len();
    let mut i = s + 1;
    while i < c.len()
        invariant
            s < i <= c@.len(),
            quoted_end(c@, s as int, q) == quoted_scan(c@, s as int, q, i as int),
        decreases c@.len() - i,
    {
        if c[i] == q && backslashes_before_exec(c, s, i) % 2 == 0 {
            return Some(i + 1);
        }
        i = i + 1;
    }
    None
}

fn find_char_from_exec(c: &[char], ch: char, start: usize) -> (res: Option<usize>)
    ensures
        match res {
            Some(p) => find_char_from(c@, ch, start as int) == Some(p as int) && start <= p
                < c@.len(),
            None => find_char_from(c@, ch, start as int) is None,
        },
{
    let mut i = start;
    while i < c.len()
        invariant
            start <= i,
            find_char_from(c@, ch, start as int) == find_char_from(c@, ch, i as int),
        decreases c@.len() - i,
    {
        if c[i] == ch {
            return Some(i);
        }
        i = i + 1;
    }
    None
}

fn raw_end_exec(c: &[char], s: usize) -> (res: Result<usize, Error>)
    requires
        s < c@.len(),
    ensures
        match res {
            Ok(e) => raw_end(c@, s as int) == Ok::<int, ErrorView>(e as int) && s + 2 <= e
                <= c@.len(),
            Err(x) => raw_end(c@, s as int) == Err::<int, ErrorView>(x@),
        },
{
    let n = c.len();
    let p = match find_char_from_exec(c, '(', s) {
        Some(p) => p,
        None => {
            return Err(Error::MissingRawDelimiter);
        },
    };
    if p - s < 2 {
        return Err(Error::MissingRawDelimiter);
    }
    let mut closing: Vec<char> = Vec::new();
    closing.push(')');
    let mut k = s + 2;
    while k < p
        invariant
            s + 2 <= k <= p < c@.len(),
            closing@ == seq![')'] + c@.subrange(s + 2, k as int),
        decreases p - k,
    {
        closing.push(c[k]);
        proof {
            assert(c@.subrange(s + 2, k + 1) =~= c@.subrange(s + 2, k as int).push(c@[k as int]));
        }
        k = k + 1;
    }
    closing.push('"');
    proof {
        assert(closing@ =~= raw_closing(c@.subrange(s + 2, p as int)));
    }
    match find_from_exec(c, closing.as_slice(), s) {
        Some(e) => Ok(e + closing.len()),
        None => Err(Error::UnterminatedRawString),
    }
}

fn skipped_end_exec(c: &[char], i: usize, ev: DirectiveEvent) -> (res: Result<usize, Error>)
    requires
        i < c@.len(),
        !(ev is Newline),
        !(ev is LineComment),
    ensures
        match res {
            Ok(e) => skipped_end(c@, i as int, ev) == Ok::<int, ErrorView>(e as int) && i + 2 <= e
                <= c@.len(),
            Err(x) => skipped_end(c@, i as int, ev) == Err::<int, ErrorView>(x@),
        },
{
    match ev {
        DirectiveEvent::BlockComment => block_comment_end_exec(c, i),
        DirectiveEvent::Str => match quoted_end_exec(c, i, '"') {
            Some(e) => Ok(e),
            None => Err(Error::UnterminatedString),
        },
        DirectiveEvent::Char => match quoted_end_exec(c, i, '\'') {
            Some(e) => Ok(e),
            None => Err(Error::UnterminatedChar),
        },
        _ => raw_end_exec(c, i),
    }
}

fn directive_end_exec(c: &[char], d: usize) -> (res: Result<usize, Error>)
    requires
        d < c@.len(),
    ensures
        match res {
            Ok(e) => directive_end(c@, d as int) == Ok::<int, ErrorView>(e as int) && d < e
                <= c@.len(),
            Err(x) => directive_end(c@, d as int) == Err::<int, ErrorView>(x@),
        },
{
    let mut cur = d;
    while cur <= c.len()
        invariant
            d < c@.len(),
            d <= cur <= c@.len(),
            directive_end(c@, d as int) == directive_scan(c@, d as int, cur as int),
        decreases c@.len() - cur,
    {
        match first_event_exec(c, cur) {
            None => {
                return Ok(c.len());
            },
            Some((i, ev)) => {
                match ev {
                    DirectiveEvent::Newline => {
                        if i > d && c[i - 1] == '\\' {
                            cur = i + 1;
                        } else {
                            return Ok(i + 1);
                        }
                    },
                    DirectiveEvent::LineComment => {
                        return Ok(line_comment_end_exec(c, i));
                    },
                    _ => {
                        match skipped_end_exec(c, i, ev) {
                            Err(x) => {
                                return Err(x);
                            },
                            Ok(e) => {
                                cur = e;
                            },
                        }
                    },
                }
            },
        }
    }
    Ok(c.len())
}

fn is_hex_digit_exec(ch: char) -> (res: bool)
    ensures
        res == is_hex_digit(ch),
{
    ('0' <= ch && ch <= '9') || ('a' <= ch && ch <= 'f') || ('A' <= ch && ch <= 'F')
}

fn start_end_exec(c: &[char], pos: usize, q: usize, k: StartKind) -> (res: Result<
    (usize, bool),
    Error,
>)
    requires
        pos <= q < c@.len(),
    ensures
        match res {
            Ok((e, keep)) => pos < e <= c@.len() && q <= e && start_end(c@, pos as int, q as int, k)
                == Ok::<(int, Seq<char>), ErrorView>(
                (
                    e as int,
                    if keep {
                        c@.subrange(q as int, e as int)
                    } else {
                        Seq::empty()
                    },
                ),
            ),
            Err(x) => start_end(c@, pos as int, q as int, k) == Err::<(int, Seq<char>), ErrorView>(
                x@,
            ),
        },
{
    match k {
        StartKind::Directive => match directive_end_exec(c, q) {
            Ok(e) => Ok((e, true)),
            Err(x) => Err(x),
        },
        StartKind::LineComment => Ok((line_comment_end_exec(c, q), false)),
        StartKind::BlockComment => match block_comment_end_exec(c, q) {
            Ok(e) => Ok((e, false)),
            Err(x) => Err(x),
        },
        StartKind::Str => match quoted_end_exec(c, q, '"') {
            Some(e) => Ok((e, false)),
            None => Err(Error::UnterminatedString),
        },
        StartKind::Char => {
            if q > pos && is_hex_digit_exec(c[q - 1]) {
                Ok((q + 1, false))
            } else {
                match quoted_end_exec(c, q, '\'') {
                    Some(e) => Ok((e, false)),
                    None => Err(Error::UnterminatedChar),
                }
            }
        },
        StartKind::Raw => match raw_end_exec(c, q) {
            Ok(e) => Ok((e, false)),
            Err(x) => Err(x),
        },
    }
}

/// The preprocessor directives of the code, one after the other, found by skipping its
/// comments and literals.
pub fn extract_preprocessor_directives(code: &str) -> (res: Result<String, Error>)
    ensures
        match res {
            Ok(s) => spec_extract_directives(code@) == Ok::<Seq<char>, ErrorView>(s@),
            Err(e) => spec_extract_directives(code@) == Err::<Seq<char>, ErrorView>(e@),
        },
{
    let cv = crate::text::chars_of(code);
    let c = cv.as_slice();
    let mut result = String::new();
    let mut pos: usize = 0;
    proof {
        assert(result@ + Seq::<char>::empty() =~= Seq::<char>::empty());
    }
    while pos < c.len()
        invariant
            pos <= c@.len(),
            c@ == code@,
            extract_from(c@, 0) == (match extract_from(c@, pos as int) {
                Ok(rest) => Ok::<Seq<char>, ErrorView>(result@ + rest),
                Err(x) => Err(x),
            }),
        decreases c@.len() - pos,
    {
        match first_start_exec(c, pos) {
            None => {
                proof {
                    assert(result@ + Seq::<char>::empty() =~= result@);
                }
                return Ok(result);
            },
            Some((q, k)) => {
                match start_end_exec(c, pos, q, k) {
                    Err(x) => {
                        return Err(x);
                    },
                    Ok((e, keep)) => {
                        let ghost before = result@;
                        if keep {
                            let part = crate::text::chars_range(c, q, e);
                            push_chars(&mut result, part.as_slice());
                        }
                        proof {
                            let part = if keep {
                                c@.subrange(q as int, e as int)
                            } else {
                                Seq::<char>::empty()
                            };
                            assert(result@ =~= before + part);
                            match extract_from(c@, e as int) {
                                Ok(rest) => {
                                    assert(before + (part + rest) =~= result@ + rest);
                                },
                                Err(_) => {},
                            }
                        }
                        pos = e;
                    },
                }
            },
        }
    }
    proof {
        assert(result@ + Seq::<char>::empty() =~= result@);
    }
    Ok(result)
}

/// The text of the pieces `ps` of the code, each from its start up to its end, one after
/// the other.
pub open spec fn pieces_text(c: Seq<char>, ps: Seq<(int, int)>) -> Seq<char>
    decreases ps.len(),
{
    if ps.len() == 0 {
        Seq::empty()
    } else {
        c.subrange(ps[0].0, ps[0].1) + pieces_text(c, ps.drop_first())
    }
}

/// The pieces lie in the code from `from` on, one after the other without overlapping,
/// and each starts with blanks and then `#`.
pub open spec fn pieces_in_order(c: Seq<char>, from: int, ps: Seq<(int, int)>) -> bool {
    &&& forall|i: int|
        0 <= i < ps.len() ==> from <= (#[trigger] ps[i]).0 <= ps[i].1 <= c.len()
            && blanks_then_hash(c, ps[i].0)
    &&& forall|i: int, j: int| 0 <= i < j < ps.len() ==> (#[trigger] ps[i]).1 <= (#[trigger] ps[j]).0
}

proof fn lemma_first_start(c: Seq<char>, pos: int, a: int)
    ensures
        first_start(c, pos, a) matches Some((q, k)) ==> a <= q < c.len() && start_kind_at(c, pos, q)
            == Some(k),
    decreases c.len() - a,
{
    if 0 <= a < c.len() && start_kind_at(c, pos, a) is None {
        lemma_first_start(c, pos, a + 1);
    }
}

/// Each piece is a whole directive: it ends where the directive that starts it ends.
pub open spec fn pieces_are_directives(c: Seq<char>, ps: Seq<(int, int)>) -> bool {
    forall|i: int|
        0 <= i < ps.len() ==> directive_end(c, (#[trigger] ps[i]).0) == Ok::<int, ErrorView>(
            ps[i].1,
        )
}

/// The directives found from `pos` on are pieces of the code in order.
pub(crate) proof fn lemma_extract_pieces(c: Seq<char>, pos: int) -> (ps: Seq<(int, int)>)
    requires
        extract_from(c, pos) is Ok,
    ensures
        pieces_in_order(c, pos, ps),
        pieces_are_directives(c, ps),
        pieces_text(c, ps) == extract_from(c, pos)->Ok_0,
    decreases c.len() - pos,
{
    if pos < 0 || pos >= c.len() {
        Seq::empty()
    } else {
        lemma_first_start(c, pos, pos);
        match first_start(c, pos, pos) {
            None => Seq::empty(),
            Some((q, k)) => {
                let (e, part) = start_end(c, pos, q, k)->Ok_0;
                let mine: Seq<(int, int)> = if k == StartKind::Directive && q <= e <= c.len() {
                    seq![(q, e)]
                } else {
                    Seq::empty()
                };
                assert(pieces_text(c, mine) == part) by {
                    if mine.len() == 1 {
                        assert(mine.drop_first() =~= Seq::<(int, int)>::empty());
                        assert(pieces_text(c, mine.drop_first()) == Seq::<char>::empty());
                        assert(part == c.subrange(q, e));
                        assert(part + Seq::<char>::empty() =~= part);
                    } else {
                        match k {
                            StartKind::Directive => {
                                assert(part == Seq::<char>::empty());
                            },
                            _ => {
                                assert(part == Seq::<char>::empty());
                            },
                        }
                    }
                }
                let rest: Seq<(int, int)> = if pos < e <= c.len() {
                    lemma_extract_pieces(c, e)
                } else {
                    Seq::empty()
                };
                let ps = mine + rest;
                assert(pieces_text(c, ps) == pieces_text(c, mine) + pieces_text(c, rest)) by {
                    if mine.len() == 1 {
                        assert(ps.drop_first() =~= rest);
                    } else {
                        assert(ps =~= rest);
                    }
                }
                if !(pos < e <= c.len()) {
                    assert(part + Seq::<char>::empty() =~= part);
                }
                assert forall|i: int| 0 <= i < ps.len() implies pos <= (#[trigger] ps[i]).0
                    <= ps[i].1 <= c.len() && blanks_then_hash(c, ps[i].0) && directive_end(
                    c,
                    ps[i].0,
                ) == Ok::<int, ErrorView>(ps[i].1) by {
                    if i >= mine.len() {
                        assert(ps[i] == rest[i - mine.len()]);
                    }
                }
                assert forall|i: int, j: int| 0 <= i < j < ps.len() implies (#[trigger] ps[i]).1
                    <= (#[trigger] ps[j]).0 by {
                    if i >= mine.len() {
                        assert(ps[i] == rest[i - mine.len()]);
                        assert(ps[j] == rest[j - mine.len()]);
                    } else {
                        assert(ps[j] == rest[j - mine.len()]);
                    }
                }
                ps
            },
        }
    }
}

/// The directives extracted from the code are pieces of it, taken in order without
/// overlapping, each starting with blanks and then `#`.
pub proof fn lemma_directives_are_pieces(code: Seq<char>)
    requires
        spec_extract_directives(code) is Ok,
    ensures
        exists|ps: Seq<(int, int)>|
            pieces_in_order(code, 0, ps) && #[trigger] pieces_text(code, ps)
                == spec_extract_directives(code)->Ok_0,
{
    let ps = lemma_extract_pieces(code, 0);
    assert(pieces_in_order(code, 0, ps) && pieces_text(code, ps) == spec_extract_directives(
        code,
    )->Ok_0);
}

/// What remains of `path` after the leading components of `base`, component by
/// component, as std's `Path::strip_prefix` gives it; `None` where `base` does not lead
/// `path`.
pub uninterp spec fn path_without_prefix(path: Seq<char>, base: Seq<char>) -> Option<Seq<char>>;

/// Calls std's `Path::strip_prefix`: what remains of `path` after `base`, or `None` where
/// `base` is not a prefix of `path`, component by component. The root `/` leads every
/// absolute path, whose first component is the root, so stripping it succeeds. The parts
/// of a path given as a string are strings again, so the conversion back loses nothing.
#[verifier::external_body]
pub(crate) fn strip_path_prefix(path: &str, base: &str) -> (res: Option<String>)
    ensures
        res.deep_view() == path_without_prefix(path@, base@),
        is_absolute(path@) && base@ == seq!['/'] ==> res is Some,
{
    match std::path::Path::new(path).strip_prefix(base) {
        Ok(p) => Some(p.to_string_lossy().into_owned()),
        Err(_) => None,
    }
}

/// The path under `directives_dir` that holds the directives of the file `original`: the
/// original path, without its root, below that directory.
pub open spec fn spec_directives_path(directives_dir: Seq<char>, original: Seq<char>) -> Result<
    Seq<char>,
    ErrorView,
> {
    if !is_absolute(original) {
        Err(ErrorView::RelativePath)
    } else {
        match path_without_prefix(original, seq!['/']) {
            Some(rel) => Ok(join(directives_dir, rel)),
            None => Err(ErrorView::RelativePath),
        }
    }
}

/// The path under `directives_dir` that holds the directives of the file `original`.
pub fn get_corresponding_directives_path(directives_dir: &str, original: &str) -> (res: Result<
    String,
    Error,
>)
    ensures
        match res {
            Ok(p) => spec_directives_path(directives_dir@, original@) == Ok::<Seq<char>, ErrorView>(
                p@,
            ),
            Err(e) => spec_directives_path(directives_dir@, original@) == Err::<
                Seq<char>,
                ErrorView,
            >(e@),
        },
        res is Ok <==> is_absolute(original@),
{
    let oc = crate::text::chars_of(original);
    if !(oc.len() > 0 && oc[0] == '/') {
        return Err(Error::RelativePath);
    }
    let root = "/";
    proof {
        reveal_strlit("/");
        assert(root@ =~= seq!['/']);
    }
    match strip_path_prefix(original, root) {
        Some(rel) => Ok(crate::path_utils::make_absolute(directives_dir, rel.as_str())),
        None => Err(Error::RelativePath),
    }
}

/// The file whose directives are kept at `derived`: the path below `directives_dir` taken
/// from the root, or `derived` itself where it is not below that directory.
pub open spec fn spec_original_path(directives_dir: Seq<char>, derived: Seq<char>) -> Seq<char> {
    match path_without_prefix(derived, directives_dir) {
        Some(rel) => join(seq!['/'], rel),
        None => derived,
    }
}

/// The file whose directives are kept at `derived`.
pub fn get_original_path(directives_dir: &str, derived: &str) -> (res: String)
    ensures
        res@ == spec_original_path(directives_dir@, derived@),
{
    match strip_path_prefix(derived, directives_dir) {
        Some(rel) => {
            let root = "/";
            proof {
                reveal_strlit("/");
                assert(root@ =~= seq!['/']);
            }
            crate::path_utils::make_absolute(root, rel.as_str())
        },
        None => crate::text::copy_string(&derived.to_string()),
    }
}

/// What became of the file of directives of a source file.
#[derive(Debug, PartialEq, Eq, Structural, Clone, Copy)]
pub enum DirectivesUpdate {
    Unchanged,
    Changed,
    Removed,
}

/// What to do with the file of directives of a source file.
#[derive(Debug)]
pub enum DirectivesAction {
    /// Leave it as it is.
    Keep,
    /// Remove it: the source file is gone.
    Remove,
    /// Write these directives to it.
    Write(String),
}

/// What to do with the file of directives, given the source file's code (`None` where it
/// does not exist) and the directives kept so far (`None` where there are none): remove
/// them where the source is gone, keep them where they are the source's directives, else
/// write the source's directives.
pub open spec fn spec_plan_directives(
    original: Option<Seq<char>>,
    derived: Option<Seq<char>>,
) -> Result<Option<Option<Seq<char>>>, ErrorView> {
    match original {
        None => if derived is Some {
            Ok(Some(None))
        } else {
            Ok(None)
        },
        Some(code) => match spec_extract_directives(code) {
            Err(e) => Err(e),
            Ok(d) => if derived == Some(d) {
                Ok(None)
            } else {
                Ok(Some(Some(d)))
            },
        },
    }
}

impl DirectivesAction {
    /// What the action states: `None` to keep, `Some(None)` to remove, `Some(Some(d))` to
    /// write `d`.
    pub open spec fn view_action(&self) -> Option<Option<Seq<char>>> {
        match self {
            DirectivesAction::Keep => None,
            DirectivesAction::Remove => Some(None),
            DirectivesAction::Write(d) => Some(Some(d@)),
        }
    }

    /// What became of the file once the action is done.
    pub fn update(&self) -> (res: DirectivesUpdate)
        ensures
            res == (match self {
                DirectivesAction::Keep => DirectivesUpdate::Unchanged,
                DirectivesAction::Remove => DirectivesUpdate::Removed,
                DirectivesAction::Write(_) => DirectivesUpdate::Changed,
            }),
    {
        match self {
            DirectivesAction::Keep => DirectivesUpdate::Unchanged,
            DirectivesAction::Remove => DirectivesUpdate::Removed,
            DirectivesAction::Write(_) => DirectivesUpdate::Changed,
        }
    }
}

/// What to do with the file of directives of a source file.
pub fn plan_directives_update(original: Option<&str>, derived: Option<&str>) -> (res: Result<
    DirectivesAction,
    Error,
>)
    ensures
        match res {
            Ok(a) => spec_plan_directives(
                match original {
                    Some(o) => Some(o@),
                    None => None,
                },
                match derived {
                    Some(d) => Some(d@),
                    None => None,
                },
            ) == Ok::<Option<Option<Seq<char>>>, ErrorView>(a.view_action()),
            Err(e) => spec_plan_directives(
                match original {
                    Some(o) => Some(o@),
                    None => None,
                },
                match derived {
                    Some(d) => Some(d@),
                    None => None,
                },
            ) == Err::<Option<Option<Seq<char>>>, ErrorView>(e@),
        },
{
    match original {
        None => match derived {
            Some(_) => Ok(DirectivesAction::Remove),
            None => Ok(DirectivesAction::Keep),
        },
        Some(code) => {
            let d = extract_preprocessor_directives(code)?;
            match derived {
                Some(old) => {
                    let oc = crate::text::chars_of(old);
                    let dc = crate::text::chars_of(d.as_str());
                    if crate::text::chars_eq(oc.as_slice(), dc.as_slice()) {
                        Ok(DirectivesAction::Keep)
                    } else {
                        Ok(DirectivesAction::Write(d))
                    }
                },
                None => Ok(DirectivesAction::Write(d)),
            }
        },
    }
}

/// The directives file after an action has been carried out: the file as it was, or
/// removed, or holding what was written.
pub open spec fn after_action(derived: Option<Seq<char>>, action: Option<Option<Seq<char>>>) -> Option<
    Seq<char>,
> {
    match action {
        None => derived,
        Some(None) => None,
        Some(Some(d)) => Some(d),
    }
}

/// Updating settles: once the action that a plan gives has been carried out, planning
/// again for the same source leaves the directives file as it is.
pub proof fn lemma_update_settles(original: Option<Seq<char>>, derived: Option<Seq<char>>)
    requires
        spec_plan_directives(original, derived) is Ok,
    ensures
        spec_plan_directives(
            original,
            after_action(derived, spec_plan_directives(original, derived)->Ok_0),
        ) == Ok::<Option<Option<Seq<char>>>, ErrorView>(None),
{
}

} // verus!