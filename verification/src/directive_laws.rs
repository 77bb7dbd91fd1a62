//! Reading the directives found in code again finds them once more: what decides where a
//! directive ends lies inside it, so it ends at the same place wherever it stands.

use vstd::prelude::*;
use crate::directives::{
    backslashes_before, blanks_then_hash, directive_end, directive_scan, event_at, extract_from,
    find_char_from, find_from, first_event, first_start, lemma_extract_pieces, line_comment_scan,
    pair_at, paren_ahead, pieces_are_directives, pieces_text, quoted_scan, raw_closing,
    skipped_end, spec_extract_directives, start_end, start_kind_at, DirectiveEvent,
};
use crate::text::occurs_at;

verus! {

/// The code `r`, from `lo + delta` on, holds what `c` holds from `lo` up to `hi`, where
/// the window ends in a line end or at the end of `c`, and `r` ends with it where `c` does.
pub open spec fn same_window(c: Seq<char>, r: Seq<char>, lo: int, hi: int, delta: int) -> bool {
    &&& 0 <= lo <= hi <= c.len()
    &&& 0 <= lo + delta
    &&& hi + delta <= r.len()
    &&& forall|k: int| lo <= k < hi ==> #[trigger] c[k] == r[k + delta]
    &&& hi == c.len() ==> hi + delta == r.len()
    &&& hi == c.len() || (lo < hi && c[hi - 1] == '\n')
}

/// Both codes end where the window does.
pub open spec fn ends_together(c: Seq<char>, r: Seq<char>, hi: int, delta: int) -> bool {
    hi == c.len() && hi + delta == r.len()
}

proof fn lemma_paren_ahead_local(c: Seq<char>, r: Seq<char>, lo: int, hi: int, delta: int, p: int)
    requires
        same_window(c, r, lo, hi, delta),
        lo <= p <= hi,
        p < hi || ends_together(c, r, hi, delta),
    ensures
        paren_ahead(c, p) == paren_ahead(r, p + delta),
    decreases hi - p,
{
    if p < hi {
        assert(c[p] == r[p + delta]);
        if c[p] != '(' && c[p] != '\r' && c[p] != '\n' {
            if p + 1 < hi || ends_together(c, r, hi, delta) {
                lemma_paren_ahead_local(c, r, lo, hi, delta, p + 1);
            }
        }
    }
}

proof fn lemma_event_at_local(c: Seq<char>, r: Seq<char>, lo: int, hi: int, delta: int, a: int)
    requires
        same_window(c, r, lo, hi, delta),
        lo <= a < hi,
    ensures
        event_at(c, a) == event_at(r, a + delta),
{
    assert(c[a] == r[a + delta]);
    if a + 1 < hi {
        assert(c[a + 1] == r[a + 1 + delta]);
        if pair_at(c, a, 'R', '"') {
            if a + 2 < hi || ends_together(c, r, hi, delta) {
                lemma_paren_ahead_local(c, r, lo, hi, delta, a + 2);
            } else {
                assert(c[hi - 1] == '\n');
            }
        }
    }
}

proof fn lemma_first_event_bounds(c: Seq<char>, a: int)
    ensures
        first_event(c, a) matches Some((i, ev)) ==> a <= i < c.len() && event_at(c, i) == Some(ev),
    decreases c.len() - a,
{
    if 0 <= a < c.len() && event_at(c, a) is None {
        lemma_first_event_bounds(c, a + 1);
    }
}

proof fn lemma_first_event_local(c: Seq<char>, r: Seq<char>, lo: int, hi: int, delta: int, a: int)
    requires
        same_window(c, r, lo, hi, delta),
        lo <= a <= hi,
        first_event(c, a) matches Some((i, ev)) ==> i < hi,
        first_event(c, a) is None ==> ends_together(c, r, hi, delta),
    ensures
        first_event(r, a + delta) == match first_event(c, a) {
            Some((i, ev)) => Some((i + delta, ev)),
            None => None,
        },
    decreases hi - a,
{
    lemma_first_event_bounds(c, a);
    if a < hi {
        lemma_event_at_local(c, r, lo, hi, delta, a);
        if event_at(c, a) is None {
            lemma_first_event_local(c, r, lo, hi, delta, a + 1);
        }
    }
}

proof fn lemma_line_comment_bounds(c: Seq<char>, s: int, i: int)
    requires
        s <= i <= c.len(),
    ensures
        i <= line_comment_scan(c, s, i) <= c.len(),
        i < c.len() ==> i < line_comment_scan(c, s, i),
    decreases c.len() - i,
{
    if i < c.len() {
        lemma_line_comment_bounds(c, s, i + 1);
    }
}

proof fn lemma_line_comment_local(
    c: Seq<char>,
    r: Seq<char>,
    lo: int,
    hi: int,
    delta: int,
    s: int,
    i: int,
)
    requires
        same_window(c, r, lo, hi, delta),
        lo <= s <= i <= hi,
        line_comment_scan(c, s, i) <= hi,
    ensures
        line_comment_scan(r, s + delta, i + delta) == line_comment_scan(c, s, i) + delta,
    decreases hi - i,
{
    lemma_line_comment_bounds(c, s, i);
    if i < c.len() {
        if i == hi {
            lemma_line_comment_bounds(c, s, i);
        } else {
            assert(c[i] == r[i + delta]);
            if i > s {
                assert(c[i - 1] == r[i - 1 + delta]);
            }
            if i > s + 1 {
                assert(c[i - 2] == r[i - 2 + delta]);
            }
            if !(c[i] == '\n' && !(i > s && c[i - 1] == '\\') && !(i > s + 1 && c[i - 2] == '\\'
                && c[i - 1] == '\r')) {
                lemma_line_comment_local(c, r, lo, hi, delta, s, i + 1);
            }
        }
    }
}

proof fn lemma_find_from_bounds(hay: Seq<char>, needle: Seq<char>, i: int)
    ensures
        find_from(hay, needle, i) matches Some(j) ==> i <= j && occurs_at(hay, needle, j),
    decreases hay.len() - i,
{
    if !(i < 0 || i >= hay.len() || i + needle.len() > hay.len()) && !occurs_at(hay, needle, i) {
        lemma_find_from_bounds(hay, needle, i + 1);
    }
}

proof fn lemma_find_from_local(
    c: Seq<char>,
    r: Seq<char>,
    lo: int,
    hi: int,
    delta: int,
    needle: Seq<char>,
    i: int,
)
    requires
        same_window(c, r, lo, hi, delta),
        lo <= i,
        needle.len() >= 1,
        find_from(c, needle, i) matches Some(j) && j + needle.len() <= hi,
    ensures
        find_from(r, needle, i + delta) == Some(find_from(c, needle, i)->Some_0 + delta),
    decreases hi - i,
{
    lemma_find_from_bounds(c, needle, i);
    let j = find_from(c, needle, i)->Some_0;
    let n = needle.len() as int;
    assert(c.subrange(i, i + n) =~= r.subrange(i + delta, i + delta + n)) by {
        assert forall|k: int| 0 <= k < n implies #[trigger] c.subrange(i, i + n)[k] == r.subrange(
            i + delta,
            i + delta + n,
        )[k] by {
            assert(c[i + k] == r[i + k + delta]);
        }
    }
    if i < j {
        lemma_find_from_local(c, r, lo, hi, delta, needle, i + 1);
    }
}

proof fn lemma_find_char_bounds(c: Seq<char>, ch: char, i: int)
    ensures
        find_char_from(c, ch, i) matches Some(j) ==> i <= j < c.len() && c[j] == ch,
    decreases c.len() - i,
{
    if 0 <= i < c.len() && c[i] != ch {
        lemma_find_char_bounds(c, ch, i + 1);
    }
}

proof fn lemma_find_char_local(
    c: Seq<char>,
    r: Seq<char>,
    lo: int,
    hi: int,
    delta: int,
    ch: char,
    i: int,
)
    requires
        same_window(c, r, lo, hi, delta),
        lo <= i,
        find_char_from(c, ch, i) matches Some(j) && j < hi,
    ensures
        find_char_from(r, ch, i + delta) == Some(find_char_from(c, ch, i)->Some_0 + delta),
    decreases hi - i,
{
    lemma_find_char_bounds(c, ch, i);
    let j = find_char_from(c, ch, i)->Some_0;
    assert(c[i] == r[i + delta]);
    if i < j {
        lemma_find_char_local(c, r, lo, hi, delta, ch, i + 1);
    }
}

proof fn lemma_backslashes_local(
    c: Seq<char>,
    r: Seq<char>,
    lo: int,
    hi: int,
    delta: int,
    s: int,
    i: int,
)
    requires
        same_window(c, r, lo, hi, delta),
        lo <= s,
        i <= hi,
    ensures
        backslashes_before(r, s + delta, i + delta) == backslashes_before(c, s, i),
    decreases i - s,
{
    if i > s {
        assert(c[i - 1] == r[i - 1 + delta]);
        lemma_backslashes_local(c, r, lo, hi, delta, s, i - 1);
    }
}

proof fn lemma_quoted_bounds(c: Seq<char>, s: int, q: char, i: int)
    ensures
        quoted_scan(c, s, q, i) matches Some(e) ==> s < i < e <= c.len() && i <= e - 1,
    decreases c.len() - i,
{
    if !(i <= s || i >= c.len()) && !(c[i] == q && backslashes_before(c, s, i) % 2 == 0) {
        lemma_quoted_bounds(c, s, q, i + 1);
    }
}

proof fn lemma_quoted_local(
    c: Seq<char>,
    r: Seq<char>,
    lo: int,
    hi: int,
    delta: int,
    s: int,
    q: char,
    i: int,
)
    requires
        same_window(c, r, lo, hi, delta),
        lo <= s,
        quoted_scan(c, s, q, i) matches Some(e) && e <= hi,
    ensures
        quoted_scan(r, s + delta, q, i + delta) == Some(quoted_scan(c, s, q, i)->Some_0 + delta),
    decreases hi - i,
{
    lemma_quoted_bounds(c, s, q, i);
    assert(c[i] == r[i + delta]);
    lemma_backslashes_local(c, r, lo, hi, delta, s, i);
    if !(c[i] == q && backslashes_before(c, s, i) % 2 == 0) {
        lemma_quoted_local(c, r, lo, hi, delta, s, q, i + 1);
    }
}

proof fn lemma_paren_ahead_finds(c: Seq<char>, x: int)
    requires
        paren_ahead(c, x),
    ensures
        find_char_from(c, '(', x) matches Some(p) && x <= p < c.len() && forall|k: int|
            x <= k < p ==> #[trigger] c[k] != '\n',
    decreases c.len() - x,
{
    if c[x] != '(' {
        lemma_paren_ahead_finds(c, x + 1);
    }
}

proof fn lemma_skipped_bounds(c: Seq<char>, i: int, ev: DirectiveEvent)
    requires
        0 <= i < c.len(),
    ensures
        skipped_end(c, i, ev) matches Ok(e) ==> i < e <= c.len(),
{
    match ev {
        DirectiveEvent::BlockComment => {
            lemma_find_from_bounds(c, seq!['*', '/'], i);
        },
        DirectiveEvent::Str => {
            lemma_quoted_bounds(c, i, '"', i + 1);
        },
        DirectiveEvent::Char => {
            lemma_quoted_bounds(c, i, '\'', i + 1);
        },
        _ => {
            lemma_find_char_bounds(c, '(', i);
            match find_char_from(c, '(', i) {
                Some(p) => {
                    if p >= i + 2 {
                        let closing = raw_closing(c.subrange(i + 2, p));
                        lemma_find_from_bounds(c, closing, i);
                    }
                },
                None => {},
            }
        },
    }
}

proof fn lemma_skipped_local(
    c: Seq<char>,
    r: Seq<char>,
    lo: int,
    hi: int,
    delta: int,
    i: int,
    ev: DirectiveEvent,
)
    requires
        same_window(c, r, lo, hi, delta),
        lo <= i < hi,
        event_at(c, i) == Some(ev),
        ev != DirectiveEvent::Newline,
        ev != DirectiveEvent::LineComment,
        skipped_end(c, i, ev) matches Ok(e) && e <= hi,
    ensures
        skipped_end(r, i + delta, ev) == Ok::<int, crate::error::ErrorView>(
            skipped_end(c, i, ev)->Ok_0 + delta,
        ),
{
    lemma_skipped_bounds(c, i, ev);
    match ev {
        DirectiveEvent::BlockComment => {
            lemma_find_from_local(c, r, lo, hi, delta, seq!['*', '/'], i);
        },
        DirectiveEvent::Str => {
            lemma_quoted_local(c, r, lo, hi, delta, i, '"', i + 1);
        },
        DirectiveEvent::Char => {
            lemma_quoted_local(c, r, lo, hi, delta, i, '\'', i + 1);
        },
        _ => {
            assert(pair_at(c, i, 'R', '"') && paren_ahead(c, i + 2));
            lemma_paren_ahead_finds(c, i + 2);
            assert(find_char_from(c, '(', i) == find_char_from(c, '(', i + 1));
            assert(find_char_from(c, '(', i + 1) == find_char_from(c, '(', i + 2));
            let p = find_char_from(c, '(', i)->Some_0;
            if hi < c.len() {
                assert(c[hi - 1] == '\n');
                assert(i + 2 <= hi - 1);
                lemma_find_char_bounds(c, '(', i + 2);
                assert(p < hi - 1) by {
                    if hi - 1 < p {
                        assert(c[hi - 1] != '\n');
                    } else if hi - 1 == p {
                        assert(c[p] == '(');
                    }
                }
            }
            lemma_find_char_local(c, r, lo, hi, delta, '(', i);
            let closing = raw_closing(c.subrange(i + 2, p));
            assert(c.subrange(i + 2, p) =~= r.subrange(i + 2 + delta, p + delta)) by {
                assert forall|k: int| 0 <= k < p - (i + 2) implies #[trigger] c.subrange(i + 2, p)[k]
                    == r.subrange(i + 2 + delta, p + delta)[k] by {
                    assert(c[i + 2 + k] == r[i + 2 + k + delta]);
                }
            }
            lemma_find_from_local(c, r, lo, hi, delta, closing, i);
        },
    }
}

proof fn lemma_directive_scan_bounds(c: Seq<char>, d: int, cur: int)
    requires
        0 <= cur <= c.len(),
    ensures
        directive_scan(c, d, cur) matches Ok(e) ==> cur <= e <= c.len() && (first_event(c, cur) matches Some((i, ev)) ==> i < e),
    decreases c.len() - cur,
{
    lemma_first_event_bounds(c, cur);
    match first_event(c, cur) {
        None => {},
        Some((i, ev)) => {
            match ev {
                DirectiveEvent::Newline => {
                    if i > d && c[i - 1] == '\\' {
                        lemma_directive_scan_bounds(c, d, i + 1);
                    }
                },
                DirectiveEvent::LineComment => {
                    lemma_line_comment_bounds(c, i, i);
                },
                _ => {
                    lemma_skipped_bounds(c, i, ev);
                    match skipped_end(c, i, ev) {
                        Ok(e) => {
                            lemma_directive_scan_bounds(c, d, e);
                        },
                        Err(_) => {},
                    }
                },
            }
        },
    }
}

proof fn lemma_directive_scan_local(
    c: Seq<char>,
    r: Seq<char>,
    lo: int,
    delta: int,
    d: int,
    cur: int,
)
    requires
        directive_scan(c, d, cur) is Ok,
        same_window(c, r, lo, directive_scan(c, d, cur)->Ok_0, delta),
        lo <= d <= cur <= c.len(),
    ensures
        directive_scan(r, d + delta, cur + delta) == Ok::<int, crate::error::ErrorView>(
            directive_scan(c, d, cur)->Ok_0 + delta,
        ),
    decreases c.len() - cur,
{
    let hi = directive_scan(c, d, cur)->Ok_0;
    lemma_directive_scan_bounds(c, d, cur);
    lemma_first_event_bounds(c, cur);
    lemma_first_event_local(c, r, lo, hi, delta, cur);
    match first_event(c, cur) {
        None => {},
        Some((i, ev)) => {
            match ev {
                DirectiveEvent::Newline => {
                    if i > d {
                        assert(c[i - 1] == r[i - 1 + delta]);
                    }
                    if i > d && c[i - 1] == '\\' {
                        lemma_directive_scan_local(c, r, lo, delta, d, i + 1);
                    }
                },
                DirectiveEvent::LineComment => {
                    lemma_line_comment_local(c, r, lo, hi, delta, i, i);
                },
                _ => {
                    lemma_skipped_bounds(c, i, ev);
                    let e = skipped_end(c, i, ev)->Ok_0;
                    lemma_directive_scan_bounds(c, d, e);
                    lemma_skipped_local(c, r, lo, hi, delta, i, ev);
                    lemma_directive_scan_local(c, r, lo, delta, d, e);
                },
            }
        },
    }
}

proof fn lemma_line_comment_shape(c: Seq<char>, s: int, i: int)
    requires
        0 <= s <= i <= c.len(),
    ensures
        line_comment_scan(c, s, i) == c.len() || (line_comment_scan(c, s, i) >= 1 && c[line_comment_scan(
            c,
            s,
            i,
        ) - 1] == '\n'),
    decreases c.len() - i,
{
    lemma_line_comment_bounds(c, s, i);
    if i < c.len() {
        lemma_line_comment_bounds(c, s, i + 1);
        lemma_line_comment_shape(c, s, i + 1);
        if c[i] == '\n' && !(i > s && c[i - 1] == '\\') && !(i > s + 1 && c[i - 2] == '\\'
            && c[i - 1] == '\r') {
            assert(line_comment_scan(c, s, i) == i + 1);
        } else {
            assert(line_comment_scan(c, s, i) == line_comment_scan(c, s, i + 1));
        }
    }
}

/// A directive ends at the end of the code or right after a line end.
proof fn lemma_directive_scan_shape(c: Seq<char>, d: int, cur: int)
    requires
        0 <= cur <= c.len(),
        directive_scan(c, d, cur) is Ok,
    ensures
        directive_scan(c, d, cur)->Ok_0 == c.len() || (directive_scan(c, d, cur)->Ok_0 >= 1 && c[directive_scan(
            c,
            d,
            cur,
        )->Ok_0 - 1] == '\n'),
    decreases c.len() - cur,
{
    lemma_first_event_bounds(c, cur);
    match first_event(c, cur) {
        None => {},
        Some((i, ev)) => {
            match ev {
                DirectiveEvent::Newline => {
                    if i > d && c[i - 1] == '\\' {
                        lemma_directive_scan_shape(c, d, i + 1);
                    }
                },
                DirectiveEvent::LineComment => {
                    lemma_line_comment_shape(c, i, i);
                },
                _ => {
                    lemma_skipped_bounds(c, i, ev);
                    let e = skipped_end(c, i, ev)->Ok_0;
                    lemma_directive_scan_shape(c, d, e);
                },
            }
        },
    }
}

/// Where blanks and then `#` start at `a`, the position of that `#`.
proof fn lemma_hash_position(c: Seq<char>, a: int) -> (h: int)
    requires
        blanks_then_hash(c, a),
    ensures
        a <= h < c.len(),
        c[h] == '#',
        forall|k: int| a <= k < h ==> #[trigger] c[k] == ' ' || c[k] == '\t',
    decreases c.len() - a,
{
    if c[a] == '#' {
        a
    } else {
        lemma_hash_position(c, a + 1)
    }
}

proof fn lemma_no_events_before(c: Seq<char>, a: int, h: int)
    requires
        0 <= a <= h < c.len(),
        forall|k: int| a <= k <= h ==> #[trigger] c[k] == ' ' || c[k] == '\t' || c[k] == '#',
    ensures
        first_event(c, a) == first_event(c, h + 1),
    decreases h - a,
{
    assert(c[a] == ' ' || c[a] == '\t' || c[a] == '#');
    assert(event_at(c, a) is None);
    if a < h {
        lemma_no_events_before(c, a + 1, h);
    }
}

proof fn lemma_blanks_local(
    c: Seq<char>,
    r: Seq<char>,
    lo: int,
    hi: int,
    delta: int,
    a: int,
    h: int,
)
    requires
        same_window(c, r, lo, hi, delta),
        lo <= a <= h < hi,
        c[h] == '#',
        forall|k: int| a <= k < h ==> #[trigger] c[k] == ' ' || c[k] == '\t',
    ensures
        blanks_then_hash(r, a + delta),
    decreases h - a,
{
    assert(c[a] == r[a + delta]);
    if a < h {
        lemma_blanks_local(c, r, lo, hi, delta, a + 1, h);
    }
}

/// A directive that starts with blanks and `#` at `q` ends after its `#`.
proof fn lemma_directive_past_hash(c: Seq<char>, q: int) -> (h: int)
    requires
        blanks_then_hash(c, q),
        directive_end(c, q) is Ok,
    ensures
        q <= h < directive_end(c, q)->Ok_0 <= c.len(),
        c[h] == '#',
        forall|k: int| q <= k < h ==> #[trigger] c[k] == ' ' || c[k] == '\t',
{
    let h = lemma_hash_position(c, q);
    lemma_no_events_before(c, q, h);
    lemma_first_event_bounds(c, h + 1);
    lemma_directive_scan_bounds(c, q, q);
    h
}

/// Where a directive of `c` follows `prefix`, reading from the end of `prefix` finds it
/// whole.
proof fn lemma_reextract_step(c: Seq<char>, q: int, e: int, prefix: Seq<char>, t2: Seq<char>)
    requires
        0 <= q <= e <= c.len(),
        blanks_then_hash(c, q),
        directive_end(c, q) == Ok::<int, crate::error::ErrorView>(e),
        e == c.len() ==> t2.len() == 0,
    ensures
        ({
            let r = prefix + c.subrange(q, e) + t2;
            let pos = prefix.len() as int;
            let end = pos + (e - q);
            &&& pos < end <= r.len()
            &&& first_start(r, pos, pos) == Some((pos, crate::directives::StartKind::Directive))
            &&& start_end(r, pos, pos, crate::directives::StartKind::Directive) == Ok::<
                (int, Seq<char>),
                crate::error::ErrorView,
            >((end, c.subrange(q, e)))
        }),
{
    let piece = c.subrange(q, e);
    let r = prefix + piece + t2;
    let h = lemma_directive_past_hash(c, q);
    lemma_directive_scan_shape(c, q, q);
    let delta = prefix.len() - q;
    assert forall|k: int| q <= k < e implies #[trigger] c[k] == r[k + delta] by {
        assert(r[k + delta] == piece[k - q]);
    }
    assert(same_window(c, r, q, e, delta));
    lemma_blanks_local(c, r, q, e, delta, q, h);
    let pos = prefix.len() as int;
    assert(start_kind_at(r, pos, pos) == Some(crate::directives::StartKind::Directive));
    assert(first_start(r, pos, pos) == Some((pos, crate::directives::StartKind::Directive)));
    lemma_directive_scan_local(c, r, q, delta, q, q);
    assert(directive_end(r, pos) == Ok::<int, crate::error::ErrorView>(e + delta));
    assert(r.subrange(pos, e + delta) =~= piece);
}

/// Reading the directives again from the end of `prefix`, where the pieces `ps` follow
/// it, finds those pieces.
#[verifier::rlimit(30)]
proof fn lemma_reextract(c: Seq<char>, ps: Seq<(int, int)>, prefix: Seq<char>)
    requires
        forall|i: int|
            0 <= i < ps.len() ==> 0 <= (#[trigger] ps[i]).0 <= ps[i].1 <= c.len() && blanks_then_hash(
                c,
                ps[i].0,
            ),
        forall|i: int, j: int| 0 <= i < j < ps.len() ==> (#[trigger] ps[i]).1 <= (#[trigger] ps[j]).0,
        pieces_are_directives(c, ps),
    ensures
        extract_from(prefix + pieces_text(c, ps), prefix.len() as int) == Ok::<
            Seq<char>,
            crate::error::ErrorView,
        >(pieces_text(c, ps)),
    decreases ps.len(),
{
    let t = pieces_text(c, ps);
    let r = prefix + t;
    if ps.len() == 0 {
        assert(r =~= prefix);
    } else {
        let q = ps[0].0;
        let e = ps[0].1;
        let rest = ps.drop_first();
        let piece = c.subrange(q, e);
        let t2 = pieces_text(c, rest);
        assert(t == piece + t2);
        if e == c.len() {
            assert(rest.len() == 0) by {
                if rest.len() > 0 {
                    assert(ps[0].1 <= ps[1].0);
                    assert(blanks_then_hash(c, ps[1].0));
                }
            }
        }
        assert(r =~= prefix + piece + t2);
        lemma_reextract_step(c, q, e, prefix, t2);
        assert forall|i: int| 0 <= i < rest.len() implies 0 <= (#[trigger] rest[i]).0 <= rest[i].1
            <= c.len() && blanks_then_hash(c, rest[i].0) by {
            assert(rest[i] == ps[i + 1]);
        }
        assert forall|i: int, j: int| 0 <= i < j < rest.len() implies (#[trigger] rest[i]).1 <= (
        #[trigger] rest[j]).0 by {
            assert(rest[i] == ps[i + 1]);
            assert(rest[j] == ps[j + 1]);
        }
        assert forall|i: int| 0 <= i < rest.len() implies directive_end(c, (#[trigger] rest[i]).0)
            == Ok::<int, crate::error::ErrorView>(rest[i].1) by {
            assert(rest[i] == ps[i + 1]);
        }
        lemma_reextract(c, rest, prefix + piece);
        assert(prefix + piece + t2 =~= (prefix + piece) + t2);
    }
}

/// Reading the directives found in code again gives them back unchanged: each directive
/// starts a line of what was found and ends where it ended in the code.
pub proof fn lemma_extract_again(code: Seq<char>)
    requires
        spec_extract_directives(code) is Ok,
    ensures
        spec_extract_directives(spec_extract_directives(code)->Ok_0) == spec_extract_directives(
            code,
        ),
{
    let ps = lemma_extract_pieces(code, 0);
    let t = spec_extract_directives(code)->Ok_0;
    lemma_reextract(code, ps, Seq::empty());
    assert(Seq::<char>::empty() + pieces_text(code, ps) =~= t);
}

} // verus!
