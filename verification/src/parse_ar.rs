//! The arguments of an `ar` invocation, read into their parts and written back.

use vstd::prelude::*;
use crate::error::{Error, ErrorView};
use crate::path_utils::{is_absolute, make_absolute, spec_make_absolute};
use crate::text::push_string;

verus! {

/// The letters that `ar`'s first argument may hold.
pub open spec fn is_ar_flag(c: char) -> bool {
    c == 'q' || c == 'c' || c == 's' || c == 'T'
}

/// The first letter of `s` that is not a known flag.
pub open spec fn first_unknown_flag(s: Seq<char>) -> Option<char>
    decreases s.len(),
{
    if s.len() == 0 {
        None
    } else if !is_ar_flag(s[0]) {
        Some(s[0])
    } else {
        first_unknown_flag(s.skip(1))
    }
}

/// The parts of an `ar` invocation, as values of specifications.
#[verifier::ext_equal]
pub struct ArArgsView {
    pub flag_q: bool,
    pub flag_c: bool,
    pub flag_s: bool,
    pub flag_t: bool,
    pub output: Option<Seq<char>>,
    pub sources: Seq<Seq<char>>,
}

/// The parts of the `ar` invocation with arguments `args`, run in `cwd`: the flags of the
/// first argument, the archive after it and the members after that, taken relative to
/// `cwd`.
pub open spec fn spec_parse_ar(cwd: Seq<char>, args: Seq<Seq<char>>) -> Result<
    ArArgsView,
    ErrorView,
> {
    if args.len() == 0 {
        Err(ErrorView::MissingFirstArgument)
    } else {
        match first_unknown_flag(args[0]) {
            Some(c) => Err(ErrorView::UnknownArFlag(c)),
            None => Ok(
                ArArgsView {
                    flag_q: args[0].contains('q'),
                    flag_c: args[0].contains('c'),
                    flag_s: args[0].contains('s'),
                    flag_t: args[0].contains('T'),
                    output: if args.len() > 1 {
                        Some(spec_make_absolute(cwd, args[1]))
                    } else {
                        None
                    },
                    sources: if args.len() > 2 {
                        args.skip(2).map_values(|p: Seq<char>| spec_make_absolute(cwd, p))
                    } else {
                        Seq::empty()
                    },
                },
            ),
        }
    }
}

/// The first argument that states the flags: their letters in the order `q`, `c`, `s`,
/// `T`.
pub open spec fn ar_flag_text(m: ArArgsView) -> Seq<char> {
    (if m.flag_q { seq!['q'] } else { Seq::empty() }) + (if m.flag_c {
        seq!['c']
    } else {
        Seq::empty()
    }) + (if m.flag_s { seq!['s'] } else { Seq::empty() }) + (if m.flag_t {
        seq!['T']
    } else {
        Seq::empty()
    })
}

/// The arguments that state the parts: the flags, the archive and the members.
pub open spec fn spec_ar_to_args(m: ArArgsView) -> Seq<Seq<char>> {
    seq![ar_flag_text(m)] + (match m.output {
        Some(o) => seq![o],
        None => Seq::empty(),
    }) + m.sources
}

/// The parts of an `ar` invocation.
#[derive(Debug, PartialEq, Eq, Clone, Default)]
#[allow(non_snake_case)]
pub struct ArArgs {
    pub flag_q: bool,
    pub flag_c: bool,
    pub flag_s: bool,
    pub flag_T: bool,
    pub output: Option<String>,
    pub sources: Vec<String>,
}

impl View for ArArgs {
    type V = ArArgsView;

    open spec fn view(&self) -> ArArgsView {
        ArArgsView {
            flag_q: self.flag_q,
            flag_c: self.flag_c,
            flag_s: self.flag_s,
            flag_t: self.flag_T,
            output: self.output.deep_view(),
            sources: self.sources.deep_view(),
        }
    }
}

impl ArArgs {
    /// Reads the arguments of an `ar` invocation run in `cwd`.
    pub fn parse(cwd: &str, raw_args: &[String]) -> (res: Result<ArArgs, Error>)
        ensures
            match res {
                Ok(a) => spec_parse_ar(cwd@, raw_args.deep_view()) == Ok::<ArArgsView, ErrorView>(
                    a@,
                ),
                Err(e) => spec_parse_ar(cwd@, raw_args.deep_view()) == Err::<ArArgsView, ErrorView>(
                    e@,
                ),
            },
    {
        if raw_args.len() == 0 {
            return Err(Error::MissingFirstArgument);
        }
        let ghost all = raw_args.deep_view();
        let first = crate::text::chars_of(raw_args[0].as_str());
        proof {
            assert(all[0] == first@);
        }
        let mut q = false;
        let mut c = false;
        let mut s = false;
        let mut t = false;
        let mut i: usize = 0;
        proof {
            assert(first@.skip(0) =~= first@);
        }
        while i < first.len()
            invariant
                i <= first@.len(),
                raw_args@.len() > 0,
                all == raw_args.deep_view(),
                all[0] == first@,
                first_unknown_flag(first@) == first_unknown_flag(first@.skip(i as int)),
                q == first@.take(i as int).contains('q'),
                c == first@.take(i as int).contains('c'),
                s == first@.take(i as int).contains('s'),
                t == first@.take(i as int).contains('T'),
            decreases first@.len() - i,
        {
            let ch = first[i];
            proof {
                broadcast use vstd::seq_lib::group_seq_properties;

                assert(first@.skip(i as int)[0] == ch);
                assert(first@.skip(i as int).skip(1) =~= first@.skip(i + 1));
                assert(first@.take(i + 1) =~= first@.take(i as int).push(ch));
            }
            if ch == 'q' {
                q = true;
            } else if ch == 'c' {
                c = true;
            } else if ch == 's' {
                s = true;
            } else if ch == 'T' {
                t = true;
            } else {
                return Err(Error::UnknownArFlag(ch));
            }
            i = i + 1;
        }
        proof {
            assert(first@.skip(i as int) =~= Seq::<char>::empty());
            assert(first@.take(i as int) =~= first@);
        }
        let output = if raw_args.len() > 1 {
            Some(make_absolute(cwd, raw_args[1].as_str()))
        } else {
            None
        };
        let mut sources: Vec<String> = Vec::new();
        if raw_args.len() > 2 {
            let mut k: usize = 2;
            proof {
                assert(all.subrange(2, 2) =~= Seq::<Seq<char>>::empty());
                assert(sources.deep_view() =~= all.subrange(2, 2).map_values(
                    |p: Seq<char>| spec_make_absolute(cwd@, p),
                ));
            }
            while k < raw_args.len()
                invariant
                    2 <= k <= raw_args@.len(),
                    all == raw_args.deep_view(),
                    sources.deep_view() == all.subrange(2, k as int).map_values(
                        |p: Seq<char>| spec_make_absolute(cwd@, p),
                    ),
                decreases raw_args@.len() - k,
            {
                push_string(&mut sources, make_absolute(cwd, raw_args[k].as_str()));
                proof {
                    assert(all.subrange(2, k + 1) =~= all.subrange(2, k as int).push(all[k as int]));
                    assert(all.subrange(2, k + 1).map_values(
                        |p: Seq<char>| spec_make_absolute(cwd@, p),
                    ) =~= all.subrange(2, k as int).map_values(
                        |p: Seq<char>| spec_make_absolute(cwd@, p),
                    ).push(spec_make_absolute(cwd@, all[k as int])));
                }
                k = k + 1;
            }
            proof {
                assert(all.subrange(2, k as int) =~= all.skip(2));
            }
        }
        proof {
            if raw_args@.len() <= 2 {
                assert(sources.deep_view() =~= Seq::<Seq<char>>::empty());
            }
        }
        let res = ArArgs { flag_q: q, flag_c: c, flag_s: s, flag_T: t, output, sources };
        proof {
            assert(res@ =~= spec_parse_ar(cwd@, raw_args.deep_view())->Ok_0);
        }
        Ok(res)
    }

    /// The arguments that state these parts: the flags, the archive and the members.
    pub fn to_args(&self) -> (res: Vec<String>)
        ensures
            res.deep_view() == spec_ar_to_args(self@),
    {
        let mut first = String::new();
        if self.flag_q {
            first.push('q');
        }
        if self.flag_c {
            first.push('c');
        }
        if self.flag_s {
            first.push('s');
        }
        if self.flag_T {
            first.push('T');
        }
        proof {
            assert(first@ =~= ar_flag_text(self@));
        }
        let mut args: Vec<String> = Vec::new();
        push_string(&mut args, first);
        match &self.output {
            Some(o) => push_string(&mut args, o.clone()),
            None => {},
        }
        let ghost head = args.deep_view();
        let mut i: usize = 0;
        while i < self.sources.len()
            invariant
                i <= self.sources@.len(),
                args.deep_view() == head + self.sources.deep_view().take(i as int),
            decreases self.sources@.len() - i,
        {
            push_string(&mut args, self.sources[i].clone());
            proof {
                assert(self.sources.deep_view().take(i + 1) =~= self.sources.deep_view().take(
                    i as int,
                ).push(self.sources@[i as int]@));
            }
            i = i + 1;
        }
        proof {
            assert(self.sources.deep_view().take(self.sources@.len() as int)
                =~= self.sources.deep_view());
            assert(args.deep_view() =~= spec_ar_to_args(self@));
        }
        args
    }
}

/// Parts that [`spec_ar_to_args`] writes in a form that reads back the same: paths are
/// absolute, and there are members only where there is an archive.
pub open spec fn spec_ar_args_wf(m: ArArgsView) -> bool {
    &&& m.output matches Some(o) ==> is_absolute(o)
    &&& m.output is None ==> m.sources.len() == 0
    &&& forall|i: int| 0 <= i < m.sources.len() ==> is_absolute(#[trigger] m.sources[i])
}

/// The flag text holds each letter exactly where its flag is set, and nothing else.
proof fn lemma_ar_flag_text(m: ArArgsView)
    ensures
        first_unknown_flag(ar_flag_text(m)) is None,
        ar_flag_text(m).contains('q') == m.flag_q,
        ar_flag_text(m).contains('c') == m.flag_c,
        ar_flag_text(m).contains('s') == m.flag_s,
        ar_flag_text(m).contains('T') == m.flag_t,
{
    let t = ar_flag_text(m);
    assert forall|i: int| 0 <= i < t.len() implies is_ar_flag(t[i]) by {}
    lemma_known_flags(t);
    if m.flag_q {
        assert(t[0] == 'q');
    }
    if m.flag_c {
        let k = if m.flag_q { 1int } else { 0int };
        assert(t[k] == 'c');
    }
    if m.flag_s {
        let k = (if m.flag_q { 1int } else { 0int }) + (if m.flag_c { 1int } else { 0int });
        assert(t[k] == 's');
    }
    if m.flag_t {
        assert(t[t.len() - 1] == 'T');
    }
}

/// A text of known flags only has no unknown flag.
proof fn lemma_known_flags(s: Seq<char>)
    requires
        forall|i: int| 0 <= i < s.len() ==> is_ar_flag(#[trigger] s[i]),
    ensures
        first_unknown_flag(s) is None,
    decreases s.len(),
{
    if s.len() > 0 {
        assert(is_ar_flag(s[0]));
        assert forall|i: int| 0 <= i < s.skip(1).len() implies is_ar_flag(#[trigger] s.skip(1)[i]) by {
            assert(s.skip(1)[i] == s[i + 1]);
        }
        lemma_known_flags(s.skip(1));
    }
}

/// Reading back what [`spec_ar_to_args`] writes, in any directory, yields the same parts.
pub proof fn lemma_ar_to_args_reads_back(cwd: Seq<char>, m: ArArgsView)
    requires
        spec_ar_args_wf(m),
    ensures
        spec_parse_ar(cwd, spec_ar_to_args(m)) == Ok::<ArArgsView, ErrorView>(m),
{
    let args = spec_ar_to_args(m);
    lemma_ar_flag_text(m);
    assert(args[0] == ar_flag_text(m));
    match m.output {
        Some(o) => {
            assert(args[1] == o);
            if args.len() > 2 {
                assert(args.skip(2) =~= m.sources);
                assert(args.skip(2).map_values(|p: Seq<char>| spec_make_absolute(cwd, p))
                    =~= m.sources);
            } else {
                assert(m.sources =~= Seq::<Seq<char>>::empty());
            }
        },
        None => {
            assert(args.len() == 1);
        },
    }
    assert(spec_parse_ar(cwd, args)->Ok_0 =~= m);
}

/// What `ar`'s arguments read as, in an absolute directory, reads back the same.
pub proof fn lemma_ar_args_round_trip(cwd1: Seq<char>, cwd2: Seq<char>, args: Seq<Seq<char>>)
    requires
        is_absolute(cwd1),
        spec_parse_ar(cwd1, args) is Ok,
    ensures
        spec_parse_ar(cwd2, spec_ar_to_args(spec_parse_ar(cwd1, args)->Ok_0)) == spec_parse_ar(
            cwd1,
            args,
        ),
{
    let m = spec_parse_ar(cwd1, args)->Ok_0;
    if args.len() > 1 {
        crate::path_utils::lemma_make_absolute_is_absolute(cwd1, args[1]);
    }
    assert forall|i: int| 0 <= i < m.sources.len() implies is_absolute(#[trigger] m.sources[i]) by {
        crate::path_utils::lemma_make_absolute_is_absolute(cwd1, args.skip(2)[i]);
    }
    lemma_ar_to_args_reads_back(cwd2, m);
}

} // verus!
