//! The code that brings in the global headers of a set of objects compiled together: a
//! comment naming their local code files, their definitions that change global headers,
//! and one inclusion of each global header, in the order in which they first come.

use vstd::prelude::*;
use crate::code_language::{CodeLanguage, spec_from_path, spec_to_non_preprocessed};
use crate::config::{Config, ConfigView, any_matches};
use crate::error::{Error, ErrorView};
use crate::link_objects::{ObjectData, ObjectDataView};
use crate::path_utils::spec_extension;
use crate::text::{holds_string, push_str};

verus! {

/// `acc` with the items of `items` that it does not hold yet added, in order.
pub open spec fn add_unique(acc: Seq<Seq<char>>, items: Seq<Seq<char>>) -> Seq<Seq<char>>
    decreases items.len(),
{
    if items.len() == 0 {
        acc
    } else {
        let a = add_unique(acc, items.drop_last());
        if a.contains(items.last()) {
            a
        } else {
            a.push(items.last())
        }
    }
}

/// The global headers of the objects, each once, in the order in which they first come.
pub open spec fn unique_includes(objs: Seq<ObjectDataView>) -> Seq<Seq<char>>
    decreases objs.len(),
{
    if objs.len() == 0 {
        Seq::empty()
    } else {
        add_unique(unique_includes(objs.drop_last()), objs.last().global_includes)
    }
}

/// The definitions of the objects that change global headers, each once, in order.
pub open spec fn unique_defines(objs: Seq<ObjectDataView>) -> Seq<Seq<char>>
    decreases objs.len(),
{
    if objs.len() == 0 {
        Seq::empty()
    } else {
        add_unique(unique_defines(objs.drop_last()), objs.last().include_defines)
    }
}

/// Each line followed by a line end, with `prefix` before it.
pub open spec fn lines_text(prefix: Seq<char>, lines: Seq<Seq<char>>) -> Seq<char>
    decreases lines.len(),
{
    if lines.len() == 0 {
        Seq::empty()
    } else {
        lines_text(prefix, lines.drop_last()) + prefix + lines.last() + seq!['\n']
    }
}

/// The line that brings in the header at `h`.
pub open spec fn inclusion_line(h: Seq<char>) -> Seq<char> {
    seq!['#', 'i', 'n', 'c', 'l', 'u', 'd', 'e', ' ', '<'] + h + seq!['>', '\n']
}

/// The line that opens a block of C declarations in C++.
pub open spec fn c_block_open() -> Seq<char> {
    seq!['e', 'x', 't', 'e', 'r', 'n', ' ', '"', 'C', '"', ' ', '{', '\n']
}

/// The code that brings in the header at `h`: in C++, a header that the configuration
/// marks as pure C is brought in inside a block of C declarations.
pub open spec fn header_text(h: Seq<char>, lang: CodeLanguage, config: ConfigView) -> Seq<char> {
    if lang == CodeLanguage::Cxx && any_matches(config.pure_c_header_patterns, h) {
        c_block_open() + inclusion_line(h) + seq!['}', '\n']
    } else {
        inclusion_line(h)
    }
}

/// The code that brings in each of the headers, in order.
pub open spec fn headers_text(hs: Seq<Seq<char>>, lang: CodeLanguage, config: ConfigView) -> Seq<
    char,
>
    decreases hs.len(),
{
    if hs.len() == 0 {
        Seq::empty()
    } else {
        headers_text(hs.drop_last(), lang, config) + header_text(hs.last(), lang, config)
    }
}

/// The heading of the comment.
pub open spec fn comment_heading() -> Seq<char> {
    "Include code for the following files:"@
}

/// The language of the sources of the objects: the one whose preprocessed form the local
/// code file of the first object holds.
pub open spec fn objects_language(objs: Seq<ObjectDataView>) -> Result<CodeLanguage, ErrorView> {
    match spec_from_path(objs[0].local_code_file) {
        None => Err(
            ErrorView::UnknownExtension(
                match spec_extension(objs[0].local_code_file) {
                    Some(e) => e,
                    None => Seq::empty(),
                },
            ),
        ),
        Some(l) => match spec_to_non_preprocessed(l) {
            None => Err(ErrorView::NotPreprocessed(l)),
            Some(s) => Ok(s),
        },
    }
}

/// The code that brings in the global headers of the objects, with their definitions
/// before them and a comment naming their local code files first.
pub open spec fn spec_include_code(objs: Seq<ObjectDataView>, config: ConfigView) -> Result<
    Seq<char>,
    ErrorView,
> {
    match objects_language(objs) {
        Err(e) => Err(e),
        Ok(lang) => Ok(
            lines_text(
                seq!['/', '/', ' '],
                seq![comment_heading()] + objs.map_values(|o: ObjectDataView| o.local_code_file),
            ) + lines_text(Seq::empty(), unique_defines(objs)) + headers_text(
                unique_includes(objs),
                lang,
                config,
            ),
        ),
    }
}

/// Adds to `acc` the items of `items` that it does not hold yet, in order.
fn push_unique(acc: &mut Vec<String>, items: &Vec<String>)
    ensures
        final(acc).deep_view() == add_unique(old(acc).deep_view(), items.deep_view()),
{
    let mut i: usize = 0;
    proof {
        assert(items.deep_view().take(0) =~= Seq::<Seq<char>>::empty());
    }
    while i < items.len()
        invariant
            i <= items@.len(),
            acc.deep_view() == add_unique(old(acc).deep_view(), items.deep_view().take(i as int)),
        decreases items@.len() - i,
    {
        proof {
            assert(items.deep_view().take(i + 1).drop_last() =~= items.deep_view().take(i as int));
            assert(items.deep_view()[i as int] == items@[i as int]@);
        }
        if !holds_string(acc, items[i].as_str()) {
            let ghost a0 = acc.deep_view();
            acc.push(items[i].clone());
            proof {
                assert(acc.deep_view() =~= a0.push(items@[i as int]@));
            }
        }
        i = i + 1;
    }
    proof {
        assert(items.deep_view().take(items@.len() as int) =~= items.deep_view());
    }
}

/// The language of the sources of the objects.
fn objects_language_exec(objs: &[ObjectData]) -> (res: Result<CodeLanguage, Error>)
    requires
        objs@.len() > 0,
    ensures
        match res {
            Ok(l) => objects_language(objs.deep_view()) == Ok::<CodeLanguage, ErrorView>(l),
            Err(e) => objects_language(objs.deep_view()) == Err::<CodeLanguage, ErrorView>(e@),
        },
{
    proof {
        assert(objs.deep_view()[0] == objs@[0]@);
    }
    let l = match CodeLanguage::from_path(objs[0].local_code.local_code_file.as_str()) {
        Ok(l) => l,
        Err(e) => {
            return Err(e);
        },
    };
    l.to_non_preprocessed()
}

/// The code that brings in the global headers of the objects, which are compiled
/// together: a comment naming their local code files, their definitions that change
/// global headers, and an inclusion of each global header, each once, in the order in
/// which they first come. In C++, the headers that the configuration marks as pure C are
/// included inside a block of C declarations. An error where the first object's local
/// code file does not name preprocessed code.
pub fn get_include_code_for_objects(objs: &[ObjectData], config: &Config) -> (res: Result<
    String,
    Error,
>)
    requires
        objs@.len() > 0,
    ensures
        match res {
            Ok(code) => spec_include_code(objs.deep_view(), config@) == Ok::<Seq<char>, ErrorView>(
                code@,
            ),
            Err(e) => spec_include_code(objs.deep_view(), config@) == Err::<Seq<char>, ErrorView>(
                e@,
            ),
        },
{
    let lang = match objects_language_exec(objs) {
        Ok(l) => l,
        Err(e) => {
            return Err(e);
        },
    };
    let ghost views = objs.deep_view();
    let ghost comments = seq![comment_heading()] + views.map_values(
        |o: ObjectDataView| o.local_code_file,
    );
    let mut code = String::new();
    push_str(&mut code, "// Include code for the following files:\n");
    proof {
        reveal_strlit("// Include code for the following files:\n");
        reveal_strlit("Include code for the following files:");
        assert(comments.take(1) =~= seq![comment_heading()]);
        assert(lines_text(seq!['/', '/', ' '], comments.take(1)) =~= code@) by {
            let p = seq!['/', '/', ' '];
            let one = comments.take(1);
            assert(one.drop_last() =~= Seq::<Seq<char>>::empty());
            assert(one.last() == comment_heading());
            assert(lines_text(p, one.drop_last()) == Seq::<char>::empty());
            assert(lines_text(p, one) == lines_text(p, one.drop_last()) + p + one.last() + seq![
                '\n',
            ]);
            assert(Seq::<char>::empty() + p + comment_heading() + seq!['\n'] =~= code@);
        }
    }
    let mut includes: Vec<String> = Vec::new();
    let mut defines: Vec<String> = Vec::new();
    let mut i: usize = 0;
    proof {
        assert(views.take(0) =~= Seq::<ObjectDataView>::empty());
        assert(includes.deep_view() =~= Seq::<Seq<char>>::empty());
        assert(defines.deep_view() =~= Seq::<Seq<char>>::empty());
    }
    while i < objs.len()
        invariant
            i <= objs@.len(),
            views == objs.deep_view(),
            comments == seq![comment_heading()] + views.map_values(
                |o: ObjectDataView| o.local_code_file,
            ),
            code@ == lines_text(seq!['/', '/', ' '], comments.take(i + 1)),
            includes.deep_view() == unique_includes(views.take(i as int)),
            defines.deep_view() == unique_defines(views.take(i as int)),
        decreases objs@.len() - i,
    {
        let o = &objs[i];
        let ghost c0 = code@;
        push_str(&mut code, "// ");
        push_str(&mut code, o.local_code.local_code_file.as_str());
        code.push('\n');
        proof {
            reveal_strlit("// ");
            assert(views[i as int] == objs@[i as int]@);
            assert(comments.take(i + 2).drop_last() =~= comments.take(i + 1));
            assert(comments.take(i + 2).last() == o.local_code.local_code_file@);
            assert(code@ =~= c0 + seq!['/', '/', ' '] + o.local_code.local_code_file@ + seq!['\n']);
            assert(views.take(i + 1).drop_last() =~= views.take(i as int));
        }
        push_unique(&mut includes, &o.local_code.global_includes);
        push_unique(&mut defines, &o.local_code.include_defines);
        i = i + 1;
    }
    proof {
        assert(views.take(objs@.len() as int) =~= views);
        assert(comments.take(objs@.len() as int + 1) =~= comments);
    }
    let mut k: usize = 0;
    let ghost base = code@;
    proof {
        assert(defines.deep_view().take(0) =~= Seq::<Seq<char>>::empty());
    }
    while k < defines.len()
        invariant
            k <= defines@.len(),
            code@ == base + lines_text(Seq::empty(), defines.deep_view().take(k as int)),
        decreases defines@.len() - k,
    {
        let ghost c0 = code@;
        push_str(&mut code, defines[k].as_str());
        code.push('\n');
        proof {
            assert(defines.deep_view()[k as int] == defines@[k as int]@);
            assert(defines.deep_view().take(k + 1).drop_last() =~= defines.deep_view().take(
                k as int,
            ));
            assert(code@ =~= base + lines_text(Seq::empty(), defines.deep_view().take(k + 1)));
        }
        k = k + 1;
    }
    proof {
        assert(defines.deep_view().take(defines@.len() as int) =~= defines.deep_view());
    }
    let mut h: usize = 0;
    let ghost base2 = code@;
    proof {
        assert(includes.deep_view().take(0) =~= Seq::<Seq<char>>::empty());
    }
    while h < includes.len()
        invariant
            h <= includes@.len(),
            code@ == base2 + headers_text(includes.deep_view().take(h as int), lang, config@),
        decreases includes@.len() - h,
    {
        let ghost c0 = code@;
        let header = includes[h].as_str();
        let c_block = lang == CodeLanguage::Cxx && config.is_pure_c_header(header);
        if c_block {
            let open = ['e', 'x', 't', 'e', 'r', 'n', ' ', '"', 'C', '"', ' ', '{', '\n'];
            proof {
                assert(open@ =~= c_block_open());
            }
            crate::text::push_chars(&mut code, &open);
        }
        let inc = ['#', 'i', 'n', 'c', 'l', 'u', 'd', 'e', ' ', '<'];
        proof {
            assert(inc@ =~= seq!['#', 'i', 'n', 'c', 'l', 'u', 'd', 'e', ' ', '<']);
        }
        crate::text::push_chars(&mut code, &inc);
        push_str(&mut code, header);
        code.push('>');
        code.push('\n');
        if c_block {
            code.push('}');
            code.push('\n');
        }
        proof {
            assert(includes.deep_view()[h as int] == includes@[h as int]@);
            assert(includes.deep_view().take(h + 1).drop_last() =~= includes.deep_view().take(
                h as int,
            ));
            assert(code@ =~= c0 + header_text(includes@[h as int]@, lang, config@));
        }
        h = h + 1;
    }
    proof {
        assert(includes.deep_view().take(includes@.len() as int) =~= includes.deep_view());
    }
    Ok(code)
}

} // verus!
