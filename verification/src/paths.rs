//! Where the page of a source document goes.
//!
//! Paths are texts whose directories are separated by `/`. A source document
//! lies under the source directory; its page lies at the same relative path
//! under the output directory, with the extension `md` replaced by `html`.

use vstd::prelude::*;
use vstd::string::*;
use crate::text::{strip_prefix, strip_suffix};

verus! {

/// The extension of a Markdown document, with its dot.
pub open spec fn markdown_suffix() -> Seq<char> {
    seq!['.', 'm', 'd']
}

/// The extension of a page, without a dot.
pub open spec fn html_extension() -> Seq<char> {
    seq!['h', 't', 'm', 'l']
}

/// The name of the stylesheet under the output directory.
pub open spec fn stylesheet_name() -> Seq<char> {
    seq!['s', 't', 'y', 'l', 'e', '.', 'c', 's', 's']
}

/// The file name of `path` is a stem that is not empty, followed by `.md`.
/// Case counts, and `.md` alone is a hidden file without an extension.
pub open spec fn is_markdown(path: Seq<char>) -> bool {
    &&& path.len() >= 4
    &&& path.subrange(path.len() - 3, path.len() as int) == markdown_suffix()
    &&& path[path.len() - 4] != '/'
}

/// A Markdown path with `md` replaced by `html`.
pub open spec fn with_html_extension(path: Seq<char>) -> Seq<char>
    recommends
        is_markdown(path),
{
    path.subrange(0, path.len() - 2) + html_extension()
}

/// `s` without the separators it starts with.
pub open spec fn skip_separators(s: Seq<char>) -> Seq<char>
    decreases s.len(),
{
    if s.len() > 0 && s[0] == '/' {
        skip_separators(s.drop_first())
    } else {
        s
    }
}

/// `base` ends where a path component of `path` ends.
pub open spec fn is_anchored(base: Seq<char>, rest: Seq<char>) -> bool {
    ||| base.len() == 0
    ||| base.last() == '/'
    ||| rest.len() == 0
    ||| rest[0] == '/'
}

/// The path that leads from the directory `base` to `path`, if `path` lies
/// under `base`. It never starts with a separator.
pub open spec fn relative_to(path: Seq<char>, base: Seq<char>) -> Option<Seq<char>> {
    let rest = path.subrange(base.len() as int, path.len() as int);
    if base.is_prefix_of(path) && is_anchored(base, rest) {
        Some(skip_separators(rest))
    } else {
        None
    }
}

/// The relative path `rel` under the directory `dir`. An empty `dir` is the
/// current directory.
pub open spec fn join(dir: Seq<char>, rel: Seq<char>) -> Seq<char> {
    if dir.len() == 0 || dir.last() == '/' {
        dir + rel
    } else {
        dir + seq!['/'] + rel
    }
}

/// The path of the page for the document at `input`: none if `input` does
/// not lie under `source_dir` or is no Markdown file below it.
pub open spec fn output_path_of(
    source_dir: Seq<char>,
    output_dir: Seq<char>,
    input: Seq<char>,
) -> Option<Seq<char>> {
    match relative_to(input, source_dir) {
        Some(rel) => if is_markdown(rel) {
            Some(join(output_dir, with_html_extension(rel)))
        } else {
            None
        },
        None => None,
    }
}

/// The output tree mirrors the source tree: a Markdown document at the
/// relative path `rel` under the source directory, however deep, is a Markdown
/// path whose page lies at `rel` under the output directory with the extension
/// replaced.
pub proof fn lemma_output_mirrors_source(
    source_dir: Seq<char>,
    output_dir: Seq<char>,
    rel: Seq<char>,
)
    requires
        is_markdown(rel),
        rel[0] != '/',
    ensures
        is_markdown(join(source_dir, rel)),
        relative_to(join(source_dir, rel), source_dir) == Some(rel),
        output_path_of(source_dir, output_dir, join(source_dir, rel)) == Some(
            join(output_dir, with_html_extension(rel)),
        ),
{
    let input = join(source_dir, rel);
    let rest = input.subrange(source_dir.len() as int, input.len() as int);
    assert(input.subrange(0, source_dir.len() as int) =~= source_dir);
    assert(input.subrange(input.len() - 3, input.len() as int) =~= rel.subrange(
        rel.len() - 3,
        rel.len() as int,
    ));
    assert(skip_separators(rel) == rel);
    if source_dir.len() == 0 || source_dir.last() == '/' {
        assert(rest =~= rel);
    } else {
        assert(rest =~= seq!['/'] + rel);
        assert(rest.drop_first() =~= rel);
    }
    assert(skip_separators(rest) == rel);
}

/// Whether the file name of `path` has the extension `md`.
pub fn is_markdown_path(path: &str) -> (r: bool)
    ensures
        r == is_markdown(path@),
{
    proof {
        reveal_strlit(".md");
        reveal_strlit("/");
    }
    assert(".md"@ =~= markdown_suffix());
    match strip_suffix(path, ".md") {
        Some(stem) => {
            assert(path@.subrange(path@.len() - 3, path@.len() as int) =~= markdown_suffix());
            if stem.is_empty() {
                false
            } else {
                assert(path@[path@.len() - 4] == stem@.last());
                match strip_suffix(stem, "/") {
                    Some(_) => false,
                    None => {
                        assert(stem@.subrange(stem@.len() - 1, stem@.len() as int) =~= seq![
                            stem@.last(),
                        ]);
                        true
                    },
                }
            }
        },
        None => {
            assert(path@.len() >= 3 ==> path@.subrange(path@.len() - 3, path@.len() as int)
                != markdown_suffix());
            false
        },
    }
}

fn starts_with_separator(s: &str) -> (r: bool)
    ensures
        r == (s@.len() > 0 && s@[0] == '/'),
{
    proof {
        reveal_strlit("/");
    }
    match strip_prefix(s, "/") {
        Some(_) => true,
        None => {
            assert(s@.len() > 0 ==> s@.subrange(0, 1) =~= seq![s@[0]]);
            false
        },
    }
}

fn ends_with_separator(s: &str) -> (r: bool)
    ensures
        r == (s@.len() > 0 && s@.last() == '/'),
{
    proof {
        reveal_strlit("/");
    }
    match strip_suffix(s, "/") {
        Some(_) => true,
        None => {
            assert(s@.len() > 0 ==> s@.subrange(s@.len() - 1, s@.len() as int) =~= seq![
                s@.last(),
            ]);
            false
        },
    }
}

fn trim_separators<'a>(s: &'a str) -> (r: &'a str)
    ensures
        r@ == skip_separators(s@),
{
    proof {
        reveal_strlit("/");
    }
    let mut rest = s;
    loop
        invariant
            skip_separators(rest@) == skip_separators(s@),
            "/"@ == seq!['/'],
        decreases rest@.len(),
    {
        match strip_prefix(rest, "/") {
            Some(next) => {
                assert(rest@.drop_first() =~= next@);
                rest = next;
            },
            None => {
                assert(rest@.len() > 0 ==> rest@.subrange(0, 1) =~= seq![rest@[0]]);
                return rest;
            },
        }
    }
}

/// The path that leads from the directory `base` to `path`.
pub fn relative_path<'a>(path: &'a str, base: &str) -> (r: Option<&'a str>)
    ensures
        match r {
            Some(rel) => relative_to(path@, base@) == Some(rel@),
            None => relative_to(path@, base@) is None,
        },
{
    match strip_prefix(path, base) {
        Some(rest) => {
            assert(path@.subrange(base@.len() as int, path@.len() as int) =~= rest@);
            assert(path@.subrange(0, base@.len() as int) =~= base@);
            if base.is_empty() || ends_with_separator(base) || rest.is_empty()
                || starts_with_separator(rest) {
                Some(trim_separators(rest))
            } else {
                None
            }
        },
        None => None,
    }
}

/// The relative path `rel` under the directory `dir`.
pub fn join_path(dir: &str, rel: &str) -> (r: String)
    ensures
        r@ == join(dir@, rel@),
{
    proof {
        reveal_strlit("/");
    }
    let mut out = String::from_str(dir);
    if !dir.is_empty() && !ends_with_separator(dir) {
        out.append("/");
    }
    out.append(rel);
    out
}

/// The path of the page for the document at `input`.
pub fn output_path(source_dir: &str, output_dir: &str, input: &str) -> (r: Option<String>)
    ensures
        match r {
            Some(out) => output_path_of(source_dir@, output_dir@, input@) == Some(out@),
            None => output_path_of(source_dir@, output_dir@, input@) is None,
        },
{
    proof {
        reveal_strlit("md");
        reveal_strlit("html");
    }
    let rel = match relative_path(input, source_dir) {
        Some(rel) => rel,
        None => {
            return None;
        },
    };
    if !is_markdown_path(rel) {
        return None;
    }
    assert(seq!['m', 'd'].is_suffix_of(rel@)) by {
        assert(rel@.subrange(rel@.len() - 2, rel@.len() as int) =~= markdown_suffix().subrange(
            1,
            3,
        ));
        assert(markdown_suffix().subrange(1, 3) =~= seq!['m', 'd']);
    }
    match strip_suffix(rel, "md") {
        Some(stem) => {
            let mut page = String::from_str(stem);
            page.append("html");
            assert(stem@ =~= rel@.subrange(0, rel@.len() - 2));
            assert("html"@ =~= html_extension());
            Some(join_path(output_dir, page.as_str()))
        },
        None => None,
    }
}

/// The path of the stylesheet under the output directory.
pub fn stylesheet_path(output_dir: &str) -> (r: String)
    ensures
        r@ == join(output_dir@, stylesheet_name()),
{
    proof {
        reveal_strlit("style.css");
    }
    assert("style.css"@ =~= stylesheet_name());
    join_path(output_dir, "style.css")
}

} // verus!
