//! The draft's interactive inputs: the title line, the tag line, and the tag
//! suggestions read from the site's built output.

use crate::config::{Config, ZolaConfig};
use crate::post::{join, join_comma};
use crate::text::{lemma_trim_idempotent, split, split_on, trim, trim_str, views};
use vstd::prelude::*;

verus! {

/// Entries of a tag listing that are not tags.
pub open spec fn is_invalid_tag(t: Seq<char>) -> bool {
    t == ""@ || t == "."@ || t == ".."@ || t == "index.md"@ || t == "index.html"@
}

/// The entries of a listing that are tags, in their order.
pub open spec fn valid_tags(entries: Seq<Seq<char>>) -> Seq<Seq<char>> {
    entries.filter(|t: Seq<char>| !is_invalid_tag(t))
}

/// The comma-separated pieces of a tag line, trimmed, each empty one left out.
pub open spec fn tag_pieces(input: Seq<char>) -> Seq<Seq<char>> {
    trimmed_all(split(input, ',')).filter(|p: Seq<char>| p.len() > 0)
}

pub open spec fn trimmed_all(pieces: Seq<Seq<char>>) -> Seq<Seq<char>> {
    pieces.map_values(|p: Seq<char>| trim(p))
}

/// The directory that holds a site's built tag pages: the output directory,
/// taken inside the site directory where it is relative, then `tags`.
pub open spec fn tags_dir_of(zola: ZolaConfig) -> Option<Seq<char>> {
    match zola.output_dir {
        None => None,
        Some(o) => if o@.len() > 0 && o@[0] == '/' {
            Some(o@ + "/tags"@)
        } else {
            Some(zola.dir@ + "/"@ + o@ + "/tags"@)
        },
    }
}

/// The prompt for the tag line, listing the suggestions where there are any.
pub open spec fn tags_prompt_of(suggestions: Seq<Seq<char>>) -> Seq<char> {
    if suggestions.len() > 0 {
        "Enter tags ["@ + join(suggestions, ", "@) + "]:"@
    } else {
        "Enter tags (comma separated): "@
    }
}

fn is_invalid(t: &String) -> (r: bool)
    ensures
        r == is_invalid_tag(t@),
{
    *t == String::from_str("") || *t == String::from_str(".") || *t == String::from_str("..")
        || *t == String::from_str("index.md") || *t == String::from_str("index.html")
}

/// The entries that are tags, with `""`, `.`, `..`, `index.md` and `index.html`
/// left out.
pub fn parse_invalid_tags(tags: &Vec<String>) -> (r: Vec<String>)
    ensures
        views(r@) == valid_tags(views(tags@)),
        forall|i: int| 0 <= i < r@.len() ==> !is_invalid_tag(#[trigger] r@[i]@),
{
    let mut out: Vec<String> = Vec::new();
    let n = tags.len();
    let mut i: usize = 0;
    while i < n
        invariant
            n == tags@.len(),
            i <= n,
            views(out@) == valid_tags(views(tags@).subrange(0, i as int)),
            forall|k: int| 0 <= k < out@.len() ==> !is_invalid_tag(#[trigger] out@[k]@),
        decreases n - i,
    {
        let ghost before = views(tags@).subrange(0, i as int);
        assert(views(tags@).subrange(0, i + 1) =~= before.push(tags@[i as int]@));
        proof {
            before.lemma_filter_push(tags@[i as int]@, |t: Seq<char>| !is_invalid_tag(t));
        }
        if !is_invalid(&tags[i]) {
            let ghost old_views = views(out@);
            out.push(tags[i].clone());
            assert(views(out@) =~= old_views.push(tags@[i as int]@));
        }
        i = i + 1;
    }
    assert(views(tags@).subrange(0, n as int) =~= views(tags@));
    out
}

/// The tag suggestions in a directory listing, one entry per line.
pub fn tag_suggestions(listing: &str) -> (r: Vec<String>)
    ensures
        views(r@) == valid_tags(split(listing@, '\n')),
        forall|i: int| 0 <= i < r@.len() ==> !is_invalid_tag(#[trigger] r@[i]@),
{
    let entries = split_on(listing, '\n');
    parse_invalid_tags(&entries)
}

/// Where the built tag pages of the site are, if its output directory is known.
pub fn tags_dir(zola: &ZolaConfig) -> (r: Option<String>)
    ensures
        match r {
            Some(p) => tags_dir_of(*zola) == Some(p@),
            None => tags_dir_of(*zola) is None,
        },
{
    match &zola.output_dir {
        None => None,
        Some(o) => {
            let s = o.as_str();
            let mut p = if s.unicode_len() > 0 && s.get_char(0) == '/' {
                String::from_str(s)
            } else {
                let mut p = String::from_str(zola.dir.as_str());
                p.append("/");
                p.append(s);
                p
            };
            p.append("/tags");
            Some(p)
        },
    }
}

/// The prompt for the tag line.
pub fn tags_prompt(suggestions: &Vec<String>) -> (r: String)
    ensures
        r@ == tags_prompt_of(views(suggestions@)),
{
    if suggestions.len() > 0 {
        let mut r = String::from_str("Enter tags [");
        r.append(join_comma(suggestions).as_str());
        r.append("]:");
        r
    } else {
        String::from_str("Enter tags (comma separated): ")
    }
}

/// Whether a line is empty once trimmed, which a title may not be.
pub fn is_blank(input: &str) -> (r: bool)
    ensures
        r == (trim(input@).len() == 0),
{
    trim_str(input).unicode_len() == 0
}

/// Takes the title line, which must not be blank: the trimmed line becomes the
/// title.
pub fn get_title(config: &mut Config, input: &str)
    requires
        trim(input@).len() > 0,
    ensures
        final(config).title@ == trim(input@),
        final(config).cmd == old(config).cmd,
        final(config).tags == old(config).tags,
        final(config).content == old(config).content,
        final(config).zola == old(config).zola,
{
    config.title = String::from_str(trim_str(input));
}

/// Takes the tag line. A line that is empty once trimmed leaves the tags as they
/// were; otherwise the tags become its comma-separated pieces, each trimmed, with
/// the empty ones left out.
pub fn get_tags(config: &mut Config, input: &str)
    ensures
        trim(input@).len() == 0 ==> *final(config) == *old(config),
        trim(input@).len() > 0 ==> views(final(config).tags@) == tag_pieces(input@)
            && final(config).cmd == old(config).cmd && final(config).title == old(config).title
            && final(config).content == old(config).content && final(config).zola == old(
            config,
        ).zola,
        (forall|i: int|
            0 <= i < old(config).tags@.len() ==> (#[trigger] old(config).tags@[i])@.len() > 0
                && trim(old(config).tags@[i]@) == old(config).tags@[i]@) ==> forall|i: int|
            0 <= i < final(config).tags@.len() ==> (#[trigger] final(config).tags@[i])@.len() > 0
                && trim(final(config).tags@[i]@) == final(config).tags@[i]@,
{
    if is_blank(input) {
        return ;
    }
    let pieces = split_on(input, ',');
    let n = pieces.len();
    let mut tags: Vec<String> = Vec::new();
    let mut i: usize = 0;
    while i < n
        invariant
            n == pieces@.len(),
            i <= n,
            views(pieces@) == split(input@, ','),
            views(tags@) == trimmed_all(views(pieces@).subrange(0, i as int)).filter(
                |p: Seq<char>| p.len() > 0,
            ),
            forall|k: int|
                0 <= k < tags@.len() ==> (#[trigger] tags@[k])@.len() > 0 && trim(tags@[k]@)
                    == tags@[k]@,
        decreases n - i,
    {
        let ghost before = trimmed_all(views(pieces@).subrange(0, i as int));
        let ghost piece = pieces@[i as int]@;
        assert(trimmed_all(views(pieces@).subrange(0, i + 1)) =~= before.push(trim(piece)));
        proof {
            before.lemma_filter_push(trim(piece), |p: Seq<char>| p.len() > 0);
            lemma_trim_idempotent(piece);
        }
        let t = trim_str(pieces[i].as_str());
        if t.unicode_len() > 0 {
            let ghost old_views = views(tags@);
            tags.push(String::from_str(t));
            assert(views(tags@) =~= old_views.push(t@));
        }
        i = i + 1;
    }
    assert(views(pieces@).subrange(0, n as int) =~= views(pieces@));
    config.tags = tags;
}

} // verus!
