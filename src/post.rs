//! The post document: its file name, its front matter and its date line.

use crate::config::Config;
use crate::text::views;
use chrono::Datelike;
use vstd::prelude::*;

verus! {

/// What `str::to_lowercase` returns for a title.
pub uninterp spec fn lowercase_of(s: Seq<char>) -> Seq<char>;

/// What `str`'s `Debug` formatting returns: the text quoted and escaped.
pub uninterp spec fn debug_of(s: Seq<char>) -> Seq<char>;

/// Relies on `str::to_lowercase`, whose result depends on the characters alone.
#[verifier::external_body]
fn lowercase(s: &str) -> (r: String)
    ensures
        r@ == lowercase_of(s@),
{
    s.to_lowercase()
}

/// Relies on `<str as Debug>::fmt`, as `format!("{:?}", ..)` calls it: a quoted,
/// escaped string that depends on the characters alone.
#[verifier::external_body]
fn debug_quoted(s: &str) -> (r: String)
    ensures
        r@ == debug_of(s@),
{
    format!("{:?}", s)
}

/// A calendar date as plain numbers.
#[derive(Debug, Clone, Copy, PartialEq, Eq, Structural)]
pub struct CalendarDate {
    pub year: i32,
    pub month: u32,
    pub day: u32,
}

impl CalendarDate {
    pub open spec fn valid(self) -> bool {
        1 <= self.month <= 12 && 1 <= self.day <= 31
    }
}

/// Relies on `chrono::Local::now` and `Datelike::{year, month, day}` of its local
/// date: the month runs from 1 to 12 and the day from 1 to 31. `Local::now`
/// panics where the system clock stands before 1970 or the local time zone
/// cannot be read; `today_text` and `post_file` share that.
#[verifier::external_body]
fn today() -> (r: CalendarDate)
    ensures
        r.valid(),
{
    let d = chrono::Local::now().date_naive();
    CalendarDate { year: d.year(), month: d.month(), day: d.day() }
}

/// `s` with every space turned into a hyphen.
pub open spec fn hyphenated(s: Seq<char>) -> Seq<char> {
    s.map_values(|c: char|
        if c == ' ' {
            '-'
        } else {
            c
        })
}

/// The file name for a title that is already lower case.
pub open spec fn file_name_of_lowered(lowered: Seq<char>) -> Seq<char> {
    hyphenated(lowered) + ".md"@
}

/// The file name of a post: its title lower-cased, spaces as hyphens, `.md` after.
pub open spec fn file_name_of(title: Seq<char>) -> Seq<char> {
    file_name_of_lowered(lowercase_of(title))
}

/// The text of one decimal digit.
pub open spec fn digit_text(d: nat) -> Seq<char> {
    if d == 0 {
        "0"@
    } else if d == 1 {
        "1"@
    } else if d == 2 {
        "2"@
    } else if d == 3 {
        "3"@
    } else if d == 4 {
        "4"@
    } else if d == 5 {
        "5"@
    } else if d == 6 {
        "6"@
    } else if d == 7 {
        "7"@
    } else if d == 8 {
        "8"@
    } else {
        "9"@
    }
}

/// The decimal digits of `n`, without leading zeros.
pub open spec fn digits(n: nat) -> Seq<char>
    decreases n,
{
    if n < 10 {
        digit_text(n)
    } else {
        digits(n / 10) + digit_text(n % 10)
    }
}

/// `s` with zeros in front up to `width` characters.
pub open spec fn zero_padded(s: Seq<char>, width: nat) -> Seq<char> {
    if s.len() < width {
        Seq::new((width - s.len()) as nat, |i: int| '0') + s
    } else {
        s
    }
}

/// A year as `%Y` writes it: four digits at least, and a sign outside 0 to 9999.
pub open spec fn year_text(y: int) -> Seq<char> {
    if 0 <= y <= 9999 {
        zero_padded(digits(y as nat), 4)
    } else if y < 0 {
        "-"@ + zero_padded(digits((-y) as nat), 4)
    } else {
        "+"@ + zero_padded(digits(y as nat), 4)
    }
}

/// A date as `%Y-%m-%d` writes it.
pub open spec fn date_text(d: CalendarDate) -> Seq<char> {
    year_text(d.year as int) + "-"@ + zero_padded(digits(d.month as nat), 2) + "-"@
        + zero_padded(digits(d.day as nat), 2)
}

fn digit(d: u64) -> (r: &'static str)
    requires
        d < 10,
    ensures
        r@ == digit_text(d as nat),
{
    if d == 0 {
        "0"
    } else if d == 1 {
        "1"
    } else if d == 2 {
        "2"
    } else if d == 3 {
        "3"
    } else if d == 4 {
        "4"
    } else if d == 5 {
        "5"
    } else if d == 6 {
        "6"
    } else if d == 7 {
        "7"
    } else if d == 8 {
        "8"
    } else {
        "9"
    }
}

/// The decimal digits of `n`.
fn decimal(n: u64) -> (r: String)
    ensures
        r@ == digits(n as nat),
    decreases n,
{
    if n < 10 {
        String::from_str(digit(n))
    } else {
        let mut r = decimal(n / 10);
        r.append(digit(n % 10));
        r
    }
}

/// The decimal digits of `n`, zero-padded to `width`.
fn padded(n: u64, width: usize) -> (r: String)
    ensures
        r@ == zero_padded(digits(n as nat), width as nat),
{
    let ds = decimal(n);
    let len = ds.as_str().unicode_len();
    if len < width {
        let mut out = String::new();
        let mut k: usize = 0;
        while k < width - len
            invariant
                len < width,
                k <= width - len,
                out@ == Seq::new(k as nat, |i: int| '0'),
            decreases width - len - k,
        {
            out.append("0");
            proof {
                reveal_strlit("0");
            }
            assert(out@ =~= Seq::new((k + 1) as nat, |i: int| '0'));
            k = k + 1;
        }
        out.append(ds.as_str());
        out
    } else {
        ds
    }
}

/// A date in `YYYY-MM-DD` form.
pub fn format_date(d: CalendarDate) -> (r: String)
    ensures
        r@ == date_text(d),
{
    let y = d.year as i64;
    let mut out = if 0 <= y && y <= 9999 {
        padded(y as u64, 4)
    } else if y < 0 {
        let mut s = String::from_str("-");
        s.append(padded((-y) as u64, 4).as_str());
        s
    } else {
        let mut s = String::from_str("+");
        s.append(padded(y as u64, 4).as_str());
        s
    };
    out.append("-");
    out.append(padded(d.month as u64, 2).as_str());
    out.append("-");
    out.append(padded(d.day as u64, 2).as_str());
    out
}

/// Today's local date in `YYYY-MM-DD` form.
pub fn today_text() -> (r: String)
    ensures
        exists|d: CalendarDate| d.valid() && r@ == date_text(d),
{
    let d = today();
    format_date(d)
}


/// The items joined with `sep` between each two.
pub open spec fn join(items: Seq<Seq<char>>, sep: Seq<char>) -> Seq<char>
    decreases items.len(),
{
    if items.len() == 0 {
        Seq::empty()
    } else if items.len() == 1 {
        items[0]
    } else {
        join(items.drop_last(), sep) + sep + items.last()
    }
}

/// A list of already quoted tags in brackets, as `Vec`'s `Debug` writes it.
pub open spec fn tag_list_of_quoted(quoted: Seq<Seq<char>>) -> Seq<char> {
    "["@ + join(quoted, ", "@) + "]"@
}

/// Each tag quoted as `Debug` quotes it.
pub open spec fn quoted_all(tags: Seq<Seq<char>>) -> Seq<Seq<char>> {
    tags.map_values(|t: Seq<char>| debug_of(t))
}

/// The tags as `format!("{:?}", tags)` writes a list of strings.
pub open spec fn tag_list_of(tags: Seq<Seq<char>>) -> Seq<char> {
    tag_list_of_quoted(quoted_all(tags))
}

/// The taxonomies section, present only where there are tags.
pub open spec fn taxonomies_of(tags: Seq<Seq<char>>) -> Seq<char> {
    if tags.len() > 0 {
        "\n[taxonomies]\ntags = "@ + tag_list_of(tags) + "\n"@
    } else {
        Seq::empty()
    }
}

/// The front matter of a post: delimiters, the exact title, the date, the tags
/// where there are any, and a blank line.
pub open spec fn front_matter_of(title: Seq<char>, tags: Seq<Seq<char>>, date: Seq<char>) -> Seq<
    char,
> {
    "+++\ntitle = \""@ + title + "\"\ndate = "@ + date + "\n"@ + taxonomies_of(tags) + "+++\n\n"@
}

/// The whole post: front matter, then the body as it is.
pub open spec fn document_of(
    title: Seq<char>,
    tags: Seq<Seq<char>>,
    date: Seq<char>,
    body: Seq<char>,
) -> Seq<char> {
    front_matter_of(title, tags, date) + body
}

/// Where a post goes: the site's `content` directory, under its file name.
pub open spec fn post_path_of(dir: Seq<char>, title: Seq<char>) -> Seq<char> {
    dir + "/content/"@ + file_name_of(title)
}

/// The commit message that publishes a post.
pub open spec fn commit_message_of(title: Seq<char>) -> Seq<char> {
    "New post: \""@ + title + "\""@
}

/// The file name for a title that is already lower case.
pub fn slug_file_name(lowered: &str) -> (r: String)
    ensures
        r@ == file_name_of_lowered(lowered@),
{
    let n = lowered.unicode_len();
    let mut out = String::new();
    let mut i: usize = 0;
    while i < n
        invariant
            n == lowered@.len(),
            i <= n,
            out@ == hyphenated(lowered@.subrange(0, i as int)),
        decreases n - i,
    {
        let c = lowered.get_char(i);
        if c == ' ' {
            out.append("-");
            proof {
                reveal_strlit("-");
            }
        } else {
            out.append(lowered.substring_char(i, i + 1));
        }
        assert(out@ =~= hyphenated(lowered@.subrange(0, i + 1)));
        i = i + 1;
    }
    assert(lowered@.subrange(0, n as int) =~= lowered@);
    out.append(".md");
    out
}

/// The file name of the post titled `title`.
pub fn file_name(title: &str) -> (r: String)
    ensures
        r@ == file_name_of(title@),
{
    let lowered = lowercase(title);
    slug_file_name(lowered.as_str())
}

/// The items separated by `, `.
pub fn join_comma(items: &Vec<String>) -> (r: String)
    ensures
        r@ == join(views(items@), ", "@),
{
    let mut out = String::new();
    let n = items.len();
    let mut i: usize = 0;
    while i < n
        invariant
            n == items@.len(),
            i <= n,
            out@ == join(views(items@).subrange(0, i as int), ", "@),
        decreases n - i,
    {
        let ghost before = views(items@).subrange(0, i as int);
        let ghost after = views(items@).subrange(0, i + 1);
        assert(after.drop_last() =~= before);
        if i > 0 {
            out.append(", ");
        } else {
            assert(out@ =~= Seq::<char>::empty());
        }
        out.append(items[i].as_str());
        assert(after.last() == items@[i as int]@);
        i = i + 1;
    }
    assert(views(items@).subrange(0, n as int) =~= views(items@));
    out
}

/// Already quoted tags as a bracketed, comma-separated list.
pub fn tag_list_from_quoted(quoted: &Vec<String>) -> (r: String)
    ensures
        r@ == tag_list_of_quoted(views(quoted@)),
{
    let mut r = String::from_str("[");
    r.append(join_comma(quoted).as_str());
    r.append("]");
    r
}

/// The tags as a bracketed list of quoted strings.
pub fn tag_list(tags: &Vec<String>) -> (r: String)
    ensures
        r@ == tag_list_of(views(tags@)),
{
    let mut quoted: Vec<String> = Vec::new();
    let n = tags.len();
    let mut i: usize = 0;
    while i < n
        invariant
            n == tags@.len(),
            i <= n,
            views(quoted@) == quoted_all(views(tags@).subrange(0, i as int)),
        decreases n - i,
    {
        let q = debug_quoted(tags[i].as_str());
        let ghost old_views = views(quoted@);
        assert(q@ == debug_of(views(tags@)[i as int]));
        quoted.push(q);
        assert(views(quoted@) =~= old_views.push(q@));
        assert(views(quoted@) =~= quoted_all(views(tags@).subrange(0, i + 1)));
        i = i + 1;
    }
    assert(views(tags@).subrange(0, n as int) =~= views(tags@));
    tag_list_from_quoted(&quoted)
}

/// The front matter of a post with this title, these tags and this date.
pub fn front_matter(title: &str, tags: &Vec<String>, date: &str) -> (r: String)
    ensures
        r@ == front_matter_of(title@, views(tags@), date@),
{
    let mut r = String::from_str("+++\ntitle = \"");
    r.append(title);
    r.append("\"\ndate = ");
    r.append(date);
    r.append("\n");
    if tags.len() > 0 {
        r.append("\n[taxonomies]\ntags = ");
        r.append(tag_list(tags).as_str());
        r.append("\n");
    } else {
        assert(r@ + taxonomies_of(views(tags@)) =~= r@);
    }
    r.append("+++\n\n");
    r
}

/// The document for the post drafted in `config`, dated `date`.
pub fn render(config: &Config, date: &str) -> (r: String)
    ensures
        r@ == document_of(config.title@, views(config.tags@), date@, config.content@),
{
    let mut r = front_matter(config.title.as_str(), &config.tags, date);
    r.append(config.content.as_str());
    r
}

/// The path of the post drafted in `config`.
pub fn post_path(config: &Config) -> (r: String)
    ensures
        r@ == post_path_of(config.zola.dir@, config.title@),
{
    let mut r = String::from_str(config.zola.dir.as_str());
    r.append("/content/");
    r.append(file_name(config.title.as_str()).as_str());
    r
}

/// A post ready to be written: where, and what.
pub struct PostFile {
    pub path: String,
    pub contents: String,
}

/// The file for the post drafted in `config`, dated today.
pub fn post_file(config: &Config) -> (r: PostFile)
    ensures
        r.path@ == post_path_of(config.zola.dir@, config.title@),
        exists|d: CalendarDate|
            d.valid() && r.contents@ == document_of(
                config.title@,
                views(config.tags@),
                date_text(d),
                config.content@,
            ),
{
    let date = today_text();
    PostFile { path: post_path(config), contents: render(config, date.as_str()) }
}

/// The commit message for the post titled `title`.
pub fn commit_message(title: &str) -> (r: String)
    ensures
        r@ == commit_message_of(title@),
{
    let mut r = String::from_str("New post: \"");
    r.append(title);
    r.append("\"");
    r
}


/// A post's file name is its lower-cased title with each space turned into a
/// hyphen, followed by `.md`; being a function of the title alone, equal titles
/// always give equal names.
pub proof fn lemma_file_name_shape(title: Seq<char>, other: Seq<char>)
    ensures
        file_name_of(title).len() == lowercase_of(title).len() + 3,
        forall|i: int|
            0 <= i < lowercase_of(title).len() ==> #[trigger] file_name_of(title)[i] == if lowercase_of(
                title,
            )[i] == ' ' {
                '-'
            } else {
                lowercase_of(title)[i]
            },
        file_name_of(title).subrange(
            lowercase_of(title).len() as int,
            file_name_of(title).len() as int,
        ) == ".md"@,
        title == other ==> file_name_of(title) == file_name_of(other),
{
    reveal_strlit(".md");
    let l = lowercase_of(title);
    assert(file_name_of(title).subrange(l.len() as int, file_name_of(title).len() as int)
        =~= ".md"@);
}

/// A post without tags has no taxonomies section; a post with tags has one that
/// lists them.
pub proof fn lemma_taxonomies_only_with_tags(
    title: Seq<char>,
    tags: Seq<Seq<char>>,
    date: Seq<char>,
)
    ensures
        tags.len() == 0 ==> front_matter_of(title, tags, date) == "+++\ntitle = \""@ + title
            + "\"\ndate = "@ + date + "\n"@ + "+++\n\n"@,
        tags.len() > 0 ==> front_matter_of(title, tags, date) == "+++\ntitle = \""@ + title
            + "\"\ndate = "@ + date + "\n"@ + ("\n[taxonomies]\ntags = "@ + tag_list_of(tags)
            + "\n"@) + "+++\n\n"@,
{
    let head = "+++\ntitle = \""@ + title + "\"\ndate = "@ + date + "\n"@;
    assert(head + Seq::<char>::empty() =~= head);
}

/// A post tagged `a` and `b` lists exactly those two tags, each quoted, in its
/// taxonomies section.
pub proof fn lemma_two_tags_listed(title: Seq<char>, a: Seq<char>, b: Seq<char>, date: Seq<char>)
    ensures
        front_matter_of(title, seq![a, b], date) == "+++\ntitle = \""@ + title + "\"\ndate = "@
            + date + "\n"@ + "\n[taxonomies]\ntags = "@ + "["@ + debug_of(a) + ", "@ + debug_of(
            b,
        ) + "]"@ + "\n"@ + "+++\n\n"@,
{
    let q = quoted_all(seq![a, b]);
    assert(q =~= seq![debug_of(a), debug_of(b)]);
    assert(q.drop_last() =~= seq![debug_of(a)]);
    assert(join(seq![debug_of(a)], ", "@) == debug_of(a));
    assert(q.last() == debug_of(b));
    assert(join(q, ", "@) == debug_of(a) + ", "@ + debug_of(b));
    let head = "+++\ntitle = \""@ + title + "\"\ndate = "@ + date + "\n"@;
    assert(front_matter_of(title, seq![a, b], date) =~= head + ("\n[taxonomies]\ntags = "@
        + tag_list_of(seq![a, b]) + "\n"@) + "+++\n\n"@);
}

} // verus!
