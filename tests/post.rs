use soup::config::{Command, Config};
use soup::draft::{get_tags, get_title, is_blank, parse_invalid_tags, tag_suggestions, tags_dir, tags_prompt};
use soup::post::{
    commit_message, file_name, format_date, front_matter, post_path, render, slug_file_name,
    tag_list, today_text, CalendarDate,
};

fn site() -> Config {
    Config::new(
        Command::Add,
        String::from("/site"),
        Some(String::from("output_dir = \"public\"")),
    )
    .unwrap()
}

#[test]
fn file_name_lowercases_and_hyphenates() {
    assert_eq!(file_name("Hello World"), "hello-world.md");
    assert_eq!(file_name("A  B"), "a--b.md");
    assert_eq!(file_name(""), ".md");
    assert_eq!(slug_file_name("my post"), "my-post.md");
}

#[test]
fn colliding_titles_share_a_path() {
    let mut a = site();
    let mut b = site();
    get_title(&mut a, "My Post\n");
    get_title(&mut b, "my-post\n");
    assert_eq!(post_path(&a), post_path(&b));
    assert_eq!(post_path(&a), "/site/content/my-post.md");
}

#[test]
fn whitespace_title_is_refused() {
    assert!(is_blank("   \n"));
    assert!(is_blank(""));
    assert!(!is_blank(" x "));
    let mut c = site();
    get_title(&mut c, "  Hello World \n");
    assert_eq!(c.title, "Hello World");
}

#[test]
fn front_matter_with_tags() {
    let tags = vec![String::from("a"), String::from("b")];
    let fm = front_matter("Hello World", &tags, "2024-03-07");
    assert_eq!(
        fm,
        "+++\ntitle = \"Hello World\"\ndate = 2024-03-07\n\n[taxonomies]\ntags = [\"a\", \"b\"]\n+++\n\n"
    );
}

#[test]
fn front_matter_without_tags() {
    let fm = front_matter("Hello World", &Vec::new(), "2024-03-07");
    assert_eq!(fm, "+++\ntitle = \"Hello World\"\ndate = 2024-03-07\n+++\n\n");
    assert!(!fm.contains("taxonomies"));
}

#[test]
fn render_appends_body_verbatim() {
    let mut c = site();
    get_title(&mut c, "Hello World");
    get_tags(&mut c, "a, b\n");
    c.content = String::from("Body\n");
    let doc = render(&c, "2024-03-07");
    assert_eq!(
        doc,
        "+++\ntitle = \"Hello World\"\ndate = 2024-03-07\n\n[taxonomies]\ntags = [\"a\", \"b\"]\n+++\n\nBody\n"
    );
}

#[test]
fn tag_list_quotes_and_escapes() {
    assert_eq!(tag_list(&vec![String::from("a")]), "[\"a\"]");
    assert_eq!(tag_list(&vec![String::from("say \"hi\"")]), "[\"say \\\"hi\\\"\"]");
    assert_eq!(tag_list(&Vec::new()), "[]");
}

#[test]
fn dates_are_zero_padded() {
    let d = |year, month, day| CalendarDate { year, month, day };
    assert_eq!(format_date(d(2024, 3, 7)), "2024-03-07");
    assert_eq!(format_date(d(5, 12, 31)), "0005-12-31");
    assert_eq!(format_date(d(-5, 1, 1)), "-0005-01-01");
    assert_eq!(format_date(d(12345, 1, 1)), "+12345-01-01");
}

#[test]
fn today_has_date_shape() {
    let t = today_text();
    let b = t.as_bytes();
    assert_eq!(b.len(), 10);
    assert_eq!(b[4], b'-');
    assert_eq!(b[7], b'-');
    assert!(t.chars().filter(|c| *c != '-').all(|c| c.is_ascii_digit()));
}

#[test]
fn tags_are_split_and_trimmed() {
    let mut c = site();
    get_tags(&mut c, " rust , verus,web \n");
    assert_eq!(c.tags, vec!["rust", "verus", "web"]);
    get_tags(&mut c, "  \n");
    assert_eq!(c.tags, vec!["rust", "verus", "web"]);
}

#[test]
fn empty_tag_pieces_are_dropped() {
    let mut c = site();
    get_tags(&mut c, "a,\n");
    assert_eq!(c.tags, vec!["a"]);
    get_tags(&mut c, " a , , b,,");
    assert_eq!(c.tags, vec!["a", "b"]);
    get_tags(&mut c, ", ,");
    assert!(c.tags.is_empty());
}

#[test]
fn listing_excludes_non_tags() {
    let s = tag_suggestions("rust\n.\n..\nindex.md\nindex.html\n\nweb\n");
    assert_eq!(s, vec!["rust", "web"]);
    let all = vec![String::from(""), String::from("index.html"), String::from("a")];
    assert_eq!(parse_invalid_tags(&all), vec!["a"]);
}

#[test]
fn tag_directory_and_prompt() {
    let c = site();
    assert_eq!(tags_dir(&c.zola), Some(String::from("/site/public/tags")));
    let mut z = c.zola;
    z.output_dir = Some(String::from("/abs/out"));
    assert_eq!(tags_dir(&z), Some(String::from("/abs/out/tags")));
    z.output_dir = None;
    assert_eq!(tags_dir(&z), None);
    let s = vec![String::from("a"), String::from("b")];
    assert_eq!(tags_prompt(&s), "Enter tags [a, b]:");
    assert_eq!(tags_prompt(&Vec::new()), "Enter tags (comma separated): ");
}

#[test]
fn commit_message_quotes_title() {
    assert_eq!(commit_message("Hello"), "New post: \"Hello\"");
}
