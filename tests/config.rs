use soup::config::{Command, Config, ZolaConfig};
use soup::errors::{describe_error, template_config, SoupError};

#[test]
fn test_command_from() {
    assert_eq!(Command::from("add".to_string()), Ok(Command::Add));
    assert_eq!(
        Command::from("invalid".to_string()),
        Err(SoupError::InvalidCommand)
    );
}

#[test]
fn test_parse_local_multi_line() {
    let content = String::from("zola_dir=/path/to/zola/dir\noutput_dir=/path/to/output/dir");
    let result = Config::parse_local(content).unwrap();

    assert_eq!(Some(result), Some(String::from("/path/to/zola/dir")));
}

#[test]
fn test_parse_local_trailing_slash() {
    let ml = String::from("zola_dir=/path/to/zola/dir/\noutput_dir=/path/to/output/dir\n\n\n");
    let sl = String::from("zola_dir=/path/to/zola/dir/");

    assert_eq!(
        Some(Config::parse_local(ml).unwrap()),
        Some(String::from("/path/to/zola/dir"))
    );

    assert_eq!(
        Some(Config::parse_local(sl).unwrap()),
        Some(String::from("/path/to/zola/dir"))
    );
}

#[test]
fn test_parse_remote() {
    let (base_url1, output_dir1) = Config::parse_remote(String::from(
        "base_url = \"https://example.com\"\noutput_dir = \"/path/to/output/dir\"",
    ))
    .unwrap();
    let (base_url2, output_dir2) = Config::parse_remote(String::from(
        "base_url=\"https://example.com\"\noutput_dir=\"/path/to/output/dir\"",
    ))
    .unwrap();
    let (base_url3, output_dir3) = Config::parse_remote(String::from(
        "base_url= \"https://example.com\"\noutput_dir= \"/path/to/output/dir\"",
    ))
    .unwrap();
    let (base_url4, output_dir4) = Config::parse_remote(String::from(
        "base_url =\"https://example.com\"\noutput_dir =\"/path/to/output/dir\"",
    ))
    .unwrap();

    assert_eq!(base_url1, Some(String::from("https://example.com")));
    assert_eq!(output_dir1, Some(String::from("/path/to/output/dir")));
    assert_eq!(base_url2, Some(String::from("https://example.com")));
    assert_eq!(output_dir2, Some(String::from("/path/to/output/dir")));
    assert_eq!(base_url3, Some(String::from("https://example.com")));
    assert_eq!(output_dir3, Some(String::from("/path/to/output/dir")));
    assert_eq!(base_url4, Some(String::from("https://example.com")));
    assert_eq!(output_dir4, Some(String::from("/path/to/output/dir")));
}

#[test]
fn test_trim_value() {
    let value1 = " = \"https://example.com\"";
    let value2 = " = \"/path/to/output/dir\"";
    let value3 = "https://example.com\"";
    let value4 = "\"/path/to/output/dir\"";
    let value5 = "=\"/path/to/output/dir/\"";
    let value6 = " =\"/path/to/output/dir\"";

    assert_eq!(
        Config::trim_value(value1),
        String::from("https://example.com")
    );
    assert_eq!(
        Config::trim_value(value2),
        String::from("/path/to/output/dir")
    );
    assert_eq!(
        Config::trim_value(value3),
        String::from("https://example.com")
    );
    assert_eq!(
        Config::trim_value(value4),
        String::from("/path/to/output/dir")
    );
    assert_eq!(
        Config::trim_value(value5),
        String::from("/path/to/output/dir")
    );
    assert_eq!(
        Config::trim_value(value6),
        String::from("/path/to/output/dir")
    );
}

#[test]
fn spacing_around_equals_gives_same_value() {
    for line in ["site = /srv/www", "site=/srv/www", "site= /srv/www", "site =/srv/www"] {
        let content = format!("zola_dir{}", &line[4..]);
        assert_eq!(Config::parse_local(content), Ok(String::from("/srv/www")));
    }
}

#[test]
fn trailing_separator_stripped_once() {
    assert_eq!(Config::trim_value("/a/b/"), "/a/b");
    assert_eq!(Config::trim_value("/a/b//"), "/a/b/");
    assert_eq!(Config::trim_value("/a/b"), "/a/b");
    assert_eq!(Config::trim_value(""), "");
}

#[test]
fn quoted_value_keeps_inner_marks() {
    assert_eq!(
        Config::trim_value(" = \"https://x.test/?a=b\""),
        "https://x.test/?a=b"
    );
    assert_eq!(Config::trim_value("= \"say \"hi\"\""), "say \"hi\"");
    assert_eq!(Config::trim_value("==x"), "=x");
    let (b, _) = Config::parse_remote(String::from("base_url = \"https://x.test/?a=b\"")).unwrap();
    assert_eq!(b, Some(String::from("https://x.test/?a=b")));
}

#[test]
fn trim_value_handles_crlf_and_tabs() {
    assert_eq!(Config::trim_value("\t= \"x\" \r"), "x");
}

#[test]
fn parse_local_without_key_is_invalid() {
    assert_eq!(
        Config::parse_local(String::from("other=1\n")),
        Err(SoupError::InvalidConfig)
    );
    assert_eq!(Config::parse_local(String::new()), Err(SoupError::InvalidConfig));
}

#[test]
fn parse_local_with_empty_value_is_invalid() {
    assert_eq!(
        Config::parse_local(String::from("zola_dir=\"\"")),
        Err(SoupError::InvalidConfig)
    );
    assert_eq!(
        Config::parse_local(String::from("zola_dir=/")),
        Err(SoupError::InvalidConfig)
    );
}

#[test]
fn parse_local_takes_first_line() {
    assert_eq!(
        Config::parse_local(String::from("# site\nzola_dir=/one\nzola_dir=/two")),
        Ok(String::from("/one"))
    );
}

#[test]
fn parse_remote_last_line_wins_and_missing_keys_unset() {
    let (b, o) = Config::parse_remote(String::from(
        "title = \"x\"\nbase_url = \"a\"\nbase_url = \"b\"",
    ))
    .unwrap();
    assert_eq!(b, Some(String::from("b")));
    assert_eq!(o, None);
}

#[test]
fn locate_without_local_config_is_missing() {
    let args = vec![String::from("soup")];
    let r = Config::locate(&args, None);
    assert!(matches!(r, Err(SoupError::MissingConfig)));
    let report = describe_error(SoupError::MissingConfig);
    assert!(report.creates_template);
    assert_eq!(template_config(), "zola_dir=/path/to/zola/dir");
}

#[test]
fn locate_reads_site_directory() {
    let args = vec![String::from("soup"), String::from("add")];
    let r = Config::locate(&args, Some(String::from("zola_dir=/site/\n"))).unwrap();
    assert_eq!(r.0, Command::Add);
    assert_eq!(r.1, "/site");
    assert_eq!(Config::remote_path(&r.1), "/site/config.toml");
}

#[test]
fn locate_rejects_unknown_command() {
    let args = vec![String::from("soup"), String::from("remove")];
    let r = Config::locate(&args, Some(String::from("zola_dir=/site")));
    assert!(matches!(r, Err(SoupError::InvalidCommand)));
}

#[test]
fn site_config_absent_is_missing() {
    let r = Config::new(Command::Add, String::from("/site"), None);
    assert!(matches!(r, Err(SoupError::MissingConfig)));
}

#[test]
fn site_config_values_are_resolved() {
    let c = Config::new(
        Command::Add,
        String::from("/site"),
        Some(String::from("base_url = \"https://x.test\"\noutput_dir=public\n")),
    )
    .unwrap();
    assert_eq!(c.zola.base_url, Some(String::from("https://x.test")));
    assert_eq!(c.zola.output_dir, Some(String::from("public")));
    assert_eq!(c.zola.dir, "/site");
    assert!(c.tags.is_empty() && c.title.is_empty() && c.content.is_empty());
}

#[test]
fn error_descriptions() {
    let r = describe_error(SoupError::InvalidConfig);
    assert_eq!(r.label, "[Error]: Invalid config file.");
    assert!(!r.creates_template);
    let r = describe_error(SoupError::InvalidCommand);
    assert_eq!(r.label, "[Error]: Invalid command");
    assert!(r.advice.contains("add      - Adds a new note"));
    let r = describe_error(SoupError::MissingConfig);
    assert_eq!(r.label, "[Error]: Missing config file.");
}

#[test]
fn zola_config_setters() {
    let mut z = ZolaConfig::new();
    assert_eq!(z.dir, "");
    z.set_dir(String::from("/site"));
    z.set_base_url(Some(String::from("https://x.test")));
    assert_eq!(z.dir, "/site");
    assert_eq!(z.base_url, Some(String::from("https://x.test")));
    assert_eq!(z.output_dir, None);
}
