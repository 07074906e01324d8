//! Resolution of the tool's configuration: the command, the site directory named
//! by the local configuration, and the site's own `config.toml`.

use crate::errors::SoupError;
use crate::text::{
    drop_leading, drop_trailing, has_prefix_at, is_space, remove_first, remove_last,
    remove_leading, split, split_on, strip_repeated, strip_slash, trim, trim_end, trim_start,
    trim_start_str, trim_str, views,
};
use vstd::prelude::*;

verus! {

/// The operation the tool performs.
#[derive(Debug, Clone, Copy, PartialEq, Eq, Structural)]
pub enum Command {
    /// Adds a new post.
    Add,
}

/// The command that a command-line token names, if any.
pub open spec fn command_of(s: Seq<char>) -> Result<Command, SoupError> {
    if s == "add"@ {
        Ok(Command::Add)
    } else {
        Err(SoupError::InvalidCommand)
    }
}

/// The command of an argument list whose first entry is the program: the second
/// entry, or `add` where there is none.
pub open spec fn command_of_args(args: Seq<String>) -> Result<Command, SoupError> {
    if args.len() < 2 {
        Ok(Command::Add)
    } else {
        command_of(args[1]@)
    }
}

/// `s` without a `"` at its start and without one at its end.
pub open spec fn unquoted(s: Seq<char>) -> Seq<char> {
    drop_trailing(drop_leading(s, '"'), '"')
}

/// The value of a `key=value` remainder: leading whitespace and then one `=`
/// dropped, whitespace trimmed, the surrounding quotes stripped and one
/// trailing `/` removed. (Trailing whitespace goes with the second trim.)
pub open spec fn value_of(raw: Seq<char>) -> Seq<char> {
    strip_slash(unquoted(trim(drop_leading(trim_start(raw), '='))))
}

/// The value of a line that starts with `key`.
pub open spec fn line_value(line: Seq<char>, key: Seq<char>) -> Seq<char> {
    value_of(strip_repeated(line, key))
}

/// The value of the first line that starts with `key`.
pub open spec fn first_value(lines: Seq<Seq<char>>, key: Seq<char>) -> Option<Seq<char>>
    decreases lines.len(),
{
    if lines.len() == 0 {
        None
    } else if key.is_prefix_of(lines[0]) {
        Some(line_value(lines[0], key))
    } else {
        first_value(lines.drop_first(), key)
    }
}

/// The value of the last line that starts with `key`.
pub open spec fn last_value(lines: Seq<Seq<char>>, key: Seq<char>) -> Option<Seq<char>>
    decreases lines.len(),
{
    if lines.len() == 0 {
        None
    } else if key.is_prefix_of(lines.last()) {
        Some(line_value(lines.last(), key))
    } else {
        last_value(lines.drop_last(), key)
    }
}

/// The lines of a configuration file. A `\r` before a line break stays on its line;
/// it is whitespace and so never reaches a value.
pub open spec fn lines_of(content: Seq<char>) -> Seq<Seq<char>> {
    split(content, '\n')
}

pub open spec fn opt_view(o: Option<String>) -> Option<Seq<char>> {
    match o {
        Some(s) => Some(s@),
        None => None,
    }
}

/// The site directory that a local configuration names: the value of its first
/// `zola_dir` line, which must not be empty.
pub open spec fn local_dir(content: Seq<char>) -> Result<Seq<char>, SoupError> {
    match first_value(lines_of(content), "zola_dir"@) {
        Some(v) => if v.len() > 0 {
            Ok(v)
        } else {
            Err(SoupError::InvalidConfig)
        },
        None => Err(SoupError::InvalidConfig),
    }
}

/// The path of the site configuration inside the site directory.
pub open spec fn remote_path_of(dir: Seq<char>) -> Seq<char> {
    dir + "/config.toml"@
}

/// The command and site directory that the arguments and the local
/// configuration's text (`None` where the file could not be read) give.
pub open spec fn located(args: Seq<String>, local: Option<Seq<char>>) -> Result<
    (Command, Seq<char>),
    SoupError,
> {
    match command_of_args(args) {
        Err(e) => Err(e),
        Ok(c) => match local {
            None => Err(SoupError::MissingConfig),
            Some(t) => match local_dir(t) {
                Ok(d) => Ok((c, d)),
                Err(e) => Err(e),
            },
        },
    }
}

impl Command {
    /// The command named by `s`.
    pub fn from(s: String) -> (r: Result<Command, SoupError>)
        ensures
            r == command_of(s@),
    {
        let add = String::from_str("add");
        if s == add {
            Ok(Command::Add)
        } else {
            Err(SoupError::InvalidCommand)
        }
    }

    /// The command of a whole argument list, the program name first.
    pub fn from_args(args: &Vec<String>) -> (r: Result<Command, SoupError>)
        ensures
            r == command_of_args(args@),
    {
        if args.len() < 2 {
            Ok(Command::Add)
        } else {
            Command::from(args[1].clone())
        }
    }
}

/// Where the site lives and what its configuration says.
pub struct ZolaConfig {
    pub dir: String,
    pub base_url: Option<String>,
    pub output_dir: Option<String>,
}

impl ZolaConfig {
    /// A configuration with no directory and no optional values.
    pub fn new() -> (r: ZolaConfig)
        ensures
            r.dir@ == Seq::<char>::empty(),
            r.base_url is None,
            r.output_dir is None,
    {
        ZolaConfig { dir: String::new(), base_url: None, output_dir: None }
    }

    pub fn set_dir(&mut self, dir: String)
        ensures
            final(self).dir == dir,
            final(self).base_url == old(self).base_url,
            final(self).output_dir == old(self).output_dir,
    {
        self.dir = dir;
    }

    pub fn set_base_url(&mut self, base_url: Option<String>)
        ensures
            final(self).base_url == base_url,
            final(self).dir == old(self).dir,
            final(self).output_dir == old(self).output_dir,
    {
        self.base_url = base_url;
    }
}

/// The resolved configuration together with the post being drafted.
pub struct Config {
    pub cmd: Command,
    pub tags: Vec<String>,
    pub title: String,
    pub content: String,
    pub zola: ZolaConfig,
}

impl Config {
    /// The value of a `key=value` remainder such as ` = "https://example.com"`.
    pub fn trim_value(value: &str) -> (r: String)
        ensures
            r@ == value_of(value@),
    {
        let rest = remove_first(trim_start_str(value), '=');
        let trimmed = trim_str(rest);
        let inner = remove_last(remove_first(trimmed, '"'), '"');
        String::from_str(remove_last(inner, '/'))
    }

    /// The value of `line`, which starts with `key`.
    fn value_after(line: &str, key: &str) -> (r: String)
        ensures
            r@ == line_value(line@, key@),
    {
        Config::trim_value(remove_leading(line, key))
    }

    /// The site directory named by the first `zola_dir` line of a local
    /// configuration.
    pub fn parse_local(content: String) -> (r: Result<String, SoupError>)
        ensures
            match r {
                Ok(d) => local_dir(content@) == Ok::<Seq<char>, SoupError>(d@),
                Err(e) => local_dir(content@) == Err::<Seq<char>, SoupError>(e),
            },
    {
        let lines = split_on(content.as_str(), '\n');
        let n = lines.len();
        let mut i: usize = 0;
        assert(views(lines@).subrange(0, n as int) =~= views(lines@));
        while i < n
            invariant
                n == lines@.len(),
                i <= n,
                views(lines@) == lines_of(content@),
                first_value(lines_of(content@), "zola_dir"@) == first_value(
                    views(lines@).subrange(i as int, n as int),
                    "zola_dir"@,
                ),
            decreases n - i,
        {
            let line = lines[i].as_str();
            assert(views(lines@).subrange(i as int, n as int).drop_first() =~= views(
                lines@,
            ).subrange(i + 1, n as int));
            assert(views(lines@)[i as int] == line@);
            if has_prefix_at(line, 0, "zola_dir") {
                assert(line@.subrange(0, line@.len() as int) =~= line@);
                let v = Config::value_after(line, "zola_dir");
                assert(views(lines@).subrange(i as int, n as int)[0] == line@);
                if v.unicode_len() == 0 {
                    return Err(SoupError::InvalidConfig);
                }
                return Ok(v);
            }
            assert(line@.subrange(0, line@.len() as int) =~= line@);
            i = i + 1;
        }
        Err(SoupError::InvalidConfig)
    }

    /// The `base_url` and `output_dir` values of a site configuration; where a
    /// key occurs on several lines the last one counts.
    pub fn parse_remote(content: String) -> (r: Result<(Option<String>, Option<String>), SoupError>)
        ensures
            r is Ok,
            opt_view(r->Ok_0.0) == last_value(lines_of(content@), "base_url"@),
            opt_view(r->Ok_0.1) == last_value(lines_of(content@), "output_dir"@),
    {
        let lines = split_on(content.as_str(), '\n');
        let n = lines.len();
        let mut base_url: Option<String> = None;
        let mut output_dir: Option<String> = None;
        let mut i: usize = 0;
        while i < n
            invariant
                n == lines@.len(),
                i <= n,
                views(lines@) == lines_of(content@),
                opt_view(base_url) == last_value(views(lines@).subrange(0, i as int), "base_url"@),
                opt_view(output_dir) == last_value(
                    views(lines@).subrange(0, i as int),
                    "output_dir"@,
                ),
            decreases n - i,
        {
            let line = lines[i].as_str();
            assert(views(lines@).subrange(0, i + 1).drop_last() =~= views(lines@).subrange(
                0,
                i as int,
            ));
            assert(line@.subrange(0, line@.len() as int) =~= line@);
            assert(views(lines@)[i as int] == line@);
            if has_prefix_at(line, 0, "base_url") {
                base_url = Some(Config::value_after(line, "base_url"));
            }
            if has_prefix_at(line, 0, "output_dir") {
                output_dir = Some(Config::value_after(line, "output_dir"));
            }
            i = i + 1;
        }
        assert(views(lines@).subrange(0, n as int) =~= views(lines@));
        Ok((base_url, output_dir))
    }

    /// The command and the site directory, from the arguments and the text of the
    /// local configuration (`None` where it could not be read).
    pub fn locate(args: &Vec<String>, local_config: Option<String>) -> (r: Result<
        (Command, String),
        SoupError,
    >)
        ensures
            match r {
                Ok((c, d)) => located(args@, opt_view(local_config)) == Ok::<
                    (Command, Seq<char>),
                    SoupError,
                >((c, d@)),
                Err(e) => located(args@, opt_view(local_config)) == Err::<
                    (Command, Seq<char>),
                    SoupError,
                >(e),
            },
    {
        let cmd = match Command::from_args(args) {
            Ok(c) => c,
            Err(e) => return Err(e),
        };
        let local = match local_config {
            Some(t) => t,
            None => return Err(SoupError::MissingConfig),
        };
        match Config::parse_local(local) {
            Ok(d) => Ok((cmd, d)),
            Err(e) => Err(e),
        }
    }

    /// The configuration of the site in `dir`, from the text of its
    /// `config.toml` (`None` where it could not be read). The draft starts empty.
    pub fn new(cmd: Command, dir: String, remote_config: Option<String>) -> (r: Result<
        Config,
        SoupError,
    >)
        ensures
            remote_config is None ==> r == Err::<Config, SoupError>(SoupError::MissingConfig),
            remote_config matches Some(t) ==> r matches Ok(c) && c.cmd == cmd && c.zola.dir == dir
                && c.tags@.len() == 0 && c.title@.len() == 0 && c.content@.len() == 0
                && opt_view(c.zola.base_url) == last_value(lines_of(t@), "base_url"@)
                && opt_view(c.zola.output_dir) == last_value(lines_of(t@), "output_dir"@),
    {
        let remote = match remote_config {
            Some(t) => t,
            None => return Err(SoupError::MissingConfig),
        };
        let (base_url, output_dir) = match Config::parse_remote(remote) {
            Ok(p) => p,
            Err(e) => return Err(e),
        };
        Ok(Config {
            cmd,
            tags: Vec::new(),
            title: String::new(),
            content: String::new(),
            zola: ZolaConfig { dir, base_url, output_dir },
        })
    }

    /// The path of the site configuration of `dir`.
    pub fn remote_path(dir: &str) -> (r: String)
        ensures
            r@ == remote_path_of(dir@),
    {
        let mut p = String::from_str(dir);
        p.append("/config.toml");
        p
    }
}


proof fn lemma_trim_start_skips_space(c: char, x: Seq<char>)
    requires
        is_space(c),
    ensures
        trim_start(seq![c] + x) == trim_start(x),
{
    assert((seq![c] + x).drop_first() =~= x);
}

/// Spaces on either side of `=` do not change a value: the remainders ` = v`,
/// `= v` and ` =v` give what `=v` gives.
pub proof fn lemma_value_spacing(v: Seq<char>)
    ensures
        value_of(" = "@ + v) == value_of("="@ + v),
        value_of("= "@ + v) == value_of("="@ + v),
        value_of(" ="@ + v) == value_of("="@ + v),
{
    reveal_strlit(" = ");
    reveal_strlit("= ");
    reveal_strlit(" =");
    reveal_strlit("=");
    let sv = seq![' '] + v;
    assert(" = "@ + v =~= seq![' '] + ("= "@ + v));
    assert(" ="@ + v =~= seq![' '] + ("="@ + v));
    lemma_trim_start_skips_space(' ', "= "@ + v);
    lemma_trim_start_skips_space(' ', "="@ + v);
    assert(drop_leading("= "@ + v, '=') =~= sv);
    assert(drop_leading("="@ + v, '=') =~= v);
    lemma_trim_start_skips_space(' ', v);
}

/// A line `key = v`, `key=v`, `key= v` or `key =v` gives the same value, for any
/// key that starts with neither a space nor `=`.
pub proof fn lemma_line_spacing(key: Seq<char>, v: Seq<char>)
    requires
        key.len() > 0,
        key[0] != ' ',
        key[0] != '=',
    ensures
        line_value(key + " = "@ + v, key) == line_value(key + "="@ + v, key),
        line_value(key + "= "@ + v, key) == line_value(key + "="@ + v, key),
        line_value(key + " ="@ + v, key) == line_value(key + "="@ + v, key),
{
    reveal_strlit(" = ");
    reveal_strlit("= ");
    reveal_strlit(" =");
    reveal_strlit("=");
    lemma_strip_key(key, " = "@, v);
    lemma_strip_key(key, "= "@, v);
    lemma_strip_key(key, " ="@, v);
    lemma_strip_key(key, "="@, v);
    lemma_value_spacing(v);
}

proof fn lemma_strip_key(key: Seq<char>, sep: Seq<char>, v: Seq<char>)
    requires
        key.len() > 0,
        sep.len() > 0,
        key[0] != sep[0],
    ensures
        strip_repeated(key + sep + v, key) == sep + v,
{
    let line = key + sep + v;
    assert(key.is_prefix_of(line)) by {
        assert(line.subrange(0, key.len() as int) =~= key);
    }
    assert(line.subrange(key.len() as int, line.len() as int) =~= sep + v);
    assert((sep + v)[0] == sep[0]);
    assert(!key.is_prefix_of(sep + v));
    assert(strip_repeated(sep + v, key) == sep + v);
    assert(strip_repeated(line, key) == strip_repeated(sep + v, key));
}

/// A value written without surrounding whitespace, a leading `=` or surrounding
/// quotes loses exactly one trailing `/` if it ends in one, and is kept as it is
/// otherwise.
pub proof fn lemma_trailing_separator(v: Seq<char>)
    requires
        v.len() > 0 ==> !is_space(v[0]) && !is_space(v.last()),
        v.len() > 0 ==> v[0] != '=' && v[0] != '"' && v.last() != '"',
    ensures
        v.len() > 0 && v.last() == '/' ==> value_of(v) == v.drop_last(),
        !(v.len() > 0 && v.last() == '/') ==> value_of(v) == v,
{
    assert(trim_start(v) == v);
    assert(trim_end(v) == v);
}

/// A quoted value keeps whatever it holds between its quotes, `=` and `"`
/// included; only one trailing `/` is removed.
pub proof fn lemma_quoted_value(v: Seq<char>)
    ensures
        value_of(" = \""@ + v + "\""@) == strip_slash(v),
{
    reveal_strlit(" = \"");
    reveal_strlit("\"");
    let q = seq!['"'] + v + seq!['"'];
    let raw = " = \""@ + v + "\""@;
    assert(raw =~= seq![' '] + (seq!['='] + (seq![' '] + q)));
    lemma_trim_start_skips_space(' ', seq!['='] + (seq![' '] + q));
    assert(drop_leading(seq!['='] + (seq![' '] + q), '=') =~= seq![' '] + q);
    lemma_trim_start_skips_space(' ', q);
    assert(trim_start(q) == q);
    assert(trim_end(q) == q);
    assert(drop_leading(q, '"') =~= v + seq!['"']);
    assert((v + seq!['"']).drop_last() =~= v);
}

/// Without a local configuration, resolution fails with `MissingConfig` whenever
/// the command is accepted.
pub proof fn lemma_missing_local_config(args: Seq<String>)
    requires
        command_of_args(args) is Ok,
    ensures
        located(args, None) == Err::<(Command, Seq<char>), SoupError>(SoupError::MissingConfig),
{
}

} // verus!
