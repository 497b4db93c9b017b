//! The configuration file: its contents, its TOML text, and the questions
//! asked to fill it in.
use vstd::prelude::*;
use crate::file::{check_path, missing_path_note_text};
use crate::target::{TlsPaths, tls_view};

verus! {

/// What a TOML writer gives for a string value, quotes and escapes included.
pub uninterp spec fn toml_string_of(s: Seq<char>) -> Seq<char>;

/// Relies on `toml::Value`'s `Display` for a string value: the string written
/// as a TOML value, which depends on its characters alone.
#[verifier::external_body]
fn toml_string(s: &str) -> (r: String)
    ensures
        r@ == toml_string_of(s@),
{
    toml::Value::String(s.to_owned()).to_string()
}

/// Connection defaults to write down: the server's address and, for a secured
/// connection, the paths to its three TLS files.
pub struct Config {
    pub url: String,
    pub tls: Option<TlsPaths>,
}

impl View for Config {
    type V = ConfigView;

    open spec fn view(&self) -> ConfigView {
        (self.url@, tls_view(self.tls))
    }
}

/// One `key = value` line of the file.
pub open spec fn entry_text(key: Seq<char>, value: Seq<char>) -> Seq<char> {
    key + " = "@ + toml_string_of(value) + seq!['\n']
}

/// The file's text: the `url` key, then, only for a secured connection, the
/// `root_ca_path`, `cert_path` and `private_key_path` keys.
pub open spec fn config_text(c: ConfigView) -> Seq<char> {
    entry_text("url"@, c.0) + match c.1 {
        Some(p) => entry_text("root_ca_path"@, p.0) + entry_text("cert_path"@, p.1) + entry_text(
            "private_key_path"@,
            p.2,
        ),
        None => Seq::empty(),
    }
}

fn push_entry(out: &mut String, key: &str, value: &str)
    ensures
        final(out)@ == old(out)@ + entry_text(key@, value@),
{
    proof {
        reveal_strlit(" = ");
        reveal_strlit("\n");
    }
    out.append(key);
    out.append(" = ");
    let v = toml_string(value);
    out.append(v.as_str());
    out.append("\n");
    assert(final(out)@ =~= old(out)@ + entry_text(key@, value@));
}

impl Config {
    /// The configuration as a TOML document.
    pub fn to_toml(&self) -> (r: String)
        ensures
            r@ == config_text(self@),
    {
        let mut out = String::new();
        push_entry(&mut out, "url", self.url.as_str());
        match &self.tls {
            Some(p) => {
                push_entry(&mut out, "root_ca_path", p.root_ca.as_str());
                push_entry(&mut out, "cert_path", p.cert.as_str());
                push_entry(&mut out, "private_key_path", p.private_key.as_str());
            },
            None => {},
        }
        assert(out@ =~= config_text(self@));
        out
    }
}

/// The line shown to ask a question, with its default in parentheses.
pub open spec fn prompt_text(question: Seq<char>, default: Option<Seq<char>>) -> Seq<char> {
    match default {
        Some(d) => question + " ("@ + d + "): "@,
        None => question + ": "@,
    }
}

/// The answer in a line read from the console: the line without its line
/// break; the default where that is empty; at the end of the input, the
/// default or empty text. `None` asks the question again.
pub open spec fn answer_of(line: Seq<char>, default: Option<Seq<char>>) -> Option<Seq<char>> {
    let content = if line.len() > 0 && line.last() == '\n' {
        line.drop_last()
    } else {
        line
    };
    if content.len() > 0 {
        Some(content)
    } else {
        match default {
            Some(d) => Some(d),
            None => if line.len() == 0 {
                Some(Seq::empty())
            } else {
                None
            },
        }
    }
}

/// The line shown to ask a question.
pub fn prompt_line(question: &str, default: Option<&str>) -> (r: String)
    ensures
        r@ == prompt_text(question@, match default {
            Some(d) => Some(d@),
            None => None,
        }),
{
    match default {
        Some(d) => String::from_str(question).concat(" (").concat(d).concat("): "),
        None => String::from_str(question).concat(": "),
    }
}

/// The answer given in `line`, or `None` where the question must be asked again.
pub fn read_answer(line: &str, default: Option<&str>) -> (r: Option<String>)
    ensures
        r is Some <==> answer_of(line@, opt_view(default)) is Some,
        r matches Some(a) ==> answer_of(line@, opt_view(default)) == Some(a@),
{
    let n = line.unicode_len();
    let content = if n > 0 && line.get_char(n - 1) == '\n' {
        line.substring_char(0, n - 1)
    } else {
        line
    };
    proof {
        if n > 0 && line@.last() == '\n' {
            assert(content@ =~= line@.drop_last());
        }
    }
    if content.unicode_len() > 0 {
        Some(String::from_str(content))
    } else {
        match default {
            Some(d) => Some(String::from_str(d)),
            None => if n == 0 {
                Some(String::new())
            } else {
                None
            },
        }
    }
}

/// The view of an optional string slice.
pub open spec fn opt_view(o: Option<&str>) -> Option<Seq<char>> {
    match o {
        Some(s) => Some(s@),
        None => None,
    }
}

/// The question the configuration scaffold is at.
#[derive(Clone, Copy, Debug, PartialEq, Eq, Structural)]
pub enum Stage {
    Url,
    Secure,
    RootCa,
    Cert,
    PrivateKey,
    Finished,
}

/// The questions that fill in a configuration, asked in turn: the server's
/// address, whether the connection is secured, then the three TLS paths.
pub struct Scaffold {
    pub stage: Stage,
    pub url: String,
    pub root_ca: String,
    pub cert: String,
}

/// What the scaffold knows: its stage and the answers so far.
pub type ScaffoldView = (Stage, Seq<char>, Seq<char>, Seq<char>);

/// What a configuration holds.
pub type ConfigView = (Seq<char>, Option<(Seq<char>, Seq<char>, Seq<char>)>);

impl View for Scaffold {
    type V = ScaffoldView;

    open spec fn view(&self) -> ScaffoldView {
        (self.stage, self.url@, self.root_ca@, self.cert@)
    }
}

/// The address offered when none is typed.
pub open spec fn default_url() -> Seq<char> {
    "localhost:9080"@
}

/// The question asked at a stage.
pub open spec fn question_of(stage: Stage) -> Seq<char> {
    match stage {
        Stage::Url => "Dgraph URL"@,
        Stage::Secure => "Is secure connection? [y/n]"@,
        Stage::RootCa => "Root CA"@,
        Stage::Cert => "Certificate"@,
        Stage::PrivateKey => "Private key"@,
        Stage::Finished => Seq::empty(),
    }
}

/// The answer taken at a stage for an empty line.
pub open spec fn default_of(stage: Stage) -> Option<Seq<char>> {
    match stage {
        Stage::Url => Some(default_url()),
        Stage::Secure => Some("y"@),
        _ => None,
    }
}

/// The scaffold's next state after reading `line`, and the configuration once
/// it is complete. A secured connection is chosen by answering `y` alone.
pub open spec fn step(s: ScaffoldView, line: Seq<char>) -> (ScaffoldView, Option<ConfigView>) {
    match answer_of(line, default_of(s.0)) {
        None => (s, None),
        Some(v) => match s.0 {
            Stage::Url => ((Stage::Secure, v, s.2, s.3), None),
            Stage::Secure => if v == "y"@ {
                ((Stage::RootCa, s.1, s.2, s.3), None)
            } else {
                ((Stage::Finished, s.1, s.2, s.3), Some((s.1, None)))
            },
            Stage::RootCa => ((Stage::Cert, s.1, v, s.3), None),
            Stage::Cert => ((Stage::PrivateKey, s.1, s.2, v), None),
            Stage::PrivateKey => ((Stage::Finished, s.1, s.2, s.3), Some((s.1, Some((s.2, s.3, v))))),
            Stage::Finished => (s, None),
        },
    }
}

/// The path that `line` gives at a stage that asks for one.
pub open spec fn given_path(s: ScaffoldView, line: Seq<char>) -> Option<Seq<char>> {
    match s.0 {
        Stage::RootCa | Stage::Cert | Stage::PrivateKey => answer_of(line, None),
        _ => None,
    }
}

/// The view of an optional configuration.
pub open spec fn config_view(c: Option<Config>) -> Option<ConfigView> {
    match c {
        Some(c) => Some(c@),
        None => None,
    }
}

/// What one answer brought: the configuration once complete, and a note
/// where a path was given that does not exist.
pub struct Progress {
    pub config: Option<Config>,
    pub note: Option<String>,
}

impl Scaffold {
    /// A scaffold at its first question.
    pub fn new() -> (r: Scaffold)
        ensures
            r@ == (Stage::Url, Seq::<char>::empty(), Seq::<char>::empty(), Seq::<char>::empty()),
    {
        Scaffold { stage: Stage::Url, url: String::new(), root_ca: String::new(), cert: String::new() }
    }

    /// The line that asks the current question.
    pub fn prompt(&self) -> (r: String)
        requires
            self.stage != Stage::Finished,
        ensures
            r@ == prompt_text(question_of(self.stage), default_of(self.stage)),
    {
        proof {
            reveal_strlit("localhost:9080");
            reveal_strlit("y");
        }
        match self.stage {
            Stage::Url => prompt_line("Dgraph URL", Some("localhost:9080")),
            Stage::Secure => prompt_line("Is secure connection? [y/n]", Some("y")),
            Stage::RootCa => prompt_line("Root CA", None),
            Stage::Cert => prompt_line("Certificate", None),
            _ => prompt_line("Private key", None),
        }
    }

    /// Takes the line read in answer to the current question.
    pub fn advance(&mut self, line: &str) -> (r: Progress)
        requires
            old(self).stage != Stage::Finished,
        ensures
            (final(self)@, config_view(r.config)) == step(old(self)@, line@),
            r.note matches Some(m) ==> (given_path(old(self)@, line@) matches Some(p)
                && m@ == missing_path_note_text(p)),
    {
        let default = match self.stage {
            Stage::Url => Some("localhost:9080"),
            Stage::Secure => Some("y"),
            _ => None,
        };
        proof {
            reveal_strlit("localhost:9080");
            reveal_strlit("y");
            assert(opt_view(default) == default_of(self.stage));
        }
        let answer = read_answer(line, default);
        match answer {
            None => Progress { config: None, note: None },
            Some(v) => match self.stage {
                Stage::Url => {
                    self.url = v;
                    self.stage = Stage::Secure;
                    Progress { config: None, note: None }
                },
                Stage::Secure => {
                    if same_answer(&v, "y") {
                        self.stage = Stage::RootCa;
                        Progress { config: None, note: None }
                    } else {
                        self.stage = Stage::Finished;
                        let config = Config { url: self.url.clone(), tls: None };
                        Progress { config: Some(config), note: None }
                    }
                },
                Stage::RootCa => {
                    let note = check_path(v.as_str());
                    self.root_ca = v;
                    self.stage = Stage::Cert;
                    Progress { config: None, note }
                },
                Stage::Cert => {
                    let note = check_path(v.as_str());
                    self.cert = v;
                    self.stage = Stage::PrivateKey;
                    Progress { config: None, note }
                },
                _ => {
                    let note = check_path(v.as_str());
                    self.stage = Stage::Finished;
                    let paths = TlsPaths {
                        root_ca: self.root_ca.clone(),
                        cert: self.cert.clone(),
                        private_key: v,
                    };
                    let config = Config { url: self.url.clone(), tls: Some(paths) };
                    Progress { config: Some(config), note }
                },
            },
        }
    }
}

/// Whether an answer is exactly `expected`.
fn same_answer(answer: &String, expected: &str) -> (r: bool)
    ensures
        r == (answer@ == expected@),
{
    crate::text::same_text(answer.as_str(), expected)
}

/// A scaffold that is told the address and declines a secured connection
/// writes a file with the `url` key alone; one told the address, `y` and three
/// paths writes the four keys with those paths as given.
pub proof fn lemma_scaffold_round_trip(
    url_line: Seq<char>,
    plain_line: Seq<char>,
    yes_line: Seq<char>,
    root_ca_line: Seq<char>,
    cert_line: Seq<char>,
    key_line: Seq<char>,
    url: Seq<char>,
    root_ca: Seq<char>,
    cert: Seq<char>,
    private_key: Seq<char>,
)
    requires
        answer_of(url_line, Some(default_url())) == Some(url),
        answer_of(plain_line, Some("y"@)) matches Some(a) && a != "y"@,
        answer_of(yes_line, Some("y"@)) == Some("y"@),
        answer_of(root_ca_line, None) == Some(root_ca),
        answer_of(cert_line, None) == Some(cert),
        answer_of(key_line, None) == Some(private_key),
    ensures
        ({
            let s0 = (Stage::Url, Seq::<char>::empty(), Seq::<char>::empty(), Seq::<char>::empty());
            let s1 = step(s0, url_line).0;
            let plain = step(s1, plain_line);
            plain.1 == Some((url, None::<(Seq<char>, Seq<char>, Seq<char>)>)) && config_text(
                (url, None),
            ) == entry_text("url"@, url)
        }),
        ({
            let s0 = (Stage::Url, Seq::<char>::empty(), Seq::<char>::empty(), Seq::<char>::empty());
            let s1 = step(s0, url_line).0;
            let s2 = step(s1, yes_line).0;
            let s3 = step(s2, root_ca_line).0;
            let s4 = step(s3, cert_line).0;
            let done = step(s4, key_line);
            done.1 == Some((url, Some((root_ca, cert, private_key)))) && config_text(
                (url, Some((root_ca, cert, private_key))),
            ) == entry_text("url"@, url) + entry_text("root_ca_path"@, root_ca) + entry_text(
                "cert_path"@,
                cert,
            ) + entry_text("private_key_path"@, private_key)
        }),
{
    let s0 = (Stage::Url, Seq::<char>::empty(), Seq::<char>::empty(), Seq::<char>::empty());
    let s1 = step(s0, url_line).0;
    assert(s1 == (Stage::Secure, url, Seq::<char>::empty(), Seq::<char>::empty()));
    let s2 = step(s1, yes_line).0;
    assert(s2.0 == Stage::RootCa);
    let s3 = step(s2, root_ca_line).0;
    let s4 = step(s3, cert_line).0;
    assert(s4 == (Stage::PrivateKey, url, root_ca, cert));
    assert(config_text((url, None)) =~= entry_text("url"@, url));
}

} // verus!
