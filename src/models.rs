//! Requests as the service receives them, and the checks made on them
//! before any work starts.
use vstd::prelude::*;
use vstd::string::StringExecFns;
use crate::files::FileSet;
use crate::naming::lower_char;
use crate::text::chars_of;

verus! {

/// A build or test request: a primary source, auxiliary files, or both.
pub struct CompileRequest {
    pub code: Option<String>,
    pub files: Option<FileSet>,
}

/// A request for the interface of a deployed contract.
pub struct InterfaceRequest {
    pub contract: String,
    pub network: String,
    pub code: Option<String>,
    pub files: Option<FileSet>,
}

/// A request to fund an account through a local faucet.
pub struct FriendbotQuery {
    pub addr: String,
    pub friendbot_url: Option<String>,
}

/// Why a request is refused before it is admitted.
#[derive(Clone, Copy, Debug, PartialEq, Eq, Structural)]
pub enum RequestError {
    /// Files were given without `lib.rs` and without code.
    NoLibFile,
    /// Neither code nor files were given.
    NoInput,
}

pub open spec fn request_error_message(e: RequestError) -> Seq<char> {
    match e {
        RequestError::NoLibFile => "No code provided and no lib.rs file found"@,
        RequestError::NoInput => "No code or files provided"@,
    }
}

impl RequestError {
    pub fn message(&self) -> (r: String)
        ensures
            r@ == request_error_message(*self),
    {
        match self {
            RequestError::NoLibFile => String::from_str("No code provided and no lib.rs file found"),
            RequestError::NoInput => String::from_str("No code or files provided"),
        }
    }
}

impl CompileRequest {
    pub open spec fn wf(&self) -> bool {
        self.files matches Some(f) ==> f.wf()
    }

    /// The primary source of the job: the code when given, else the
    /// `lib.rs` among the files.
    pub fn primary_source(&self) -> (r: Result<String, RequestError>)
        requires
            self.wf(),
        ensures
            self.code matches Some(c) ==> (r matches Ok(s) && s@ == c@),
            self.code is None ==> match self.files {
                Some(f) => if f@.contains_key("lib.rs"@) {
                    r matches Ok(s) && s@ == f@["lib.rs"@]
                } else {
                    r == Err::<String, RequestError>(RequestError::NoLibFile)
                },
                None => r == Err::<String, RequestError>(RequestError::NoInput),
            },
    {
        match &self.code {
            Some(c) => Ok(c.clone()),
            None => match &self.files {
                Some(f) => match f.get("lib.rs") {
                    Some(s) => Ok(s.clone()),
                    None => Err(RequestError::NoLibFile),
                },
                None => Err(RequestError::NoInput),
            },
        }
    }
}

/// What `str::trim` leaves of `s`.
pub uninterp spec fn trimmed(s: Seq<char>) -> Seq<char>;

/// Relies on `str::trim`: `s` without its leading and trailing Unicode
/// white space, which depends on `s` alone.
#[verifier::external_body]
fn trim(s: &str) -> (r: &str)
    ensures
        r@ == trimmed(s@),
{
    s.trim()
}

/// Where the faucet is reached when the query names no address of its own.
pub open spec fn default_friendbot_url() -> Seq<char> {
    "http://localhost:8000/friendbot"@
}

pub open spec fn friendbot_url_of(given: Option<Seq<char>>) -> Seq<char> {
    match given {
        Some(u) => if trimmed(u).len() > 0 {
            trimmed(u)
        } else {
            default_friendbot_url()
        },
        None => default_friendbot_url(),
    }
}

/// The account address of a faucet query, if it names one.
pub open spec fn addr_of(q: Seq<char>) -> Option<Seq<char>> {
    if trimmed(q).len() > 0 {
        Some(trimmed(q))
    } else {
        None
    }
}

impl FriendbotQuery {
    /// The faucet address to parse: the given one without surrounding white
    /// space, or the local default when none (or only white space) is given.
    pub fn url_text(&self) -> (r: String)
        ensures
            r@ == friendbot_url_of(match self.friendbot_url {
                Some(u) => Some(u@),
                None => None,
            }),
    {
        match &self.friendbot_url {
            Some(u) => {
                let t = trim(u.as_str());
                if t.unicode_len() > 0 {
                    String::from_str(t)
                } else {
                    String::from_str("http://localhost:8000/friendbot")
                }
            },
            None => String::from_str("http://localhost:8000/friendbot"),
        }
    }

    /// The account to fund, without surrounding white space; `None` when
    /// the query names none.
    pub fn account(&self) -> (r: Option<String>)
        ensures
            match addr_of(self.addr@) {
                Some(a) => r matches Some(s) && s@ == a,
                None => r is None,
            },
    {
        let t = trim(self.addr.as_str());
        if t.unicode_len() > 0 {
            Some(String::from_str(t))
        } else {
            None
        }
    }
}

/// Why a faucet address is refused.
pub enum FriendbotError {
    /// It does not parse as a URL; the parser's message.
    InvalidUrl(String),
    /// Its scheme is neither `http` nor `https`.
    UnsupportedScheme(String),
    /// It names no host.
    MissingHost,
    /// Its host is not the local machine.
    HostNotAllowed,
}

pub open spec fn lowercase_ascii(s: Seq<char>) -> Seq<char> {
    Seq::new(s.len(), |i: int| lower_char(s[i]))
}

/// A host that is the local machine. The IPv6 loopback is accepted both
/// bare and in the bracketed form in which URL parsers report it.
pub open spec fn local_host(h: Seq<char>) -> bool {
    lowercase_ascii(h) == "localhost"@ || lowercase_ascii(h) == "127.0.0.1"@ || lowercase_ascii(h) == "::1"@
        || lowercase_ascii(h) == "[::1]"@
}

pub open spec fn web_scheme(scheme: Seq<char>) -> bool {
    scheme == "http"@ || scheme == "https"@
}

fn lowercase_ascii_exec(s: &str) -> (r: String)
    ensures
        r@ == lowercase_ascii(s@),
{
    let cs = chars_of(s);
    let mut r = String::new();
    let mut i: usize = 0;
    while i < cs.len()
        invariant
            cs@ == s@,
            i <= cs@.len(),
            r@ == lowercase_ascii(cs@.take(i as int)),
        decreases cs.len() - i,
    {
        let c = cs[i];
        let l = if 'A' <= c && c <= 'Z' { ((c as u8) + 32) as char } else { c };
        r.push(l);
        i = i + 1;
        assert(r@ =~= lowercase_ascii(cs@.take(i as int)));
    }
    assert(cs@.take(i as int) =~= cs@);
    r
}

/// Checks a parsed faucet address (its scheme, host and path): the scheme
/// must be `http` or `https`, the host the local machine (ignoring ASCII
/// case). On success, tells whether the path is the bare root, which is
/// then replaced by `/friendbot`.
pub fn friendbot_target(scheme: &str, host: Option<&str>, path: &str) -> (r: Result<bool, FriendbotError>)
    ensures
        match r {
            Err(FriendbotError::UnsupportedScheme(s)) => !web_scheme(scheme@) && s@ == scheme@,
            Err(FriendbotError::MissingHost) => web_scheme(scheme@) && host is None,
            Err(FriendbotError::HostNotAllowed) => web_scheme(scheme@) && (host matches Some(h)
                && !local_host(h@)),
            Err(FriendbotError::InvalidUrl(_)) => false,
            Ok(root) => web_scheme(scheme@) && (host matches Some(h) && local_host(h@)) && root == (
            path@ == "/"@),
        },
{
    let http = String::from_str("http");
    let https = String::from_str("https");
    let sch = String::from_str(scheme);
    if !(sch == http) && !(sch == https) {
        return Err(FriendbotError::UnsupportedScheme(sch));
    }
    let h = match host {
        Some(h) => h,
        None => {
            return Err(FriendbotError::MissingHost);
        },
    };
    let lh = lowercase_ascii_exec(h);
    let is_local = lh == String::from_str("localhost") || lh == String::from_str("127.0.0.1") || lh
        == String::from_str("::1") || lh == String::from_str("[::1]");
    if !is_local {
        return Err(FriendbotError::HostNotAllowed);
    }
    let p = String::from_str(path);
    Ok(p == String::from_str("/"))
}

impl FriendbotError {
    pub fn message(&self) -> (r: String)
        ensures
            match self {
                FriendbotError::InvalidUrl(m) => r@ == "Invalid friendbot URL: "@ + m@,
                FriendbotError::UnsupportedScheme(s) => r@ == "Unsupported friendbot URL scheme: "@ + s@,
                FriendbotError::MissingHost => r@ == "Friendbot URL host is missing"@,
                FriendbotError::HostNotAllowed => r@ == "Friendbot URL host must be localhost, 127.0.0.1, or ::1"@,
            },
    {
        match self {
            FriendbotError::InvalidUrl(m) => {
                let mut r = String::from_str("Invalid friendbot URL: ");
                r.append(m.as_str());
                r
            },
            FriendbotError::UnsupportedScheme(s) => {
                let mut r = String::from_str("Unsupported friendbot URL scheme: ");
                r.append(s.as_str());
                r
            },
            FriendbotError::MissingHost => String::from_str("Friendbot URL host is missing"),
            FriendbotError::HostNotAllowed => String::from_str(
                "Friendbot URL host must be localhost, 127.0.0.1, or ::1",
            ),
        }
    }
}

} // verus!
