//! Where and how to reach the server: the TLS paths given on the command
//! line, the certificate bundle read from them, and the connection target.
use vstd::prelude::*;

verus! {

/// The raw certificate material of a secured connection.
pub struct Certificates {
    pub root_ca: Vec<u8>,
    pub cert: Vec<u8>,
    pub private_key: Vec<u8>,
}

/// Paths to the three files of a TLS bundle.
pub struct TlsPaths {
    pub root_ca: String,
    pub cert: String,
    pub private_key: String,
}

impl View for TlsPaths {
    type V = (Seq<char>, Seq<char>, Seq<char>);

    open spec fn view(&self) -> (Seq<char>, Seq<char>, Seq<char>) {
        (self.root_ca@, self.cert@, self.private_key@)
    }
}

/// The view of optional TLS paths.
pub open spec fn tls_view(t: Option<TlsPaths>) -> Option<(Seq<char>, Seq<char>, Seq<char>)> {
    match t {
        Some(p) => Some(p@),
        None => None,
    }
}

/// How many of three optional arguments are given.
pub open spec fn given_count(a: Option<String>, b: Option<String>, c: Option<String>) -> nat {
    (if a is Some { 1nat } else { 0nat }) + (if b is Some { 1nat } else { 0nat }) + (if c is Some {
        1nat
    } else {
        0nat
    })
}

/// A command line that gives some of the TLS paths but not all three.
#[derive(Clone, Copy, Debug, PartialEq, Eq, Structural)]
pub enum TlsArgError {
    Incomplete,
}

impl TlsArgError {
    /// The message shown for the error.
    pub fn message(&self) -> (r: String)
        ensures
            r@ == "--root_ca, --cert and --private_key must be given together."@,
    {
        String::from_str("--root_ca, --cert and --private_key must be given together.")
    }
}

/// Checks that the TLS paths come all together or not at all: none gives a
/// plaintext connection, all three a secured one, one or two an error.
pub fn tls_paths(root_ca: Option<String>, cert: Option<String>, private_key: Option<String>) -> (r:
    Result<Option<TlsPaths>, TlsArgError>)
    ensures
        given_count(root_ca, cert, private_key) == 0 <==> r == Ok::<Option<TlsPaths>, TlsArgError>(
            None,
        ),
        given_count(root_ca, cert, private_key) == 3 <==> r matches Ok(Some(_)),
        (1 <= given_count(root_ca, cert, private_key) <= 2) <==> r is Err,
        r matches Ok(Some(p)) ==> (root_ca matches Some(a) && cert matches Some(b)
            && private_key matches Some(c) && p@ == (a@, b@, c@)),
{
    match (root_ca, cert, private_key) {
        (None, None, None) => Ok(None),
        (Some(a), Some(b), Some(c)) => Ok(Some(TlsPaths { root_ca: a, cert: b, private_key: c })),
        _ => Err(TlsArgError::Incomplete),
    }
}

/// The server to reach, and whether the connection is secured.
pub enum ConnectionTarget {
    Plaintext { url: String },
    Secured { url: String, certs: Certificates },
}

impl ConnectionTarget {
    /// A secured target where a certificate bundle is given, else a plaintext one.
    pub fn new(url: String, certs: Option<Certificates>) -> (r: ConnectionTarget)
        ensures
            certs is None ==> (r matches ConnectionTarget::Plaintext { url: u } && u@ == url@),
            certs matches Some(c) ==> (r matches ConnectionTarget::Secured { url: u, certs: d }
                && u@ == url@ && d.root_ca@ == c.root_ca@ && d.cert@ == c.cert@
                && d.private_key@ == c.private_key@),
    {
        match certs {
            Some(c) => ConnectionTarget::Secured { url, certs: c },
            None => ConnectionTarget::Plaintext { url },
        }
    }

    /// The server's address.
    pub fn url(&self) -> (r: &str)
        ensures
            r@ == match self {
                ConnectionTarget::Plaintext { url } => url@,
                ConnectionTarget::Secured { url, .. } => url@,
            },
    {
        match self {
            ConnectionTarget::Plaintext { url } => url.as_str(),
            ConnectionTarget::Secured { url, .. } => url.as_str(),
        }
    }
}

} // verus!
