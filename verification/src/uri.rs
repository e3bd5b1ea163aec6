//! Peer URIs such as `tcp://<node id>@<host>:<port>`.
use vstd::prelude::*;

verus! {

/// The parts of a parsed URI that the peer logic reads.
#[derive(Debug, Clone)]
pub struct PeerUri {
    /// The whole URI in its normal form.
    pub serialization: String,
    pub scheme: String,
    pub username: String,
    pub host: Option<String>,
    pub port: Option<u16>,
}

/// The mathematical form of a [`PeerUri`].
pub struct PeerUriView {
    pub serialization: Seq<char>,
    pub scheme: Seq<char>,
    pub username: Seq<char>,
    pub host: Option<Seq<char>>,
    pub port: Option<u16>,
}

impl View for PeerUri {
    type V = PeerUriView;

    open spec fn view(&self) -> PeerUriView {
        PeerUriView {
            serialization: self.serialization@,
            scheme: self.scheme@,
            username: self.username@,
            host: match self.host {
                Some(h) => Some(h@),
                None => None,
            },
            port: self.port,
        }
    }
}

/// What `url::Url::parse` gives for `input`, in parts; `None` where it
/// fails.
pub uninterp spec fn spec_parse_url(input: Seq<char>) -> Option<PeerUriView>;

/// Parses `input` with `url::Url::parse` and keeps its normal form
/// (`as_str`), scheme, user name, host (`host_str`, with brackets for IPv6,
/// as the host's `Display` writes it) and explicit port; `None` where the
/// parse fails.
#[verifier::external_body]
pub(crate) fn parse_url(input: &str) -> (res: Option<PeerUri>)
    ensures
        match res {
            Some(u) => spec_parse_url(input@) == Some(u@),
            None => spec_parse_url(input@) is None,
        },
{
    match url::Url::parse(input) {
        Ok(u) => Some(PeerUri {
            serialization: u.as_str().to_string(),
            scheme: u.scheme().to_string(),
            username: u.username().to_string(),
            host: match u.host_str() {
                Some(h) => Some(h.to_string()),
                None => None,
            },
            port: u.port(),
        }),
        Err(_) => None,
    }
}

} // verus!
