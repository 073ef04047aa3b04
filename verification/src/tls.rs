//! What a configured certificate authority asks of a remote server.
use reqwest::{Certificate, Url};
use vstd::prelude::*;

use crate::failure::McpFailure;
use crate::text::same;
use crate::url::{parse_url, scheme, url_parse, url_scheme};

verus! {

/// `reqwest::Certificate`, an opaque certificate.
#[verifier::external_type_specification]
#[verifier::external_body]
pub struct ExCertificate(Certificate);

/// The certificates that `Certificate::from_pem_bundle` reads from a file's bytes, or nothing where
/// the bytes hold something that is no certificate.
pub uninterp spec fn pem_certificates(pem: Seq<u8>) -> Option<Seq<Certificate>>;

/// Reads PEM certificates with `reqwest::Certificate::from_pem_bundle`. The outcome depends on the
/// bytes alone.
#[verifier::external_body]
pub(crate) fn read_certificates(pem: &Vec<u8>) -> (certificates: Option<Vec<Certificate>>)
    ensures
        match certificates {
            Some(list) => pem_certificates(pem@) == Some(list@),
            None => pem_certificates(pem@) is None,
        },
{
    Certificate::from_pem_bundle(pem).ok()
}

/// Whether a path holds a separator of some system: without one it is absolute on none.
pub open spec fn has_separator(path: Seq<char>) -> bool {
    path.contains('/') || path.contains('\\')
}

/// Asks `std::path::Path::is_absolute` of a path. What makes a path absolute differs from one
/// system to another; on each of them it has a root, which is written with a separator.
#[verifier::external_body]
pub(crate) fn is_absolute_path(path: &str) -> (absolute: bool)
    ensures
        absolute ==> has_separator(path@),
{
    std::path::Path::new(path).is_absolute()
}

/// Whether a text is a URL with the scheme `https`.
pub open spec fn is_https(text: Seq<char>) -> bool {
    url_parse(text) is Some && url_scheme(url_parse(text)->0) == "https"@
}

/// The failure, if any, that a URL gives where HTTPS is required.
pub open spec fn https_failure(
    failure: Option<McpFailure>,
    server_name: Seq<char>,
    url: Seq<char>,
    target: Seq<char>,
) -> bool {
    match failure {
        None => is_https(url),
        Some(McpFailure::InvalidUrl { server, target: t }) => url_parse(url) is None && server@
            == server_name && t@ == target,
        Some(McpFailure::PlaintextRefused { server, target: t }) => url_parse(url) is Some
            && url_scheme(url_parse(url)->0) != "https"@ && server@ == server_name && t@ == target,
        Some(_) => false,
    }
}

/// Accepts a URL only if it uses HTTPS. `target` says in the failure what the URL is for.
pub fn require_https_url(server_name: &str, url: &str, target: &str) -> (outcome: Result<
    (),
    McpFailure,
>)
    ensures
        https_failure(outcome.err(), server_name@, url@, target@),
{
    match parse_url(url) {
        None => Err(
            McpFailure::InvalidUrl { server: server_name.to_string(), target: target.to_string() },
        ),
        Some(parsed) => {
            if !same(scheme(&parsed), "https") {
                Err(
                    McpFailure::PlaintextRefused {
                        server: server_name.to_string(),
                        target: target.to_string(),
                    },
                )
            } else {
                Ok(())
            }
        },
    }
}

/// The number of redirects that are followed at most.
pub const MAX_REDIRECTS: usize = 10;

/// What to do about a redirect.
#[derive(Debug, Clone)]
pub enum RedirectDecision {
    /// Go where it leads.
    Follow,
    /// Give up, for the reason given.
    Stop { message: String },
}

/// The words with which a redirect is refused, if it is.
pub open spec fn redirect_refusal(server_name: Seq<char>, previous: nat, url: Url) -> Option<
    Seq<char>,
> {
    if previous >= MAX_REDIRECTS {
        Some("MCP server `"@ + server_name + "`: too many redirects"@)
    } else if url_scheme(url) == "https"@ {
        None
    } else {
        Some(
            "MCP server `"@ + server_name
                + "`: tls_ca_cert_path forbids redirecting to plaintext"@,
        )
    }
}

/// Decides about a redirect to `url` after `previous` others, where a certificate authority is
/// configured: it is followed only to HTTPS, and only up to a number of redirects.
pub fn decide_redirect(server_name: &str, previous: usize, url: &Url) -> (decision:
    RedirectDecision)
    ensures
        match decision {
            RedirectDecision::Follow => redirect_refusal(server_name@, previous as nat, *url)
                is None,
            RedirectDecision::Stop { message } => redirect_refusal(
                server_name@,
                previous as nat,
                *url,
            ) == Some(message@),
        },
{
    if previous >= MAX_REDIRECTS {
        RedirectDecision::Stop {
            message: "MCP server `".to_string().concat(server_name).concat(
                "`: too many redirects",
            ),
        }
    } else if same(scheme(url), "https") {
        RedirectDecision::Follow
    } else {
        RedirectDecision::Stop {
            message: "MCP server `".to_string().concat(server_name).concat(
                "`: tls_ca_cert_path forbids redirecting to plaintext",
            ),
        }
    }
}

/// Whether a list of certificates, or a failure, is what a certificate file gives: `pem` holds its
/// bytes, if it could be read.
pub open spec fn is_ca_outcome(
    outcome: Result<Seq<Certificate>, McpFailure>,
    server_name: Seq<char>,
    path: Seq<char>,
    pem: Option<Seq<u8>>,
) -> bool {
    match pem {
        None => outcome matches Err(McpFailure::CaUnreadable { server, path: p }) && server@
            == server_name && p@ == path,
        Some(bytes) => match pem_certificates(bytes) {
            None => outcome matches Err(McpFailure::CaInvalid { server, path: p }) && server@
                == server_name && p@ == path,
            Some(list) => if list.len() == 0 {
                outcome matches Err(McpFailure::CaEmpty { server, path: p }) && server@
                    == server_name && p@ == path
            } else {
                outcome == Ok::<Seq<Certificate>, McpFailure>(list)
            },
        },
    }
}

/// The result with a list in place of a vector.
pub open spec fn certificates_of(outcome: Result<Vec<Certificate>, McpFailure>) -> Result<
    Seq<Certificate>,
    McpFailure,
> {
    match outcome {
        Ok(list) => Ok(list@),
        Err(failure) => Err(failure),
    }
}

/// The certificates of a configured authority, from the bytes of its file; `pem` is `None` where
/// the file could not be read. A file without any certificate is refused.
pub fn ca_certificates(server_name: &str, path: &str, pem: Option<Vec<u8>>) -> (outcome: Result<
    Vec<Certificate>,
    McpFailure,
>)
    ensures
        is_ca_outcome(
            certificates_of(outcome),
            server_name@,
            path@,
            match pem {
                Some(bytes) => Some(bytes@),
                None => None,
            },
        ),
{
    match pem {
        None => Err(
            McpFailure::CaUnreadable { server: server_name.to_string(), path: path.to_string() },
        ),
        Some(bytes) => match read_certificates(&bytes) {
            None => Err(
                McpFailure::CaInvalid { server: server_name.to_string(), path: path.to_string() },
            ),
            Some(list) => {
                if list.len() == 0 {
                    Err(
                        McpFailure::CaEmpty {
                            server: server_name.to_string(),
                            path: path.to_string(),
                        },
                    )
                } else {
                    Ok(list)
                }
            },
        },
    }
}

/// A redirect is followed only to HTTPS and only while fewer than the limit were followed.
pub proof fn law_redirects_stay_on_https(server_name: Seq<char>, previous: nat, url: Url)
    ensures
        redirect_refusal(server_name, previous, url) is None <==> previous < MAX_REDIRECTS
            && url_scheme(url) == "https"@,
{
}

/// A URL passes where HTTPS is required exactly if it is one with the scheme `https`. A text that is no
/// URL, and a URL of another scheme, fail each in its own way, with the server and the purpose in the
/// failure.
pub proof fn law_https_or_failure(
    failure: Option<McpFailure>,
    server_name: Seq<char>,
    url: Seq<char>,
    target: Seq<char>,
)
    requires
        https_failure(failure, server_name, url, target),
    ensures
        failure is None <==> (url_parse(url) matches Some(u) && url_scheme(u) == "https"@),
        url_parse(url) is None <==> failure matches Some(McpFailure::InvalidUrl { .. }),
        failure matches Some(McpFailure::InvalidUrl { server, target: t }) ==> server@ == server_name
            && t@ == target,
        (url_parse(url) matches Some(u) && url_scheme(u) != "https"@) <==> failure matches Some(
            McpFailure::PlaintextRefused { .. },
        ),
        failure matches Some(McpFailure::PlaintextRefused { server, target: t }) ==> server@
            == server_name && t@ == target,
{
}

/// The words with which a redirect is refused name the server and the reason.
pub proof fn law_redirects_are_refused_in_words(server_name: Seq<char>, previous: nat, url: Url)
    ensures
        previous >= 10 ==> redirect_refusal(server_name, previous, url) == Some(
            "MCP server `"@ + server_name + "`: too many redirects"@,
        ),
        previous < 10 && url_scheme(url) != "https"@ ==> redirect_refusal(
            server_name,
            previous,
            url,
        ) == Some(
            "MCP server `"@ + server_name
                + "`: tls_ca_cert_path forbids redirecting to plaintext"@,
        ),
        previous < 10 && url_scheme(url) == "https"@ ==> redirect_refusal(
            server_name,
            previous,
            url,
        ) is None,
{
}

/// A certificate file gives all of its certificates, if there is one at least; a file that cannot be
/// read, one with something else in it, and one without any fail each in its own way, with the server
/// and the path in the failure.
pub proof fn law_certificate_files(
    outcome: Result<Seq<Certificate>, McpFailure>,
    server_name: Seq<char>,
    path: Seq<char>,
    pem: Option<Seq<u8>>,
)
    requires
        is_ca_outcome(outcome, server_name, path, pem),
    ensures
        outcome is Ok <==> (pem matches Some(bytes) && pem_certificates(bytes) matches Some(list)
            && list.len() > 0),
        outcome matches Ok(list) ==> pem_certificates(pem->0) == Some(list),
        pem is None <==> outcome matches Err(McpFailure::CaUnreadable { .. }),
        (pem matches Some(bytes) && pem_certificates(bytes) is None) <==> outcome matches Err(
            McpFailure::CaInvalid { .. },
        ),
        (pem matches Some(bytes) && pem_certificates(bytes) matches Some(list) && list.len() == 0)
            <==> outcome matches Err(McpFailure::CaEmpty { .. }),
        outcome matches Err(McpFailure::CaUnreadable { server, path: p }) ==> server@ == server_name
            && p@ == path,
        outcome matches Err(McpFailure::CaInvalid { server, path: p }) ==> server@ == server_name
            && p@ == path,
        outcome matches Err(McpFailure::CaEmpty { server, path: p }) ==> server@ == server_name && p@
            == path,
{
}

/// A path is taken for one of no system exactly where it holds neither a slash nor a backslash.
pub proof fn law_separators(path: Seq<char>)
    ensures
        has_separator(path) <==> exists|i: int|
            0 <= i < path.len() && (#[trigger] path[i] == '/' || path[i] == '\\'),
{
    if path.contains('/') {
        let i = path.index_of('/');
        assert(path[i] == '/');
    }
    if path.contains('\\') {
        let i = path.index_of('\\');
        assert(path[i] == '\\');
    }
}

/// A redirect is followed exactly where fewer than ten came before it and it leads to HTTPS.
pub proof fn law_which_redirects_are_followed(
    server_name: &str,
    previous: usize,
    url: &Url,
    decision: RedirectDecision,
)
    requires
        call_ensures(decide_redirect, (server_name, previous, url), decision),
    ensures
        decision is Follow <==> previous < 10 && url_scheme(*url) == "https"@,
{
}

/// A URL is accepted where HTTPS is required exactly if it is one with the scheme `https`.
pub proof fn law_which_urls_are_accepted(
    server_name: &str,
    url: &str,
    target: &str,
    outcome: Result<(), McpFailure>,
)
    requires
        call_ensures(require_https_url, (server_name, url, target), outcome),
    ensures
        outcome is Ok <==> (url_parse(url@) matches Some(u) && url_scheme(u) == "https"@),
{
}

} // verus!
