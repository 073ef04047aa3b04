//! What the transports have in common.
use reqwest::Certificate;
use vstd::prelude::*;

use crate::config::{McpServerConfig, McpTransport};
use crate::failure::McpFailure;
use crate::http::header_texts;
use crate::http_transport::HttpTransport;
use crate::sse_stream::text_of;
use crate::sse_transport::SseTransport;
use crate::stdio_transport::StdioTransport;
use crate::text::texts;
use crate::tls::{
    ca_certificates, has_separator, https_failure, is_absolute_path, is_ca_outcome, is_https,
    law_separators, pem_certificates, require_https_url,
};
use crate::url::{url_parse, url_scheme};

verus! {

/// What is known of the process behind a transport.
#[derive(Debug, Clone, Copy, PartialEq, Eq, Structural)]
pub enum ChildState {
    /// It has not exited.
    Running,
    /// It has exited.
    Exited,
    /// There is no process, or its state cannot be told.
    Unknown,
}

/// A connection to an MCP server.
pub trait McpTransportConn {
    /// Whether the connection holds anything that belongs to a session with the server.
    spec fn holds_session(&self) -> bool;

    /// Whether the connection counts as alive, as far as the process behind it tells.
    spec fn is_alive(&self, child: ChildState) -> bool;

    /// Gives up the session, so that the next operation sets up a new one.
    fn reset(&mut self)
        ensures
            !final(self).holds_session(),
    ;

    /// Checks, without sending a request, whether the connection is alive. Only a transport with a
    /// process behind it can be found dead; that of a remote one shows when a request fails.
    fn health_check(&self, child: ChildState) -> (alive: bool)
        ensures
            alive == self.is_alive(child),
    ;
}

/// What the URL of a remote server is called in a failure.
pub const CONFIGURED_URL: &'static str = "configured remote URL";

/// Whether `outcome` is the URL of a remote server, or the failure of its configuration. A URL must
/// be there; and where a certificate file is configured, the URL must use HTTPS and the path of the
/// file must be absolute.
pub open spec fn is_remote_setup(
    outcome: Result<Seq<char>, McpFailure>,
    config: McpServerConfig,
    transport: McpTransport,
    ca_path_is_absolute: bool,
) -> bool {
    match config.url {
        None => outcome matches Err(McpFailure::UrlRequired { transport: t }) && t == transport,
        Some(url) => match config.tls_ca_cert_path {
            None => outcome == Ok::<Seq<char>, McpFailure>(url@),
            Some(path) => if !is_https(url@) {
                outcome matches Err(failure) && https_failure(
                    Some(failure),
                    config.name@,
                    url@,
                    CONFIGURED_URL@,
                )
            } else if !ca_path_is_absolute {
                outcome matches Err(McpFailure::CaPathNotAbsolute { server, path: p }) && server@
                    == config.name@ && p@ == path@
            } else {
                outcome == Ok::<Seq<char>, McpFailure>(url@)
            },
        },
    }
}

/// The result with a text in place of a string.
pub open spec fn url_outcome(outcome: Result<String, McpFailure>) -> Result<Seq<char>, McpFailure> {
    match outcome {
        Ok(url) => Ok(url@),
        Err(failure) => Err(failure),
    }
}

/// The URL of a remote server, once its configuration is found to be in order.
pub fn remote_url(
    config: &McpServerConfig,
    transport: McpTransport,
    ca_path_is_absolute: bool,
) -> (outcome: Result<String, McpFailure>)
    ensures
        is_remote_setup(url_outcome(outcome), *config, transport, ca_path_is_absolute),
{
    let url: String = match &config.url {
        Some(url) => url.clone(),
        None => {
            return Err(McpFailure::UrlRequired { transport });
        },
    };
    if let Some(path) = &config.tls_ca_cert_path {
        match require_https_url(config.name.as_str(), url.as_str(), CONFIGURED_URL) {
            Ok(_) => {},
            Err(failure) => {
                return Err(failure);
            },
        }
        if !ca_path_is_absolute {
            return Err(
                McpFailure::CaPathNotAbsolute { server: config.name.clone(), path: path.clone() },
            );
        }
    }
    Ok(url)
}

/// Whether a certificate file is configured whose path is absolute on some system.
pub open spec fn may_have_absolute_ca_path(config: McpServerConfig) -> bool {
    config.tls_ca_cert_path matches Some(path) && has_separator(path@)
}

/// Whether `absolute` is an answer to the question whether the path of the configured certificate file
/// is absolute: one that asking the system of that very path gives, and `false` where there is none.
pub closed spec fn is_answer_on_ca_path(absolute: bool, config: McpServerConfig) -> bool {
    match config.tls_ca_cert_path {
        Some(path) => exists|text: &str|
            text@ == path@ && #[trigger] call_ensures(is_absolute_path, (text,), absolute),
        None => !absolute,
    }
}

/// Asks whether the path of the configured certificate file is absolute; `false` if there is none.
pub fn ca_path_is_absolute(config: &McpServerConfig) -> (absolute: bool)
    ensures
        is_answer_on_ca_path(absolute, *config),
        absolute ==> may_have_absolute_ca_path(*config),
{
    match &config.tls_ca_cert_path {
        Some(path) => is_absolute_path(path.as_str()),
        None => false,
    }
}

/// Which certificate file to read, if any, before a remote transport can be made.
pub open spec fn is_ca_file(
    outcome: Result<Option<String>, McpFailure>,
    config: McpServerConfig,
    transport: McpTransport,
    ca_path_is_absolute: bool,
) -> bool {
    match outcome {
        Ok(path) => {
            &&& config.url is Some
            &&& is_remote_setup(Ok(config.url->0@), config, transport, ca_path_is_absolute)
            &&& text_of(path) == text_of(config.tls_ca_cert_path)
        },
        Err(failure) => is_remote_setup(Err(failure), config, transport, ca_path_is_absolute),
    }
}

/// The certificate file to read, if any, before a remote transport can be made; the failure of the
/// configuration, where it is not in order.
pub fn ca_file(config: &McpServerConfig, transport: McpTransport) -> (outcome: Result<
    Option<String>,
    McpFailure,
>)
    ensures
        exists|absolute: bool| #[trigger]
            is_ca_file(outcome, *config, transport, absolute)
                && is_answer_on_ca_path(absolute, *config) && (absolute
                ==> may_have_absolute_ca_path(*config)),
{
    let absolute = ca_path_is_absolute(config);
    let outcome = match remote_url(config, transport, absolute) {
        Ok(_) => Ok(config.tls_ca_cert_path.clone()),
        Err(failure) => Err(failure),
    };
    assert(is_ca_file(outcome, *config, transport, absolute));
    outcome
}

/// The bytes of a file, if it could be read.
pub open spec fn bytes_of(pem: Option<Vec<u8>>) -> Option<Seq<u8>> {
    match pem {
        Some(bytes) => Some(bytes@),
        None => None,
    }
}

/// Whether `outcome` is the URL of a remote server and the certificates to trust besides the
/// system's, or the failure of its configuration or of its certificate file. Where no file is
/// configured there are no such certificates; where one is, `ca_pem` holds its bytes, if it could be
/// read.
pub open spec fn is_remote_opening(
    outcome: Result<(Seq<char>, Seq<Certificate>), McpFailure>,
    config: McpServerConfig,
    transport: McpTransport,
    ca_path_is_absolute: bool,
    ca_pem: Option<Seq<u8>>,
) -> bool {
    match outcome {
        Ok((url, certificates)) => {
            &&& is_remote_setup(Ok(url), config, transport, ca_path_is_absolute)
            &&& match config.tls_ca_cert_path {
                None => certificates.len() == 0,
                Some(path) => is_ca_outcome(Ok(certificates), config.name@, path@, ca_pem),
            }
        },
        Err(failure) => {
            ||| is_remote_setup(Err(failure), config, transport, ca_path_is_absolute)
            ||| {
                &&& config.url is Some
                &&& is_remote_setup(Ok(config.url->0@), config, transport, ca_path_is_absolute)
                &&& config.tls_ca_cert_path is Some
                &&& is_ca_outcome(
                    Err(failure),
                    config.name@,
                    config.tls_ca_cert_path->0@,
                    ca_pem,
                )
            }
        },
    }
}

/// The result with texts in place of a string and a vector.
pub open spec fn opening_of(outcome: Result<(String, Vec<Certificate>), McpFailure>) -> Result<
    (Seq<char>, Seq<Certificate>),
    McpFailure,
> {
    match outcome {
        Ok((url, certificates)) => Ok((url@, certificates@)),
        Err(failure) => Err(failure),
    }
}

/// The URL of a remote server and the certificates to trust besides the system's, once its
/// configuration and its certificate file are found to be in order.
pub fn open_remote(
    config: &McpServerConfig,
    transport: McpTransport,
    ca_path_is_absolute: bool,
    ca_pem: Option<Vec<u8>>,
) -> (outcome: Result<(String, Vec<Certificate>), McpFailure>)
    ensures
        is_remote_opening(
            opening_of(outcome),
            *config,
            transport,
            ca_path_is_absolute,
            bytes_of(ca_pem),
        ),
{
    let url = match remote_url(config, transport, ca_path_is_absolute) {
        Ok(url) => url,
        Err(failure) => {
            return Err(failure);
        },
    };
    match &config.tls_ca_cert_path {
        None => Ok((url, Vec::new())),
        Some(path) => match ca_certificates(config.name.as_str(), path.as_str(), ca_pem) {
            Ok(certificates) => Ok((url, certificates)),
            Err(failure) => Err(failure),
        },
    }
}

/// A transport of one of the kinds that a configuration can ask for.
pub enum Transport {
    /// A local process.
    Stdio { transport: StdioTransport },
    /// HTTP POST requests.
    Http { transport: HttpTransport },
    /// HTTP POST requests, with responses in an event stream.
    Sse { transport: SseTransport },
}

/// Whether `outcome` is the transport that a configuration asks for, or the failure of its
/// configuration.
pub open spec fn is_created(
    outcome: Result<Transport, McpFailure>,
    config: McpServerConfig,
    ca_path_is_absolute: bool,
    ca_pem: Option<Seq<u8>>,
) -> bool {
    match config.transport {
        McpTransport::Stdio => outcome matches Ok(Transport::Stdio { transport })
            && transport.is_made_from(config),
        McpTransport::Http => match outcome {
            Ok(Transport::Http { transport }) => HttpTransport::is_setup(
                Ok(transport),
                config,
                ca_path_is_absolute,
                ca_pem,
            ),
            Ok(_) => false,
            Err(failure) => HttpTransport::is_setup(
                Err(failure),
                config,
                ca_path_is_absolute,
                ca_pem,
            ),
        },
        McpTransport::Sse => match outcome {
            Ok(Transport::Sse { transport }) => SseTransport::is_setup(
                Ok(transport),
                config,
                ca_path_is_absolute,
                ca_pem,
            ),
            Ok(_) => false,
            Err(failure) => SseTransport::is_setup(
                Err(failure),
                config,
                ca_path_is_absolute,
                ca_pem,
            ),
        },
    }
}

/// Creates the transport that a configuration asks for, given whether the path of its certificate
/// file is absolute, and the bytes of that file.
pub fn create_transport_with(
    config: &McpServerConfig,
    ca_path_is_absolute: bool,
    ca_pem: Option<Vec<u8>>,
) -> (outcome: Result<Transport, McpFailure>)
    ensures
        is_created(outcome, *config, ca_path_is_absolute, bytes_of(ca_pem)),
{
    match config.transport {
        McpTransport::Stdio => Ok(Transport::Stdio { transport: StdioTransport::new(config) }),
        McpTransport::Http => match HttpTransport::prepare(config, ca_path_is_absolute, ca_pem) {
            Ok(transport) => Ok(Transport::Http { transport }),
            Err(failure) => Err(failure),
        },
        McpTransport::Sse => match SseTransport::prepare(config, ca_path_is_absolute, ca_pem) {
            Ok(transport) => Ok(Transport::Sse { transport }),
            Err(failure) => Err(failure),
        },
    }
}

/// Creates the transport that a configuration asks for. `ca_pem` holds the bytes of the configured
/// certificate file; `None` means that it could not be read, or that there is none. Nothing is
/// started yet: the process of a local server comes when the transport is opened.
pub fn create_transport(config: &McpServerConfig, ca_pem: Option<Vec<u8>>) -> (outcome: Result<
    Transport,
    McpFailure,
>)
    ensures
        exists|absolute: bool| #[trigger]
            is_created(outcome, *config, absolute, bytes_of(ca_pem))
                && is_answer_on_ca_path(absolute, *config) && (absolute
                ==> may_have_absolute_ca_path(*config)),
{
    let absolute = ca_path_is_absolute(config);
    let ghost bytes = bytes_of(ca_pem);
    let outcome = create_transport_with(config, absolute, ca_pem);
    assert(is_created(outcome, *config, absolute, bytes));
    outcome
}

/// With a certificate file configured, a remote transport is made only for an HTTPS URL, only for an
/// absolute path of the file, and only with the certificates of that file, of which there is one at
/// least: a file that is missing, or holds none, leaves no transport.
pub proof fn law_custom_ca_fails_closed(
    outcome: Result<(Seq<char>, Seq<Certificate>), McpFailure>,
    config: McpServerConfig,
    transport: McpTransport,
    ca_path_is_absolute: bool,
    ca_pem: Option<Seq<u8>>,
)
    requires
        is_remote_opening(outcome, config, transport, ca_path_is_absolute, ca_pem),
        config.tls_ca_cert_path is Some,
        outcome is Ok,
    ensures
        is_https(outcome->Ok_0.0),
        ca_path_is_absolute,
        ca_pem is Some,
        pem_certificates(ca_pem->0) == Some(outcome->Ok_0.1),
        outcome->Ok_0.1.len() > 0,
{
}

/// Without a certificate file every URL is taken as it is, HTTPS or not, and nothing is trusted
/// besides the system's certificates.
pub proof fn law_without_custom_ca_any_url_is_taken(
    outcome: Result<(Seq<char>, Seq<Certificate>), McpFailure>,
    config: McpServerConfig,
    transport: McpTransport,
    ca_path_is_absolute: bool,
    ca_pem: Option<Seq<u8>>,
)
    requires
        is_remote_opening(outcome, config, transport, ca_path_is_absolute, ca_pem),
        config.tls_ca_cert_path is None,
        config.url is Some,
    ensures
        outcome == Ok::<(Seq<char>, Seq<Certificate>), McpFailure>(
            (config.url->0@, Seq::empty()),
        ),
{
    assert(outcome->Ok_0.1 =~= Seq::empty());
}

/// A remote server must have a URL, whatever else is configured; and where a certificate file is
/// configured, the URL must use HTTPS, and then the path of the file must be absolute. Nothing else
/// about a configuration makes it fail, and the URL is taken as it is.
pub proof fn law_what_a_remote_configuration_needs(
    outcome: Result<Seq<char>, McpFailure>,
    config: McpServerConfig,
    transport: McpTransport,
    ca_path_is_absolute: bool,
)
    requires
        is_remote_setup(outcome, config, transport, ca_path_is_absolute),
    ensures
        config.url is None <==> outcome matches Err(McpFailure::UrlRequired { .. }),
        outcome matches Err(McpFailure::UrlRequired { transport: t }) ==> t == transport,
        outcome is Ok <==> (config.url matches Some(url) && (config.tls_ca_cert_path is Some ==> (
        url_parse(url@) matches Some(u) && url_scheme(u) == "https"@) && ca_path_is_absolute)),
        outcome matches Ok(text) ==> text == config.url->0@,
        config.url matches Some(url) && config.tls_ca_cert_path is Some && url_parse(url@) is None
            ==> (outcome matches Err(McpFailure::InvalidUrl { server, target }) && server@
            == config.name@ && target@ == "configured remote URL"@),
        config.url matches Some(url) && config.tls_ca_cert_path is Some && (url_parse(
            url@,
        ) matches Some(u) && url_scheme(u) != "https"@) ==> (outcome matches Err(
            McpFailure::PlaintextRefused { server, target },
        ) && server@ == config.name@ && target@ == "configured remote URL"@),
        config.url matches Some(url) && config.tls_ca_cert_path is Some && (url_parse(
            url@,
        ) matches Some(u) && url_scheme(u) == "https"@) && !ca_path_is_absolute
            ==> (outcome matches Err(McpFailure::CaPathNotAbsolute { server, path }) && server@
            == config.name@ && path@ == config.tls_ca_cert_path->0@),
{
}

/// A remote transport is opened with the URL of its configuration and the certificates of its file,
/// all of them, and none where no file is configured; what fails is what its configuration or its
/// file fails by.
pub proof fn law_what_opens_a_remote_transport(
    outcome: Result<(Seq<char>, Seq<Certificate>), McpFailure>,
    config: McpServerConfig,
    transport: McpTransport,
    ca_path_is_absolute: bool,
    ca_pem: Option<Seq<u8>>,
    url: Seq<char>,
    list: Seq<Certificate>,
)
    requires
        is_remote_opening(outcome, config, transport, ca_path_is_absolute, ca_pem),
        config.url matches Some(u) && u@ == url,
    ensures
        config.tls_ca_cert_path is None ==> outcome == Ok::<
            (Seq<char>, Seq<Certificate>),
            McpFailure,
        >((url, Seq::empty())),
        config.tls_ca_cert_path is Some && is_https(url) && ca_path_is_absolute && ca_pem is Some
            && pem_certificates(ca_pem->0) == Some(list) && list.len() > 0 ==> outcome == Ok::<
            (Seq<char>, Seq<Certificate>),
            McpFailure,
        >((url, list)),
        config.tls_ca_cert_path is Some && is_https(url) && ca_path_is_absolute && ca_pem is None
            ==> outcome matches Err(McpFailure::CaUnreadable { .. }),
        config.tls_ca_cert_path is Some && !is_https(url) ==> outcome is Err,
{
    if let Ok((u, certificates)) = outcome {
        if config.tls_ca_cert_path is None {
            assert(certificates =~= Seq::empty());
        }
    }
}

/// The transport that is created is of the kind that is configured: a local one always is, and a
/// remote one is exactly where its configuration and its certificate file are in order.
pub proof fn law_the_configured_kind_is_created(
    outcome: Result<Transport, McpFailure>,
    config: McpServerConfig,
    ca_path_is_absolute: bool,
    ca_pem: Option<Seq<u8>>,
)
    requires
        is_created(outcome, config, ca_path_is_absolute, ca_pem),
    ensures
        config.transport is Stdio ==> (outcome matches Ok(Transport::Stdio { transport })
            && transport.command@ == config.command@ && transport.server_name@ == config.name@
            && transport.args@.len() == config.args@.len() && (forall|i: int|
            0 <= i < config.args@.len() ==> (#[trigger] transport.args@[i])@ == config.args@[i]@)
            && transport.env@.len() == config.env@.len() && (forall|i: int|
            0 <= i < config.env@.len() ==> (#[trigger] transport.env@[i]).0@ == config.env@[i].0@
                && transport.env@[i].1@ == config.env@[i].1@)),
        config.transport is Http && outcome is Ok ==> (outcome matches Ok(Transport::Http {
            transport,
        }) && transport.url@ == config.url->0@ && transport.tool_timeout_secs
            == config.tool_timeout_secs && transport.session_id is None),
        config.transport is Sse && outcome is Ok ==> (outcome matches Ok(Transport::Sse { transport })
            && transport.sse_url@ == config.url->0@ && transport.tool_timeout_secs
            == config.tool_timeout_secs && transport.server_name@ == config.name@ && (
        transport.require_https <==> config.tls_ca_cert_path is Some)),
        !(config.transport is Stdio) && config.url is None ==> outcome is Err,
        !(config.transport is Stdio) && config.url is Some && config.tls_ca_cert_path is None
            ==> outcome is Ok,
{
    if let Ok(Transport::Stdio { transport }) = outcome {
        if config.transport is Stdio {
            let here = texts(transport.args@);
            let there = texts(config.args@);
            assert(here.len() == transport.args@.len() && there.len() == config.args@.len());
            assert forall|i: int| 0 <= i < config.args@.len() implies (
            #[trigger] transport.args@[i])@ == config.args@[i]@ by {
                assert(here[i] == there[i]);
            }
            let variables = header_texts(transport.env@);
            let configured = header_texts(config.env@);
            assert(variables.len() == transport.env@.len());
            assert(configured.len() == config.env@.len());
            assert forall|i: int| 0 <= i < config.env@.len() implies (
            #[trigger] transport.env@[i]).0@ == config.env@[i].0@ && transport.env@[i].1@
                == config.env@[i].1@ by {
                assert(variables[i] == (transport.env@[i].0@, transport.env@[i].1@));
                assert(configured[i] == (config.env@[i].0@, config.env@[i].1@));
            }
        }
    }
}

/// Only a process that is known to run counts as alive, and a remote transport always does. A local
/// transport holds no session, one over HTTP holds one as soon as it has its identifier, and one with
/// an event stream as soon as it is settled whether there is one.
pub proof fn law_what_is_alive(
    local: StdioTransport,
    http: HttpTransport,
    sse: SseTransport,
    child: ChildState,
)
    ensures
        local.is_alive(child) <==> child is Running,
        http.is_alive(child),
        sse.is_alive(child),
        !local.holds_session(),
        http.holds_session() <==> http.session_id is Some,
        sse.holds_session() <==> !(sse.stream_state is Unknown),
{
}

/// The file to read is the configured one, and none where none is configured; there is an outcome
/// only where the configuration is in order, and a failure only where it is not.
pub proof fn law_the_configured_file_is_read(
    outcome: Result<Option<String>, McpFailure>,
    config: McpServerConfig,
    transport: McpTransport,
    ca_path_is_absolute: bool,
)
    requires
        is_ca_file(outcome, config, transport, ca_path_is_absolute),
    ensures
        outcome is Ok <==> (config.url matches Some(url) && (config.tls_ca_cert_path is Some ==> (
        url_parse(url@) matches Some(u) && url_scheme(u) == "https"@) && ca_path_is_absolute)),
        outcome matches Ok(Some(path)) ==> (config.tls_ca_cert_path matches Some(p) && path@ == p@),
        outcome matches Ok(None) ==> config.tls_ca_cert_path is None,
        outcome matches Err(failure) ==> is_remote_setup(
            Err(failure),
            config,
            transport,
            ca_path_is_absolute,
        ),
{
}

/// A path can be absolute only if one is configured that holds a slash or a backslash.
pub proof fn law_absolute_paths_hold_a_separator(config: McpServerConfig)
    ensures
        may_have_absolute_ca_path(config) <==> (config.tls_ca_cert_path matches Some(path)
            && exists|i: int|
            0 <= i < path@.len() && (#[trigger] path@[i] == '/' || path@[i] == '\\')),
        config.tls_ca_cert_path is None ==> !is_answer_on_ca_path(true, config),
        config.tls_ca_cert_path is None ==> is_answer_on_ca_path(false, config),
{
    if let Some(path) = config.tls_ca_cert_path {
        law_separators(path@);
    }
}

} // verus!
