//! Addresses of services.

use crate::text;
use vstd::prelude::*;

verus! {

/// The parts of an address that the library reads.
#[derive(Debug)]
pub struct Endpoint {
    /// The whole address, in normal form.
    pub address: String,
    pub scheme: String,
    pub username: String,
    pub host: Option<String>,
    pub port: Option<u16>,
    /// The parameters of the query, decoded, in their order.
    pub query: Vec<(String, String)>,
    /// The whole address with the scheme `http` where the scheme can be
    /// changed to that.
    pub http_address: String,
}

/// The parts of an address, over views.
pub struct EndpointView {
    pub address: Seq<char>,
    pub scheme: Seq<char>,
    pub username: Seq<char>,
    pub host: Option<Seq<char>>,
    pub port: Option<u16>,
    pub query: Seq<(Seq<char>, Seq<char>)>,
    pub http_address: Seq<char>,
}

/// What pairs of texts hold.
pub open spec fn pair_views(pairs: Seq<(String, String)>) -> Seq<(Seq<char>, Seq<char>)> {
    pairs.map_values(|pair: (String, String)| (pair.0@, pair.1@))
}

impl View for Endpoint {
    type V = EndpointView;

    open spec fn view(&self) -> EndpointView {
        EndpointView {
            address: self.address@,
            scheme: self.scheme@,
            username: self.username@,
            host: text::optional(self.host),
            port: self.port,
            query: pair_views(self.query@),
            http_address: self.http_address@,
        }
    }
}

impl EndpointView {
    /// A colon stands in a host only where it is an IPv6 address, in brackets.
    pub open spec fn wf(self) -> bool {
        self.host matches Some(host) ==> host.contains(':') ==> host.len() > 0 && host[0] == '['
    }
}

/// The address that a text spells, where it does.
pub uninterp spec fn url_parts(source: Seq<char>) -> Option<EndpointView>;

/// Whether a character stands for itself wherever it stands in an address.
pub open spec fn plain_char(c: char) -> bool {
    ||| 'a' <= c && c <= 'z'
    ||| '0' <= c && c <= '9'
    ||| c == '-' || c == '_'
}

/// Whether a text is not empty and its characters stand for themselves.
pub open spec fn plain(s: Seq<char>) -> bool {
    s.len() > 0 && forall|i: int| 0 <= i < s.len() ==> plain_char(#[trigger] s[i])
}

/// The address of a database with these parts, in its plainest form.
pub open spec fn database_address(
    user: Option<Seq<char>>,
    host: Seq<char>,
    port: Option<u16>,
    database: Option<Seq<char>>,
    parameter: Option<(Seq<char>, Seq<char>)>,
) -> Seq<char> {
    "postgres://"@ + (match user {
        Some(user) => user + "@"@,
        None => Seq::empty(),
    }) + host + (match port {
        Some(port) => ":"@ + text::decimal(port as nat),
        None => Seq::empty(),
    }) + (match database {
        Some(database) => "/"@ + database,
        None => Seq::empty(),
    }) + (match parameter {
        Some((name, value)) => "?"@ + name + "="@ + value,
        None => Seq::empty(),
    })
}

/// Whether an address of a database in its plainest form is read as the parts
/// that it is made of.
pub open spec fn plainly_read(source: Seq<char>, endpoint: Option<EndpointView>) -> bool {
    forall|
        user: Option<Seq<char>>,
        host: Seq<char>,
        port: Option<u16>,
        database: Option<Seq<char>>,
        parameter: Option<(Seq<char>, Seq<char>)>,
    |
        {
            &&& source == #[trigger] database_address(user, host, port, database, parameter)
            &&& source.len() <= 65_535
            &&& user matches Some(user) ==> plain(user)
            &&& plain(host)
            &&& database matches Some(database) ==> plain(database)
            &&& parameter matches Some((name, value)) ==> plain(name) && plain(value)
        } ==> {
            &&& endpoint matches Some(endpoint)
            &&& endpoint.host == Some(host)
            &&& endpoint.port == port
            &&& endpoint.query == (match parameter {
                Some(parameter) => seq![parameter],
                None => Seq::empty(),
            })
        }
}

/// What an address, or the lack of one, holds.
pub open spec fn endpoint_view(endpoint: Option<Endpoint>) -> Option<EndpointView> {
    match endpoint {
        Some(endpoint) => Some(endpoint@),
        None => None,
    }
}

/// `url::Url::parse`, with the parts that the library reads and with what
/// `Url::set_scheme` makes of the address for `http`. They are named, not
/// spelled out: they depend on the text alone. A host with a colon is an IPv6
/// address in brackets. An address
/// `postgres://user@host:port/database?name=value`, with or without user, port,
/// database and parameter, that is not long and whose parts are made of small
/// letters, digits, `-` and `_`, has its host, its port and its parameter read
/// as they are written.
#[verifier::external_body]
pub(crate) fn parse_url(source: &str) -> (res: Option<Endpoint>)
    ensures
        endpoint_view(res) == url_parts(source@),
        res matches Some(endpoint) ==> endpoint@.wf(),
        plainly_read(source@, endpoint_view(res)),
{
    let url = url::Url::parse(source).ok()?;
    let mut http = url.clone();
    let _ = http.set_scheme("http");
    Some(Endpoint {
        address: url.to_string(),
        scheme: url.scheme().to_string(),
        username: url.username().to_string(),
        host: url.host_str().map(str::to_string),
        port: url.port(),
        query: url.query_pairs().into_owned().collect(),
        http_address: http.to_string(),
    })
}

} // verus!
