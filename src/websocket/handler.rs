use vstd::prelude::*;

verus! {

/// The value of `Sec-WebSocket-Accept` that answers the client's `Sec-WebSocket-Key`.
pub uninterp spec fn accept_key(key: Seq<u8>) -> Seq<char>;

/// Relies on tungstenite's handshake::derive_accept_key: the accept value,
/// a digest of the key's bytes alone.
#[verifier::external_body]
fn derive_accept_key(key: &[u8]) -> (r: String)
    ensures
        r@ == accept_key(key@),
{
    tokio_tungstenite::tungstenite::handshake::derive_accept_key(key)
}

/// Makes the router that serves each HTTP request.
pub struct Handler;

impl Handler {
    pub fn new() -> (r: Router)
        ensures
            r == Router,
    {
        Router
    }
}

/// Decides what an HTTP request to the relay gets.
#[derive(PartialEq, Eq, Structural)]
pub struct Router;

/// Where a request goes.
#[derive(Clone, Copy, Debug, PartialEq, Eq, Structural)]
pub enum Route {
    /// A `GET` of `/ws`: answered with the upgrade response, then the
    /// connection is taken over as a message channel.
    Upgrade,
    /// Anything else: answered with 404.
    NotFound,
}

pub open spec fn route_of(method: Seq<char>, path: Seq<char>) -> Route {
    if method == "GET"@ && path == "/ws"@ {
        Route::Upgrade
    } else {
        Route::NotFound
    }
}

impl Router {
    /// The route of a request with this method and path.
    pub fn router(&self, method: &String, path: &String) -> (r: Route)
        ensures
            r == route_of(method@, path@),
    {
        if *method == "GET".to_owned() && *path == "/ws".to_owned() {
            Route::Upgrade
        } else {
            Route::NotFound
        }
    }
}

/// One header line of a response.
pub struct Header {
    pub name: String,
    pub value: String,
}

impl View for Header {
    type V = (Seq<char>, Seq<char>);

    open spec fn view(&self) -> (Seq<char>, Seq<char>) {
        (self.name@, self.value@)
    }
}

/// A response with an empty body.
pub struct UpgradeResponse {
    pub status: u16,
    pub headers: Vec<Header>,
}

/// The headers that accept an upgrade request carrying `key`.
pub open spec fn upgrade_headers(key: Seq<u8>) -> Seq<(Seq<char>, Seq<char>)> {
    seq![
        ("Upgrade"@, "websocket"@),
        ("Connection"@, "Upgrade"@),
        ("Sec-WebSocket-Accept"@, accept_key(key)),
    ]
}

/// The response that accepts an upgrade request whose `Sec-WebSocket-Key`
/// is `key`: status 101, the upgrade headers, an empty body.
pub fn ws_setting(key: &[u8]) -> (r: UpgradeResponse)
    ensures
        r.status == 101,
        r.headers@.map_values(|h: Header| h@) == upgrade_headers(key@),
{
    let mut headers: Vec<Header> = Vec::new();
    headers.push(Header { name: "Upgrade".to_owned(), value: "websocket".to_owned() });
    headers.push(Header { name: "Connection".to_owned(), value: "Upgrade".to_owned() });
    headers.push(Header { name: "Sec-WebSocket-Accept".to_owned(), value: derive_accept_key(key) });
    assert(headers@.map_values(|h: Header| h@) =~= upgrade_headers(key@));
    UpgradeResponse { status: 101, headers }
}

} // verus!
