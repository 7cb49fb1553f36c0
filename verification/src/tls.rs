use rustls::pki_types::{ServerName, TrustAnchor};
use rustls::{ClientConfig, ClientConnection, RootCertStore};
use std::sync::Arc;
use vstd::prelude::*;

verus! {

#[verifier::external_type_specification]
#[verifier::external_body]
pub struct ExClientConfig(ClientConfig);

#[verifier::external_type_specification]
#[verifier::external_body]
pub struct ExClientConnection(ClientConnection);

#[verifier::external_type_specification]
#[verifier::external_body]
pub struct ExRootCertStore(RootCertStore);

#[verifier::external_type_specification]
#[verifier::external_body]
pub struct ExServerName<'a>(ServerName<'a>);

#[verifier::external_type_specification]
#[verifier::external_body]
pub struct ExTlsError(rustls::Error);

#[verifier::external_type_specification]
#[verifier::external_body]
pub struct ExTrustAnchor<'a>(TrustAnchor<'a>);

/// What a trust anchor consists of: the DER of its subject, of its subject
/// public key info, and of its name constraints if it has any.
pub struct AnchorModel {
    pub subject: Seq<u8>,
    pub spki: Seq<u8>,
    pub name_constraints: Option<Seq<u8>>,
}

/// Whether `ServerName::try_from` accepts `host`: a syntactically valid DNS
/// name or a textual IPv4/IPv6 address.
pub uninterp spec fn accepted_server_name(host: Seq<char>) -> bool;

/// The server name that `ServerName::try_from` builds from `host` when it
/// accepts it.
pub uninterp spec fn server_name_of(host: Seq<char>) -> ServerName<'static>;

/// The trust anchors that a root store holds, in order.
pub uninterp spec fn store_anchors(store: RootCertStore) -> Seq<AnchorModel>;

/// What a trust anchor consists of.
pub uninterp spec fn anchor_model(anchor: TrustAnchor<'static>) -> AnchorModel;

/// The models of a sequence of trust anchors, in order.
pub open spec fn anchor_models(anchors: Seq<TrustAnchor<'static>>) -> Seq<AnchorModel> {
    anchors.map_values(|a: TrustAnchor<'static>| anchor_model(a))
}

/// No anchor occurs twice.
pub open spec fn distinct_anchors(anchors: Seq<AnchorModel>) -> bool {
    forall|i: int, j: int|
        0 <= i < j < anchors.len() ==> #[trigger] anchors[i] != #[trigger] anchors[j]
}

/// The trust anchors against which a client configuration verifies server
/// certificates, in order.
pub uninterp spec fn config_anchors(config: ClientConfig) -> Seq<AnchorModel>;

/// The wire codes of the protocol versions a client configuration enables.
pub uninterp spec fn config_versions(config: ClientConfig) -> Set<u16>;

/// Whether a client configuration can present a client certificate.
pub uninterp spec fn config_offers_client_cert(config: ClientConfig) -> bool;

/// The trust anchors against which a session verifies the server's
/// certificate chain (those of the configuration it was made with).
pub uninterp spec fn session_anchors(conn: ClientConnection) -> Seq<AnchorModel>;

/// The wire codes of the protocol versions a session may negotiate (those
/// of the configuration it was made with).
pub uninterp spec fn session_versions(conn: ClientConnection) -> Set<u16>;

/// The server name a session sends as SNI and verifies the server's
/// certificate for.
pub uninterp spec fn session_server(conn: ClientConnection) -> ServerName<'static>;

/// Whether a session has sent its last alert: close_notify, or a fatal
/// alert before it; after that it sends no further alert.
pub uninterp spec fn closing_alert_sent(conn: ClientConnection) -> bool;

/// The wire code of TLS 1.2.
pub const TLS12_VERSION: u16 = 0x0303;

/// The wire code of TLS 1.3.
pub const TLS13_VERSION: u16 = 0x0304;

/// How many trust anchors `webpki_roots::TLS_SERVER_ROOTS` lists.
pub const MOZILLA_ROOT_COUNT: usize = 120;

/// `ServerName::try_from(String)`: `Some` exactly when the name is accepted,
/// which depends on the host text alone, and then the name built from it. The
/// empty text is neither a DNS name nor an IP address.
#[verifier::external_body]
pub(crate) fn server_name_from(host: String) -> (r: Option<ServerName<'static>>)
    ensures
        r is Some <==> accepted_server_name(host@),
        r matches Some(n) ==> n == server_name_of(host@),
        host@.len() == 0 ==> r is None,
{
    ServerName::try_from(host).ok()
}

/// `ClientConnection::new`. Whether it succeeds is not stated (the handshake
/// state it prepares draws on randomness and on the crypto provider). A
/// session it makes keeps `config`, so it verifies the server against that
/// configuration's anchors, may negotiate only its versions, and is for the
/// server `name`.
#[verifier::external_body]
pub(crate) fn new_client_connection(config: Arc<ClientConfig>, name: ServerName<'static>) -> (r: Result<
    ClientConnection,
    rustls::Error,
>)
    ensures
        r matches Ok(c) ==> {
            &&& session_anchors(c) == config_anchors(*config)
            &&& session_versions(c) == config_versions(*config)
            &&& session_server(c) == name
        },
{
    ClientConnection::new(config, name)
}

/// `ClientConnection::send_close_notify`: queues a close_notify alert unless
/// a close_notify or fatal alert was sent already; either way the session
/// has then sent its last alert. Nothing else about the session changes that
/// the names here speak of.
#[verifier::external_body]
pub(crate) fn queue_close_notify(conn: &mut ClientConnection)
    ensures
        closing_alert_sent(*final(conn)),
        session_anchors(*final(conn)) == session_anchors(*old(conn)),
        session_versions(*final(conn)) == session_versions(*old(conn)),
        session_server(*final(conn)) == session_server(*old(conn)),
{
    conn.send_close_notify()
}

/// `RootCertStore::empty`: a store without anchors.
#[verifier::external_body]
fn empty_root_store() -> (s: RootCertStore)
    ensures
        store_anchors(s) == Seq::<AnchorModel>::empty(),
{
    RootCertStore::empty()
}

/// `webpki_roots::TLS_SERVER_ROOTS`: the Mozilla root certificates, of
/// which the crate's source lists `MOZILLA_ROOT_COUNT`, no two of them alike
/// (their subjects, and their public keys, are pairwise different).
#[verifier::external_body]
fn mozilla_anchors() -> (roots: &'static [TrustAnchor<'static>])
    ensures
        roots@.len() == MOZILLA_ROOT_COUNT,
        distinct_anchors(anchor_models(roots@)),
{
    webpki_roots::TLS_SERVER_ROOTS
}

/// `RootCertStore::extend` with a clone of each anchor of `anchors`: the
/// anchors already held stay first, and the given ones follow in order (a
/// clone has the same subject, key and name constraints).
#[verifier::external_body]
fn extend_root_store(store: &mut RootCertStore, anchors: &[TrustAnchor<'static>])
    ensures
        store_anchors(*final(store)) == store_anchors(*old(store)) + anchors@.map_values(
            |a: TrustAnchor<'static>| anchor_model(a),
        ),
{
    store.extend(anchors.iter().cloned())
}

/// `ClientConfig::builder().with_root_certificates(store).with_no_client_auth()`:
/// a client configuration under the process-default crypto provider (ring,
/// the one that the crate's features select). Its server-certificate
/// verifier is built from exactly `store`; it enables the default protocol
/// versions, TLS 1.3 and TLS 1.2, both of which ring supports; and its client
/// certificate resolver has no certificate. The intermediate builders stay
/// inside this item.
#[verifier::external_body]
fn client_config_trusting(store: RootCertStore) -> (config: ClientConfig)
    ensures
        config_anchors(config) == store_anchors(store),
        config_versions(config) == set![TLS12_VERSION, TLS13_VERSION],
        !config_offers_client_cert(config),
{
    ClientConfig::builder().with_root_certificates(store).with_no_client_auth()
}

/// A root store holding exactly the given anchors, in order.
pub fn root_store_of(anchors: &[TrustAnchor<'static>]) -> (s: RootCertStore)
    ensures
        store_anchors(s) == anchor_models(anchors@),
{
    let mut store = empty_root_store();
    extend_root_store(&mut store, anchors);
    assert(Seq::<AnchorModel>::empty() + anchor_models(anchors@) =~= anchor_models(anchors@));
    store
}

/// A root store holding the Mozilla root certificates, each once.
pub fn mozilla_root_store() -> (s: RootCertStore)
    ensures
        store_anchors(s).len() == MOZILLA_ROOT_COUNT,
        distinct_anchors(store_anchors(s)),
{
    root_store_of(mozilla_anchors())
}

/// A shared client configuration that verifies servers against exactly the
/// given anchors, speaks TLS 1.2 and 1.3 only, and sends no client
/// certificate.
pub fn tls_config_trusting(anchors: &[TrustAnchor<'static>]) -> (c: Arc<ClientConfig>)
    ensures
        config_anchors(*c) == anchor_models(anchors@),
        config_versions(*c) == set![TLS12_VERSION, TLS13_VERSION],
        !config_offers_client_cert(*c),
{
    Arc::new(client_config_trusting(root_store_of(anchors)))
}

/// The client configuration every connection uses: server certificates are
/// checked against the Mozilla roots, only TLS 1.2 and 1.3 are spoken, and
/// no client certificate is sent.
pub fn tls_config() -> (c: Arc<ClientConfig>)
    ensures
        config_anchors(*c).len() == MOZILLA_ROOT_COUNT,
        distinct_anchors(config_anchors(*c)),
        config_versions(*c) == set![TLS12_VERSION, TLS13_VERSION],
        !config_offers_client_cert(*c),
{
    tls_config_trusting(mozilla_anchors())
}

} // verus!
