use vstd::prelude::*;

use crate::location::{AddressView, NetLocation};
use crate::shadowsocks::{cipher_of_name, KeySource, ShadowsocksCipher, ShadowsocksTcpHandler};

verus! {

/// The most QUIC endpoints a connector keeps.
pub const MAX_QUIC_ENDPOINTS: usize = 32;

/// A setting that may be left unspecified, set to nothing, or set to one value.
#[derive(Debug, Clone)]
pub enum NoneOrOne<T> {
    Unspecified,
    Absent,
    One(T),
}

/// The transports a client configuration may name.
#[derive(Debug, Clone, Copy, PartialEq, Eq)]
pub enum Transport {
    Tcp,
    Quic,
    Udp,
}

#[derive(Debug, Clone)]
pub struct TcpConfig {
    pub no_delay: bool,
}

#[derive(Debug, Clone)]
pub struct ClientQuicConfig {
    pub verify: bool,
    pub alpn_protocols: Vec<String>,
    /// The SNI hostname: unspecified takes the destination's hostname.
    pub sni_hostname: NoneOrOne<Vec<u8>>,
}

/// The protocol spoken over the transport connection.
#[derive(Debug)]
pub enum ClientProxyConfig {
    /// No protocol: the transport connection is the tunnel.
    Direct,
    /// The legacy AEAD Shadowsocks variant, keyed by a password.
    Shadowsocks { cipher: String, password: String },
    /// The AEAD-2022 Shadowsocks variant, keyed by raw key bytes.
    ShadowsocksAead2022 { cipher: String, key: Vec<u8> },
}

/// An already validated client configuration.
#[derive(Debug)]
pub struct ClientConfig {
    pub bind_interface: NoneOrOne<String>,
    pub address: NetLocation,
    pub transport: Transport,
    pub tcp_settings: Option<TcpConfig>,
    pub quic_settings: Option<ClientQuicConfig>,
    pub protocol: ClientProxyConfig,
    /// Whether a hostname destination is resolved before it is sent through the
    /// tunnel; off unless set, so that the far side resolves it.
    pub resolve_hostnames: bool,
}

/// How a connector reaches its next hop.
#[derive(Debug)]
pub enum TransportPlan {
    Tcp { no_delay: bool },
    Quic {
        sni_hostname: Option<Vec<u8>>,
        verify: bool,
        alpn_protocols: Vec<String>,
        endpoint_count: usize,
    },
}

/// What a connector decided at construction: where its next hop is, over which
/// transport, and the protocol handler, if any, that runs over it.
#[derive(Debug)]
pub struct ConnectorPlan {
    bind_interface: Option<String>,
    location: NetLocation,
    transport: TransportPlan,
    handler: Option<ShadowsocksTcpHandler>,
    resolve_hostnames: bool,
}

pub open spec fn hostname_of(loc: NetLocation) -> Option<Seq<u8>> {
    match loc@.address {
        AddressView::Hostname(h) => Some(h),
        _ => None,
    }
}

pub open spec fn opt_bytes(v: Option<Vec<u8>>) -> Option<Seq<u8>> {
    match v {
        Some(b) => Some(b@),
        None => None,
    }
}

/// The SNI hostname: the configured one where one is set, none where none is,
/// else the default.
pub open spec fn spec_sni(configured: NoneOrOne<Vec<u8>>, default: Option<Seq<u8>>) -> Option<
    Seq<u8>,
> {
    match configured {
        NoneOrOne::Unspecified => default,
        NoneOrOne::Absent => None,
        NoneOrOne::One(s) => Some(s@),
    }
}

pub open spec fn spec_min(a: usize, b: usize) -> usize {
    if a <= b {
        a
    } else {
        b
    }
}

/// The configuration names a transport and a protocol that a connector can run.
pub open spec fn supported(config: ClientConfig) -> bool {
    &&& (config.transport == Transport::Tcp || config.transport == Transport::Quic)
    &&& match config.protocol {
        ClientProxyConfig::Direct => true,
        ClientProxyConfig::Shadowsocks { cipher, .. } => cipher_of_name(cipher@) is Some,
        ClientProxyConfig::ShadowsocksAead2022 { cipher, .. } => cipher_of_name(cipher@) is Some,
    }
}

fn copy_bytes(a: &Vec<u8>) -> (r: Vec<u8>)
    ensures
        r@ == a@,
{
    let mut out: Vec<u8> = Vec::new();
    let mut i: usize = 0;
    while i < a.len()
        invariant
            i <= a@.len(),
            out@ == a@.subrange(0, i as int),
        decreases a@.len() - i,
    {
        out.push(a[i]);
        i = i + 1;
        assert(out@ =~= a@.subrange(0, i as int));
    }
    assert(out@ =~= a@);
    out
}

/// The SNI hostname a QUIC connector uses.
pub fn derive_sni_hostname(configured: NoneOrOne<Vec<u8>>, default: Option<Vec<u8>>) -> (r: Option<
    Vec<u8>,
>)
    ensures
        opt_bytes(r) == spec_sni(configured, opt_bytes(default)),
{
    match configured {
        NoneOrOne::Unspecified => default,
        NoneOrOne::Absent => None,
        NoneOrOne::One(s) => Some(s),
    }
}

/// How many QUIC endpoints to keep for a given number of worker threads.
pub fn quic_endpoint_count(num_threads: usize) -> (r: usize)
    ensures
        r == spec_min(num_threads, MAX_QUIC_ENDPOINTS),
{
    if num_threads <= MAX_QUIC_ENDPOINTS {
        num_threads
    } else {
        MAX_QUIC_ENDPOINTS
    }
}

/// The counter value that follows `counter` in a pool of `pool_len` endpoints.
pub open spec fn next_counter(counter: nat, pool_len: nat) -> nat {
    (counter + 1) % pool_len
}

/// The counter after `k` connections, starting from `start`.
pub open spec fn counter_after(start: nat, pool_len: nat, k: nat) -> nat
    decreases k,
{
    if k == 0 {
        start
    } else {
        next_counter(counter_after(start, pool_len, (k - 1) as nat), pool_len)
    }
}

/// The endpoint that a connection takes for the counter value it drew.
pub fn pick_endpoint(counter: usize, pool_len: usize) -> (r: usize)
    requires
        pool_len >= 1,
    ensures
        r == counter % pool_len,
        r < pool_len,
{
    if pool_len == 1 {
        0
    } else {
        counter % pool_len
    }
}

/// Advances the rotation counter of a pool of `pool_len` endpoints.
pub fn advance_endpoint_counter(counter: usize, pool_len: usize) -> (r: usize)
    requires
        counter < pool_len,
    ensures
        r == next_counter(counter as nat, pool_len as nat),
        r < pool_len,
{
    (counter + 1) % pool_len
}

/// Endpoint selection is a pure rotation: from a counter `start` below the pool
/// size, the `k`-th connection takes endpoint `(start + k) % pool_len`, so any
/// `pool_len` consecutive connections take each endpoint exactly once, and from
/// a fresh counter they take them in index order.
pub proof fn lemma_round_robin(start: nat, pool_len: nat, k: nat)
    requires
        pool_len >= 1,
        start < pool_len,
    ensures
        counter_after(start, pool_len, k) == (start + k) % pool_len,
        counter_after(start, pool_len, k) % pool_len == (start + k) % pool_len,
        start == 0 && k < pool_len ==> counter_after(start, pool_len, k) == k,
    decreases k,
{
    if k == 0 {
        vstd::arithmetic::div_mod::lemma_small_mod(start, pool_len);
    } else {
        lemma_round_robin(start, pool_len, (k - 1) as nat);
        let prev = (start + k - 1) as nat;
        assert(((prev % pool_len) + 1) % pool_len == (prev + 1) % pool_len) by {
            vstd::arithmetic::div_mod::lemma_add_mod_noop(prev as int, 1, pool_len as int);
            vstd::arithmetic::div_mod::lemma_add_mod_noop((prev % pool_len) as int, 1, pool_len as int);
            vstd::arithmetic::div_mod::lemma_mod_twice(prev as int, pool_len as int);
        }
    }
    vstd::arithmetic::div_mod::lemma_mod_twice((start + k) as int, pool_len as int);
    if start == 0 && k < pool_len {
        vstd::arithmetic::div_mod::lemma_small_mod(k, pool_len);
    }
}

/// Any `pool_len` consecutive connections from a counter below the pool size
/// take pairwise distinct endpoints.
pub proof fn lemma_round_robin_distinct(start: nat, pool_len: nat, i: nat, j: nat)
    requires
        pool_len >= 1,
        start < pool_len,
        i < j < pool_len,
    ensures
        counter_after(start, pool_len, i) != counter_after(start, pool_len, j),
{
    lemma_round_robin(start, pool_len, i);
    lemma_round_robin(start, pool_len, j);
    let a = start + i;
    let b = start + j;
    if a % pool_len == b % pool_len {
        vstd::arithmetic::div_mod::lemma_fundamental_div_mod(a as int, pool_len as int);
        vstd::arithmetic::div_mod::lemma_fundamental_div_mod(b as int, pool_len as int);
        assert(b - a == pool_len * (b / pool_len - a / pool_len)) by (nonlinear_arith)
            requires
                a == pool_len * (a / pool_len) + a % pool_len,
                b == pool_len * (b / pool_len) + b % pool_len,
                a % pool_len == b % pool_len,
        ;
        assert(false) by (nonlinear_arith)
            requires
                b - a == pool_len * (b / pool_len - a / pool_len),
                0 < b - a < pool_len,
                pool_len >= 1,
        ;
    }
}

pub open spec fn spec_no_delay(settings: Option<TcpConfig>) -> bool {
    match settings {
        Some(t) => t.no_delay,
        None => true,
    }
}

/// The handler that a protocol configuration asks for, if any.
pub open spec fn handler_matches(protocol: ClientProxyConfig, h: Option<ShadowsocksTcpHandler>) -> bool {
    match protocol {
        ClientProxyConfig::Direct => h is None,
        ClientProxyConfig::Shadowsocks { cipher, password } => {
            &&& h is Some
            &&& h->0.spec_cipher() == cipher_of_name(cipher@)->0
            &&& h->0.spec_key_source() == KeySource::Password
            &&& h->0.spec_secret() == vstd::utf8::encode_utf8(password@)
            &&& !h->0.spec_aead2022()
        },
        ClientProxyConfig::ShadowsocksAead2022 { cipher, key } => {
            &&& h is Some
            &&& h->0.spec_cipher() == cipher_of_name(cipher@)->0
            &&& h->0.spec_key_source() == KeySource::PreSharedKey
            &&& h->0.spec_secret() == key@
            &&& h->0.spec_aead2022()
        },
    }
}

/// The transport that a configuration asks for, over `num_threads` worker threads.
pub open spec fn transport_matches(config: ClientConfig, num_threads: usize, t: TransportPlan) -> bool {
    match t {
        TransportPlan::Tcp { no_delay } => {
            config.transport == Transport::Tcp && no_delay == spec_no_delay(config.tcp_settings)
        },
        TransportPlan::Quic { sni_hostname, verify, alpn_protocols, endpoint_count } => {
            &&& config.transport == Transport::Quic
            &&& endpoint_count == spec_min(num_threads, MAX_QUIC_ENDPOINTS)
            &&& match config.quic_settings {
                Some(q) => {
                    &&& opt_bytes(sni_hostname) == spec_sni(q.sni_hostname, hostname_of(config.address))
                    &&& verify == q.verify
                    &&& alpn_protocols@ == q.alpn_protocols@
                },
                None => {
                    &&& opt_bytes(sni_hostname) == hostname_of(config.address)
                    &&& verify
                    &&& alpn_protocols@.len() == 0
                },
            }
        },
    }
}

impl ConnectorPlan {
    pub closed spec fn spec_location(&self) -> NetLocation {
        self.location
    }

    pub closed spec fn spec_transport(&self) -> TransportPlan {
        self.transport
    }

    pub closed spec fn spec_handler(&self) -> Option<ShadowsocksTcpHandler> {
        self.handler
    }

    pub closed spec fn spec_bind_interface(&self) -> Option<String> {
        self.bind_interface
    }

    pub closed spec fn spec_resolve_hostnames(&self) -> bool {
        self.resolve_hostnames
    }

    pub closed spec fn wf(&self) -> bool {
        &&& self.location.wf()
        &&& match self.transport {
            TransportPlan::Quic { endpoint_count, .. } => endpoint_count >= 1,
            _ => true,
        }
    }

    /// Decides, once, how a connector reaches its next hop. A configuration with
    /// a transport other than TCP or QUIC, or with an unknown cipher, gives no
    /// connector.
    pub fn try_from(client_config: ClientConfig, num_threads: usize) -> (r: Option<ConnectorPlan>)
        requires
            client_config.address.wf(),
            num_threads >= 1,
        ensures
            r is Some <==> supported(client_config),
            r is Some ==> {
                let p = r->0;
                &&& p.wf()
                &&& p.spec_location()@ == client_config.address@
                &&& transport_matches(client_config, num_threads, p.spec_transport())
                &&& handler_matches(client_config.protocol, p.spec_handler())
                &&& p.spec_resolve_hostnames() == client_config.resolve_hostnames
                &&& p.spec_bind_interface() == match client_config.bind_interface {
                    NoneOrOne::One(s) => Some(s),
                    _ => None,
                }
            },
    {
        let ClientConfig {
            bind_interface,
            address,
            transport,
            tcp_settings,
            quic_settings,
            protocol,
            resolve_hostnames,
        } = client_config;
        let default_sni_hostname = match address.hostname() {
            Some(h) => Some(copy_bytes(h)),
            None => None,
        };
        let handler = match protocol {
            ClientProxyConfig::Direct => None,
            ClientProxyConfig::Shadowsocks { cipher, password } => {
                if ShadowsocksCipher::from_name(cipher.as_str()).is_none() {
                    return None;
                }
                Some(ShadowsocksTcpHandler::new(cipher.as_str(), password.as_str()))
            },
            ClientProxyConfig::ShadowsocksAead2022 { cipher, key } => {
                if ShadowsocksCipher::from_name(cipher.as_str()).is_none() {
                    return None;
                }
                Some(ShadowsocksTcpHandler::new_aead2022(cipher.as_str(), key.as_slice()))
            },
        };
        let transport = match transport {
            Transport::Tcp => {
                let no_delay = match tcp_settings {
                    Some(t) => t.no_delay,
                    None => true,
                };
                TransportPlan::Tcp { no_delay }
            },
            Transport::Quic => {
                let endpoint_count = quic_endpoint_count(num_threads);
                match quic_settings {
                    Some(q) => {
                        let ClientQuicConfig { verify, alpn_protocols, sni_hostname } = q;
                        TransportPlan::Quic {
                            sni_hostname: derive_sni_hostname(sni_hostname, default_sni_hostname),
                            verify,
                            alpn_protocols,
                            endpoint_count,
                        }
                    },
                    None => TransportPlan::Quic {
                        sni_hostname: default_sni_hostname,
                        verify: true,
                        alpn_protocols: Vec::new(),
                        endpoint_count,
                    },
                }
            },
            Transport::Udp => {
                return None;
            },
        };
        let bind_interface = match bind_interface {
            NoneOrOne::One(s) => Some(s),
            _ => None,
        };
        Some(ConnectorPlan { bind_interface, location: address, transport, handler, resolve_hostnames })
    }

    pub fn location(&self) -> (r: &NetLocation)
        ensures
            r@ == self.spec_location()@,
    {
        &self.location
    }

    pub fn transport(&self) -> (r: &TransportPlan)
        ensures
            *r == self.spec_transport(),
    {
        &self.transport
    }

    pub fn handler(&self) -> (r: Option<&ShadowsocksTcpHandler>)
        ensures
            r is Some <==> self.spec_handler() is Some,
            r is Some ==> *r->0 == self.spec_handler()->0,
    {
        match &self.handler {
            Some(h) => Some(h),
            None => None,
        }
    }

    pub fn bind_interface(&self) -> (r: Option<&String>)
        ensures
            r is Some <==> self.spec_bind_interface() is Some,
            r is Some ==> *r->0 == self.spec_bind_interface()->0,
    {
        match &self.bind_interface {
            Some(s) => Some(s),
            None => None,
        }
    }

    /// Where the transport connection goes: to the proxy where a handler will
    /// carry the destination inside the tunnel, else to the destination itself.
    pub fn connect_target<'a>(&'a self, remote_location: &'a NetLocation) -> (r: &'a NetLocation)
        ensures
            r@ == if self.spec_handler() is Some {
                self.spec_location()@
            } else {
                remote_location@
            },
    {
        if self.handler.is_some() {
            &self.location
        } else {
            remote_location
        }
    }

    /// Whether a hostname destination is resolved to an address before the
    /// handshake sends it: only where that was asked for and a handler runs.
    pub fn should_resolve_remote(&self, remote_location: &NetLocation) -> (r: bool)
        ensures
            r == (self.spec_resolve_hostnames() && self.spec_handler() is Some
                && remote_location@.address is Hostname),
    {
        self.resolve_hostnames && self.handler.is_some() && remote_location.is_hostname()
    }

    /// The server name a QUIC connection presents: the SNI hostname, else the
    /// configured location's hostname. `None` on a TCP plan, and where neither
    /// exists (SNI is then off, and any name will do).
    pub fn quic_domain(&self) -> (r: Option<Vec<u8>>)
        ensures
            opt_bytes(r) == match self.spec_transport() {
                TransportPlan::Quic { sni_hostname, .. } => match sni_hostname {
                    Some(s) => Some(s@),
                    None => hostname_of(self.spec_location()),
                },
                _ => None,
            },
    {
        match &self.transport {
            TransportPlan::Quic { sni_hostname, .. } => match sni_hostname {
                Some(s) => Some(copy_bytes(s)),
                None => match self.location.hostname() {
                    Some(h) => Some(copy_bytes(h)),
                    None => None,
                },
            },
            _ => None,
        }
    }
}

} // verus!
