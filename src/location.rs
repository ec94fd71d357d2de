use vstd::prelude::*;

verus! {

/// The host part of a network location.
#[derive(Debug, Clone)]
pub enum Address {
    Ipv4([u8; 4]),
    Ipv6([u8; 16]),
    Hostname(Vec<u8>),
}

/// What an `Address` denotes: its raw bytes, tagged by family.
pub enum AddressView {
    Ipv4(Seq<u8>),
    Ipv6(Seq<u8>),
    Hostname(Seq<u8>),
}

/// A destination: a host (address or name) and a port.
#[derive(Debug, Clone)]
pub struct NetLocation {
    address: Address,
    port: u16,
}

pub struct NetLocationView {
    pub address: AddressView,
    pub port: u16,
}

impl View for Address {
    type V = AddressView;

    open spec fn view(&self) -> AddressView {
        match self {
            Address::Ipv4(o) => AddressView::Ipv4(o@),
            Address::Ipv6(o) => AddressView::Ipv6(o@),
            Address::Hostname(h) => AddressView::Hostname(h@),
        }
    }
}

impl View for NetLocation {
    type V = NetLocationView;

    closed spec fn view(&self) -> NetLocationView {
        NetLocationView { address: self.address@, port: self.port }
    }
}

pub const ADDRESS_TYPE_IPV4: u8 = 1;
pub const ADDRESS_TYPE_HOSTNAME: u8 = 3;
pub const ADDRESS_TYPE_IPV6: u8 = 4;
pub const MAX_HOSTNAME_LEN: usize = 255;

/// A 16-bit value as two bytes, most significant first.
pub open spec fn be16_bytes(v: u16) -> Seq<u8> {
    seq![(v / 256) as u8, (v % 256) as u8]
}

/// The 16-bit value that two bytes stand for, most significant first.
pub open spec fn be16_value(hi: u8, lo: u8) -> nat {
    hi as nat * 256 + lo as nat
}

impl NetLocationView {
    /// Each address family has its fixed length; a hostname fits its one-byte length prefix.
    pub open spec fn wf(self) -> bool {
        match self.address {
            AddressView::Ipv4(o) => o.len() == 4,
            AddressView::Ipv6(o) => o.len() == 16,
            AddressView::Hostname(h) => h.len() <= 255,
        }
    }

    pub open spec fn tag(self) -> u8 {
        match self.address {
            AddressView::Ipv4(_) => ADDRESS_TYPE_IPV4,
            AddressView::Ipv6(_) => ADDRESS_TYPE_IPV6,
            AddressView::Hostname(_) => ADDRESS_TYPE_HOSTNAME,
        }
    }
}

/// The wire form of a location: a type tag, the address (a hostname behind its
/// one-byte length), then the port in big-endian order.
pub open spec fn location_bytes(loc: NetLocationView) -> Seq<u8> {
    match loc.address {
        AddressView::Ipv4(o) => seq![ADDRESS_TYPE_IPV4] + o + be16_bytes(loc.port),
        AddressView::Ipv6(o) => seq![ADDRESS_TYPE_IPV6] + o + be16_bytes(loc.port),
        AddressView::Hostname(h) => seq![ADDRESS_TYPE_HOSTNAME, h.len() as u8] + h + be16_bytes(
            loc.port,
        ),
    }
}

/// The length of an encoded location, as its first two bytes announce it.
pub open spec fn announced_location_len(tag: u8, second: u8) -> nat {
    if tag == ADDRESS_TYPE_IPV4 {
        7
    } else if tag == ADDRESS_TYPE_IPV6 {
        19
    } else {
        second as nat + 4
    }
}

pub open spec fn is_address_type(tag: u8) -> bool {
    tag == ADDRESS_TYPE_IPV4 || tag == ADDRESS_TYPE_IPV6 || tag == ADDRESS_TYPE_HOSTNAME
}

/// `a` and `b` agree on the bytes they both have.
pub open spec fn agree(a: Seq<u8>, b: Seq<u8>) -> bool {
    forall|i: int| 0 <= i < a.len() && i < b.len() ==> a[i] == b[i]
}

pub proof fn lemma_be16_round_trip(v: u16)
    ensures
        be16_value(be16_bytes(v)[0], be16_bytes(v)[1]) == v as nat,
{
    assert((v / 256) as u8 as nat * 256 + (v % 256) as u8 as nat == v as nat) by (nonlinear_arith);
}

pub proof fn lemma_be16_injective(a: u16, b: u16)
    requires
        be16_bytes(a) == be16_bytes(b),
    ensures
        a == b,
{
    lemma_be16_round_trip(a);
    lemma_be16_round_trip(b);
}

/// The first two bytes of an encoded location fix its tag and its length.
pub proof fn lemma_location_shape(loc: NetLocationView)
    requires
        loc.wf(),
    ensures
        location_bytes(loc).len() >= 4,
        location_bytes(loc)[0] == loc.tag(),
        is_address_type(loc.tag()),
        location_bytes(loc).len() == announced_location_len(
            location_bytes(loc)[0],
            location_bytes(loc)[1],
        ),
{
    match loc.address {
        AddressView::Hostname(h) => {
            assert(location_bytes(loc)[1] == h.len() as u8);
        },
        _ => {},
    }
}

/// Two encoded locations that agree where both are defined are the same location.
pub proof fn lemma_location_injective(a: NetLocationView, b: NetLocationView)
    requires
        a.wf(),
        b.wf(),
        agree(location_bytes(a), location_bytes(b)),
    ensures
        a == b,
{
    let ea = location_bytes(a);
    let eb = location_bytes(b);
    lemma_location_shape(a);
    lemma_location_shape(b);
    assert(ea[0] == eb[0]);
    assert(ea[1] == eb[1]);
    assert(ea.len() == eb.len());
    assert(ea =~= eb);
    let n = ea.len();
    assert(be16_bytes(a.port) =~= ea.subrange(n - 2, n as int));
    assert(be16_bytes(b.port) =~= eb.subrange(n - 2, n as int));
    lemma_be16_injective(a.port, b.port);
    match a.address {
        AddressView::Ipv4(oa) => {
            if let AddressView::Ipv4(ob) = b.address {
                assert(oa =~= ea.subrange(1, 5));
                assert(ob =~= eb.subrange(1, 5));
            }
        },
        AddressView::Ipv6(oa) => {
            if let AddressView::Ipv6(ob) = b.address {
                assert(oa =~= ea.subrange(1, 17));
                assert(ob =~= eb.subrange(1, 17));
            }
        },
        AddressView::Hostname(ha) => {
            if let AddressView::Hostname(hb) = b.address {
                assert(ha =~= ea.subrange(2, n - 2));
                assert(hb =~= eb.subrange(2, n - 2));
            }
        },
    }
}

impl NetLocation {
    pub open spec fn wf(&self) -> bool {
        self@.wf()
    }

    pub fn from_ipv4(octets: [u8; 4], port: u16) -> (r: NetLocation)
        ensures
            r.wf(),
            r@ == (NetLocationView { address: AddressView::Ipv4(octets@), port }),
    {
        NetLocation { address: Address::Ipv4(octets), port }
    }

    pub fn from_ipv6(octets: [u8; 16], port: u16) -> (r: NetLocation)
        ensures
            r.wf(),
            r@ == (NetLocationView { address: AddressView::Ipv6(octets@), port }),
    {
        NetLocation { address: Address::Ipv6(octets), port }
    }

    /// A hostname location; `None` when the name is longer than its length prefix can say.
    pub fn from_hostname(hostname: Vec<u8>, port: u16) -> (r: Option<NetLocation>)
        ensures
            r is Some <==> hostname@.len() <= 255,
            r is Some ==> r->0.wf() && r->0@ == (NetLocationView {
                address: AddressView::Hostname(hostname@),
                port,
            }),
    {
        if hostname.len() <= MAX_HOSTNAME_LEN {
            Some(NetLocation { address: Address::Hostname(hostname), port })
        } else {
            None
        }
    }

    pub fn address(&self) -> (r: &Address)
        ensures
            r@ == self@.address,
    {
        &self.address
    }

    pub fn port(&self) -> (r: u16)
        ensures
            r == self@.port,
    {
        self.port
    }

    /// The hostname, where the location names one.
    pub fn hostname(&self) -> (r: Option<&Vec<u8>>)
        ensures
            r is Some <==> self@.address is Hostname,
            r is Some ==> self@.address == AddressView::Hostname(r->0@),
    {
        match &self.address {
            Address::Hostname(h) => Some(h),
            _ => None,
        }
    }

    pub fn is_hostname(&self) -> (r: bool)
        ensures
            r == self@.address is Hostname,
    {
        matches!(self.address, Address::Hostname(_))
    }
}

fn push_all(out: &mut Vec<u8>, bytes: &[u8])
    ensures
        final(out)@ == old(out)@ + bytes@,
{
    let mut i: usize = 0;
    while i < bytes.len()
        invariant
            i <= bytes@.len(),
            out@ == old(out)@ + bytes@.subrange(0, i as int),
        decreases bytes@.len() - i,
    {
        out.push(bytes[i]);
        i = i + 1;
        assert(bytes@.subrange(0, i as int) =~= bytes@.subrange(0, i - 1) + seq![bytes@[i - 1]]);
    }
    assert(bytes@.subrange(0, i as int) =~= bytes@);
}

/// Appends the wire form of `loc` to `out`.
pub fn write_location(loc: &NetLocation, out: &mut Vec<u8>)
    requires
        loc.wf(),
    ensures
        final(out)@ == old(out)@ + location_bytes(loc@),
{
    let start = Ghost(out@);
    match &loc.address {
        Address::Ipv4(o) => {
            out.push(ADDRESS_TYPE_IPV4);
            push_all(out, o.as_slice());
        },
        Address::Ipv6(o) => {
            out.push(ADDRESS_TYPE_IPV6);
            push_all(out, o.as_slice());
        },
        Address::Hostname(h) => {
            out.push(ADDRESS_TYPE_HOSTNAME);
            out.push(h.len() as u8);
            push_all(out, h.as_slice());
        },
    }
    out.push((loc.port / 256) as u8);
    out.push((loc.port % 256) as u8);
    assert(out@ =~= start@ + location_bytes(loc@));
}

/// The wire form of `loc` as a buffer of its own.
pub fn write_location_to_vec(loc: &NetLocation) -> (r: Vec<u8>)
    requires
        loc.wf(),
    ensures
        r@ == location_bytes(loc@),
{
    let mut out: Vec<u8> = Vec::new();
    write_location(loc, &mut out);
    assert(out@ =~= location_bytes(loc@));
    out
}

/// Reads the location that the first `len` bytes of `buf` encode, where the
/// first byte is an address type and `len` is the length that it announces.
pub fn read_location_prefix(buf: &Vec<u8>, len: usize) -> (r: NetLocation)
    requires
        buf@.len() >= 2,
        is_address_type(buf@[0]),
        len == announced_location_len(buf@[0], buf@[1]),
        len <= buf@.len(),
    ensures
        r.wf(),
        location_bytes(r@) == buf@.subrange(0, len as int),
{
    let tag = buf[0];
    let port = (buf[len - 2] as u16) * 256 + buf[len - 1] as u16;
    proof {
        lemma_be16_of_bytes(buf@[len - 2], buf@[len - 1]);
    }
    let address = if tag == ADDRESS_TYPE_IPV4 {
        let o: [u8; 4] = [buf[1], buf[2], buf[3], buf[4]];
        assert(o@ =~= buf@.subrange(1, 5));
        Address::Ipv4(o)
    } else if tag == ADDRESS_TYPE_IPV6 {
        let o: [u8; 16] = [
            buf[1], buf[2], buf[3], buf[4], buf[5], buf[6], buf[7], buf[8],
            buf[9], buf[10], buf[11], buf[12], buf[13], buf[14], buf[15], buf[16],
        ];
        assert(o@ =~= buf@.subrange(1, 17));
        Address::Ipv6(o)
    } else {
        let mut h: Vec<u8> = Vec::new();
        let mut i: usize = 2;
        while i < len - 2
            invariant
                2 <= i <= len - 2,
                len <= buf@.len(),
                h@ == buf@.subrange(2, i as int),
            decreases len - 2 - i,
        {
            h.push(buf[i]);
            i = i + 1;
            assert(h@ =~= buf@.subrange(2, i as int));
        }
        Address::Hostname(h)
    };
    let r = NetLocation { address, port };
    assert(location_bytes(r@) =~= buf@.subrange(0, len as int));
    r
}

/// Two bytes, most significant first, are the wire form of the value they stand for.
pub proof fn lemma_be16_of_bytes(hi: u8, lo: u8)
    ensures
        be16_value(hi, lo) <= 65535,
        be16_bytes(be16_value(hi, lo) as u16) == seq![hi, lo],
{
    let v = hi as nat * 256 + lo as nat;
    assert(v / 256 == hi as nat && v % 256 == lo as nat) by (nonlinear_arith)
        requires v == hi as nat * 256 + lo as nat, lo < 256;
    assert(be16_bytes(v as u16) =~= seq![hi, lo]);
}

} // verus!
