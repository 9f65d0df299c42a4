//! The host's public addresses, their textual forms, and what a discovery
//! round makes of the answers it got.

use vstd::prelude::*;
use vstd::string::StringExecFns;

verus! {

/// The digit that stands for `d` in bases up to sixteen, in lower case.
pub open spec fn digit_char(d: int) -> char {
    if d == 0 {
        '0'
    } else if d == 1 {
        '1'
    } else if d == 2 {
        '2'
    } else if d == 3 {
        '3'
    } else if d == 4 {
        '4'
    } else if d == 5 {
        '5'
    } else if d == 6 {
        '6'
    } else if d == 7 {
        '7'
    } else if d == 8 {
        '8'
    } else if d == 9 {
        '9'
    } else if d == 10 {
        'a'
    } else if d == 11 {
        'b'
    } else if d == 12 {
        'c'
    } else if d == 13 {
        'd'
    } else if d == 14 {
        'e'
    } else {
        'f'
    }
}

/// `n` in decimal, without leading zeros.
pub open spec fn decimal(n: nat) -> Seq<char>
    decreases n,
{
    if n < 10 {
        seq![digit_char(n as int)]
    } else {
        decimal(n / 10).push(digit_char((n % 10) as int))
    }
}

/// `n` in lower-case hexadecimal, without leading zeros.
pub open spec fn hexadecimal(n: nat) -> Seq<char>
    decreases n,
{
    if n < 16 {
        seq![digit_char(n as int)]
    } else {
        hexadecimal(n / 16).push(digit_char((n % 16) as int))
    }
}

/// The one-character text of a digit.
fn digit_text(d: u8) -> (s: &'static str)
    requires
        d < 16,
    ensures
        s@ == seq![digit_char(d as int)],
{
    let s = match d {
        0 => "0",
        1 => "1",
        2 => "2",
        3 => "3",
        4 => "4",
        5 => "5",
        6 => "6",
        7 => "7",
        8 => "8",
        9 => "9",
        10 => "a",
        11 => "b",
        12 => "c",
        13 => "d",
        14 => "e",
        _ => "f",
    };
    proof {
        reveal_strlit("0");
        reveal_strlit("1");
        reveal_strlit("2");
        reveal_strlit("3");
        reveal_strlit("4");
        reveal_strlit("5");
        reveal_strlit("6");
        reveal_strlit("7");
        reveal_strlit("8");
        reveal_strlit("9");
        reveal_strlit("a");
        reveal_strlit("b");
        reveal_strlit("c");
        reveal_strlit("d");
        reveal_strlit("e");
        reveal_strlit("f");
        assert(s@ =~= seq![digit_char(d as int)]);
    }
    s
}

/// Appends `n` in decimal.
fn append_decimal(out: &mut String, n: u8)
    ensures
        final(out)@ == old(out)@ + decimal(n as nat),
{
    proof {
        reveal_with_fuel(decimal, 3);
    }
    if n >= 100 {
        out.append(digit_text(n / 100));
    }
    if n >= 10 {
        out.append(digit_text((n / 10) % 10));
    }
    out.append(digit_text(n % 10));
    assert(out@ =~= old(out)@ + decimal(n as nat));
}

/// Appends `n` in hexadecimal.
fn append_hexadecimal(out: &mut String, n: u16)
    ensures
        final(out)@ == old(out)@ + hexadecimal(n as nat),
{
    proof {
        reveal_with_fuel(hexadecimal, 4);
    }
    if n >= 0x1000 {
        out.append(digit_text((n / 0x1000) as u8));
    }
    if n >= 0x100 {
        out.append(digit_text(((n / 0x100) % 16) as u8));
    }
    if n >= 0x10 {
        out.append(digit_text(((n / 0x10) % 16) as u8));
    }
    out.append(digit_text((n % 16) as u8));
    assert(out@ =~= old(out)@ + hexadecimal(n as nat));
}

/// An IPv4 address, as its four octets in network order.
#[derive(Clone, Copy, Debug, PartialEq, Eq)]
pub struct Ipv4Address {
    pub octets: [u8; 4],
}

/// The dotted-decimal text of the address with the octets `a`, `b`, `c`, `d`.
pub open spec fn dotted_decimal(a: u8, b: u8, c: u8, d: u8) -> Seq<char> {
    decimal(a as nat) + seq!['.'] + decimal(b as nat) + seq!['.'] + decimal(c as nat) + seq!['.']
        + decimal(d as nat)
}

/// Appends the dotted-decimal text of `a.b.c.d`.
fn append_dotted_decimal(out: &mut String, a: u8, b: u8, c: u8, d: u8)
    ensures
        final(out)@ == old(out)@ + dotted_decimal(a, b, c, d),
{
    proof {
        reveal_strlit(".");
        assert("."@ =~= seq!['.']);
    }
    append_decimal(out, a);
    out.append(".");
    append_decimal(out, b);
    out.append(".");
    append_decimal(out, c);
    out.append(".");
    append_decimal(out, d);
    assert(out@ =~= old(out)@ + dotted_decimal(a, b, c, d));
}

impl Ipv4Address {
    /// The address `a.b.c.d`.
    pub fn new(a: u8, b: u8, c: u8, d: u8) -> (addr: Ipv4Address)
        ensures
            addr.octets@ == seq![a, b, c, d],
    {
        Ipv4Address { octets: [a, b, c, d] }
    }

    /// The textual form: the four octets in decimal, dots between them.
    pub open spec fn text(self) -> Seq<char> {
        dotted_decimal(self.octets@[0], self.octets@[1], self.octets@[2], self.octets@[3])
    }

    /// The textual form of the address.
    pub fn to_text(&self) -> (s: String)
        ensures
            s@ == self.text(),
    {
        let mut out = String::new();
        append_dotted_decimal(
            &mut out,
            self.octets[0],
            self.octets[1],
            self.octets[2],
            self.octets[3],
        );
        assert(out@ =~= self.text());
        out
    }
}

/// An IPv6 address, as its eight 16-bit groups in network order.
#[derive(Clone, Copy, Debug, PartialEq, Eq)]
pub struct Ipv6Address {
    pub segments: [u16; 8],
}

/// `len` groups from `start` on lie within `groups` and are all zero.
pub open spec fn zero_run(groups: Seq<u16>, start: int, len: int) -> bool {
    &&& 0 <= start
    &&& 0 <= len
    &&& start + len <= groups.len()
    &&& forall|i: int| start <= i < start + len ==> groups[i] == 0
}

/// The run of zero groups that the textual form may leave out: no run is
/// longer, and none of the same length starts further left.
pub open spec fn elided_run(groups: Seq<u16>, start: int, len: int) -> bool {
    &&& zero_run(groups, start, len)
    &&& forall|s: int, l: int| #[trigger]
        zero_run(groups, s, l) ==> l < len || (l == len && start <= s)
}

/// The groups in hexadecimal, a colon between neighbours.
pub open spec fn groups_text(groups: Seq<u16>) -> Seq<char>
    decreases groups.len(),
{
    if groups.len() == 0 {
        Seq::empty()
    } else if groups.len() == 1 {
        hexadecimal(groups[0] as nat)
    } else {
        groups_text(groups.drop_last()) + seq![':'] + hexadecimal(groups.last() as nat)
    }
}

/// The address carries an IPv4 address: `::ffff:a.b.c.d`.
pub open spec fn ipv4_mapped(groups: Seq<u16>) -> bool {
    &&& groups.len() == 8
    &&& groups[0] == 0
    &&& groups[1] == 0
    &&& groups[2] == 0
    &&& groups[3] == 0
    &&& groups[4] == 0
    &&& groups[5] == 0xffff
}

/// A sequence of groups has one run that the textual form may leave out.
pub proof fn lemma_elided_run_unique(groups: Seq<u16>, s1: int, l1: int, s2: int, l2: int)
    requires
        elided_run(groups, s1, l1),
        elided_run(groups, s2, l2),
    ensures
        s1 == s2,
        l1 == l2,
{
}

/// Finds the run of zero groups that the textual form may leave out.
fn find_elided_run(groups: &[u16; 8]) -> (run: (usize, usize))
    ensures
        elided_run(groups@, run.0 as int, run.1 as int),
{
    let mut best_start: usize = 0;
    let mut best_len: usize = 0;
    let mut current_len: usize = 0;
    let mut i: usize = 0;
    while i < 8
        invariant
            i <= 8,
            groups@.len() == 8,
            current_len <= best_len,
            current_len <= i,
            best_start + best_len <= i,
            zero_run(groups@, best_start as int, best_len as int),
            zero_run(groups@, i - current_len, current_len as int),
            forall|s: int, l: int| #[trigger]
                zero_run(groups@, s, l) && s + l <= i ==> l < best_len || (l == best_len
                    && best_start <= s),
            forall|s: int, l: int| #[trigger]
                zero_run(groups@, s, l) && s + l == i ==> l <= current_len,
        decreases 8 - i,
    {
        let ghost old_best_start = best_start;
        let ghost old_best_len = best_len;
        let ghost old_current_len = current_len;
        if groups[i] == 0 {
            current_len += 1;
            if current_len > best_len {
                best_start = i + 1 - current_len;
                best_len = current_len;
            }
        } else {
            current_len = 0;
        }
        proof {
            assert forall|s: int, l: int| #[trigger]
                zero_run(groups@, s, l) && s + l == i + 1 implies l <= current_len by {
                if l > 0 {
                    assert(groups@[i as int] == 0);
                    assert(zero_run(groups@, s, l - 1));
                }
            }
            assert forall|s: int, l: int| #[trigger]
                zero_run(groups@, s, l) && s + l <= i + 1 implies l < best_len || (l == best_len
                && best_start <= s) by {
                if s + l == i + 1 && l > 0 {
                    assert(zero_run(groups@, s, l - 1));
                }
            }
        }
        i += 1;
    }
    (best_start, best_len)
}

/// Appends the groups from `from` up to `to`, a colon between neighbours.
fn append_groups(out: &mut String, groups: &[u16; 8], from: usize, to: usize)
    requires
        from <= to <= 8,
    ensures
        final(out)@ == old(out)@ + groups_text(groups@.subrange(from as int, to as int)),
{
    proof {
        reveal_strlit(":");
        assert(":"@ =~= seq![':']);
    }
    let mut i: usize = from;
    while i < to
        invariant
            from <= i <= to <= 8,
            groups@.len() == 8,
            ":"@ == seq![':'],
            out@ == old(out)@ + groups_text(groups@.subrange(from as int, i as int)),
        decreases to - i,
    {
        if i > from {
            out.append(":");
        }
        append_hexadecimal(out, groups[i]);
        proof {
            let wider = groups@.subrange(from as int, i + 1);
            assert(wider.drop_last() =~= groups@.subrange(from as int, i as int));
            assert(wider.last() == groups@[i as int]);
            assert(out@ =~= old(out)@ + groups_text(wider));
        }
        i += 1;
    }
}

impl Ipv6Address {
    /// The address with the groups `segments`.
    pub fn new(segments: [u16; 8]) -> (addr: Ipv6Address)
        ensures
            addr.segments == segments,
    {
        Ipv6Address { segments }
    }

    /// Where the run of zero groups that the text may leave out starts, and
    /// how long it is.
    pub open spec fn elision(self) -> (int, int) {
        choose|run: (int, int)| elided_run(self.segments@, run.0, run.1)
    }

    /// The textual form. An address that carries an IPv4 address is written
    /// `::ffff:` and that address. Any other is written as its groups in
    /// hexadecimal with colons between them, and `::` in place of the longest
    /// run of two or more zero groups, the leftmost of several.
    pub open spec fn text(self) -> Seq<char> {
        let groups = self.segments@;
        if ipv4_mapped(groups) {
            seq![':', ':', 'f', 'f', 'f', 'f', ':'] + dotted_decimal(
                (groups[6] / 256) as u8,
                (groups[6] % 256) as u8,
                (groups[7] / 256) as u8,
                (groups[7] % 256) as u8,
            )
        } else {
            let (start, len) = self.elision();
            if len > 1 {
                groups_text(groups.subrange(0, start)) + seq![':', ':'] + groups_text(
                    groups.subrange(start + len, 8),
                )
            } else {
                groups_text(groups)
            }
        }
    }

    /// The textual form of the address.
    pub fn to_text(&self) -> (s: String)
        ensures
            s@ == self.text(),
    {
        let groups = &self.segments;
        let mut out = String::new();
        if groups[0] == 0 && groups[1] == 0 && groups[2] == 0 && groups[3] == 0 && groups[4] == 0
            && groups[5] == 0xffff {
            proof {
                reveal_strlit("::ffff:");
                assert("::ffff:"@ =~= seq![':', ':', 'f', 'f', 'f', 'f', ':']);
            }
            out.append("::ffff:");
            append_dotted_decimal(
                &mut out,
                (groups[6] / 256) as u8,
                (groups[6] % 256) as u8,
                (groups[7] / 256) as u8,
                (groups[7] % 256) as u8,
            );
            assert(out@ =~= self.text());
        } else {
            let (start, len) = find_elided_run(groups);
            proof {
                let found = (start as int, len as int);
                assert(elided_run(groups@, found.0, found.1));
                let chosen = self.elision();
                lemma_elided_run_unique(groups@, found.0, found.1, chosen.0, chosen.1);
            }
            if len > 1 {
                proof {
                    reveal_strlit("::");
                    assert("::"@ =~= seq![':', ':']);
                }
                append_groups(&mut out, groups, 0, start);
                out.append("::");
                append_groups(&mut out, groups, start + len, 8);
            } else {
                append_groups(&mut out, groups, 0, 8);
                assert(groups@.subrange(0, 8) =~= groups@);
            }
            assert(out@ =~= self.text());
        }
        out
    }
}

/// An address family.
#[derive(Clone, Copy, Debug, PartialEq, Eq, Structural)]
pub enum Family {
    V4,
    V6,
}

/// Why a discovery round yields no addresses.
#[derive(Clone, Copy, Debug, PartialEq, Eq, Structural)]
pub enum DiscoveryError {
    /// The discovery service answered for this family, but not with an
    /// address of it.
    Malformed(Family),
    /// No address of either family could be determined.
    NoAddress,
}

/// What asking the discovery service for the address of one family gave.
#[derive(Debug)]
pub enum Probe<A> {
    /// The service could not be reached over this family.
    Unreachable,
    /// The service answered with something that is no address of the family.
    Malformed,
    /// The service reported this address.
    Address(A),
}

impl<A> Probe<A> {
    /// The address that the probe found, if it found one.
    pub open spec fn address(self) -> Option<A> {
        match self {
            Probe::Address(a) => Some(a),
            _ => None,
        }
    }

    /// What the probe of the family `family` says of the host: its address
    /// of that family, or that it has none. An answer that is no address is
    /// a failure.
    pub fn settle(self, family: Family) -> (r: Result<Option<A>, DiscoveryError>)
        ensures
            r is Err <==> self is Malformed,
            r matches Err(e) ==> e == DiscoveryError::Malformed(family),
            r matches Ok(address) ==> address == self.address(),
    {
        match self {
            Probe::Unreachable => Ok(None),
            Probe::Malformed => Err(DiscoveryError::Malformed(family)),
            Probe::Address(address) => Ok(Some(address)),
        }
    }
}

/// The host's current public addresses. At least one family is present.
#[derive(Clone, Copy, Debug, PartialEq, Eq)]
pub struct OwnAddresses {
    ipv4: Option<Ipv4Address>,
    ipv6: Option<Ipv6Address>,
}

/// View of [`OwnAddresses`].
pub ghost struct OwnAddressesView {
    pub ipv4: Option<Ipv4Address>,
    pub ipv6: Option<Ipv6Address>,
}

impl OwnAddressesView {
    /// At least one family is present.
    pub open spec fn connected(self) -> bool {
        self.ipv4 is Some || self.ipv6 is Some
    }
}

impl View for OwnAddresses {
    type V = OwnAddressesView;

    closed spec fn view(&self) -> OwnAddressesView {
        OwnAddressesView { ipv4: self.ipv4, ipv6: self.ipv6 }
    }
}

/// What a discovery round makes of its two probes. An answer that is no
/// address fails the round, the IPv4 answer first; so do two probes that
/// both found the service out of reach. One family out of reach is no
/// failure: the host then has no address of that family.
pub open spec fn discovery(
    ipv4: Probe<Ipv4Address>,
    ipv6: Probe<Ipv6Address>,
) -> Result<OwnAddressesView, DiscoveryError> {
    if ipv4 is Malformed {
        Err(DiscoveryError::Malformed(Family::V4))
    } else if ipv6 is Malformed {
        Err(DiscoveryError::Malformed(Family::V6))
    } else if ipv4 is Unreachable && ipv6 is Unreachable {
        Err(DiscoveryError::NoAddress)
    } else {
        Ok(OwnAddressesView { ipv4: ipv4.address(), ipv6: ipv6.address() })
    }
}

impl OwnAddresses {
    #[verifier::type_invariant]
    spec fn well_formed(self) -> bool {
        self.ipv4 is Some || self.ipv6 is Some
    }

    /// The addresses of a host, of which at least one must be present.
    pub fn new(ipv4: Option<Ipv4Address>, ipv6: Option<Ipv6Address>) -> (r: Result<
        OwnAddresses,
        DiscoveryError,
    >)
        ensures
            r is Err <==> ipv4 is None && ipv6 is None,
            r matches Err(e) ==> e == DiscoveryError::NoAddress,
            r matches Ok(addrs) ==> addrs@ == (OwnAddressesView { ipv4, ipv6 }),
    {
        if ipv4.is_none() && ipv6.is_none() {
            Err(DiscoveryError::NoAddress)
        } else {
            Ok(OwnAddresses { ipv4, ipv6 })
        }
    }

    /// The host's IPv4 address, if it has one.
    pub fn ipv4(&self) -> (ip: Option<Ipv4Address>)
        ensures
            ip == self@.ipv4,
            self@.connected(),
    {
        proof {
            use_type_invariant(self);
        }
        self.ipv4
    }

    /// The host's IPv6 address, if it has one.
    pub fn ipv6(&self) -> (ip: Option<Ipv6Address>)
        ensures
            ip == self@.ipv6,
            self@.connected(),
    {
        proof {
            use_type_invariant(self);
        }
        self.ipv6
    }
}

/// View of what a discovery round returns.
pub open spec fn discovered(r: Result<OwnAddresses, DiscoveryError>) -> Result<
    OwnAddressesView,
    DiscoveryError,
> {
    match r {
        Ok(addrs) => Ok(addrs@),
        Err(e) => Err(e),
    }
}

/// Concludes a discovery round from the probes of the two families.
pub fn discover(ipv4: Probe<Ipv4Address>, ipv6: Probe<Ipv6Address>) -> (r: Result<
    OwnAddresses,
    DiscoveryError,
>)
    ensures
        discovered(r) == discovery(ipv4, ipv6),
{
    let v4 = match ipv4.settle(Family::V4) {
        Ok(address) => address,
        Err(e) => {
            return Err(e);
        },
    };
    let v6 = match ipv6.settle(Family::V6) {
        Ok(address) => address,
        Err(e) => {
            return Err(e);
        },
    };
    OwnAddresses::new(v4, v6)
}

/// A host whose addresses were discovered has an address of some family.
pub proof fn lemma_discovery_connected(ipv4: Probe<Ipv4Address>, ipv6: Probe<Ipv6Address>)
    ensures
        discovery(ipv4, ipv6) matches Ok(addrs) ==> addrs.connected(),
        ipv4 is Unreachable && ipv6 is Unreachable ==> discovery(ipv4, ipv6) == Err::<
            OwnAddressesView,
            DiscoveryError,
        >(DiscoveryError::NoAddress),
{
}

} // verus!
