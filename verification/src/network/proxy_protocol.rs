//! The PROXY protocol: how an upstream proxy tells where a client comes from.
use vstd::prelude::*;
use vstd::string::*;
use vstd::utf8::*;

use crate::codec::{be_number, be_value, put_bytes, slice_of};
use crate::network::address::{IpAddress, SocketAddress};
use crate::text::{
    cat2, cat3, decimal, decimal_u64, owned, pieces, split_at_each, string_from_utf8, text_eq,
    texts, u16_of,
};

verus! {

broadcast use vstd::seq::group_seq_axioms;

pub const PROXY_V2_MAGIC: [u8; 12] = [
    0x0D, 0x0A, 0x0D, 0x0A, 0x00, 0x0D, 0x0A, 0x51, 0x55, 0x49, 0x54, 0x0A,
];

/// Most bytes that are read of a text header in search of its end.
pub const PROXY_V1_LIMIT: usize = 108;

/// Most bytes that one read asks for.
pub const READ_LIMIT: usize = 512;

/// A client's address, and what was read behind the header.
#[derive(Debug, PartialEq, Eq)]
pub struct ProxyHeaderResult {
    pub client_addr: SocketAddress,
    pub leftover_bytes: Vec<u8>,
}

/// What is wrong with a header.
#[derive(Debug, PartialEq, Eq)]
pub enum ProxyError<S = String> {
    ClosedBeforeHeader,
    UnknownHeader,
    V1TooLong,
    V1Closed,
    V1NotText,
    V1BadPrefix,
    V1Incomplete(S),
    /// A source address that is none, and why
    V1BadIp(S, S),
    /// A source port that is none, and why
    V1BadPort(S, S),
    V1Unsupported(S),
    V2FixedClosed,
    V2BadVersion(u8),
    V2BodyClosed,
    V2BadCommand(u8),
    V2TruncatedV4,
    V2TruncatedV6,
}

pub type ProxyErrorModel = ProxyError<Seq<char>>;

impl View for ProxyError {
    type V = ProxyErrorModel;

    open spec fn view(&self) -> ProxyErrorModel {
        match self {
            ProxyError::ClosedBeforeHeader => ProxyError::ClosedBeforeHeader,
            ProxyError::UnknownHeader => ProxyError::UnknownHeader,
            ProxyError::V1TooLong => ProxyError::V1TooLong,
            ProxyError::V1Closed => ProxyError::V1Closed,
            ProxyError::V1NotText => ProxyError::V1NotText,
            ProxyError::V1BadPrefix => ProxyError::V1BadPrefix,
            ProxyError::V1Incomplete(s) => ProxyError::V1Incomplete(s@),
            ProxyError::V1BadIp(s, e) => ProxyError::V1BadIp(s@, e@),
            ProxyError::V1BadPort(s, e) => ProxyError::V1BadPort(s@, e@),
            ProxyError::V1Unsupported(s) => ProxyError::V1Unsupported(s@),
            ProxyError::V2FixedClosed => ProxyError::V2FixedClosed,
            ProxyError::V2BadVersion(n) => ProxyError::V2BadVersion(*n),
            ProxyError::V2BodyClosed => ProxyError::V2BodyClosed,
            ProxyError::V2BadCommand(n) => ProxyError::V2BadCommand(*n),
            ProxyError::V2TruncatedV4 => ProxyError::V2TruncatedV4,
            ProxyError::V2TruncatedV6 => ProxyError::V2TruncatedV6,
        }
    }
}

pub open spec fn proxy_error_words(e: ProxyErrorModel) -> Seq<char> {
    match e {
        ProxyError::ClosedBeforeHeader => "Stream closed before reading PROXY header"@,
        ProxyError::UnknownHeader => "Unknown or invalid PROXY protocol header"@,
        ProxyError::V1TooLong => "PROXY v1 header exceeded maximum length (107 bytes)"@,
        ProxyError::V1Closed => "EOF reached while reading PROXY v1 header"@,
        ProxyError::V1NotText => "PROXY v1 header is not valid UTF-8"@,
        ProxyError::V1BadPrefix => "Invalid PROXY v1 prefix"@,
        ProxyError::V1Incomplete(s) => "Incomplete PROXY v1 header: '"@ + s + "'"@,
        ProxyError::V1BadIp(s, e) => "Invalid PROXY v1 IP '"@ + s + "': "@ + e,
        ProxyError::V1BadPort(s, e) => "Invalid PROXY v1 port '"@ + s + "': "@ + e,
        ProxyError::V1Unsupported(s) => "Unsupported PROXY v1 protocol: '"@ + s + "'"@,
        ProxyError::V2FixedClosed => "EOF reached while reading PROXY v2 fixed header"@,
        ProxyError::V2BadVersion(n) => "Unsupported PROXY v2 version: "@ + decimal(n as nat),
        ProxyError::V2BodyClosed => "EOF reached while reading PROXY v2 address body"@,
        ProxyError::V2BadCommand(n) => "Unsupported PROXY v2 command: "@ + decimal(n as nat),
        ProxyError::V2TruncatedV4 => "Truncated PROXY v2 IPv4 address block"@,
        ProxyError::V2TruncatedV6 => "Truncated PROXY v2 IPv6 address block"@,
    }
}

impl ProxyError {
    pub fn message(&self) -> (r: String)
        ensures
            r@ == proxy_error_words(self@),
    {
        match self {
            ProxyError::ClosedBeforeHeader => owned("Stream closed before reading PROXY header"),
            ProxyError::UnknownHeader => owned("Unknown or invalid PROXY protocol header"),
            ProxyError::V1TooLong => owned("PROXY v1 header exceeded maximum length (107 bytes)"),
            ProxyError::V1Closed => owned("EOF reached while reading PROXY v1 header"),
            ProxyError::V1NotText => owned("PROXY v1 header is not valid UTF-8"),
            ProxyError::V1BadPrefix => owned("Invalid PROXY v1 prefix"),
            ProxyError::V1Incomplete(s) => cat3("Incomplete PROXY v1 header: '", s.as_str(), "'"),
            ProxyError::V1BadIp(s, e) => {
                let mut r = cat3("Invalid PROXY v1 IP '", s.as_str(), "': ");
                r.append(e.as_str());
                r
            },
            ProxyError::V1BadPort(s, e) => {
                let mut r = cat3("Invalid PROXY v1 port '", s.as_str(), "': ");
                r.append(e.as_str());
                r
            },
            ProxyError::V1Unsupported(s) => {
                cat3("Unsupported PROXY v1 protocol: '", s.as_str(), "'")
            },
            ProxyError::V2FixedClosed => owned("EOF reached while reading PROXY v2 fixed header"),
            ProxyError::V2BadVersion(n) => {
                cat2("Unsupported PROXY v2 version: ", decimal_u64(*n as u64).as_str())
            },
            ProxyError::V2BodyClosed => owned("EOF reached while reading PROXY v2 address body"),
            ProxyError::V2BadCommand(n) => {
                cat2("Unsupported PROXY v2 command: ", decimal_u64(*n as u64).as_str())
            },
            ProxyError::V2TruncatedV4 => owned("Truncated PROXY v2 IPv4 address block"),
            ProxyError::V2TruncatedV6 => owned("Truncated PROXY v2 IPv6 address block"),
        }
    }
}

/// Where a header says that the client is.
#[derive(Debug, PartialEq, Eq)]
pub enum HeaderAddress<S = String> {
    /// Where the connection comes from
    Connection,
    /// Here
    Given(SocketAddress),
    /// At an address and a port that are still text
    Text { ip: S, port: S },
}

pub type HeaderAddressModel = HeaderAddress<Seq<char>>;

impl View for HeaderAddress {
    type V = HeaderAddressModel;

    open spec fn view(&self) -> HeaderAddressModel {
        match self {
            HeaderAddress::Connection => HeaderAddress::Connection,
            HeaderAddress::Given(a) => HeaderAddress::Given(*a),
            HeaderAddress::Text { ip, port } => HeaderAddress::Text { ip: ip@, port: port@ },
        }
    }
}

/// What comes next in reading a header.
#[derive(Debug, PartialEq, Eq)]
pub enum HeaderStep<S = String, B = Vec<u8>> {
    /// Read at most so many bytes
    Read(usize),
    /// The header is complete; these bytes came behind it
    Done(HeaderAddress<S>, B),
    /// The header is refused
    Fail(ProxyError<S>),
}

pub type HeaderStepModel = HeaderStep<Seq<char>, Seq<u8>>;

impl View for HeaderStep {
    type V = HeaderStepModel;

    open spec fn view(&self) -> HeaderStepModel {
        match self {
            HeaderStep::Read(n) => HeaderStep::Read(*n),
            HeaderStep::Done(a, b) => HeaderStep::Done(a@, b@),
            HeaderStep::Fail(e) => HeaderStep::Fail(e@),
        }
    }
}

// ---------------------------------------------------------------------------
// Version 1
// ---------------------------------------------------------------------------

/// The first place of a line's end, or the length of the bytes.
pub open spec fn line_end(b: Seq<u8>) -> int
    decreases b.len(),
{
    if b.len() < 2 {
        b.len() as int
    } else if b[0] == 13 && b[1] == 10 {
        0
    } else {
        1 + line_end(b.skip(1))
    }
}

/// What a header line says.
pub open spec fn v1_address(line: Seq<char>) -> Result<HeaderAddressModel, ProxyErrorModel> {
    let parts = pieces(line, ' ');
    if parts[0] != "PROXY"@ {
        Err(ProxyError::V1BadPrefix)
    } else if parts.len() == 2 && parts[1] == "UNKNOWN"@ {
        Ok(HeaderAddress::Connection)
    } else if parts.len() < 6 {
        Err(ProxyError::V1Incomplete(line))
    } else if parts[1] == "TCP4"@ || parts[1] == "TCP6"@ {
        Ok(HeaderAddress::Text { ip: parts[2], port: parts[4] })
    } else if parts[1] == "UNKNOWN"@ {
        Ok(HeaderAddress::Connection)
    } else {
        Err(ProxyError::V1Unsupported(parts[1]))
    }
}

/// The step for the bytes of a text header: they are read one by one up to the line's end.
pub open spec fn v1_step(b: Seq<u8>) -> HeaderStepModel {
    let end = line_end(b);
    if end >= b.len() {
        if b.len() >= PROXY_V1_LIMIT {
            HeaderStep::Fail(ProxyError::V1TooLong)
        } else {
            HeaderStep::Read(1)
        }
    } else if !valid_utf8(b.take(end)) {
        HeaderStep::Fail(ProxyError::V1NotText)
    } else {
        match v1_address(decode_utf8(b.take(end))) {
            Ok(a) => HeaderStep::Done(a, b.skip(end + 2)),
            Err(e) => HeaderStep::Fail(e),
        }
    }
}

// ---------------------------------------------------------------------------
// Version 2
// ---------------------------------------------------------------------------

/// Bytes of a binary header, as its fixed part tells.
pub open spec fn v2_total(b: Seq<u8>) -> int {
    16 + be_value(b.subrange(14, 16)) as int
}

/// What a complete binary header says.
pub open spec fn v2_address(b: Seq<u8>) -> Result<HeaderAddressModel, ProxyErrorModel> {
    let body = b.subrange(16, v2_total(b));
    let command = b[12] % 16;
    let family = b[13] / 16;
    let protocol = b[13] % 16;
    if command == 0 {
        Ok(HeaderAddress::Connection)
    } else if command != 1 {
        Err(ProxyError::V2BadCommand(command))
    } else if family == 1 && protocol == 1 {
        if body.len() < 12 {
            Err(ProxyError::V2TruncatedV4)
        } else {
            Ok(
                HeaderAddress::Given(
                    SocketAddress {
                        ip: IpAddress::V4(be_value(body.subrange(0, 4)) as u32),
                        port: be_value(body.subrange(8, 10)) as u16,
                    },
                ),
            )
        }
    } else if family == 2 && protocol == 1 {
        if body.len() < 36 {
            Err(ProxyError::V2TruncatedV6)
        } else {
            Ok(
                HeaderAddress::Given(
                    SocketAddress {
                        ip: IpAddress::V6(be_value(body.subrange(0, 16)) as u128),
                        port: be_value(body.subrange(32, 34)) as u16,
                    },
                ),
            )
        }
    } else {
        Ok(HeaderAddress::Connection)
    }
}

pub open spec fn at_most(a: int, b: int) -> int {
    if a < b {
        a
    } else {
        b
    }
}

/// The step for the bytes of a binary header: first its fixed part, then as much as that tells.
pub open spec fn v2_step(b: Seq<u8>) -> HeaderStepModel {
    if b.len() < 16 {
        HeaderStep::Read((16 - b.len()) as usize)
    } else if b[12] / 16 != 2 {
        HeaderStep::Fail(ProxyError::V2BadVersion((b[12] / 16) as u8))
    } else if b.len() < v2_total(b) {
        HeaderStep::Read(at_most(v2_total(b) - b.len(), READ_LIMIT as int) as usize)
    } else {
        match v2_address(b) {
            Ok(a) => HeaderStep::Done(a, b.skip(v2_total(b))),
            Err(e) => HeaderStep::Fail(e),
        }
    }
}

// ---------------------------------------------------------------------------
// Both
// ---------------------------------------------------------------------------

/// Which version the first bytes of a connection announce.
pub open spec fn header_version(first: Seq<u8>) -> Result<bool, ProxyErrorModel> {
    if first.len() == 0 {
        Err(ProxyError::ClosedBeforeHeader)
    } else if first.len() >= 12 && first.take(12) == PROXY_V2_MAGIC@ {
        Ok(true)
    } else if first.len() >= 6 && first.take(6) == v1_magic() {
        Ok(false)
    } else {
        Err(ProxyError::UnknownHeader)
    }
}

/// The step for the bytes of a header of either version.
pub open spec fn header_step(binary: bool, b: Seq<u8>) -> HeaderStepModel {
    if binary {
        v2_step(b)
    } else {
        v1_step(b)
    }
}

/// The bytes of `PROXY ` in ASCII.
pub open spec fn v1_magic() -> Seq<u8> {
    seq![0x50u8, 0x52, 0x4f, 0x58, 0x59, 0x20]
}

fn begins_with_bytes(b: &[u8], head: &[u8]) -> (r: bool)
    ensures
        r == (b@.len() >= head@.len() && b@.take(head@.len() as int) == head@),
{
    if b.len() < head.len() {
        return false;
    }
    let mut i: usize = 0;
    while i < head.len()
        invariant
            i <= head@.len(),
            head@.len() <= b@.len(),
            forall|j: int| 0 <= j < i ==> b@[j] == head@[j],
        decreases head.len() - i,
    {
        if b[i] != head[i] {
            assert(b@.take(head@.len() as int)[i as int] != head@[i as int]);
            return false;
        }
        i = i + 1;
    }
    assert(b@.take(head@.len() as int) == head@);
    true
}

fn find_line_end(b: &[u8]) -> (r: usize)
    ensures
        r == line_end(b@),
        r <= b@.len(),
        r < b@.len() ==> r + 2 <= b@.len(),
{
    let mut i: usize = 0;
    assert(b@.skip(0) == b@);
    while b.len() - i >= 2
        invariant
            i <= b@.len(),
            line_end(b@) == i + line_end(b@.skip(i as int)),
        decreases b.len() - i,
    {
        let ghost rest = b@.skip(i as int);
        assert(rest[0] == b@[i as int] && rest[1] == b@[i + 1]);
        assert(rest.skip(1) == b@.skip(i + 1));
        if b[i] == 13 && b[i + 1] == 10 {
            return i;
        }
        i = i + 1;
    }
    b.len()
}

fn read_v1_line(line: &str) -> (r: Result<HeaderAddress, ProxyError>)
    ensures
        match r {
            Ok(a) => v1_address(line@) == Ok::<HeaderAddressModel, ProxyErrorModel>(a@),
            Err(e) => v1_address(line@) == Err::<HeaderAddressModel, ProxyErrorModel>(e@),
        },
{
    let parts = split_at_each(line, ' ');
    let ghost ps = pieces(line@, ' ');
    let n: usize = parts.len();
    proof {
        assert(ps.len() > 0);
        assert(ps == texts(parts@));
        assert(ps.len() == n);
        assert(ps[0] == parts@[0]@);
        assert(n >= 2 ==> ps[1] == parts@[1]@);
        assert(n >= 6 ==> ps[2] == parts@[2]@ && ps[4] == parts@[4]@);
    }
    if !text_eq(parts[0].as_str(), "PROXY") {
        return Err(ProxyError::V1BadPrefix);
    }
    if n == 2 && text_eq(parts[1].as_str(), "UNKNOWN") {
        return Ok(HeaderAddress::Connection);
    }
    if n < 6 {
        return Err(ProxyError::V1Incomplete(owned(line)));
    }
    if text_eq(parts[1].as_str(), "TCP4") || text_eq(parts[1].as_str(), "TCP6") {
        Ok(HeaderAddress::Text { ip: parts[2].clone(), port: parts[4].clone() })
    } else if text_eq(parts[1].as_str(), "UNKNOWN") {
        Ok(HeaderAddress::Connection)
    } else {
        Err(ProxyError::V1Unsupported(parts[1].clone()))
    }
}

/// Decides on the bytes of a text header.
pub fn parse_proxy_v1(b: &[u8]) -> (r: HeaderStep)
    ensures
        r@ == v1_step(b@),
{
    let end: usize = find_line_end(b);
    if end >= b.len() {
        if b.len() >= PROXY_V1_LIMIT {
            return HeaderStep::Fail(ProxyError::V1TooLong);
        }
        return HeaderStep::Read(1);
    }
    let bytes = slice_of(b, 0, end);
    assert(bytes@ == b@.take(end as int));
    match string_from_utf8(bytes) {
        None => HeaderStep::Fail(ProxyError::V1NotText),
        Some(line) => {
            proof {
                encode_utf8_decode_utf8(line@);
            }
            match read_v1_line(line.as_str()) {
                Ok(a) => {
                    let rest = slice_of(b, end + 2, b.len());
                    assert(rest@ == b@.skip(end + 2));
                    HeaderStep::Done(a, rest)
                },
                Err(e) => HeaderStep::Fail(e),
            }
        },
    }
}

proof fn lemma_be_bound(b: Seq<u8>)
    ensures
        b.len() == 2 ==> be_value(b) < 0x1_0000,
        b.len() == 4 ==> be_value(b) < 0x1_0000_0000,
        b.len() == 8 ==> be_value(b) < 0x1_0000_0000_0000_0000,
{
    reveal_with_fuel(be_value, 9);
}

proof fn lemma_be_split(b: Seq<u8>, k: nat)
    requires
        k <= b.len(),
        b.len() - k <= 8,
    ensures
        be_value(b) == be_value(b.take(k as int)) * vstd::arithmetic::power::pow(
            256,
            (b.len() - k) as nat,
        ) + be_value(b.skip(k as int)),
    decreases b.len() - k,
{
    if k == b.len() {
        assert(b.take(k as int) == b);
        assert(b.skip(k as int) == Seq::<u8>::empty());
        vstd::arithmetic::power::lemma_pow0(256);
    } else {
        let front = b.drop_last();
        lemma_be_split(front, k);
        let m = (b.len() - k) as nat;
        assert(front.take(k as int) == b.take(k as int));
        assert(front.skip(k as int) == b.skip(k as int).drop_last());
        assert(b.skip(k as int).last() == b.last());
        vstd::arithmetic::power::lemma_pow_adds(256, (m - 1) as nat, 1);
        vstd::arithmetic::power::lemma_pow1(256);
        let x = be_value(b.take(k as int)) as int;
        let p = vstd::arithmetic::power::pow(256, (m - 1) as nat);
        assert((x * p + be_value(front.skip(k as int))) * 256 == x * (p * 256) + be_value(
            front.skip(k as int),
        ) * 256) by (nonlinear_arith);
    }
}

/// The number in sixteen bytes.
fn be_u128(b: &[u8], from: usize) -> (r: u128)
    requires
        from + 16 <= b@.len(),
    ensures
        r == be_value(b@.subrange(from as int, from + 16)),
{
    let size: usize = b.len();
    assert(from + 16 <= size);
    let high: u64 = be_number(b, from, from + 8);
    let low: u64 = be_number(b, from + 8, from + 16);
    proof {
        let s = b@.subrange(from as int, from + 16);
        lemma_be_split(s, 8);
        assert(s.take(8) == b@.subrange(from as int, from + 8));
        assert(s.skip(8) == b@.subrange(from + 8, from + 16));
        assert(vstd::arithmetic::power::pow(256, 8) == 0x1_0000_0000_0000_0000) by {
            reveal_with_fuel(vstd::arithmetic::power::pow, 9);
        }
    }
    (high as u128) * 0x1_0000_0000_0000_0000u128 + low as u128
}

/// Decides on the bytes of a binary header.
pub fn parse_proxy_v2(b: &[u8]) -> (r: HeaderStep)
    ensures
        r@ == v2_step(b@),
{
    if b.len() < 16 {
        return HeaderStep::Read(16 - b.len());
    }
    let version: u8 = b[12] / 16;
    if version != 2 {
        return HeaderStep::Fail(ProxyError::V2BadVersion(version));
    }
    let length: u64 = be_number(b, 14, 16);
    proof {
        lemma_be_bound(b@.subrange(14, 16));
    }
    let total: usize = 16 + length as usize;
    if b.len() < total {
        let missing: usize = total - b.len();
        return HeaderStep::Read(
            if missing < READ_LIMIT {
                missing
            } else {
                READ_LIMIT
            },
        );
    }
    let rest = slice_of(b, total, b.len());
    assert(rest@ == b@.skip(total as int));
    let ghost body = b@.subrange(16, total as int);
    let command: u8 = b[12] % 16;
    let family: u8 = b[13] / 16;
    let protocol: u8 = b[13] % 16;
    if command == 0 {
        HeaderStep::Done(HeaderAddress::Connection, rest)
    } else if command != 1 {
        HeaderStep::Fail(ProxyError::V2BadCommand(command))
    } else if family == 1 && protocol == 1 {
        if total - 16 < 12 {
            return HeaderStep::Fail(ProxyError::V2TruncatedV4);
        }
        let ip: u64 = be_number(b, 16, 20);
        let port: u64 = be_number(b, 24, 26);
        proof {
            assert(body.subrange(0, 4) == b@.subrange(16, 20));
            assert(body.subrange(8, 10) == b@.subrange(24, 26));
            lemma_be_bound(b@.subrange(16, 20));
            lemma_be_bound(b@.subrange(24, 26));
        }
        let a = SocketAddress { ip: IpAddress::V4(ip as u32), port: port as u16 };
        HeaderStep::Done(HeaderAddress::Given(a), rest)
    } else if family == 2 && protocol == 1 {
        if total - 16 < 36 {
            return HeaderStep::Fail(ProxyError::V2TruncatedV6);
        }
        let ip: u128 = be_u128(b, 16);
        let port: u64 = be_number(b, 48, 50);
        proof {
            assert(body.subrange(0, 16) == b@.subrange(16, 32));
            assert(body.subrange(32, 34) == b@.subrange(48, 50));
            lemma_be_bound(b@.subrange(48, 50));
        }
        let a = SocketAddress { ip: IpAddress::V6(ip), port: port as u16 };
        HeaderStep::Done(HeaderAddress::Given(a), rest)
    } else {
        HeaderStep::Done(HeaderAddress::Connection, rest)
    }
}

/// A header while it is read.
#[derive(Debug, PartialEq, Eq)]
pub struct HeaderReader {
    pub binary: bool,
    pub buffer: Vec<u8>,
}

impl HeaderReader {
    pub open spec fn next(&self) -> HeaderStepModel {
        header_step(self.binary, self.buffer@)
    }

    /// Begins with the first bytes of a connection, which tell the version.
    pub fn begin(first: Vec<u8>) -> (r: Result<Self, ProxyError>)
        ensures
            match r {
                Ok(h) => header_version(first@) == Ok::<bool, ProxyErrorModel>(h.binary)
                    && h.buffer == first,
                Err(e) => header_version(first@) == Err::<bool, ProxyErrorModel>(e@),
            },
    {
        if first.len() == 0 {
            return Err(ProxyError::ClosedBeforeHeader);
        }
        let text: [u8; 6] = [0x50, 0x52, 0x4f, 0x58, 0x59, 0x20];
        assert(text@ == v1_magic());
        let magic: [u8; 12] = PROXY_V2_MAGIC;
        if begins_with_bytes(first.as_slice(), magic.as_slice()) {
            Ok(HeaderReader { binary: true, buffer: first })
        } else if begins_with_bytes(first.as_slice(), text.as_slice()) {
            Ok(HeaderReader { binary: false, buffer: first })
        } else {
            Err(ProxyError::UnknownHeader)
        }
    }

    /// What to do next.
    pub fn step(&self) -> (r: HeaderStep)
        ensures
            r@ == self.next(),
    {
        if self.binary {
            parse_proxy_v2(self.buffer.as_slice())
        } else {
            parse_proxy_v1(self.buffer.as_slice())
        }
    }

    /// More bytes have come.
    pub fn feed(&mut self, bytes: &[u8])
        ensures
            final(self).binary == old(self).binary,
            final(self).buffer@ == old(self).buffer@ + bytes@,
    {
        put_bytes(&mut self.buffer, bytes);
    }

    /// No more bytes will come.
    pub fn closed(&self) -> (r: ProxyError)
        ensures
            r@ == (if !self.binary {
                ProxyErrorModel::V1Closed
            } else if self.buffer@.len() < 16 {
                ProxyErrorModel::V2FixedClosed
            } else {
                ProxyErrorModel::V2BodyClosed
            }),
    {
        if !self.binary {
            ProxyError::V1Closed
        } else if self.buffer.len() < 16 {
            ProxyError::V2FixedClosed
        } else {
            ProxyError::V2BodyClosed
        }
    }
}

/// What is wrong with a port.
pub uninterp spec fn port_problem(s: Seq<char>) -> Seq<char>;

/// `u16::from_str`: an optional plus sign and decimal digits up to 65535; what is said of
/// anything else depends on the text alone.
#[verifier::external_body]
fn port_from_text(s: &str) -> (r: Result<u16, String>)
    ensures
        match r {
            Ok(p) => u16_of(s@) == Some(p),
            Err(e) => u16_of(s@) is None && e@ == port_problem(s@),
        },
{
    s.parse::<u16>().map_err(|e| e.to_string())
}

/// The result of a header, once the text of its address has been read as one.
pub open spec fn resolved(
    address: HeaderAddressModel,
    leftover: Seq<u8>,
    connection: SocketAddress,
    ip: Result<IpAddress, Seq<char>>,
) -> Result<(SocketAddress, Seq<u8>), ProxyErrorModel> {
    match address {
        HeaderAddress::Connection => Ok((connection, leftover)),
        HeaderAddress::Given(a) => Ok((a, leftover)),
        HeaderAddress::Text { ip: text, port } => match ip {
            Err(e) => Err(ProxyError::V1BadIp(text, e)),
            Ok(addr) => match u16_of(port) {
                Some(p) => Ok((SocketAddress { ip: addr, port: p }, leftover)),
                None => Err(ProxyError::V1BadPort(port, port_problem(port))),
            },
        },
    }
}

/// Finishes a header. `ip` is what came of reading the address of a text header as one; it
/// counts only there.
pub fn resolve_header(
    address: HeaderAddress,
    leftover_bytes: Vec<u8>,
    connection: SocketAddress,
    ip: Result<IpAddress, String>,
) -> (r: Result<ProxyHeaderResult, ProxyError>)
    ensures
        (match r {
            Ok(h) => Ok::<(SocketAddress, Seq<u8>), ProxyErrorModel>(
                (h.client_addr, h.leftover_bytes@),
            ),
            Err(e) => Err::<(SocketAddress, Seq<u8>), ProxyErrorModel>(e@),
        }) == resolved(
            address@,
            leftover_bytes@,
            connection,
            match ip {
                Ok(a) => Ok::<IpAddress, Seq<char>>(a),
                Err(e) => Err::<IpAddress, Seq<char>>(e@),
            },
        ),
{
    match address {
        HeaderAddress::Connection => Ok(
            ProxyHeaderResult { client_addr: connection, leftover_bytes },
        ),
        HeaderAddress::Given(a) => Ok(ProxyHeaderResult { client_addr: a, leftover_bytes }),
        HeaderAddress::Text { ip: text, port } => match ip {
            Err(e) => Err(ProxyError::V1BadIp(text, e)),
            Ok(addr) => match port_from_text(port.as_str()) {
                Ok(p) => Ok(
                    ProxyHeaderResult {
                        client_addr: SocketAddress { ip: addr, port: p },
                        leftover_bytes,
                    },
                ),
                Err(e) => Err(ProxyError::V1BadPort(port, e)),
            },
        },
    }
}

// ---------------------------------------------------------------------------
// Laws of the header
// ---------------------------------------------------------------------------

/// A binary header is never read beyond its end: what is asked for is missing from it.
pub proof fn law_v2_reads_no_further(b: Seq<u8>, n: usize)
    requires
        v2_step(b) == HeaderStepModel::Read(n),
    ensures
        1 <= n <= READ_LIMIT,
        b.len() + n <= (if b.len() < 16 {
            16
        } else {
            v2_total(b)
        }),
{
    if b.len() >= 16 {
        lemma_be_bound(b.subrange(14, 16));
    }
}

/// A text header is read byte by byte, so never beyond its end.
pub proof fn law_v1_reads_one_byte(b: Seq<u8>, n: usize)
    requires
        v1_step(b) == HeaderStepModel::Read(n),
    ensures
        n == 1,
        b.len() < PROXY_V1_LIMIT,
{
}

proof fn lemma_line_end(b: Seq<u8>)
    ensures
        0 <= line_end(b) <= b.len(),
        line_end(b) < b.len() ==> line_end(b) + 2 <= b.len(),
    decreases b.len(),
{
    if b.len() >= 2 && !(b[0] == 13 && b[1] == 10) {
        lemma_line_end(b.skip(1));
    }
}

proof fn lemma_line_end_more(b: Seq<u8>, more: Seq<u8>)
    requires
        line_end(b) < b.len(),
    ensures
        line_end(b + more) == line_end(b),
    decreases b.len(),
{
    if b.len() >= 2 {
        assert((b + more)[0] == b[0] && (b + more)[1] == b[1]);
        if !(b[0] == 13 && b[1] == 10) {
            lemma_line_end_more(b.skip(1), more);
            assert((b + more).skip(1) == b.skip(1) + more);
        }
    }
}

/// A complete header says the same whatever comes behind it, and all that comes behind it is
/// left over: nothing of the client's own data is lost or changed.
pub proof fn law_leftover_is_what_follows(
    b: Seq<u8>,
    more: Seq<u8>,
    a: HeaderAddressModel,
    leftover: Seq<u8>,
)
    ensures
        v1_step(b) == HeaderStepModel::Done(a, leftover) ==> v1_step(b + more)
            == HeaderStepModel::Done(a, leftover + more),
        v2_step(b) == HeaderStepModel::Done(a, leftover) ==> v2_step(b + more)
            == HeaderStepModel::Done(a, leftover + more),
{
    let c = b + more;
    if v1_step(b) == HeaderStepModel::Done(a, leftover) {
        let end = line_end(b);
        lemma_line_end(b);
        lemma_line_end_more(b, more);
        assert(c.take(end) == b.take(end));
        assert(c.skip(end + 2) == b.skip(end + 2) + more);
    }
    if v2_step(b) == HeaderStepModel::Done(a, leftover) {
        assert(c.subrange(14, 16) == b.subrange(14, 16));
        lemma_be_bound(b.subrange(14, 16));
        let total = v2_total(b);
        assert(v2_total(c) == total);
        assert(c.subrange(16, total) == b.subrange(16, total));
        assert(c.skip(total) == b.skip(total) + more);
        assert(c[12] == b[12] && c[13] == b[13]);
    }
}

/// A step once the bytes behind what has been read are there too.
pub open spec fn with_rest(step: HeaderStepModel, rest: Seq<u8>) -> HeaderStepModel {
    match step {
        HeaderStep::Done(a, leftover) => HeaderStep::Done(a, leftover + rest),
        _ => step,
    }
}

/// A header ends within the bytes; a text header within its limit, too.
pub open spec fn header_ends(binary: bool, b: Seq<u8>) -> bool {
    if binary {
        v2_step(b) !is Read
    } else {
        line_end(b) + 2 <= b.len() && line_end(b) + 2 <= PROXY_V1_LIMIT
    }
}

/// Reads a header while its bytes come in pieces: the last step, and the bytes that were not
/// read any more.
pub open spec fn read_in_pieces(binary: bool, buffer: Seq<u8>, reads: Seq<Seq<u8>>) -> (
    HeaderStepModel,
    Seq<u8>,
)
    decreases reads.len(),
{
    let step = header_step(binary, buffer);
    if step is Read && reads.len() > 0 {
        read_in_pieces(binary, buffer + reads[0], reads.skip(1))
    } else {
        (step, reads.flatten())
    }
}

proof fn lemma_line_end_of_prefix(b: Seq<u8>, more: Seq<u8>)
    ensures
        line_end(b) < b.len() || line_end(b + more) + 2 > b.len(),
    decreases b.len(),
{
    let c = b + more;
    if b.len() >= 2 {
        assert(c[0] == b[0] && c[1] == b[1]);
        if !(b[0] == 13 && b[1] == 10) {
            lemma_line_end_of_prefix(b.skip(1), more);
            assert(c.skip(1) == b.skip(1) + more);
        }
    } else {
        lemma_line_end(c);
    }
}

/// The beginning of a header is either not enough yet, or says what the whole says.
proof fn lemma_beginning(binary: bool, b: Seq<u8>, rest: Seq<u8>)
    requires
        header_ends(binary, b + rest),
    ensures
        header_step(binary, b) is Read || with_rest(header_step(binary, b), rest) == header_step(
            binary,
            b + rest,
        ),
{
    let c = b + rest;
    if binary {
        if b.len() >= 16 {
            assert(c[12] == b[12] && c[13] == b[13]);
            assert(c.subrange(14, 16) == b.subrange(14, 16));
            lemma_be_bound(b.subrange(14, 16));
            let total = v2_total(b);
            if b.len() >= total {
                assert(c.subrange(16, total) == b.subrange(16, total));
                assert(c.skip(total) == b.skip(total) + rest);
            }
        }
    } else {
        lemma_line_end(b);
        lemma_line_end_of_prefix(b, rest);
        if line_end(b) < b.len() {
            let end = line_end(b);
            lemma_line_end_more(b, rest);
            assert(c.take(end) == b.take(end));
            assert(c.skip(end + 2) == b.skip(end + 2) + rest);
        }
    }
}

proof fn lemma_read_in_pieces(binary: bool, buffer: Seq<u8>, reads: Seq<Seq<u8>>)
    requires
        header_ends(binary, buffer + reads.flatten()),
    ensures
        ({
            let (step, unread) = read_in_pieces(binary, buffer, reads);
            with_rest(step, unread) == header_step(binary, buffer + reads.flatten())
        }),
    decreases reads.len(),
{
    let all = buffer + reads.flatten();
    lemma_beginning(binary, buffer, reads.flatten());
    if reads.len() == 0 {
        assert(reads.flatten() == Seq::<u8>::empty());
        assert(all == buffer);
        if !binary {
            lemma_line_end(buffer);
        }
    } else {
        assert(reads.skip(1) == reads.drop_first());
        assert(all == (buffer + reads[0]) + reads.skip(1).flatten());
        if header_step(binary, buffer) is Read {
            lemma_read_in_pieces(binary, buffer + reads[0], reads.skip(1));
        }
    }
}

/// However a stream is cut into reads, its header says the same: the address, and the bytes
/// behind the header, left over or unread, which are the client's own. Only the first read has to
/// be long enough to tell the version.
pub proof fn law_cuts_do_not_matter(
    first: Seq<u8>,
    reads: Seq<Seq<u8>>,
    other_first: Seq<u8>,
    other_reads: Seq<Seq<u8>>,
    binary: bool,
)
    requires
        first + reads.flatten() == other_first + other_reads.flatten(),
        header_version(first) == Ok::<bool, ProxyErrorModel>(binary),
        header_version(other_first) is Ok,
        header_ends(binary, first + reads.flatten()),
    ensures
        header_version(other_first) == Ok::<bool, ProxyErrorModel>(binary),
        ({
            let (step, unread) = read_in_pieces(binary, first, reads);
            let (other_step, other_unread) = read_in_pieces(binary, other_first, other_reads);
            &&& step !is Read
            &&& with_rest(step, unread) == with_rest(other_step, other_unread)
            &&& with_rest(step, unread) == header_step(binary, first + reads.flatten())
        }),
{
    let all = first + reads.flatten();
    assert(first[0] == all[0] && other_first[0] == all[0]);
    assert(PROXY_V2_MAGIC@[0] == 0x0D);
    assert(v1_magic()[0] == 0x50);
    if first.len() >= 12 {
        assert(first.take(12)[0] == first[0]);
    }
    if other_first.len() >= 12 {
        assert(other_first.take(12)[0] == other_first[0]);
    }
    if first.len() >= 6 {
        assert(first.take(6)[0] == first[0]);
    }
    if other_first.len() >= 6 {
        assert(other_first.take(6)[0] == other_first[0]);
    }
    lemma_read_in_pieces(binary, first, reads);
    lemma_read_in_pieces(binary, other_first, other_reads);
    if !binary {
        lemma_line_end(all);
    }
}

/// A text header that names a connection gives the source address and the source port of it, the
/// third and the fifth of its six words.
pub proof fn law_v1_gives_the_source(
    tcp6: bool,
    source: Seq<char>,
    target: Seq<char>,
    source_port: Seq<char>,
    target_port: Seq<char>,
)
    requires
        !source.contains(' '),
        !target.contains(' '),
        !source_port.contains(' '),
        !target_port.contains(' '),
    ensures
        ({
            let words = seq![
                "PROXY"@,
                if tcp6 {
                    "TCP6"@
                } else {
                    "TCP4"@
                },
                source,
                target,
                source_port,
                target_port,
            ];
            v1_address(crate::text::joined(words, seq![' '])) == Ok::<
                HeaderAddressModel,
                ProxyErrorModel,
            >(HeaderAddress::Text { ip: source, port: source_port })
        }),
{
    reveal_strlit("PROXY");
    reveal_strlit("TCP4");
    reveal_strlit("TCP6");
    let words = seq![
        "PROXY"@,
        if tcp6 {
            "TCP6"@
        } else {
            "TCP4"@
        },
        source,
        target,
        source_port,
        target_port,
    ];
    crate::text::law_joined_texts_are_its_pieces(words, ' ');
}

/// A header that does not know the client leaves the connection's own address.
pub proof fn law_unknown_source_is_the_connection(line: Seq<char>, b: Seq<u8>)
    ensures
        pieces(line, ' ') == seq!["PROXY"@, "UNKNOWN"@] ==> v1_address(line) == Ok::<
            HeaderAddressModel,
            ProxyErrorModel,
        >(HeaderAddress::Connection),
        b.len() >= 16 && b[12] == 0x20 && b.len() >= v2_total(b) ==> v2_step(b)
            == HeaderStepModel::Done(HeaderAddress::Connection, b.skip(v2_total(b))),
{
    reveal_strlit("PROXY");
    reveal_strlit("UNKNOWN");
}

/// A binary header gives the source address and the source port that its bytes hold, the highest
/// byte first; what follows the header is left over.
pub proof fn law_v2_gives_the_source(b: Seq<u8>)
    requires
        b.len() >= 16,
        b.len() >= 16 + b[14] * 256 + b[15],
        b[12] == 0x21,
    ensures
        ({
            let size = b[14] * 256 + b[15];
            let rest = b.skip(16 + size);
            &&& b[13] == 0x11 && size >= 12 ==> (v2_step(b) matches HeaderStep::Done(
                HeaderAddress::Given(a),
                r,
            ) && r == rest && (a.ip matches IpAddress::V4(n) && n == ((b[16] * 256 + b[17]) * 256
                + b[18]) * 256 + b[19]) && a.port == b[24] * 256 + b[25])
            &&& b[13] == 0x11 && size < 12 ==> v2_step(b) == HeaderStepModel::Fail(
                ProxyError::V2TruncatedV4,
            )
            &&& b[13] == 0x21 && size >= 36 ==> (v2_step(b) matches HeaderStep::Done(
                HeaderAddress::Given(a),
                r,
            ) && r == rest && (a.ip matches IpAddress::V6(n) && n == be_value(b.subrange(16, 32)))
                && a.port == b[48] * 256 + b[49])
            &&& b[13] == 0x21 && size < 36 ==> v2_step(b) == HeaderStepModel::Fail(
                ProxyError::V2TruncatedV6,
            )
            &&& b[13] == 0x00 ==> v2_step(b) == HeaderStepModel::Done(
                HeaderAddress::Connection,
                rest,
            )
        }),
{
    reveal_with_fuel(be_value, 5);
    let s = b.subrange(14, 16);
    assert(s.drop_last().drop_last() == Seq::<u8>::empty());
    assert(be_value(s) == s[0] * 256 + s[1]);
    let size = b[14] * 256 + b[15];
    assert(v2_total(b) == 16 + size);
    let body = b.subrange(16, 16 + size);
    if size >= 12 {
        let ip = body.subrange(0, 4);
        let port = body.subrange(8, 10);
        assert(ip.drop_last().drop_last().drop_last().drop_last() == Seq::<u8>::empty());
        assert(port.drop_last().drop_last() == Seq::<u8>::empty());
        assert(be_value(ip) == ((ip[0] * 256 + ip[1]) * 256 + ip[2]) * 256 + ip[3]);
        assert(be_value(port) == port[0] * 256 + port[1]);
    }
    if size >= 36 {
        let ip = body.subrange(0, 16);
        let port = body.subrange(32, 34);
        assert(ip == b.subrange(16, 32));
        lemma_be_16(ip);
        assert(port.drop_last().drop_last() == Seq::<u8>::empty());
        assert(be_value(port) == port[0] * 256 + port[1]);
    }
}

proof fn lemma_be_16(b: Seq<u8>)
    requires
        b.len() == 16,
    ensures
        be_value(b) <= u128::MAX,
{
    lemma_be_split(b, 8);
    lemma_be_bound(b.take(8));
    lemma_be_bound(b.skip(8));
    assert(vstd::arithmetic::power::pow(256, 8) == 0x1_0000_0000_0000_0000) by {
        reveal_with_fuel(vstd::arithmetic::power::pow, 9);
    }
}

/// A header of another version, or with another command, is refused and named.
pub proof fn law_v2_refuses_strangers(b: Seq<u8>)
    requires
        b.len() >= 16,
    ensures
        b[12] / 16 != 2 ==> v2_step(b) == HeaderStepModel::Fail(
            ProxyError::V2BadVersion((b[12] / 16) as u8),
        ),
        b[12] / 16 == 2 && b.len() >= v2_total(b) && b[12] % 16 > 1 ==> v2_step(b)
            == HeaderStepModel::Fail(ProxyError::V2BadCommand((b[12] % 16) as u8)),
{
}

/// The first bytes tell the version: the twelve bytes of the binary mark, or `PROXY` and a space.
pub proof fn law_first_bytes_tell_the_version(first: Seq<u8>)
    ensures
        header_version(first) == Ok::<bool, ProxyErrorModel>(true) <==> first.len() >= 12
            && first.take(12) == seq![
            0x0Du8,
            0x0A,
            0x0D,
            0x0A,
            0x00,
            0x0D,
            0x0A,
            0x51,
            0x55,
            0x49,
            0x54,
            0x0A,
        ],
        header_version(first) == Ok::<bool, ProxyErrorModel>(false) <==> first.len() >= 6
            && first.take(6) == seq![80u8, 82, 79, 88, 89, 32],
        first.len() == 0 ==> header_version(first) == Err::<bool, ProxyErrorModel>(
            ProxyError::ClosedBeforeHeader,
        ),
{
    let magic = seq![
        0x0Du8,
        0x0A,
        0x0D,
        0x0A,
        0x00,
        0x0D,
        0x0A,
        0x51,
        0x55,
        0x49,
        0x54,
        0x0A,
    ];
    assert(PROXY_V2_MAGIC@ =~= magic);
    assert(seq![80u8, 82, 79, 88, 89, 32] =~= v1_magic());
    if first.len() >= 12 {
        assert(first.take(12)[0] == first[0]);
        assert(first.take(6)[0] == first[0]);
        assert(magic[0] == 0x0D && v1_magic()[0] == 0x50);
    }
}

/// A header that names an address stands for the client there: at the port that its text is, if
/// both can be read. One that names none stands for the connection. What was left over stays.
pub proof fn law_header_resolves_to_the_client(
    text: Seq<char>,
    port: Seq<char>,
    leftover: Seq<u8>,
    connection: SocketAddress,
    given: SocketAddress,
    ip: Result<IpAddress, Seq<char>>,
)
    ensures
        resolved(HeaderAddress::Connection, leftover, connection, ip) == Ok::<_, ProxyErrorModel>(
            (connection, leftover),
        ),
        resolved(HeaderAddress::Given(given), leftover, connection, ip) == Ok::<
            _,
            ProxyErrorModel,
        >((given, leftover)),
        resolved(HeaderAddress::Text { ip: text, port }, leftover, connection, ip) matches Ok(r)
            ==> ip == Ok::<IpAddress, Seq<char>>(r.0.ip) && u16_of(port) == Some(r.0.port) && r.1
            == leftover,
        resolved(HeaderAddress::Text { ip: text, port }, leftover, connection, ip) is Ok
            <==> ip is Ok && u16_of(port) is Some,
{
}

/// A header is read by the version that its first bytes tell, from those bytes on, and finished as
/// the client that it names.
pub proof fn law_headers_are_read(
    first: Vec<u8>,
    h: Result<HeaderReader, ProxyError>,
    reader: HeaderReader,
    s: HeaderStep,
    address: HeaderAddress,
    leftover: Vec<u8>,
    connection: SocketAddress,
    ip: IpAddress,
    r: Result<ProxyHeaderResult, ProxyError>,
)
    requires
        call_ensures(HeaderReader::begin, (first,), h),
        call_ensures(HeaderReader::step, (&reader,), s),
        call_ensures(
            resolve_header,
            (address, leftover, connection, Ok::<IpAddress, String>(ip)),
            r,
        ),
    ensures
        h is Ok <==> header_version(first@) is Ok,
        h matches Ok(x) ==> header_version(first@) == Ok::<bool, ProxyErrorModel>(x.binary)
            && x.buffer@ == first@,
        s@ == header_step(reader.binary, reader.buffer@),
        r matches Ok(x) ==> x.leftover_bytes@ == leftover@ && (match address@ {
            HeaderAddress::Connection => x.client_addr == connection,
            HeaderAddress::Given(a) => x.client_addr == a,
            HeaderAddress::Text { port, .. } => x.client_addr.ip == ip && u16_of(port) == Some(
                x.client_addr.port,
            ),
        }),
        address@ !is Text ==> r is Ok,
{
}

/// An error in words tells what it is about.
pub proof fn law_header_error_tells_its_reason(e: ProxyErrorModel)
    ensures
        e matches ProxyError::V1Incomplete(s) ==> crate::text::holds_part(proxy_error_words(e), s),
        e matches ProxyError::V1Unsupported(s) ==> crate::text::holds_part(proxy_error_words(e), s),
        e matches ProxyError::V1BadIp(s, t) ==> crate::text::holds_part(proxy_error_words(e), s)
            && crate::text::holds_part(proxy_error_words(e), t),
        e matches ProxyError::V1BadPort(s, t) ==> crate::text::holds_part(proxy_error_words(e), s)
            && crate::text::holds_part(proxy_error_words(e), t),
        e matches ProxyError::V2BadVersion(n) ==> crate::text::holds_part(
            proxy_error_words(e),
            decimal(n as nat),
        ),
        e matches ProxyError::V2BadCommand(n) ==> crate::text::holds_part(
            proxy_error_words(e),
            decimal(n as nat),
        ),
{
    let none = Seq::<char>::empty();
    match e {
        ProxyError::V1Incomplete(s) => {
            crate::text::lemma_holds_part("Incomplete PROXY v1 header: '"@, s, "'"@);
        },
        ProxyError::V1Unsupported(s) => {
            crate::text::lemma_holds_part("Unsupported PROXY v1 protocol: '"@, s, "'"@);
        },
        ProxyError::V1BadIp(s, t) => {
            let head = "Invalid PROXY v1 IP '"@;
            crate::text::lemma_holds_part(head, s, "': "@ + t);
            assert(head + s + ("': "@ + t) == head + s + "': "@ + t);
            crate::text::lemma_holds_part(head + s + "': "@, t, none);
        },
        ProxyError::V1BadPort(s, t) => {
            let head = "Invalid PROXY v1 port '"@;
            crate::text::lemma_holds_part(head, s, "': "@ + t);
            assert(head + s + ("': "@ + t) == head + s + "': "@ + t);
            crate::text::lemma_holds_part(head + s + "': "@, t, none);
        },
        ProxyError::V2BadVersion(n) => {
            crate::text::lemma_holds_part(
                "Unsupported PROXY v2 version: "@,
                decimal(n as nat),
                none,
            );
        },
        ProxyError::V2BadCommand(n) => {
            crate::text::lemma_holds_part(
                "Unsupported PROXY v2 command: "@,
                decimal(n as nat),
                none,
            );
        },
        _ => {},
    }
}

/// A text header is refused, and named, where it does not begin as one, has too few words, or is
/// about another protocol.
pub proof fn law_v1_refuses_strangers(words: Seq<Seq<char>>)
    requires
        words.len() > 0,
        forall|i: int| 0 <= i < words.len() ==> !(#[trigger] words[i]).contains(' '),
    ensures
        ({
            let line = crate::text::joined(words, seq![' ']);
            let r = v1_address(line);
            &&& words[0] != "PROXY"@ ==> r == Err::<HeaderAddressModel, _>(
                ProxyErrorModel::V1BadPrefix,
            )
            &&& words[0] == "PROXY"@ && words.len() < 6 && !(words.len() == 2 && words[1]
                == "UNKNOWN"@) ==> r == Err::<HeaderAddressModel, _>(
                ProxyErrorModel::V1Incomplete(line),
            )
            &&& words[0] == "PROXY"@ && words.len() >= 6 && words[1] != "TCP4"@ && words[1]
                != "TCP6"@ && words[1] != "UNKNOWN"@ ==> r == Err::<HeaderAddressModel, _>(
                ProxyErrorModel::V1Unsupported(words[1]),
            )
        }),
{
    crate::text::law_joined_texts_are_its_pieces(words, ' ');
}

/// A text header ends at its first line's end; its line says what it says, and what follows is left
/// over. Without a line's end it is read on, byte by byte, up to its limit.
pub proof fn law_v1_is_one_line(line: Seq<u8>, rest: Seq<u8>)
    requires
        forall|i: int| 0 <= i < line.len() ==> !(#[trigger] line[i] == 13u8),
    ensures
        ({
            let s = v1_step(line + seq![13u8, 10] + rest);
            &&& valid_utf8(line) ==> match v1_address(decode_utf8(line)) {
                Ok(a) => s == HeaderStepModel::Done(a, rest),
                Err(e) => s == HeaderStepModel::Fail(e),
            }
            &&& !valid_utf8(line) ==> s == HeaderStepModel::Fail(ProxyError::V1NotText)
        }),
        line.len() < 108 ==> v1_step(line) == HeaderStepModel::Read(1),
        line.len() >= 108 ==> v1_step(line) == HeaderStepModel::Fail(ProxyError::V1TooLong),
{
    let b = line + seq![13u8, 10] + rest;
    lemma_line_end_at(line, rest);
    lemma_no_line_end(line);
    let end = line.len() as int;
    assert(b.take(end) == line);
    assert(b.skip(end + 2) == rest);
}

proof fn lemma_line_end_at(line: Seq<u8>, rest: Seq<u8>)
    requires
        forall|i: int| 0 <= i < line.len() ==> !(#[trigger] line[i] == 13u8),
    ensures
        line_end(line + seq![13u8, 10] + rest) == line.len(),
    decreases line.len(),
{
    let b = line + seq![13u8, 10] + rest;
    if line.len() > 0 {
        let t = line.skip(1);
        assert(b[0] == line[0]);
        assert(b.skip(1) == t + seq![13u8, 10] + rest);
        assert forall|i: int| 0 <= i < t.len() implies !(#[trigger] t[i] == 13u8) by {
            assert(t[i] == line[i + 1]);
        }
        lemma_line_end_at(t, rest);
    } else {
        assert(b[0] == 13 && b[1] == 10);
    }
}

proof fn lemma_no_line_end(line: Seq<u8>)
    requires
        forall|i: int| 0 <= i < line.len() ==> !(#[trigger] line[i] == 13u8),
    ensures
        line_end(line) == line.len(),
    decreases line.len(),
{
    if line.len() >= 2 {
        let t = line.skip(1);
        assert(line[0] != 13u8);
        assert forall|i: int| 0 <= i < t.len() implies !(#[trigger] t[i] == 13u8) by {
            assert(t[i] == line[i + 1]);
        }
        lemma_no_line_end(t);
    }
}

/// A binary header for any other family or transport than the two that are known leaves the
/// connection's own address; one that is not complete yet is read on.
pub proof fn law_v2_other_kinds(b: Seq<u8>)
    ensures
        b.len() < 16 ==> v2_step(b) == HeaderStepModel::Read((16 - b.len()) as usize),
        b.len() >= 16 && b[12] == 0x21 && b.len() >= v2_total(b) && b[13] != 0x11 && b[13] != 0x21
            ==> v2_step(b) == HeaderStepModel::Done(
            HeaderAddress::Connection,
            b.skip(v2_total(b)),
        ),
        b.len() >= 16 && b[12] / 16 == 2 && b.len() < v2_total(b) ==> v2_step(b) is Read,
{
    if b.len() >= 16 {
        let f = b[13];
        assert(f / 16 == 1 && f % 16 == 1 ==> f == 0x11);
        assert(f / 16 == 2 && f % 16 == 1 ==> f == 0x21);
    }
}

} // verus!
