//! Answers to the status pings of Bedrock clients, which come as RakNet datagrams.
use vstd::prelude::*;
use vstd::string::*;
use vstd::utf8::*;

use crate::bedrock::config::BedrockConfig;
use crate::codec::{
    be, be_bytes, be_number, be_value, lemma_be_len, put_bytes, signed, slice_of, to_signed,
};
use crate::text::{
    decimal, decimal_i32, decimal_u64, joined, joined_upto, owned, signed_decimal,
};

verus! {

broadcast use vstd::seq::group_seq_axioms;

pub const RAKNET_UNCONNECTED_PING_ID: u8 = 0x01;

pub const RAKNET_UNCONNECTED_PING_OPEN_ID: u8 = 0x02;

pub const RAKNET_UNCONNECTED_PONG_ID: u8 = 0x1c;

/// The bytes by which RakNet marks messages outside of a connection.
pub const OFFLINE_MESSAGE_MAGIC: [u8; 16] = [
    0x00, 0xff, 0xff, 0x00, 0xfe, 0xfe, 0xfe, 0xfe, 0xfd, 0xfd, 0xfd, 0xfd, 0x12, 0x34, 0x56, 0x78,
];

/// Handler for Bedrock RakNet status pings.
pub struct BedrockStatusHandler {
    pub config: BedrockConfig,
    /// The proxy's own maximum of players
    pub max_players: u32,
    pub guid: u64,
    pub ipv4_port: u16,
    pub ipv6_port: u16,
}

/// `rand::random` of a 64-bit number. Nothing is said of the result: it rests on chance.
#[verifier::external_body]
fn random_guid() -> (r: u64) {
    rand::random()
}

/// The maximum that is shown: the configured one, or the proxy's where that is zero.
pub open spec fn shown_maximum(configured: u32, global: u32) -> u32 {
    if configured == 0 {
        global
    } else {
        configured
    }
}

/// The port behind another, or the last one.
pub open spec fn next_port(port: u16) -> u16 {
    if port == u16::MAX {
        u16::MAX
    } else {
        (port + 1) as u16
    }
}

/// The fields of an advertisement, each with a semicolon behind it.
pub open spec fn advertisement(
    c: BedrockConfig,
    max_players: u32,
    guid: u64,
    ipv4_port: u16,
    ipv6_port: u16,
    online: i32,
) -> Seq<char> {
    "MCPE;"@ + c.motd@ + "\n"@ + c.sub_motd@ + ";"@ + decimal(c.protocol_version as nat) + ";"@
        + c.version_name@ + ";"@ + signed_decimal(online as int) + ";"@ + decimal(
        shown_maximum(c.max_players, max_players) as nat,
    ) + ";"@ + decimal(guid as nat) + ";"@ + c.level_name@ + ";"@ + c.game_mode@ + ";"@ + decimal(
        c.game_mode_id as nat,
    ) + ";"@ + decimal(ipv4_port as nat) + ";"@ + decimal(ipv6_port as nat) + ";0;"@
}

/// The time of a ping: it has a known number, a time, the mark, and the client's number.
pub open spec fn ping_time(data: Seq<u8>) -> Option<u64> {
    if data.len() >= 33 && (data[0] == RAKNET_UNCONNECTED_PING_ID || data[0]
        == RAKNET_UNCONNECTED_PING_OPEN_ID) && data.subrange(9, 25) == OFFLINE_MESSAGE_MAGIC@ {
        Some(be_value(data.subrange(1, 9)) as u64)
    } else {
        None
    }
}

/// The answer to a ping: its time, the proxy's number, the mark, and the advertisement with its
/// length in two bytes before it.
pub open spec fn pong(time: u64, guid: u64, text: Seq<char>) -> Seq<u8> {
    seq![RAKNET_UNCONNECTED_PONG_ID] + be(time as nat, 8) + be(guid as nat, 8)
        + OFFLINE_MESSAGE_MAGIC@ + be(encode_utf8(text).len(), 2) + encode_utf8(text)
}

impl BedrockStatusHandler {
    pub open spec fn text(&self, online: usize) -> Seq<char> {
        advertisement(
            self.config,
            self.max_players,
            self.guid,
            self.ipv4_port,
            self.ipv6_port,
            signed(online as nat),
        )
    }

    /// A handler: without a configured number the proxy gets one by chance.
    pub fn new(config: BedrockConfig, max_players: u32, ipv4_port: u16) -> (r: Self)
        ensures
            r.config == config,
            r.max_players == max_players,
            r.ipv4_port == ipv4_port,
            r.ipv6_port == next_port(ipv4_port),
            config.server_guid != 0 ==> r.guid == config.server_guid,
    {
        BedrockStatusHandler::with_drawn(config, max_players, ipv4_port, random_guid())
    }

    /// A handler: without a configured number the proxy gets the one that was drawn.
    pub fn with_drawn(config: BedrockConfig, max_players: u32, ipv4_port: u16, drawn: u64) -> (r:
        Self)
        ensures
            r.config == config,
            r.max_players == max_players,
            r.ipv4_port == ipv4_port,
            r.ipv6_port == next_port(ipv4_port),
            r.guid == (if config.server_guid != 0 {
                config.server_guid
            } else {
                drawn
            }),
    {
        let guid: u64 = if config.server_guid != 0 {
            config.server_guid
        } else {
            drawn
        };
        BedrockStatusHandler {
            config,
            max_players,
            guid,
            ipv4_port,
            ipv6_port: if ipv4_port == u16::MAX {
                ipv4_port
            } else {
                ipv4_port + 1
            },
        }
    }

    /// The advertisement for a number of players.
    pub fn build_advertisement_string(&self, online_players: usize) -> (r: String)
        ensures
            r@ == self.text(online_players),
    {
        let c = &self.config;
        let maximum: u32 = if c.max_players == 0 {
            self.max_players
        } else {
            c.max_players
        };
        let mut r = owned("MCPE;");
        r.append(c.motd.as_str());
        r.append("\n");
        r.append(c.sub_motd.as_str());
        r.append(";");
        r.append(decimal_u64(c.protocol_version as u64).as_str());
        r.append(";");
        r.append(c.version_name.as_str());
        r.append(";");
        r.append(decimal_i32(to_signed(online_players as u64)).as_str());
        r.append(";");
        r.append(decimal_u64(maximum as u64).as_str());
        r.append(";");
        r.append(decimal_u64(self.guid).as_str());
        r.append(";");
        r.append(c.level_name.as_str());
        r.append(";");
        r.append(c.game_mode.as_str());
        r.append(";");
        r.append(decimal_u64(c.game_mode_id as u64).as_str());
        r.append(";");
        r.append(decimal_u64(self.ipv4_port as u64).as_str());
        r.append(";");
        r.append(decimal_u64(self.ipv6_port as u64).as_str());
        r.append(";0;");
        r
    }

    /// Answers a datagram if it is a ping. An advertisement whose length does not fit into two
    /// bytes cannot be sent.
    pub fn handle_packet(&self, data: &[u8], online_players: usize) -> (r: Option<Vec<u8>>)
        ensures
            r is Some <==> ping_time(data@) is Some && encode_utf8(self.text(online_players)).len()
                <= 0xffff,
            r matches Some(v) ==> v@ == pong(
                ping_time(data@)->Some_0,
                self.guid,
                self.text(online_players),
            ),
    {
        if data.len() < 33 {
            return None;
        }
        if data[0] != RAKNET_UNCONNECTED_PING_ID && data[0] != RAKNET_UNCONNECTED_PING_OPEN_ID {
            return None;
        }
        let mark = slice_of(data, 9, 25);
        let magic: [u8; 16] = OFFLINE_MESSAGE_MAGIC;
        let mut i: usize = 0;
        while i < 16
            invariant
                i <= 16,
                mark@.len() == 16,
                mark@ == data@.subrange(9, 25),
                data@.len() >= 33,
                magic@ == OFFLINE_MESSAGE_MAGIC@,
                forall|j: int| 0 <= j < i ==> mark@[j] == magic@[j],
            decreases 16 - i,
        {
            if mark[i] != magic[i] {
                assert(data@.subrange(9, 25)[i as int] != OFFLINE_MESSAGE_MAGIC@[i as int]);
                return None;
            }
            i = i + 1;
        }
        assert(mark@ == OFFLINE_MESSAGE_MAGIC@);
        let time: u64 = be_number(data, 1, 9);
        let ad = self.build_advertisement_string(online_players);
        let bytes = ad.as_str().as_bytes();
        if bytes.len() > 0xffff {
            return None;
        }
        let mut out: Vec<u8> = Vec::new();
        out.push(RAKNET_UNCONNECTED_PONG_ID);
        assert(out@ =~= seq![RAKNET_UNCONNECTED_PONG_ID]);
        put_bytes(&mut out, be_bytes(time as u128, 8).as_slice());
        put_bytes(&mut out, be_bytes(self.guid as u128, 8).as_slice());
        put_bytes(&mut out, magic.as_slice());
        put_bytes(&mut out, be_bytes(bytes.len() as u128, 2).as_slice());
        put_bytes(&mut out, bytes);
        Some(out)
    }

    /// The number by which the proxy is known to RakNet.
    pub fn server_guid(&self) -> (r: u64)
        ensures
            r == self.guid,
    {
        self.guid
    }
}

/// A pong gives back the ping's time, and the mark where a client looks for it.
pub proof fn law_pong_echoes_time(data: Seq<u8>, guid: u64, text: Seq<char>)
    requires
        ping_time(data) is Some,
    ensures
        pong(ping_time(data)->Some_0, guid, text)[0] == RAKNET_UNCONNECTED_PONG_ID,
        pong(ping_time(data)->Some_0, guid, text).subrange(1, 9) == data.subrange(1, 9),
        pong(ping_time(data)->Some_0, guid, text).subrange(17, 33) == OFFLINE_MESSAGE_MAGIC@,
{
    let time = ping_time(data)->Some_0;
    let t = data.subrange(1, 9);
    crate::codec::law_be_round_trip(t);
    lemma_be_len(time as nat, 8);
    lemma_be_len(guid as nat, 8);
    assert(be_value(t) <= u64::MAX) by {
        reveal_with_fuel(be_value, 9);
    }
    let p = pong(time, guid, text);
    assert(p.subrange(1, 9) =~= be(time as nat, 8));
    assert(p.subrange(17, 33) =~= OFFLINE_MESSAGE_MAGIC@);
}

/// A maximum of zero stands for the proxy's own, any other for itself; the second port is the next
/// one, where there is one.
pub proof fn law_shown_numbers(configured: u32, global: u32, port: u16)
    ensures
        configured > 0 ==> shown_maximum(configured, global) == configured,
        shown_maximum(0, global) == global,
        port < u16::MAX ==> next_port(port) == port + 1,
        next_port(u16::MAX) == u16::MAX,
{
}

/// An advertisement is read field by field between semicolons: the edition, both lines, the
/// protocol and its name, how many players are there and may be, the proxy's number, the level, the
/// mode and its number, and both ports.
pub proof fn law_advertisement_fields(
    c: BedrockConfig,
    max_players: u32,
    guid: u64,
    ipv4_port: u16,
    ipv6_port: u16,
    online: i32,
)
    ensures
        advertisement(c, max_players, guid, ipv4_port, ipv6_port, online) == joined(
            seq![
                "MCPE"@,
                c.motd@ + "\n"@ + c.sub_motd@,
                decimal(c.protocol_version as nat),
                c.version_name@,
                signed_decimal(online as int),
                decimal(
                    if c.max_players == 0 {
                        max_players as nat
                    } else {
                        c.max_players as nat
                    },
                ),
                decimal(guid as nat),
                c.level_name@,
                c.game_mode@,
                decimal(c.game_mode_id as nat),
                decimal(ipv4_port as nat),
                decimal(ipv6_port as nat),
                "0"@,
                ""@,
            ],
            ";"@,
        ),
{
    let f = seq![
        "MCPE"@,
        c.motd@ + "\n"@ + c.sub_motd@,
        decimal(c.protocol_version as nat),
        c.version_name@,
        signed_decimal(online as int),
        decimal(
            if c.max_players == 0 {
                max_players as nat
            } else {
                c.max_players as nat
            },
        ),
        decimal(guid as nat),
        c.level_name@,
        c.game_mode@,
        decimal(c.game_mode_id as nat),
        decimal(ipv4_port as nat),
        decimal(ipv6_port as nat),
        "0"@,
        ""@,
    ];
    let s = ";"@;
    reveal_strlit("MCPE;");
    reveal_strlit("MCPE");
    reveal_strlit(";");
    reveal_strlit(";0;");
    reveal_strlit("0");
    reveal_strlit("");
    assert("MCPE;"@ =~= "MCPE"@ + s);
    assert(";0;"@ =~= s + "0"@ + s);
    let j1 = joined_upto(f, s, 1);
    assert(j1 == "MCPE"@);
    let j2 = joined_upto(f, s, 2);
    assert(j2 == j1 + s + f[1]);
    assert(j2 =~= "MCPE;"@ + c.motd@ + "\n"@ + c.sub_motd@);
    let j3 = joined_upto(f, s, 3);
    assert(j3 == j2 + s + f[2]);
    let j4 = joined_upto(f, s, 4);
    assert(j4 == j3 + s + f[3]);
    let j5 = joined_upto(f, s, 5);
    assert(j5 == j4 + s + f[4]);
    let j6 = joined_upto(f, s, 6);
    assert(j6 == j5 + s + f[5]);
    let j7 = joined_upto(f, s, 7);
    assert(j7 == j6 + s + f[6]);
    let j8 = joined_upto(f, s, 8);
    assert(j8 == j7 + s + f[7]);
    let j9 = joined_upto(f, s, 9);
    assert(j9 == j8 + s + f[8]);
    let j10 = joined_upto(f, s, 10);
    assert(j10 == j9 + s + f[9]);
    let j11 = joined_upto(f, s, 11);
    assert(j11 == j10 + s + f[10]);
    let j12 = joined_upto(f, s, 12);
    assert(j12 == j11 + s + f[11]);
    let j13 = joined_upto(f, s, 13);
    assert(j13 == j12 + s + f[12]);
    let j14 = joined_upto(f, s, 14);
    assert(j14 == j13 + s + f[13]);
    assert(j14 =~= j12 + (s + "0"@ + s));
}

/// A datagram is a ping where it has one of the two numbers, room for time, mark and number, and
/// the mark in its place.
pub proof fn law_pings_are_recognised(data: Seq<u8>)
    ensures
        ping_time(data) is Some <==> data.len() >= 33 && (data[0] == 1 || data[0] == 2)
            && data.subrange(9, 25) == seq![
            0x00u8,
            0xff,
            0xff,
            0x00,
            0xfe,
            0xfe,
            0xfe,
            0xfe,
            0xfd,
            0xfd,
            0xfd,
            0xfd,
            0x12,
            0x34,
            0x56,
            0x78,
        ],
        ping_time(data) matches Some(t) ==> be(t as nat, 8) == data.subrange(1, 9),
{
    assert(OFFLINE_MESSAGE_MAGIC@ =~= seq![
        0x00u8,
        0xff,
        0xff,
        0x00,
        0xfe,
        0xfe,
        0xfe,
        0xfe,
        0xfd,
        0xfd,
        0xfd,
        0xfd,
        0x12,
        0x34,
        0x56,
        0x78,
    ]);
    if data.len() >= 33 {
        let t = data.subrange(1, 9);
        crate::codec::law_be_round_trip(t);
        assert(be_value(t) <= u64::MAX) by {
            reveal_with_fuel(be_value, 9);
        }
    }
}

/// A pong holds the proxy's number behind the time, and behind the mark the advertisement with its
/// length in two bytes before it.
pub proof fn law_pong_layout(time: u64, guid: u64, text: Seq<char>)
    ensures
        ({
            let p = pong(time, guid, text);
            &&& p.subrange(9, 17) == be(guid as nat, 8)
            &&& p.subrange(33, 35) == be(encode_utf8(text).len(), 2)
            &&& p.skip(35) == encode_utf8(text)
        }),
{
    lemma_be_len(time as nat, 8);
    lemma_be_len(guid as nat, 8);
    lemma_be_len(encode_utf8(text).len(), 2);
    let p = pong(time, guid, text);
    assert(p.subrange(9, 17) =~= be(guid as nat, 8));
    assert(p.subrange(33, 35) =~= be(encode_utf8(text).len(), 2));
    assert(p.skip(35) =~= encode_utf8(text));
}

/// The advertisement of a handler is that of its own configuration, number and ports, for the
/// players that are there.
pub proof fn law_handler_advertises_itself(h: BedrockStatusHandler, online: usize)
    requires
        online <= i32::MAX,
    ensures
        h.text(online) == advertisement(
            h.config,
            h.max_players,
            h.guid,
            h.ipv4_port,
            h.ipv6_port,
            online as i32,
        ),
{
}

/// A handler keeps its configured number, or takes the drawn one; it answers a datagram exactly
/// where that is a ping and the advertisement fits, with the ping's time and its own number.
pub proof fn law_pings_are_answered(
    c: BedrockConfig,
    max: u32,
    port: u16,
    drawn: u64,
    n: BedrockStatusHandler,
    h: BedrockStatusHandler,
    data: &[u8],
    online: usize,
    ad: String,
    r: Option<Vec<u8>>,
)
    requires
        call_ensures(BedrockStatusHandler::with_drawn, (c, max, port, drawn), n),
        call_ensures(BedrockStatusHandler::build_advertisement_string, (&h, online), ad),
        call_ensures(BedrockStatusHandler::handle_packet, (&h, data, online), r),
    ensures
        c.server_guid != 0 ==> n.guid == c.server_guid,
        c.server_guid == 0 ==> n.guid == drawn,
        n.config == c && n.max_players == max && n.ipv4_port == port && n.ipv6_port == next_port(
            port,
        ),
        ad@ == h.text(online),
        r is Some <==> ping_time(data@) is Some && encode_utf8(ad@).len() <= 0xffff,
        r matches Some(v) ==> v@ == pong(ping_time(data@)->Some_0, h.guid, ad@),
{
}

} // verus!
