//! The status that the server list shows, as JSON.
use vstd::prelude::*;
use vstd::string::*;

use crate::client::pong_for;
use crate::codec::{be, be_bytes, be_value, law_be_round_trip, put_text, text, writable};
use crate::config::{BackendConfig, BackendModel, MotdConfig};
use crate::crypto::{hex_digit, uuid_hyphenated, uuid_text};
use crate::status::icon::{clean_host, host_name};
use crate::table::{lookup, Table};
use crate::text::{
    cat3, cat5, decimal, decimal_i32, decimal_u64, holds_part, join, joined, lemma_holds_part,
    opt_text, owned, signed_decimal, texts,
};
use crate::version::ClientVersion;

verus! {

broadcast use vstd::seq::group_seq_axioms;

// ---------------------------------------------------------------------------
// JSON text
// ---------------------------------------------------------------------------

/// A character as it stands in a JSON text.
pub open spec fn json_char(c: char) -> Seq<char> {
    let u = c as nat;
    if c == '"' {
        seq!['\\', '"']
    } else if c == '\\' {
        seq!['\\', '\\']
    } else if u == 8 {
        seq!['\\', 'b']
    } else if u == 9 {
        seq!['\\', 't']
    } else if u == 10 {
        seq!['\\', 'n']
    } else if u == 12 {
        seq!['\\', 'f']
    } else if u == 13 {
        seq!['\\', 'r']
    } else if u < 32 {
        seq!['\\', 'u', '0', '0', hex_digit(u / 16), hex_digit(u % 16)]
    } else {
        seq![c]
    }
}

pub open spec fn json_chars(s: Seq<char>) -> Seq<char>
    decreases s.len(),
{
    if s.len() == 0 {
        Seq::empty()
    } else {
        json_chars(s.drop_last()) + json_char(s.last())
    }
}

/// A JSON text: quotation marks around it, and a backslash before what needs one.
pub open spec fn json_text(s: Seq<char>) -> Seq<char> {
    seq!['"'] + json_chars(s) + seq!['"']
}

/// `serde_json::to_string` of a text. Writing a text to memory does not fail.
#[verifier::external_body]
fn json_string(s: &str) -> (r: Result<String, String>)
    ensures
        r is Ok,
        r matches Ok(t) ==> t@ == json_text(s@),
{
    serde_json::to_string(s).map_err(|e| e.to_string())
}

fn json_of(s: &str) -> (r: String)
    ensures
        r@ == json_text(s@),
{
    match json_string(s) {
        Ok(t) => t,
        Err(e) => e,
    }
}

// ---------------------------------------------------------------------------
// The status
// ---------------------------------------------------------------------------

/// One player of the sample list.
pub open spec fn sample_entry(name: Seq<char>) -> Seq<char> {
    "{\"name\":"@ + json_text(name) + ",\"id\":"@ + json_text(uuid_text(0)) + "}"@
}

pub open spec fn sample_entries(names: Seq<Seq<char>>) -> Seq<Seq<char>> {
    Seq::new(names.len(), |i: int| sample_entry(names[i]))
}

/// The whole status.
pub open spec fn status_json(
    version_name: Seq<char>,
    protocol: i32,
    max_players: u32,
    online: nat,
    sample: Seq<Seq<char>>,
    description: Seq<char>,
    favicon: Option<Seq<char>>,
) -> Seq<char> {
    "{\"version\":{\"name\":"@ + json_text(version_name) + ",\"protocol\":"@ + signed_decimal(
        protocol as int,
    ) + "},\"players\":{\"max\":"@ + decimal(max_players as nat) + ",\"online\":"@ + decimal(online)
        + ",\"sample\":["@ + joined(sample_entries(sample), ","@) + "]},\"description\":{\"text\":"@
        + json_text(description) + "},\"enforceSecureChat\":false"@ + (match favicon {
        Some(uri) => ",\"favicon\":"@ + json_text(uri),
        None => Seq::empty(),
    }) + "}"@
}

pub struct StatusHandler {
    pub motd: MotdConfig,
    pub servers: Table<BackendConfig>,
    pub forced_hosts: Table<String>,
}

pub open spec fn or_line(own: Option<Seq<char>>, global: Seq<char>) -> Seq<char> {
    match own {
        Some(l) => l,
        None => global,
    }
}

/// The description for a host: where the server that it is forced to, or that has its name, has
/// lines of its own, these, each filled up from the global ones.
pub open spec fn motd_for(
    line1: Seq<char>,
    line2: Seq<char>,
    servers: Seq<(Seq<char>, BackendModel)>,
    hosts: Seq<(Seq<char>, Seq<char>)>,
    host: Option<Seq<char>>,
) -> Seq<char> {
    let server = match host {
        Some(h) => match lookup(hosts, host_name(h)) {
            Some(s) => lookup(servers, s),
            None => lookup(servers, host_name(h)),
        },
        None => None,
    };
    match server {
        Some(cfg) => if cfg.motd_line1 is Some || cfg.motd_line2 is Some {
            or_line(cfg.motd_line1, line1) + "\n"@ + or_line(cfg.motd_line2, line2)
        } else {
            line1 + "\n"@ + line2
        },
        None => line1 + "\n"@ + line2,
    }
}

fn line_or<'a>(own: &'a Option<String>, global: &'a String) -> (r: &'a str)
    ensures
        r@ == or_line(opt_text(*own), global@),
{
    match own {
        Some(l) => l.as_str(),
        None => global.as_str(),
    }
}

pub open spec fn opt_host(host: Option<&str>) -> Option<Seq<char>> {
    match host {
        Some(h) => Some(h@),
        None => None,
    }
}

impl StatusHandler {
    pub fn new(
        motd: MotdConfig,
        servers: Table<BackendConfig>,
        forced_hosts: Table<String>,
    ) -> (r: Self)
        ensures
            r.motd == motd,
            r.servers == servers,
            r.forced_hosts == forced_hosts,
    {
        StatusHandler { motd, servers, forced_hosts }
    }

    pub open spec fn description(&self, host: Option<Seq<char>>) -> Seq<char> {
        motd_for(
            self.motd.line1@,
            self.motd.line2@,
            self.servers@,
            self.forced_hosts@,
            host,
        )
    }

    /// The status for a client: a client whose version is not known is shown the configured
    /// protocol number, any other its own.
    pub open spec fn status(
        &self,
        version: ClientVersion,
        host: Option<Seq<char>>,
        online: usize,
        favicon: Option<Seq<char>>,
    ) -> Seq<char> {
        status_json(
            self.motd.version_name@,
            if version.known {
                version.protocol
            } else {
                self.motd.protocol_version
            },
            self.motd.max_players,
            online as nat,
            if self.motd.show_sample_players {
                texts(self.motd.sample_players@)
            } else {
                Seq::empty()
            },
            self.description(host),
            favicon,
        )
    }

    /// Resolves the description for a virtual host.
    pub fn resolve_motd_text(&self, host: Option<&str>) -> (r: String)
        ensures
            r@ == self.description(opt_host(host)),
    {
        match host {
            Some(h) => {
                let name = clean_host(h);
                let found = match self.forced_hosts.get(name.as_str()) {
                    Some(server) => self.servers.get(server.as_str()),
                    None => self.servers.get(name.as_str()),
                };
                match found {
                    Some(cfg) => {
                        if cfg.motd_line1.is_some() || cfg.motd_line2.is_some() {
                            return cat3(
                                line_or(&cfg.motd_line1, &self.motd.line1),
                                "\n",
                                line_or(&cfg.motd_line2, &self.motd.line2),
                            );
                        }
                    },
                    None => {},
                }
            },
            None => {},
        }
        cat3(self.motd.line1.as_str(), "\n", self.motd.line2.as_str())
    }

    fn sample(&self) -> (r: Vec<String>)
        ensures
            texts(r@) == sample_entries(
                if self.motd.show_sample_players {
                    texts(self.motd.sample_players@)
                } else {
                    Seq::empty()
                },
            ),
    {
        let mut r: Vec<String> = Vec::new();
        if self.motd.show_sample_players {
            let ghost names = texts(self.motd.sample_players@);
            let id = json_of(uuid_hyphenated(0).as_str());
            let mut i: usize = 0;
            while i < self.motd.sample_players.len()
                invariant
                    i <= self.motd.sample_players@.len(),
                    names == texts(self.motd.sample_players@),
                    id@ == json_text(uuid_text(0)),
                    r@.len() == i,
                    forall|j: int| 0 <= j < i ==> r@[j]@ == sample_entry(names[j]),
                decreases self.motd.sample_players.len() - i,
            {
                let name = json_of(self.motd.sample_players[i].as_str());
                r.push(cat5("{\"name\":", name.as_str(), ",\"id\":", id.as_str(), "}"));
                i = i + 1;
            }
            assert(texts(r@) == sample_entries(names));
        } else {
            assert(texts(r@) == sample_entries(Seq::empty()));
        }
        r
    }

    /// Builds the JSON status. `favicon` is the data URI of the icon for the virtual host.
    pub fn build_status_response(
        &self,
        client_version: ClientVersion,
        virtual_host: Option<&str>,
        online_players: usize,
        favicon: Option<&str>,
    ) -> (r: String)
        ensures
            r@ == self.status(
                client_version,
                opt_host(virtual_host),
                online_players,
                opt_host(favicon),
            ),
    {
        let protocol: i32 = if client_version.known {
            client_version.protocol
        } else {
            self.motd.protocol_version
        };
        let mut r = owned("{\"version\":{\"name\":");
        r.append(json_of(self.motd.version_name.as_str()).as_str());
        r.append(",\"protocol\":");
        r.append(decimal_i32(protocol).as_str());
        r.append("},\"players\":{\"max\":");
        r.append(decimal_u64(self.motd.max_players as u64).as_str());
        r.append(",\"online\":");
        r.append(decimal_u64(online_players as u64).as_str());
        r.append(",\"sample\":[");
        r.append(join(&self.sample(), ",").as_str());
        r.append("]},\"description\":{\"text\":");
        r.append(json_of(self.resolve_motd_text(virtual_host).as_str()).as_str());
        r.append("},\"enforceSecureChat\":false");
        let ghost before = r@;
        match favicon {
            Some(uri) => {
                r.append(",\"favicon\":");
                r.append(json_of(uri).as_str());
                assert(r@ =~= before + (",\"favicon\":"@ + json_text(uri@)));
            },
            None => {
                assert(before + Seq::<char>::empty() =~= before);
            },
        }
        r.append("}");
        r
    }
}

/// The body of a pong: its number in eight bytes.
pub open spec fn pong_body(payload: i64) -> Seq<u8> {
    be(
        if payload < 0 {
            (payload + 0x1_0000_0000_0000_0000) as nat
        } else {
            payload as nat
        },
        8,
    )
}

impl StatusHandler {
    /// The body of the packet that answers a status request. A status whose length a VarInt
    /// cannot hold cannot be sent.
    pub fn create_status_packet(
        &self,
        client_version: ClientVersion,
        virtual_host: Option<&str>,
        online_players: usize,
        favicon: Option<&str>,
    ) -> (r: Option<Vec<u8>>)
        ensures
            ({
                let json = self.status(
                    client_version,
                    opt_host(virtual_host),
                    online_players,
                    opt_host(favicon),
                );
                &&& r is Some <==> writable(json)
                &&& r matches Some(v) ==> v@ == text(json)
            }),
    {
        let json = self.build_status_response(
            client_version,
            virtual_host,
            online_players,
            favicon,
        );
        let mut out: Vec<u8> = Vec::new();
        if put_text(&mut out, json.as_str()) {
            assert(out@ =~= text(json@));
            Some(out)
        } else {
            None
        }
    }

    /// The body of the packet that answers a ping.
    pub fn create_pong_packet(payload: i64) -> (r: Vec<u8>)
        ensures
            r@ == pong_body(payload),
    {
        let n: i128 = if payload < 0 {
            (payload as i128) + 0x1_0000_0000_0000_0000i128
        } else {
            payload as i128
        };
        be_bytes(n as u128, 8)
    }
}

// ---------------------------------------------------------------------------
// Laws of the status
// ---------------------------------------------------------------------------

/// A JSON text holds no control character, whatever the text.
pub proof fn law_json_text_is_plain(s: Seq<char>)
    ensures
        forall|i: int| 0 <= i < json_text(s).len() ==> (#[trigger] json_text(s)[i]) as u32 >= 32,
    decreases s.len(),
{
    lemma_json_chars(s);
    let t = json_text(s);
    let body = json_chars(s);
    assert forall|i: int| 0 <= i < t.len() implies (#[trigger] t[i]) as u32 >= 32 by {
        if 0 < i < t.len() - 1 {
            assert(t[i] == body[i - 1]);
        }
    }
}

proof fn lemma_json_char(c: char)
    ensures
        forall|i: int| 0 <= i < json_char(c).len() ==> (#[trigger] json_char(c)[i]) as u32 >= 32,
{
    let u = c as nat;
    if u < 32 {
        assert(hex_digit(u / 16) as u32 >= 32);
        assert(hex_digit(u % 16) as u32 >= 32);
    }
}

proof fn lemma_json_chars(s: Seq<char>)
    ensures
        forall|i: int| 0 <= i < json_chars(s).len() ==> (#[trigger] json_chars(s)[i]) as u32 >= 32,
    decreases s.len(),
{
    if s.len() > 0 {
        let front = json_chars(s.drop_last());
        let last = json_char(s.last());
        lemma_json_chars(s.drop_last());
        lemma_json_char(s.last());
        let all = json_chars(s);
        assert forall|i: int| 0 <= i < all.len() implies (#[trigger] all[i]) as u32 >= 32 by {
            if i < front.len() {
                assert(all[i] == front[i]);
            } else {
                assert(all[i] == last[i - front.len()]);
            }
        }
    }
}

/// A pong gives a ping its own number back, byte for byte.
pub proof fn law_pong_echoes_ping(id: i32, body: Seq<u8>)
    requires
        pong_for(id, body) is Some,
    ensures
        pong_body(pong_for(id, body)->Some_0) == body.take(8),
{
    let b = body.take(8);
    law_be_round_trip(b);
    assert(be_value(b) <= u64::MAX) by {
        reveal_with_fuel(be_value, 9);
    }
}

/// The status tells what it is for: the version's name and number, how many players there may be
/// and are, each player of the sample, the description, and the icon where there is one.
pub proof fn law_status_tells_everything(
    version_name: Seq<char>,
    protocol: i32,
    max_players: u32,
    online: nat,
    sample: Seq<Seq<char>>,
    description: Seq<char>,
    favicon: Option<Seq<char>>,
)
    ensures
        ({
            let s = status_json(
                version_name,
                protocol,
                max_players,
                online,
                sample,
                description,
                favicon,
            );
            &&& holds_part(
                s,
                "{\"version\":{\"name\":"@ + json_text(version_name) + ",\"protocol\":"@
                    + signed_decimal(protocol as int) + "},\"players\":{\"max\":"@ + decimal(
                    max_players as nat,
                ) + ",\"online\":"@ + decimal(online) + ",\"sample\":["@,
            )
            &&& forall|i: int|
                0 <= i < sample.len() ==> holds_part(
                    s,
                    "{\"name\":"@ + json_text(#[trigger] sample[i]) + ",\"id\":"@,
                )
            &&& holds_part(s, "\"description\":{\"text\":"@ + json_text(description) + "}"@)
            &&& favicon matches Some(uri) ==> holds_part(s, ",\"favicon\":"@ + json_text(uri))
        }),
{
    let empty = Seq::<char>::empty();
    let head = "{\"version\":{\"name\":"@ + json_text(version_name) + ",\"protocol\":"@
        + signed_decimal(protocol as int) + "},\"players\":{\"max\":"@ + decimal(
        max_players as nat,
    ) + ",\"online\":"@ + decimal(online) + ",\"sample\":["@;
    let list = joined(sample_entries(sample), ","@);
    let mid = "]},\"description\":{\"text\":"@;
    let text = json_text(description);
    let end = "},\"enforceSecureChat\":false"@;
    let icon = match favicon {
        Some(uri) => ",\"favicon\":"@ + json_text(uri),
        None => empty,
    };
    let s = status_json(version_name, protocol, max_players, online, sample, description, favicon);
    assert(s == head + list + mid + text + end + icon + "}"@);
    assert forall|i: int| 0 <= i < sample.len() implies holds_part(
        s,
        "{\"name\":"@ + json_text(#[trigger] sample[i]) + ",\"id\":"@,
    ) by {
        lemma_sample_is_listed(sample, i);
        let label = "{\"name\":"@ + json_text(sample[i]) + ",\"id\":"@;
        lemma_parts(head, list, mid, text, end, icon, "}"@, label);
    }
    let label = "\"description\":{\"text\":"@;
    lemma_labels();
    lemma_described(head + list, mid.take(3), label, text, "}"@, end.skip(1), icon + "}"@);
    assert(head + list + (mid.take(3) + label) + text + ("}"@ + end.skip(1)) + (icon + "}"@)
        == head + list + mid + text + end + icon + "}"@);
    lemma_holds_part(empty, list, empty);
    assert(empty + list + empty == list);
    lemma_parts(head, list, mid, text, end, icon, "}"@, list);
}

proof fn lemma_labels()
    ensures
        ({
            let mid = "]},\"description\":{\"text\":"@;
            let end = "},\"enforceSecureChat\":false"@;
            mid == mid.take(3) + "\"description\":{\"text\":"@ && end == "}"@ + end.skip(1)
        }),
{
    reveal_strlit("]},\"description\":{\"text\":");
    reveal_strlit("\"description\":{\"text\":");
    reveal_strlit("},\"enforceSecureChat\":false");
    reveal_strlit("}");
    let mid = "]},\"description\":{\"text\":"@;
    let end = "},\"enforceSecureChat\":false"@;
    assert(mid =~= mid.take(3) + "\"description\":{\"text\":"@);
    assert(end =~= "}"@ + end.skip(1));
}

proof fn lemma_sample_is_listed(sample: Seq<Seq<char>>, i: int)
    requires
        0 <= i < sample.len(),
    ensures
        holds_part(
            joined(sample_entries(sample), ","@),
            "{\"name\":"@ + json_text(sample[i]) + ",\"id\":"@,
        ),
{
    let empty = Seq::<char>::empty();
    let label = "{\"name\":"@ + json_text(sample[i]) + ",\"id\":"@;
    let rest = json_text(uuid_text(0)) + "}"@;
    let entry = sample_entries(sample)[i];
    assert(entry == label + json_text(uuid_text(0)) + "}"@);
    assert(entry =~= empty + label + rest);
    lemma_holds_part(empty, label, rest);
    crate::text::law_joined_holds_each(sample_entries(sample), ","@, i);
    lemma_holds_through(joined(sample_entries(sample), ","@), entry, label);
}

proof fn lemma_parts(
    a: Seq<char>,
    b: Seq<char>,
    c: Seq<char>,
    d: Seq<char>,
    e: Seq<char>,
    f: Seq<char>,
    g: Seq<char>,
    part: Seq<char>,
)
    requires
        holds_part(b, part),
    ensures
        holds_part(a + b + c + d + e + f + g, a),
        holds_part(a + b + c + d + e + f + g, part),
        holds_part(a + b + c + d + e + f + g, f),
{
    let empty = Seq::<char>::empty();
    let rest = c + d + e + f + g;
    assert(a + b + rest =~= a + b + c + d + e + f + g);
    assert(empty + a + (b + rest) =~= a + b + rest);
    lemma_holds_part(empty, a, b + rest);
    crate::text::lemma_part_of_part(a, b, rest, part);
    lemma_holds_part(a + b + c + d + e, f, g);
}

proof fn lemma_described(
    a: Seq<char>,
    b: Seq<char>,
    label: Seq<char>,
    text: Seq<char>,
    close: Seq<char>,
    d: Seq<char>,
    e: Seq<char>,
)
    ensures
        holds_part(a + (b + label) + text + (close + d) + e, label + text + close),
{
    let part = label + text + close;
    let head = a + b;
    lemma_holds_part(head, part, d + e);
    lemma_regrouped(a, b, label);
    lemma_regrouped(head, label, text);
    lemma_regrouped(head, label + text, close);
    lemma_regrouped(head + label + text, close, d);
    lemma_regrouped(head + label + text + close, d, e);
}

proof fn lemma_regrouped(a: Seq<char>, b: Seq<char>, c: Seq<char>)
    ensures
        a + b + c == a + (b + c),
{
    assert(a + b + c =~= a + (b + c));
}

proof fn lemma_holds_through(s: Seq<char>, part: Seq<char>, inner: Seq<char>)
    requires
        holds_part(s, part),
        holds_part(part, inner),
    ensures
        holds_part(s, inner),
{
    let i = choose|i: int|
        0 <= i && i + part.len() <= s.len() && #[trigger] s.subrange(i, i + part.len()) == part;
    crate::text::lemma_part_of_part(s.take(i), part, s.skip(i + part.len()), inner);
    assert(s.take(i) + part + s.skip(i + part.len()) =~= s) by {
        assert forall|j: int| i <= j < i + part.len() implies s[j] == part[j - i] by {
            assert(s.subrange(i, i + part.len())[j - i] == s[j]);
        }
    }
}

/// A client whose version is known is shown its own number, any other the configured one; the
/// sample is shown where it is to be; the rest is as configured.
pub proof fn law_status_is_as_configured(
    h: StatusHandler,
    version: ClientVersion,
    host: Option<Seq<char>>,
    online: usize,
    favicon: Option<Seq<char>>,
)
    ensures
        ({
            let protocol = if version.known {
                version.protocol
            } else {
                h.motd.protocol_version
            };
            let d = motd_for(
                h.motd.line1@,
                h.motd.line2@,
                h.servers@,
                h.forced_hosts@,
                host,
            );
            &&& h.motd.show_sample_players ==> h.status(version, host, online, favicon)
                == status_json(
                h.motd.version_name@,
                protocol,
                h.motd.max_players,
                online as nat,
                texts(h.motd.sample_players@),
                d,
                favicon,
            )
            &&& !h.motd.show_sample_players ==> h.status(version, host, online, favicon)
                == status_json(
                h.motd.version_name@,
                protocol,
                h.motd.max_players,
                online as nat,
                Seq::empty(),
                d,
                favicon,
            )
        }),
{
}

/// The description has two lines. A host gets those of the server that it is forced to, or, where
/// it is forced to none, of the server with its name; what that server does not say is as
/// configured for all.
pub proof fn law_description_is_the_servers(
    line1: Seq<char>,
    line2: Seq<char>,
    servers: Seq<(Seq<char>, BackendModel)>,
    hosts: Seq<(Seq<char>, Seq<char>)>,
    host: Seq<char>,
    cfg: BackendModel,
)
    requires
        (lookup(hosts, host_name(host)) matches Some(f) && lookup(servers, f) == Some(cfg)) || (
        lookup(hosts, host_name(host)) is None && lookup(servers, host_name(host)) == Some(cfg)),
    ensures
        ({
            let first = if cfg.motd_line1 is Some {
                cfg.motd_line1->Some_0
            } else {
                line1
            };
            let second = if cfg.motd_line2 is Some {
                cfg.motd_line2->Some_0
            } else {
                line2
            };
            motd_for(line1, line2, servers, hosts, Some(host)) == first + seq!['\n'] + second
        }),
{
    reveal_strlit("\n");
    assert("\n"@ =~= seq!['\n']);
}

/// Without a host, and for a host that belongs to no server, the description is the one for all.
pub proof fn law_description_for_all(
    line1: Seq<char>,
    line2: Seq<char>,
    servers: Seq<(Seq<char>, BackendModel)>,
    hosts: Seq<(Seq<char>, Seq<char>)>,
    host: Seq<char>,
)
    ensures
        motd_for(line1, line2, servers, hosts, None) == line1 + seq!['\n'] + line2,
        lookup(hosts, host_name(host)) is None && lookup(servers, host_name(host)) is None
            ==> motd_for(line1, line2, servers, hosts, Some(host)) == line1 + seq!['\n'] + line2,
{
    reveal_strlit("\n");
    assert("\n"@ =~= seq!['\n']);
}

/// A text without quotation marks, backslashes and control characters stands in JSON as it is,
/// between quotation marks.
pub proof fn law_plain_text_is_kept_in_json(s: Seq<char>)
    requires
        forall|i: int|
            0 <= i < s.len() ==> (#[trigger] s[i]) as nat >= 32 && s[i] != '"' && s[i] != '\\',
    ensures
        json_text(s) == seq!['"'] + s + seq!['"'],
    decreases s.len(),
{
    lemma_plain_json(s);
}

proof fn lemma_plain_json(s: Seq<char>)
    requires
        forall|i: int|
            0 <= i < s.len() ==> (#[trigger] s[i]) as nat >= 32 && s[i] != '"' && s[i] != '\\',
    ensures
        json_chars(s) == s,
    decreases s.len(),
{
    if s.len() > 0 {
        let front = s.drop_last();
        assert forall|i: int| 0 <= i < front.len() implies (#[trigger] front[i]) as nat >= 32
            && front[i] != '"' && front[i] != '\\' by {
            assert(front[i] == s[i]);
        }
        lemma_plain_json(front);
        assert(s.last() == s[s.len() - 1]);
        assert(json_char(s.last()) == seq![s.last()]);
        assert(front + seq![s.last()] == s);
    }
}

/// The status packet is the status of this handler for the client's version and host, with its
/// length before it; a pong holds its number.
pub proof fn law_status_packets(
    h: StatusHandler,
    version: ClientVersion,
    host: &str,
    online: usize,
    icon: &str,
    d: String,
    s: String,
    p: Option<Vec<u8>>,
    n: i64,
    q: Vec<u8>,
)
    requires
        call_ensures(StatusHandler::resolve_motd_text, (&h, Some::<&str>(host)), d),
        call_ensures(
            StatusHandler::build_status_response,
            (&h, version, Some::<&str>(host), online, Some::<&str>(icon)),
            s,
        ),
        call_ensures(
            StatusHandler::create_status_packet,
            (&h, version, Some::<&str>(host), online, Some::<&str>(icon)),
            p,
        ),
        call_ensures(StatusHandler::create_pong_packet, (n,), q),
    ensures
        d@ == h.description(Some(host@)),
        s@ == h.status(version, Some(host@), online, Some(icon@)),
        p is Some <==> writable(s@),
        p matches Some(v) ==> v@ == text(s@),
        q@ == pong_body(n),
{
}

/// A handler describes hosts by its own lines and its own tables.
pub proof fn law_handler_describes_by_its_tables(h: StatusHandler, host: Option<Seq<char>>)
    ensures
        h.description(host) == motd_for(
            h.motd.line1@,
            h.motd.line2@,
            h.servers@,
            h.forced_hosts@,
            host,
        ),
{
}

} // verus!
