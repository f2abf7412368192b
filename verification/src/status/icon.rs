//! Server list icons: PNG files as data URIs, chosen by virtual host, kept until they change.
use vstd::prelude::*;
use vstd::string::*;

use crate::codec::{be_number, be_value};
use crate::config::copy_opt;
use crate::table::{bound, lookup, values_of, Table};
use crate::text::{
    cat2, cat3, cat5, decimal, decimal_u64, opt_text, owned, pieces, split_at_each, texts, trim,
    trimmed,
};

verus! {

broadcast use vstd::seq::group_seq_axioms;

pub const PNG_SIGNATURE: [u8; 8] = [0x89, 0x50, 0x4E, 0x47, 0x0D, 0x0A, 0x1A, 0x0A];

// ---------------------------------------------------------------------------
// Base64
// ---------------------------------------------------------------------------

/// The character of a number below sixty-four.
pub open spec fn base64_char(n: int) -> char {
    if n < 26 {
        ((65 + n) as u32) as char
    } else if n < 52 {
        ((71 + n) as u32) as char
    } else if n < 62 {
        ((n - 4) as u32) as char
    } else if n == 62 {
        '+'
    } else {
        '/'
    }
}

/// Four characters for each three bytes; the last ones are filled up with `=`.
pub open spec fn base64_text(b: Seq<u8>) -> Seq<char>
    decreases b.len(),
{
    if b.len() == 0 {
        Seq::empty()
    } else {
        let x = b[0] as int;
        let y = if b.len() > 1 {
            b[1] as int
        } else {
            0
        };
        let z = if b.len() > 2 {
            b[2] as int
        } else {
            0
        };
        let four = seq![
            base64_char(x / 4),
            base64_char((x % 4) * 16 + y / 16),
            if b.len() > 1 {
                base64_char((y % 16) * 4 + z / 64)
            } else {
                '='
            },
            if b.len() > 2 {
                base64_char(z % 64)
            } else {
                '='
            },
        ];
        if b.len() > 3 {
            four + base64_text(b.skip(3))
        } else {
            four
        }
    }
}

/// `base64::prelude::BASE64_STANDARD.encode`: the standard alphabet, with padding.
#[verifier::external_body]
fn base64_encode(data: &[u8]) -> (r: String)
    requires
        data@.len() <= usize::MAX / 4,
    ensures
        r@ == base64_text(data@),
{
    base64::Engine::encode(&base64::prelude::BASE64_STANDARD, data)
}

// ---------------------------------------------------------------------------
// Icons
// ---------------------------------------------------------------------------

/// An icon as it is shown.
#[derive(Debug, PartialEq, Eq)]
pub struct StatusIcon<S = String> {
    pub path: S,
    pub data_uri: S,
    pub width: u32,
    pub height: u32,
    /// When the file was last changed, if that is known
    pub last_modified: Option<u128>,
}

pub type IconModel = StatusIcon<Seq<char>>;

impl View for StatusIcon {
    type V = IconModel;

    open spec fn view(&self) -> IconModel {
        StatusIcon {
            path: self.path@,
            data_uri: self.data_uri@,
            width: self.width,
            height: self.height,
            last_modified: self.last_modified,
        }
    }
}

/// The bytes of `IHDR` in ASCII.
pub open spec fn ihdr() -> Seq<u8> {
    seq![0x49u8, 0x48, 0x44, 0x52]
}

/// A file's icon: it must be a PNG file that begins with its header.
pub open spec fn icon_of(bytes: Seq<u8>, path: Seq<char>, last_modified: Option<u128>) -> Result<
    IconModel,
    Seq<char>,
> {
    if bytes.len() < 24 {
        Err("Icon file '"@ + path + "' is too small ("@ + decimal(bytes.len()) + " bytes)"@)
    } else if bytes.take(8) != PNG_SIGNATURE@ {
        Err(
            "Icon file '"@ + path
                + "' does not have a valid PNG signature (expected PNG format)"@,
        )
    } else if bytes.subrange(12, 16) != ihdr() {
        Err("Icon file '"@ + path + "' is missing valid IHDR chunk"@)
    } else {
        Ok(
            StatusIcon {
                path,
                data_uri: "data:image/png;base64,"@ + base64_text(bytes),
                width: be_value(bytes.subrange(16, 20)) as u32,
                height: be_value(bytes.subrange(20, 24)) as u32,
                last_modified,
            },
        )
    }
}

fn has_at(b: &[u8], at: usize, part: &[u8]) -> (r: bool)
    requires
        at + part@.len() <= b@.len(),
    ensures
        r == (b@.subrange(at as int, at + part@.len()) == part@),
{
    let size: usize = b.len();
    let mut i: usize = 0;
    while i < part.len()
        invariant
            i <= part@.len(),
            at + part@.len() <= b@.len(),
            b@.len() == size,
            forall|j: int| 0 <= j < i ==> b@[at + j] == part@[j],
        decreases part.len() - i,
    {
        if b[at + i] != part[i] {
            assert(b@.subrange(at as int, at + part@.len())[i as int] != part@[i as int]);
            return false;
        }
        i = i + 1;
    }
    assert(b@.subrange(at as int, at + part@.len()) == part@);
    true
}

impl StatusIcon {
    /// Validates PNG bytes and builds an icon. The size of the picture is not a condition.
    pub fn from_bytes(bytes: Vec<u8>, path: String, last_modified: Option<u128>) -> (r: Result<
        Self,
        String,
    >)
        requires
            bytes@.len() <= usize::MAX / 4,
        ensures
            match r {
                Ok(icon) => icon_of(bytes@, path@, last_modified) == Ok::<IconModel, Seq<char>>(
                    icon@,
                ),
                Err(e) => icon_of(bytes@, path@, last_modified) == Err::<IconModel, Seq<char>>(e@),
            },
    {
        if bytes.len() < 24 {
            return Err(
                cat5(
                    "Icon file '",
                    path.as_str(),
                    "' is too small (",
                    decimal_u64(bytes.len() as u64).as_str(),
                    " bytes)",
                ),
            );
        }
        let signature: [u8; 8] = PNG_SIGNATURE;
        assert(bytes@.subrange(0, 8) == bytes@.take(8));
        if !has_at(bytes.as_slice(), 0, signature.as_slice()) {
            return Err(
                cat3(
                    "Icon file '",
                    path.as_str(),
                    "' does not have a valid PNG signature (expected PNG format)",
                ),
            );
        }
        let header: [u8; 4] = [0x49, 0x48, 0x44, 0x52];
        assert(header@ == ihdr());
        if !has_at(bytes.as_slice(), 12, header.as_slice()) {
            return Err(cat3("Icon file '", path.as_str(), "' is missing valid IHDR chunk"));
        }
        let width: u64 = be_number(bytes.as_slice(), 16, 20);
        let height: u64 = be_number(bytes.as_slice(), 20, 24);
        proof {
            reveal_with_fuel(be_value, 5);
            assert(be_value(bytes@.subrange(16, 20)) <= u32::MAX);
            assert(be_value(bytes@.subrange(20, 24)) <= u32::MAX);
        }
        let data_uri = cat2("data:image/png;base64,", base64_encode(bytes.as_slice()).as_str());
        Ok(
            StatusIcon {
                path,
                data_uri,
                width: width as u32,
                height: height as u32,
                last_modified,
            },
        )
    }
}

// ---------------------------------------------------------------------------
// The manager
// ---------------------------------------------------------------------------

/// A host without its port and without white space around it.
pub open spec fn host_name(host: Seq<char>) -> Seq<char> {
    trimmed(pieces(host, ':')[0])
}

pub fn clean_host(host: &str) -> (r: String)
    ensures
        r@ == host_name(host@),
{
    let parts = split_at_each(host, ':');
    proof {
        assert(pieces(host@, ':').len() > 0);
        assert(texts(parts@)[0] == parts@[0]@);
    }
    trim(parts[0].as_str())
}

/// Which icon applies: that of the server a host is forced to, else of the server that has the
/// host's name, else of the default server, else the default icon.
pub open spec fn icon_path_for(
    default_icon: Option<Seq<char>>,
    icons: Seq<(Seq<char>, Seq<char>)>,
    hosts: Seq<(Seq<char>, Seq<char>)>,
    default_server: Seq<char>,
    host: Option<Seq<char>>,
) -> Option<Seq<char>> {
    let by_host = match host {
        Some(h) => {
            let name = host_name(h);
            let forced = match lookup(hosts, name) {
                Some(server) => lookup(icons, server),
                None => None,
            };
            match forced {
                Some(p) => Some(p),
                None => lookup(icons, name),
            }
        },
        None => None,
    };
    match by_host {
        Some(p) => Some(p),
        None => match lookup(icons, default_server) {
            Some(p) => Some(p),
            None => default_icon,
        },
    }
}

/// What is known of a file without reading it.
#[derive(Debug, Clone, Copy, PartialEq, Eq, Structural)]
pub enum FileState {
    /// Nothing: the file cannot be looked at
    Missing,
    /// It is there; when it was changed is not known
    Undated,
    /// It was last changed then
    Changed(u128),
}

/// Whether a kept icon still stands for its file: so it does while the file has not changed,
/// and when the file is gone.
pub open spec fn still_good(last_modified: Option<u128>, file: FileState) -> bool {
    match file {
        FileState::Missing => true,
        FileState::Undated => false,
        FileState::Changed(t) => last_modified == Some(t),
    }
}

/// How an icon is had.
#[derive(Debug, PartialEq, Eq)]
pub enum IconStep<S = String> {
    /// It is kept: this is its data URI
    Kept(S),
    /// The file has to be read
    Read(S),
    /// There is none
    Nothing,
}

pub type IconStepModel = IconStep<Seq<char>>;

impl View for IconStep {
    type V = IconStepModel;

    open spec fn view(&self) -> IconStepModel {
        match self {
            IconStep::Kept(u) => IconStep::Kept(u@),
            IconStep::Read(p) => IconStep::Read(p@),
            IconStep::Nothing => IconStep::Nothing,
        }
    }
}

/// The kept icons after a file has been read, or could not be, and the data URI that it gives.
pub open spec fn after_read(
    cache: Seq<(Seq<char>, IconModel)>,
    path: Seq<char>,
    bytes: Option<Seq<u8>>,
    last_modified: Option<u128>,
) -> (Seq<(Seq<char>, IconModel)>, Option<Seq<char>>) {
    match bytes {
        Some(b) => match icon_of(b, path, last_modified) {
            Ok(icon) => (bound(cache, path, icon), Some(icon.data_uri)),
            Err(_) => (cache, None),
        },
        None => (cache, None),
    }
}

/// Manages the icons of the proxy and of its servers.
#[derive(Debug)]
pub struct StatusIconManager {
    pub default_icon_path: Option<String>,
    pub server_icons: Table<String>,
    pub forced_hosts: Table<String>,
    pub default_server: String,
    /// Icons by path
    pub cache: Table<StatusIcon>,
}

impl StatusIconManager {
    /// A manager that keeps no icon yet. A default path of white space counts as none.
    pub fn new(
        configured_default_path: Option<String>,
        server_icons: Table<String>,
        forced_hosts: Table<String>,
        default_server: String,
    ) -> (r: Self)
        ensures
            r.server_icons == server_icons,
            r.forced_hosts == forced_hosts,
            r.default_server == default_server,
            opt_text(r.default_icon_path) == (match configured_default_path {
                Some(p) => if trimmed(p@).len() > 0 {
                    Some(p@)
                } else {
                    None
                },
                None => None,
            }),
            r.cache@ == Seq::<(Seq<char>, IconModel)>::empty(),
    {
        let default_icon_path = match configured_default_path {
            Some(p) => {
                if trim(p.as_str()).as_str().unicode_len() > 0 {
                    Some(p)
                } else {
                    None
                }
            },
            None => None,
        };
        StatusIconManager {
            default_icon_path,
            server_icons,
            forced_hosts,
            default_server,
            cache: Table::new(),
        }
    }

    /// The icons to read at the start: the default one, then those of the servers.
    pub fn preload_paths(&self) -> (r: Vec<String>)
        ensures
            texts(r@) == (match opt_text(self.default_icon_path) {
                Some(p) => seq![p],
                None => Seq::empty(),
            }) + values_of(self.server_icons@),
    {
        let mut r: Vec<String> = Vec::new();
        match &self.default_icon_path {
            Some(p) => r.push(p.clone()),
            None => {},
        }
        let ghost head = texts(r@);
        let ghost all = values_of(self.server_icons@);
        assert(head == (match opt_text(self.default_icon_path) {
            Some(p) => seq![p],
            None => Seq::empty(),
        }));
        let mut i: usize = 0;
        assert(texts(r@) == head + all.take(0));
        while i < self.server_icons.len()
            invariant
                i <= self.server_icons@.len(),
                all == values_of(self.server_icons@),
                texts(r@) == head + all.take(i as int),
            decreases self.server_icons@.len() - i,
        {
            let ghost before = texts(r@);
            r.push(self.server_icons.value_at(i).clone());
            assert(texts(r@) == before.push(all[i as int]));
            assert(texts(r@) == head + all.take(i + 1));
            i = i + 1;
        }
        assert(all.take(all.len() as int) == all);
        r
    }

    pub open spec fn path_for(&self, host: Option<Seq<char>>) -> Option<Seq<char>> {
        icon_path_for(
            opt_text(self.default_icon_path),
            self.server_icons@,
            self.forced_hosts@,
            self.default_server@,
            host,
        )
    }

    /// Resolves which icon applies to a virtual host.
    pub fn resolve_icon_path(&self, host: Option<&str>) -> (r: Option<String>)
        ensures
            opt_text(r) == self.path_for(
                match host {
                    Some(h) => Some(h@),
                    None => None,
                },
            ),
    {
        match host {
            Some(h) => {
                let name = clean_host(h);
                match self.forced_hosts.get(name.as_str()) {
                    Some(server) => match self.server_icons.get(server.as_str()) {
                        Some(p) => return Some(p.clone()),
                        None => {},
                    },
                    None => {},
                }
                match self.server_icons.get(name.as_str()) {
                    Some(p) => return Some(p.clone()),
                    None => {},
                }
            },
            None => {},
        }
        match self.server_icons.get(self.default_server.as_str()) {
            Some(p) => Some(p.clone()),
            None => copy_opt(&self.default_icon_path),
        }
    }

    pub open spec fn step_for(&self, path: Seq<char>, file: FileState) -> IconStepModel {
        match lookup(self.cache@, path) {
            Some(icon) => if still_good(icon.last_modified, file) {
                IconStep::Kept(icon.data_uri)
            } else {
                IconStep::Read(path)
            },
            None => IconStep::Read(path),
        }
    }

    /// Whether the icon of a path is kept or has to be read.
    pub fn load_or_reload(&self, path: &str, file: FileState) -> (r: IconStep)
        ensures
            r@ == self.step_for(path@, file),
    {
        match self.cache.get(path) {
            Some(icon) => {
                let good = match file {
                    FileState::Missing => true,
                    FileState::Undated => false,
                    FileState::Changed(t) => match icon.last_modified {
                        Some(u) => u == t,
                        None => false,
                    },
                };
                if good {
                    IconStep::Kept(icon.data_uri.clone())
                } else {
                    IconStep::Read(owned(path))
                }
            },
            None => IconStep::Read(owned(path)),
        }
    }

    /// How the icon of a virtual host is had; `file` is the state of the file that
    /// `resolve_icon_path` names.
    pub fn get_icon_for_host(&self, host: Option<&str>, file: FileState) -> (r: IconStep)
        ensures
            r@ == (match self.path_for(
                match host {
                    Some(h) => Some(h@),
                    None => None,
                },
            ) {
                Some(p) => self.step_for(p, file),
                None => IconStepModel::Nothing,
            }),
    {
        match self.resolve_icon_path(host) {
            Some(p) => self.load_or_reload(p.as_str(), file),
            None => IconStep::Nothing,
        }
    }

    /// The file of a path has been read, or could not be: a good icon is kept, and its data URI
    /// is the answer. Any other file changes nothing and gives no icon.
    pub fn on_read(&mut self, path: &str, bytes: Option<Vec<u8>>, last_modified: Option<u128>) -> (r:
        Option<String>)
        requires
            bytes matches Some(b) ==> b@.len() <= usize::MAX / 4,
        ensures
            (final(self).cache@, opt_text(r)) == after_read(
                old(self).cache@,
                path@,
                match bytes {
                    Some(b) => Some(b@),
                    None => None,
                },
                last_modified,
            ),
            final(self).default_icon_path == old(self).default_icon_path,
            final(self).server_icons == old(self).server_icons,
            final(self).forced_hosts == old(self).forced_hosts,
            final(self).default_server == old(self).default_server,
    {
        match bytes {
            Some(b) => match StatusIcon::from_bytes(b, owned(path), last_modified) {
                Ok(icon) => {
                    let uri = icon.data_uri.clone();
                    self.cache.insert(owned(path), icon);
                    Some(uri)
                },
                Err(_) => None,
            },
            None => None,
        }
    }
}

// ---------------------------------------------------------------------------
// Laws of icons
// ---------------------------------------------------------------------------

/// An icon that is kept is used until its file changes, and is read again then.
pub proof fn law_kept_until_changed(
    cache: Seq<(Seq<char>, IconModel)>,
    path: Seq<char>,
    icon: IconModel,
    time: u128,
    later: u128,
)
    requires
        icon.last_modified == Some(time),
        later != time,
    ensures
        lookup(bound(cache, path, icon), path) == Some(icon),
        still_good(icon.last_modified, FileState::Changed(time)),
        !still_good(icon.last_modified, FileState::Changed(later)),
        still_good(icon.last_modified, FileState::Missing),
{
    crate::table::law_bound_lookup(cache, path, icon, path);
}

/// Four characters for each three bytes or part of them.
pub proof fn law_base64_length(b: Seq<u8>)
    ensures
        base64_text(b).len() == 4 * ((b.len() + 2) / 3),
    decreases b.len(),
{
    if b.len() > 3 {
        law_base64_length(b.skip(3));
    }
}

/// A PNG file that begins with its header is an icon, and nothing else is: shown are its own bytes,
/// its size is the one in its header, and it is dated as the file.
pub proof fn law_icon_is_its_file(bytes: Seq<u8>, path: Seq<char>, time: Option<u128>)
    ensures
        icon_of(bytes, path, time) is Ok <==> bytes.len() >= 24 && bytes.take(8) == seq![
            0x89u8,
            0x50,
            0x4E,
            0x47,
            0x0D,
            0x0A,
            0x1A,
            0x0A,
        ] && bytes.subrange(12, 16) == seq![0x49u8, 0x48, 0x44, 0x52],
        icon_of(bytes, path, time) matches Ok(i) ==> i.path == path && i.last_modified == time
            && i.data_uri == "data:image/png;base64,"@ + base64_text(bytes) && i.width == ((bytes[16]
            * 256 + bytes[17]) * 256 + bytes[18]) * 256 + bytes[19] && i.height == ((bytes[20] * 256
            + bytes[21]) * 256 + bytes[22]) * 256 + bytes[23],
        icon_of(bytes, path, time) matches Err(e) ==> crate::text::holds_part(e, path),
{
    assert(PNG_SIGNATURE@ =~= seq![0x89u8, 0x50, 0x4E, 0x47, 0x0D, 0x0A, 0x1A, 0x0A]);
    let head = "Icon file '"@;
    let small = "' is too small ("@ + decimal(bytes.len()) + " bytes)"@;
    crate::text::lemma_holds_part(head, path, small);
    assert(head + path + small == head + path + "' is too small ("@ + decimal(bytes.len())
        + " bytes)"@);
    crate::text::lemma_holds_part(
        head,
        path,
        "' does not have a valid PNG signature (expected PNG format)"@,
    );
    crate::text::lemma_holds_part(head, path, "' is missing valid IHDR chunk"@);
    if bytes.len() >= 24 {
        reveal_with_fuel(be_value, 5);
        let w = bytes.subrange(16, 20);
        let h = bytes.subrange(20, 24);
        assert(w.drop_last().drop_last().drop_last().drop_last() == Seq::<u8>::empty());
        assert(h.drop_last().drop_last().drop_last().drop_last() == Seq::<u8>::empty());
        assert(be_value(w) == ((w[0] * 256 + w[1]) * 256 + w[2]) * 256 + w[3]);
        assert(be_value(h) == ((h[0] * 256 + h[1]) * 256 + h[2]) * 256 + h[3]);
    }
}

/// A host gets the icon of the server that it is forced to, else of the server with its name, else
/// of the default server, else the default icon.
pub proof fn law_icon_goes_by_precedence(
    default_icon: Option<Seq<char>>,
    icons: Seq<(Seq<char>, Seq<char>)>,
    hosts: Seq<(Seq<char>, Seq<char>)>,
    default_server: Seq<char>,
    host: Option<Seq<char>>,
)
    ensures
        ({
            let r = icon_path_for(default_icon, icons, hosts, default_server, host);
            let forced = host is Some && (lookup(hosts, host_name(host->Some_0)) matches Some(s)
                && lookup(icons, s) is Some);
            let named = host is Some && lookup(icons, host_name(host->Some_0)) is Some;
            let default = lookup(icons, default_server);
            &&& forced ==> r == lookup(icons, lookup(hosts, host_name(host->Some_0))->Some_0)
            &&& !forced && named ==> r == lookup(icons, host_name(host->Some_0))
            &&& !forced && !named && default is Some ==> r == default
            &&& !forced && !named && default is None ==> r == default_icon
        }),
{
}

/// A host is known by its name, whatever port stands behind it.
pub proof fn law_port_is_no_part_of_the_host(host: Seq<char>, port: Seq<char>)
    requires
        !host.contains(':'),
        !port.contains(':'),
    ensures
        host_name(host + seq![':'] + port) == trimmed(host),
        host_name(host) == trimmed(host),
{
    let both = seq![host, port];
    let one = seq![host];
    crate::text::law_joined_texts_are_its_pieces(both, ':');
    crate::text::law_joined_texts_are_its_pieces(one, ':');
    reveal_with_fuel(crate::text::joined_upto, 3);
    assert(crate::text::joined(both, seq![':']) == host + seq![':'] + port);
    assert(crate::text::joined(one, seq![':']) == host);
}

/// An icon is shown as it is kept while its file has not changed; otherwise its own file is to be
/// read. Without an icon there is nothing to do.
pub proof fn law_icons_are_kept_or_read(m: StatusIconManager, path: Seq<char>, file: FileState)
    ensures
        m.step_for(path, file) matches IconStep::Kept(uri) ==> (lookup(m.cache@, path) matches Some(
            i,
        ) && uri == i.data_uri && still_good(i.last_modified, file)),
        m.step_for(path, file) matches IconStep::Read(p) ==> p == path,
        m.step_for(path, file) !is Nothing,
        lookup(m.cache@, path) is None ==> m.step_for(path, file) is Read,
        lookup(m.cache@, path) matches Some(i) ==> (still_good(i.last_modified, file)
            <==> m.step_for(path, file) is Kept),
        !still_good(None, file) || file is Missing,
{
}

/// The manager goes by its own tables.
pub proof fn law_icon_manager_goes_by_its_tables(m: StatusIconManager, host: Option<Seq<char>>)
    ensures
        m.path_for(host) == icon_path_for(
            opt_text(m.default_icon_path),
            m.server_icons@,
            m.forced_hosts@,
            m.default_server@,
            host,
        ),
{
}

/// A host's icon is that of the path that belongs to it.
pub proof fn law_host_gets_its_icon(
    m: StatusIconManager,
    host: Option<&str>,
    file: FileState,
    path: Option<String>,
    r: IconStep,
)
    requires
        call_ensures(StatusIconManager::resolve_icon_path, (&m, host), path),
        call_ensures(StatusIconManager::get_icon_for_host, (&m, host, file), r),
    ensures
        path is None ==> r@ is Nothing,
        path matches Some(p) ==> r@ == m.step_for(p@, file),
{
}

/// A good file that has been read gives its own data URI, and is shown under its path until it
/// changes; the icons of other paths stay. A bad or missing one gives none and changes nothing.
pub proof fn law_read_icons_are_shown(
    cache: Seq<(Seq<char>, IconModel)>,
    path: Seq<char>,
    bytes: Seq<u8>,
    time: u128,
    other: Seq<char>,
)
    requires
        other != path,
    ensures
        ({
            let (next, uri) = after_read(cache, path, Some(bytes), Some(time));
            &&& icon_of(bytes, path, Some(time)) is Ok ==> {
                &&& uri == Some("data:image/png;base64,"@ + base64_text(bytes))
                &&& lookup(next, path) matches Some(i) && Some(i.data_uri) == uri && still_good(
                    i.last_modified,
                    FileState::Changed(time),
                )
            }
            &&& icon_of(bytes, path, Some(time)) is Err ==> next == cache && uri is None
            &&& lookup(next, other) == lookup(cache, other)
        }),
        after_read(cache, path, None, Some(time)) == (cache, None::<Seq<char>>),
{
    if let Ok(icon) = icon_of(bytes, path, Some(time)) {
        crate::table::law_bound_lookup(cache, path, icon, path);
        crate::table::law_bound_lookup(cache, path, icon, other);
    }
}

/// A file's bytes, path and date make its icon, and a path is looked up in the manager's own icons.
pub proof fn law_icons_are_made_and_looked_up(
    bytes: Vec<u8>,
    path: String,
    time: Option<u128>,
    r: Result<StatusIcon, String>,
    m: StatusIconManager,
    p: &str,
    file: FileState,
    s: IconStep,
    all: Vec<String>,
)
    requires
        call_ensures(StatusIcon::from_bytes, (bytes, path, time), r),
        call_ensures(StatusIconManager::load_or_reload, (&m, p, file), s),
        call_ensures(StatusIconManager::preload_paths, (&m,), all),
    ensures
        r is Ok <==> icon_of(bytes@, path@, time) is Ok,
        r matches Ok(i) ==> icon_of(bytes@, path@, time) == Ok::<IconModel, Seq<char>>(i@),
        s@ == m.step_for(p@, file),
        forall|i: int|
            0 <= i < m.server_icons@.len() ==> texts(all@).contains(
                (#[trigger] m.server_icons@[i]).1,
            ),
        m.default_icon_path matches Some(d) ==> texts(all@)[0] == d@,
{
    let head = match opt_text(m.default_icon_path) {
        Some(d) => seq![d],
        None => Seq::empty(),
    };
    let icons = values_of(m.server_icons@);
    assert(texts(all@) == head + icons);
    assert forall|i: int| 0 <= i < m.server_icons@.len() implies texts(all@).contains(
        (#[trigger] m.server_icons@[i]).1,
    ) by {
        assert((head + icons)[head.len() + i] == icons[i]);
    }
}

/// A kept icon is never taken for a file whose date is not known.
pub proof fn law_undated_files_are_read_again(time: Option<u128>, t: u128)
    ensures
        !still_good(time, FileState::Undated),
        still_good(time, FileState::Missing),
        still_good(time, FileState::Changed(t)) <==> time == Some(t),
{
}

} // verus!
