//! The table of commands: what is known, what a line of input means, and what is offered for
//! a line that is being typed.
use vstd::prelude::*;
use vstd::string::*;
use vstd::utf8::*;

use crate::command::glist::{glist_outcome, GlistCommandExecutor};
use crate::command::help::{help_about, help_offers, help_suggestions, HelpCommandExecutor, HELP_TEXT};
use crate::command::list::{list_outcome, ListCommandExecutor};
use crate::command::send::{send_outcome, target_offers, target_suggestions, SendCommandExecutor};
use crate::command::server::{
    names_like, server_info, server_suggestions, server_switch, ServerCommandExecutor,
};
use crate::command::source::{
    allowed, answer, command_answer, command_error, refusal, reply, CommandSender, Effect,
    EffectModel, Outcome, OutcomeModel, ProxyCommandSource, SenderModel, SourceModel,
};
use crate::config::copy_opt;
use crate::crypto::{uuid_hyphenated, uuid_text};
use crate::ordering::{
    in_order, is_total, law_sorting, le_text, lemma_placed_at, lemma_text_le_total,
    lemma_text_le_transitive, stably_sorted, text_le,
};
use crate::session::session_named;
use crate::table::{bound, lookup, values_of, views, Table};
use crate::text::{
    begins_with, byte_len, cat2, chars_of, contains_char, first_word, first_word_of, lower,
    opt_text, owned, pieces, split_at_each, split_words, starts_with, string_of, strip_first,
    text_eq, texts, to_lower, trim, trimmed, without_first, words,
};

verus! {

broadcast use vstd::seq::group_seq_axioms;

/// A command of a plugin.
#[derive(Debug, Clone, Copy, PartialEq, Eq, Structural)]
pub struct PluginCommand {
    /// The plugin
    pub plugin: u64,
    /// The number that the plugin knows the command by
    pub id: u32,
}

/// A command by which the proxy can be addressed.
#[derive(Debug, PartialEq, Eq)]
pub struct CommandEntry<S = String> {
    pub name: S,
    pub description: S,
    /// Permission node that the sender needs to see and use the command
    pub requirement: Option<S>,
    /// Which plugin handles the command, if one does
    pub plugin: Option<PluginCommand>,
}

pub type EntryModel = CommandEntry<Seq<char>>;

impl View for CommandEntry {
    type V = EntryModel;

    open spec fn view(&self) -> EntryModel {
        CommandEntry {
            name: self.name@,
            description: self.description@,
            requirement: opt_text(self.requirement),
            plugin: self.plugin,
        }
    }
}

impl Clone for CommandEntry {
    fn clone(&self) -> (r: Self)
        ensures
            r@ == self@,
    {
        CommandEntry {
            name: self.name.clone(),
            description: self.description.clone(),
            requirement: copy_opt(&self.requirement),
            plugin: self.plugin,
        }
    }
}

pub type Entries = Seq<(Seq<char>, EntryModel)>;

/// Who a plugin is told has given a command.
#[derive(Debug, PartialEq, Eq)]
pub struct PluginSender<S = String> {
    pub is_player: bool,
    pub name: S,
    pub player_uuid: Option<S>,
}

pub type PluginSenderModel = PluginSender<Seq<char>>;

impl View for PluginSender {
    type V = PluginSenderModel;

    open spec fn view(&self) -> PluginSenderModel {
        PluginSender {
            is_player: self.is_player,
            name: self.name@,
            player_uuid: opt_text(self.player_uuid),
        }
    }
}

pub open spec fn plugin_sender(src: SourceModel) -> PluginSenderModel {
    match src.sender {
        CommandSender::Console => PluginSender {
            is_player: false,
            name: "CONSOLE"@,
            player_uuid: None,
        },
        CommandSender::Player { username, .. } => PluginSender {
            is_player: true,
            name: username,
            player_uuid: match session_named(src.sessions, username) {
                Some(s) => Some(uuid_text(s.uuid)),
                None => None,
            },
        },
    }
}

/// What a line of input asks for.
#[derive(Debug, PartialEq, Eq)]
pub enum Request<S = String, L = Vec<String>> {
    ServerInfo,
    ServerSwitch(S),
    Send { target: S, server: S },
    List,
    Glist,
    Help,
    HelpFor(S),
    /// A command of a plugin, with its arguments
    Plugin { command: PluginCommand, args: L },
}

pub type RequestModel = Request<Seq<char>, Seq<Seq<char>>>;

impl View for Request {
    type V = RequestModel;

    open spec fn view(&self) -> RequestModel {
        match self {
            Request::ServerInfo => Request::ServerInfo,
            Request::ServerSwitch(s) => Request::ServerSwitch(s@),
            Request::Send { target, server } => Request::Send { target: target@, server: server@ },
            Request::List => Request::List,
            Request::Glist => Request::Glist,
            Request::Help => Request::Help,
            Request::HelpFor(s) => Request::HelpFor(s@),
            Request::Plugin { command, args } => Request::Plugin {
                command: *command,
                args: texts(args@),
            },
        }
    }
}

// ---------------------------------------------------------------------------
// Names
// ---------------------------------------------------------------------------

/// A text without the slashes at its head.
pub open spec fn without_slashes(s: Seq<char>) -> Seq<char>
    decreases s.len(),
{
    if s.len() > 0 && s[0] == '/' {
        without_slashes(s.skip(1))
    } else {
        s
    }
}

fn strip_slashes(s: &str) -> (r: String)
    ensures
        r@ == without_slashes(s@),
{
    let v = chars_of(s);
    let mut i: usize = 0;
    assert(v@.skip(0) == s@);
    while i < v.len() && v[i] == '/'
        invariant
            i <= v@.len(),
            without_slashes(s@) == without_slashes(v@.skip(i as int)),
        decreases v.len() - i,
    {
        assert(v@.skip(i as int).skip(1) == v@.skip(i + 1));
        i = i + 1;
    }
    let r = string_of(&v, i, v.len());
    assert(r@ == v@.skip(i as int));
    r
}

/// A command is known by its name, with or without slashes before it, in any case.
pub open spec fn knows(entries: Entries, name: Seq<char>) -> bool {
    lookup(entries, lower(without_slashes(name))) is Some
}

/// The sender can see and use a command.
pub open spec fn usable(src: SourceModel, e: EntryModel) -> bool {
    e.requirement matches Some(node) ==> allowed(src, node)
}

pub open spec fn usable_entries(entries: Seq<EntryModel>, src: SourceModel) -> Seq<EntryModel>
    decreases entries.len(),
{
    if entries.len() == 0 {
        Seq::empty()
    } else {
        let before = usable_entries(entries.drop_last(), src);
        if usable(src, entries.last()) {
            before.push(entries.last())
        } else {
            before
        }
    }
}

pub open spec fn entry_le() -> spec_fn(EntryModel, EntryModel) -> bool {
    |a: EntryModel, b: EntryModel| text_le(a.name, b.name)
}

/// The commands that a sender can use, by name.
pub open spec fn permitted_entries(entries: Entries, src: SourceModel) -> Seq<EntryModel> {
    stably_sorted(usable_entries(values_of(entries), src), entry_le())
}

/// Name and description of each.
pub open spec fn names_and_descriptions(es: Seq<EntryModel>) -> Seq<(Seq<char>, Seq<char>)> {
    Seq::new(es.len(), |i: int| (es[i].name, es[i].description))
}

/// The pairs of texts that a list holds.
pub open spec fn text_pairs(v: Seq<(String, String)>) -> Seq<(Seq<char>, Seq<char>)> {
    Seq::new(v.len(), |i: int| (v[i].0@, v[i].1@))
}

// ---------------------------------------------------------------------------
// Lines of input
// ---------------------------------------------------------------------------

pub open spec fn word_char(c: char) -> bool {
    ||| 'a' <= c && c <= 'z'
    ||| 'A' <= c && c <= 'Z'
    ||| '0' <= c && c <= '9'
    ||| c == '_'
    ||| c == '-'
    ||| c == '.'
    ||| c == '+'
}

/// A single word: letters, digits, and the signs `_`, `-`, `.` and `+`.
pub open spec fn is_word(s: Seq<char>) -> bool {
    s.len() > 0 && forall|i: int| 0 <= i < s.len() ==> word_char(#[trigger] s[i])
}

pub fn check_word(s: &str) -> (r: bool)
    ensures
        r == is_word(s@),
{
    let v = chars_of(s);
    let mut i: usize = 0;
    while i < v.len()
        invariant
            i <= v@.len(),
            v@ == s@,
            forall|j: int| 0 <= j < i ==> word_char(#[trigger] v@[j]),
        decreases v.len() - i,
    {
        let c = v[i];
        if !((c >= 'a' && c <= 'z') || (c >= 'A' && c <= 'Z') || (c >= '0' && c <= '9') || c == '_'
            || c == '-' || c == '.' || c == '+') {
            assert(!word_char(v@[i as int]));
            return false;
        }
        i = i + 1;
    }
    v.len() > 0
}

pub const UNKNOWN_COMMAND: &'static str = "Unknown or incomplete command";

pub const BAD_ARGUMENT: &'static str = "Incorrect argument for command";

/// What the words after a built-in command's name ask for.
pub open spec fn built_in_request(parts: Seq<Seq<char>>) -> Result<RequestModel, Seq<char>> {
    let n = parts.len();
    if parts[0] == "server"@ {
        if n == 1 {
            Ok(Request::ServerInfo)
        } else if n == 2 && is_word(parts[1]) {
            Ok(Request::ServerSwitch(parts[1]))
        } else {
            Err(BAD_ARGUMENT@)
        }
    } else if parts[0] == "send"@ {
        if n < 3 {
            Err(UNKNOWN_COMMAND@)
        } else if n == 3 && is_word(parts[1]) && is_word(parts[2]) {
            Ok(Request::Send { target: parts[1], server: parts[2] })
        } else {
            Err(BAD_ARGUMENT@)
        }
    } else if parts[0] == "list"@ {
        if n == 1 {
            Ok(Request::List)
        } else {
            Err(BAD_ARGUMENT@)
        }
    } else if parts[0] == "glist"@ {
        if n == 1 {
            Ok(Request::Glist)
        } else {
            Err(BAD_ARGUMENT@)
        }
    } else if parts[0] == "help"@ {
        if n == 1 {
            Ok(Request::Help)
        } else if n == 2 && is_word(parts[1]) {
            Ok(Request::HelpFor(parts[1]))
        } else {
            Err(BAD_ARGUMENT@)
        }
    } else {
        Err(UNKNOWN_COMMAND@)
    }
}

/// What follows the first space.
pub open spec fn after_name(clean: Seq<char>) -> Seq<char> {
    let p = crate::text::position_of(clean, ' ');
    if p < clean.len() {
        clean.skip(p + 1)
    } else {
        Seq::empty()
    }
}

pub open spec fn request_of(entries: Entries, src: SourceModel, clean: Seq<char>) -> Result<
    RequestModel,
    Seq<char>,
> {
    let parts = pieces(clean, ' ');
    match lookup(entries, parts[0]) {
        None => Err(UNKNOWN_COMMAND@),
        Some(e) => if !usable(src, e) {
            Err(UNKNOWN_COMMAND@)
        } else {
            match e.plugin {
                Some(command) => Ok(
                    Request::Plugin { command, args: words(after_name(clean)) },
                ),
                None => built_in_request(parts),
            }
        },
    }
}

/// A line without white space around it and without one slash at its head.
pub open spec fn clean_line(input: Seq<char>) -> Seq<char> {
    let t = trimmed(input);
    match without_first(t, '/') {
        Some(s) => s,
        None => t,
    }
}

/// What is done about a line: carried out here, or handed to a plugin.
#[derive(Debug, PartialEq, Eq)]
pub enum Dispatched {
    Done(Outcome),
    AskPlugin { command: PluginCommand, sender: PluginSender, args: Vec<String> },
}

pub enum DispatchedModel {
    Done(OutcomeModel),
    AskPlugin { command: PluginCommand, sender: PluginSenderModel, args: Seq<Seq<char>> },
}

impl View for Dispatched {
    type V = DispatchedModel;

    open spec fn view(&self) -> DispatchedModel {
        match self {
            Dispatched::Done(o) => DispatchedModel::Done(o@),
            Dispatched::AskPlugin { command, sender, args } => DispatchedModel::AskPlugin {
                command: *command,
                sender: sender@,
                args: texts(args@),
            },
        }
    }
}

pub open spec fn carried_out(src: SourceModel, request: RequestModel) -> DispatchedModel {
    match request {
        Request::ServerInfo => DispatchedModel::Done(server_info(src)),
        Request::ServerSwitch(name) => DispatchedModel::Done(server_switch(src, name)),
        Request::Send { target, server } => DispatchedModel::Done(
            send_outcome(src, target, server),
        ),
        Request::List => DispatchedModel::Done(list_outcome(src)),
        Request::Glist => DispatchedModel::Done(glist_outcome(src)),
        Request::Help => DispatchedModel::Done(answer(src.sender, HELP_TEXT@, 1)),
        Request::HelpFor(name) => DispatchedModel::Done(answer(src.sender, help_about(name), 1)),
        Request::Plugin { command, args } => DispatchedModel::AskPlugin {
            command,
            sender: plugin_sender(src),
            args,
        },
    }
}

/// What comes of a line of input.
pub open spec fn executed(entries: Entries, src: SourceModel, input: Seq<char>) -> DispatchedModel {
    match request_of(entries, src, clean_line(input)) {
        Ok(request) => carried_out(src, request),
        Err(e) => DispatchedModel::Done(refusal(e)),
    }
}

/// A failure is told to the sender.
pub open spec fn reported(src: SourceModel, d: DispatchedModel) -> DispatchedModel {
    match d {
        DispatchedModel::Done(o) => match o.result {
            Err(e) => DispatchedModel::Done(
                OutcomeModel { effects: o.effects.push(reply(src.sender, e)), result: Err(e) },
            ),
            Ok(_) => d,
        },
        other => other,
    }
}

// ---------------------------------------------------------------------------
// Suggestions
// ---------------------------------------------------------------------------

/// A completion, with what is shown beside it.
#[derive(Debug, PartialEq, Eq)]
pub struct Offer<S = String> {
    pub text: S,
    pub tooltip: Option<S>,
}

pub type OfferModel = Offer<Seq<char>>;

impl View for Offer {
    type V = OfferModel;

    open spec fn view(&self) -> OfferModel {
        Offer { text: self.text@, tooltip: opt_text(self.tooltip) }
    }
}

/// Completions for the part of a line that begins at byte `start` and has `length` bytes.
#[derive(Debug, PartialEq, Eq)]
pub struct Suggestions {
    pub start: usize,
    pub length: usize,
    pub offers: Vec<Offer>,
}

pub struct SuggestionsModel {
    pub start: nat,
    pub length: nat,
    pub offers: Seq<OfferModel>,
}

impl View for Suggestions {
    type V = SuggestionsModel;

    open spec fn view(&self) -> SuggestionsModel {
        SuggestionsModel {
            start: self.start as nat,
            length: self.length as nat,
            offers: views(self.offers@),
        }
    }
}

pub open spec fn plain_offers(names: Seq<Seq<char>>) -> Seq<OfferModel> {
    Seq::new(names.len(), |i: int| Offer { text: names[i], tooltip: None })
}

/// What is offered for the last of some words.
pub open spec fn argument_offers(src: SourceModel, parts: Seq<Seq<char>>) -> Seq<Seq<char>> {
    let n = parts.len();
    if parts[0] == "server"@ && n == 2 {
        names_like(src.servers, parts[1])
    } else if parts[0] == "send"@ && n == 2 {
        target_offers(src, parts[1])
    } else if parts[0] == "send"@ && n == 3 && is_word(parts[1]) {
        names_like(src.servers, parts[2])
    } else if parts[0] == "help"@ && n == 2 {
        help_offers(src, parts[1])
    } else {
        Seq::empty()
    }
}

pub enum SuggestedModel {
    Ready(SuggestionsModel),
    AskPlugin {
        command: PluginCommand,
        sender: PluginSenderModel,
        args: Seq<Seq<char>>,
        start: nat,
        length: nat,
    },
}

/// Suggestions, or the question to the plugin that has them.
#[derive(Debug, PartialEq, Eq)]
pub enum Suggested {
    Ready(Suggestions),
    AskPlugin {
        command: PluginCommand,
        sender: PluginSender,
        args: Vec<String>,
        start: usize,
        length: usize,
    },
}

impl View for Suggested {
    type V = SuggestedModel;

    open spec fn view(&self) -> SuggestedModel {
        match self {
            Suggested::Ready(s) => SuggestedModel::Ready(s@),
            Suggested::AskPlugin { command, sender, args, start, length } => {
                SuggestedModel::AskPlugin {
                    command: *command,
                    sender: sender@,
                    args: texts(args@),
                    start: *start as nat,
                    length: *length as nat,
                }
            },
        }
    }
}

/// What is suggested once the plugin has answered; without an answer, nothing.
pub open spec fn plugin_suggestions(
    start: nat,
    length: nat,
    names: Option<Seq<Seq<char>>>,
) -> SuggestionsModel {
    SuggestionsModel {
        start,
        length,
        offers: match names {
            Some(ns) => plain_offers(ns),
            None => Seq::empty(),
        },
    }
}

/// What comes of a command once its plugin has answered: its own number; or, where it has
/// refused or could not be asked, a message and zero.
pub open spec fn plugin_outcome(
    sender: SenderModel,
    r: Result<Result<i32, Seq<char>>, Seq<char>>,
) -> OutcomeModel {
    match r {
        Ok(Ok(code)) => OutcomeModel { effects: Seq::empty(), result: Ok(code) },
        Ok(Err(e)) => answer(sender, "§cError: "@ + e, 0),
        Err(e) => answer(sender, "§cPlugin command error: "@ + e, 0),
    }
}

pub open spec fn nothing() -> SuggestedModel {
    SuggestedModel::Ready(SuggestionsModel { start: 0, length: 0, offers: Seq::empty() })
}

/// Suggestions for the arguments of a command.
pub open spec fn argument_suggestions(entries: Entries, src: SourceModel, clean: Seq<char>) -> SuggestedModel {
    let parts = pieces(clean, ' ');
    match lookup(entries, parts[0]) {
        None => nothing(),
        Some(e) => if !usable(src, e) {
            nothing()
        } else {
            match e.plugin {
                Some(command) => {
                    let phrase = after_name(clean);
                    SuggestedModel::AskPlugin {
                        command,
                        sender: plugin_sender(src),
                        args: words(phrase),
                        start: (byte_len(clean) - byte_len(phrase)) as nat,
                        length: byte_len(phrase),
                    }
                },
                None => SuggestedModel::Ready(
                    SuggestionsModel {
                        start: (byte_len(clean) - byte_len(parts.last())) as nat,
                        length: byte_len(parts.last()),
                        offers: plain_offers(argument_offers(src, parts)),
                    },
                ),
            }
        },
    }
}

/// The commands whose names begin as typed, with their descriptions.
pub open spec fn name_offers(es: Seq<EntryModel>, typed: Seq<char>) -> Seq<OfferModel>
    decreases es.len(),
{
    if es.len() == 0 {
        Seq::empty()
    } else {
        let before = name_offers(es.drop_last(), typed);
        if begins_with(es.last().name, lower(typed)) {
            before.push(Offer { text: es.last().name, tooltip: Some(es.last().description) })
        } else {
            before
        }
    }
}

pub open spec fn typed_line(input: Seq<char>) -> Seq<char> {
    match without_first(input, '/') {
        Some(s) => s,
        None => input,
    }
}

/// What is offered for a line that is being typed: arguments once there is a space, names of
/// commands before.
pub open spec fn suggested(entries: Entries, src: SourceModel, input: Seq<char>) -> SuggestedModel {
    let clean = typed_line(input);
    if clean.contains(' ') {
        if knows(entries, first_word_of(clean)) {
            argument_suggestions(entries, src, clean)
        } else {
            nothing()
        }
    } else {
        SuggestedModel::Ready(
            SuggestionsModel {
                start: 0,
                length: byte_len(clean),
                offers: name_offers(permitted_entries(entries, src), clean),
            },
        )
    }
}

// ---------------------------------------------------------------------------
// The dispatcher
// ---------------------------------------------------------------------------

pub struct CommandDispatcher {
    entries: Table<CommandEntry>,
}

impl View for CommandDispatcher {
    type V = Entries;

    closed spec fn view(&self) -> Entries {
        self.entries@
    }
}

pub open spec fn built_in(
    name: Seq<char>,
    description: Seq<char>,
    requirement: Option<Seq<char>>,
) -> EntryModel {
    CommandEntry { name, description, requirement, plugin: None }
}

/// The commands that are always there.
pub open spec fn built_in_entries() -> Entries {
    seq![
        (
            "server"@,
            built_in(
                "server"@,
                "View or connect to a backend server"@,
                Some("vine.command.server"@),
            ),
        ),
        (
            "send"@,
            built_in("send"@, "Sends a player or all players to another backend server"@, None),
        ),
        (
            "glist"@,
            built_in(
                "glist"@,
                "Lists online players grouped by server across the proxy"@,
                Some("vine.command.glist"@),
            ),
        ),
        ("list"@, built_in("list"@, "Lists online players connected to the proxy"@, None)),
        ("help"@, built_in("help"@, "Displays list of available proxy commands"@, None)),
    ]
}

fn built_in_entry(name: &str, description: &str, requirement: Option<String>) -> (r: CommandEntry)
    ensures
        r@ == built_in(name@, description@, opt_text(requirement)),
{
    CommandEntry { name: owned(name), description: owned(description), requirement, plugin: None }
}

fn plugin_sender_of(source: &ProxyCommandSource) -> (r: PluginSender)
    ensures
        r@ == plugin_sender(source@),
{
    match &source.sender {
        CommandSender::Console => PluginSender {
            is_player: false,
            name: owned("CONSOLE"),
            player_uuid: None,
        },
        CommandSender::Player { username, .. } => {
            let player_uuid = match source.session_manager.get_session(username.as_str()) {
                Some(s) => Some(uuid_hyphenated(s.uuid)),
                None => None,
            };
            PluginSender { is_player: true, name: username.clone(), player_uuid }
        },
    }
}

fn can_use(source: &ProxyCommandSource, e: &CommandEntry) -> (r: bool)
    ensures
        r == usable(source@, e@),
{
    match &e.requirement {
        Some(node) => source.has_permission(node.as_str()),
        None => true,
    }
}

fn phrase_after_name(clean: &str) -> (r: String)
    ensures
        r@ == after_name(clean@),
{
    let v = chars_of(clean);
    let mut i: usize = 0;
    while i < v.len() && v[i] != ' '
        invariant
            i <= v@.len(),
            v@ == clean@,
            forall|j: int| 0 <= j < i ==> v@[j] != ' ',
        decreases v.len() - i,
    {
        i = i + 1;
    }
    proof {
        crate::text::lemma_position_is(clean@, ' ', i as int);
    }
    if i < v.len() {
        let r = string_of(&v, i + 1, v.len());
        assert(r@ == clean@.skip(i + 1));
        r
    } else {
        let r = String::new();
        assert(r@ == Seq::<char>::empty());
        r
    }
}

proof fn lemma_pieces_nonempty(s: Seq<char>, c: char)
    ensures
        pieces(s, c).len() > 0,
    decreases s.len(),
{
}

/// The last piece is no longer than the whole, in bytes.
proof fn lemma_last_piece(s: Seq<char>, c: char)
    ensures
        pieces(s, c).len() > 0,
        byte_len(pieces(s, c).last()) <= byte_len(s),
    decreases s.len(),
{
    let p = crate::text::position_of(s, c);
    crate::text::lemma_position_of(s, c);
    if p < s.len() {
        let rest = s.skip(p + 1);
        lemma_last_piece(rest, c);
        assert(pieces(s, c).last() == pieces(rest, c).last());
        assert(s == s.take(p + 1) + rest);
        crate::text::lemma_suffix_bytes(s.take(p + 1), rest);
    }
}

fn built_in_of(parts: &Vec<String>) -> (r: Result<Request, String>)
    requires
        parts@.len() > 0,
    ensures
        match r {
            Ok(q) => built_in_request(texts(parts@)) == Ok::<RequestModel, Seq<char>>(q@),
            Err(e) => built_in_request(texts(parts@)) == Err::<RequestModel, Seq<char>>(e@),
        },
{
    let n: usize = parts.len();
    let ghost ps = texts(parts@);
    assert(ps[0] == parts@[0]@);
    assert(n >= 2 ==> ps[1] == parts@[1]@);
    assert(n >= 3 ==> ps[2] == parts@[2]@);
    let name = parts[0].as_str();
    if text_eq(name, "server") {
        if n == 1 {
            Ok(Request::ServerInfo)
        } else if n == 2 && check_word(parts[1].as_str()) {
            Ok(Request::ServerSwitch(parts[1].clone()))
        } else {
            Err(owned(BAD_ARGUMENT))
        }
    } else if text_eq(name, "send") {
        if n < 3 {
            Err(owned(UNKNOWN_COMMAND))
        } else if n == 3 && check_word(parts[1].as_str()) && check_word(parts[2].as_str()) {
            Ok(Request::Send { target: parts[1].clone(), server: parts[2].clone() })
        } else {
            Err(owned(BAD_ARGUMENT))
        }
    } else if text_eq(name, "list") {
        if n == 1 {
            Ok(Request::List)
        } else {
            Err(owned(BAD_ARGUMENT))
        }
    } else if text_eq(name, "glist") {
        if n == 1 {
            Ok(Request::Glist)
        } else {
            Err(owned(BAD_ARGUMENT))
        }
    } else if text_eq(name, "help") {
        if n == 1 {
            Ok(Request::Help)
        } else if n == 2 && check_word(parts[1].as_str()) {
            Ok(Request::HelpFor(parts[1].clone()))
        } else {
            Err(owned(BAD_ARGUMENT))
        }
    } else {
        Err(owned(UNKNOWN_COMMAND))
    }
}

fn argument_names(source: &ProxyCommandSource, parts: &Vec<String>) -> (r: Vec<String>)
    requires
        parts@.len() > 0,
    ensures
        texts(r@) == argument_offers(source@, texts(parts@)),
{
    let n: usize = parts.len();
    let ghost ps = texts(parts@);
    assert(ps[0] == parts@[0]@);
    assert(n >= 2 ==> ps[1] == parts@[1]@);
    assert(n >= 3 ==> ps[2] == parts@[2]@);
    let name = parts[0].as_str();
    if text_eq(name, "server") && n == 2 {
        server_suggestions(source, parts[1].as_str())
    } else if text_eq(name, "send") && n == 2 {
        target_suggestions(source, parts[1].as_str())
    } else if text_eq(name, "send") && n == 3 && check_word(parts[1].as_str()) {
        server_suggestions(source, parts[2].as_str())
    } else if text_eq(name, "help") && n == 2 {
        help_suggestions(source, parts[1].as_str())
    } else {
        let r: Vec<String> = Vec::new();
        assert(texts(r@) == Seq::<Seq<char>>::empty());
        r
    }
}

fn offers_of(names: &Vec<String>) -> (r: Vec<Offer>)
    ensures
        views(r@) == plain_offers(texts(names@)),
{
    let ghost ns = texts(names@);
    let mut offers: Vec<Offer> = Vec::new();
    let mut i: usize = 0;
    while i < names.len()
        invariant
            i <= names@.len(),
            texts(names@) == ns,
            offers@.len() == i,
            forall|j: int| 0 <= j < i ==> offers@[j]@ == plain_offers(ns)[j],
        decreases names.len() - i,
    {
        assert(ns[i as int] == names@[i as int]@);
        offers.push(Offer { text: names[i].clone(), tooltip: None });
        i = i + 1;
    }
    assert(ns.len() == names@.len());
    assert(views(offers@) == plain_offers(ns));
    offers
}

/// A plugin has been asked for suggestions for a part of the line.
pub fn on_plugin_suggestions(start: usize, length: usize, names: Option<Vec<String>>) -> (r:
    Suggestions)
    ensures
        r@ == plugin_suggestions(
            start as nat,
            length as nat,
            match names {
                Some(ns) => Some(texts(ns@)),
                None => None,
            },
        ),
{
    let offers = match &names {
        Some(ns) => offers_of(ns),
        None => Vec::new(),
    };
    assert(names is None ==> views(offers@) == Seq::<OfferModel>::empty());
    Suggestions { start, length, offers }
}

/// A plugin has been asked to carry out a command.
pub fn on_plugin_command(sender: &CommandSender, result: Result<Result<i32, String>, String>) -> (r:
    Outcome)
    ensures
        r@ == plugin_outcome(
            sender@,
            match result {
                Ok(Ok(code)) => Ok(Ok(code)),
                Ok(Err(e)) => Ok(Err(e@)),
                Err(e) => Err(e@),
            },
        ),
{
    match result {
        Ok(Ok(code)) => {
            let effects: Vec<Effect> = Vec::new();
            assert(views(effects@) == Seq::<EffectModel>::empty());
            Outcome { effects, result: Ok(code) }
        },
        Ok(Err(e)) => command_answer(sender, cat2("§cError: ", e.as_str()), 0),
        Err(e) => command_answer(
            sender,
            cat2("§cPlugin command error: ", e.as_str()),
            0,
        ),
    }
}

fn no_suggestions() -> (r: Suggested)
    ensures
        r@ == nothing(),
{
    let offers: Vec<Offer> = Vec::new();
    assert(views(offers@) == Seq::<OfferModel>::empty());
    Suggested::Ready(Suggestions { start: 0, length: 0, offers })
}

impl CommandDispatcher {
    /// A dispatcher with the built-in commands.
    pub fn new() -> (r: Self)
        ensures
            r@ == built_in_entries(),
    {
        let mut d = CommandDispatcher { entries: Table::new() };
        d.register(
            built_in_entry(
                "server",
                "View or connect to a backend server",
                Some(owned("vine.command.server")),
            ),
        );
        d.register(
            built_in_entry(
                "send",
                "Sends a player or all players to another backend server",
                None,
            ),
        );
        d.register(
            built_in_entry(
                "glist",
                "Lists online players grouped by server across the proxy",
                Some(owned("vine.command.glist")),
            ),
        );
        d.register(built_in_entry("list", "Lists online players connected to the proxy", None));
        d.register(built_in_entry("help", "Displays list of available proxy commands", None));
        proof {
            reveal_strlit("server");
            reveal_strlit("send");
            reveal_strlit("glist");
            reveal_strlit("list");
            reveal_strlit("help");
            assert("server"@.len() == 6 && "glist"@.len() == 5);
            assert("send"@[0] == 's' && "list"@[0] == 'l' && "help"@[0] == 'h');
            assert("send"@.len() == 4 && "list"@.len() == 4 && "help"@.len() == 4);
            let b = built_in_entries();
            let s0 = Seq::<(Seq<char>, EntryModel)>::empty();
            let s1 = s0.push(b[0]);
            let s2 = s1.push(b[1]);
            let s3 = s2.push(b[2]);
            let s4 = s3.push(b[3]);
            crate::table::lemma_bound_new(s0, b[0].0, b[0].1);
            crate::table::lemma_bound_new(s1, b[1].0, b[1].1);
            crate::table::lemma_bound_new(s2, b[2].0, b[2].1);
            crate::table::lemma_bound_new(s3, b[3].0, b[3].1);
            crate::table::lemma_bound_new(s4, b[4].0, b[4].1);
            assert(d@ == b);
        }
        d
    }

    /// Enters a command; one of the same name gives way to it.
    pub fn register(&mut self, entry: CommandEntry)
        ensures
            final(self)@ == bound(old(self)@, entry@.name, entry@),
    {
        self.entries.insert(entry.name.clone(), entry);
    }

    /// Whether a command with the given name is registered.
    pub fn has_command(&self, name: &str) -> (r: bool)
        ensures
            r == knows(self@, name@),
    {
        let clean = to_lower(strip_slashes(name).as_str());
        self.entries.contains_key(clean.as_str())
    }

    /// The request that a line stands for.
    pub fn parse(&self, clean: &str, source: &ProxyCommandSource) -> (r: Result<Request, String>)
        ensures
            match r {
                Ok(q) => request_of(self@, source@, clean@) == Ok::<RequestModel, Seq<char>>(q@),
                Err(e) => request_of(self@, source@, clean@) == Err::<RequestModel, Seq<char>>(e@),
            },
    {
        let parts = split_at_each(clean, ' ');
        proof {
            lemma_pieces_nonempty(clean@, ' ');
            assert(texts(parts@)[0] == parts@[0]@);
        }
        match self.entries.get(parts[0].as_str()) {
            None => Err(owned(UNKNOWN_COMMAND)),
            Some(e) => {
                if !can_use(source, e) {
                    return Err(owned(UNKNOWN_COMMAND));
                }
                match e.plugin {
                    Some(command) => {
                        let phrase = phrase_after_name(clean);
                        Ok(Request::Plugin { command, args: split_words(phrase.as_str()) })
                    },
                    None => built_in_of(&parts),
                }
            },
        }
    }

    /// Executes a line of input.
    pub fn execute_input(&self, input: &str, source: &ProxyCommandSource) -> (r: Dispatched)
        ensures
            r@ == executed(self@, source@, input@),
    {
        let line = trim(input);
        let clean = match strip_first(line.as_str(), '/') {
            Some(s) => s,
            None => line,
        };
        match self.parse(clean.as_str(), source) {
            Err(e) => Dispatched::Done(command_error(e)),
            Ok(request) => match request {
                Request::ServerInfo => Dispatched::Done(
                    ServerCommandExecutor.execute_info(source),
                ),
                Request::ServerSwitch(name) => Dispatched::Done(
                    ServerCommandExecutor.execute_switch(source, name.as_str()),
                ),
                Request::Send { target, server } => Dispatched::Done(
                    SendCommandExecutor.execute(source, target.as_str(), server.as_str()),
                ),
                Request::List => Dispatched::Done(ListCommandExecutor.execute(source)),
                Request::Glist => Dispatched::Done(GlistCommandExecutor.execute(source)),
                Request::Help => Dispatched::Done(HelpCommandExecutor.execute(source)),
                Request::HelpFor(name) => Dispatched::Done(
                    HelpCommandExecutor.execute_for(source, name.as_str()),
                ),
                Request::Plugin { command, args } => Dispatched::AskPlugin {
                    command,
                    sender: plugin_sender_of(source),
                    args,
                },
            },
        }
    }

    /// Executes a line of input and tells the sender if it has failed.
    pub fn handle_command(&self, source: &ProxyCommandSource, input: &str) -> (r: Dispatched)
        ensures
            r@ == reported(source@, executed(self@, source@, input@)),
    {
        match self.execute_input(input, source) {
            Dispatched::Done(outcome) => {
                let Outcome { effects, result } = outcome;
                match result {
                    Ok(n) => Dispatched::Done(Outcome { effects, result: Ok(n) }),
                    Err(e) => {
                        let ghost before = effects@;
                        let mut effects = effects;
                        effects.push(source.sender.send_text(e.as_str()));
                        assert(views(effects@) == views(before).push(
                            reply(source@.sender, e@),
                        ));
                        Dispatched::Done(Outcome { effects, result: Err(e) })
                    },
                }
            },
            other => other,
        }
    }

    fn sorted_usable(&self, source: &ProxyCommandSource) -> (r: Vec<CommandEntry>)
        ensures
            views(r@) == permitted_entries(self@, source@),
    {
        let ghost all = values_of(self@);
        let ghost le = entry_le();
        let mut r: Vec<CommandEntry> = Vec::new();
        let mut i: usize = 0;
        assert(all.take(0) == Seq::<EntryModel>::empty());
        assert(views(r@) == Seq::<EntryModel>::empty());
        while i < self.entries.len()
            invariant
                i <= self@.len(),
                all == values_of(self@),
                le == entry_le(),
                views(r@) == stably_sorted(usable_entries(all.take(i as int), source@), le),
            decreases self@.len() - i,
        {
            let e = self.entries.value_at(i);
            let ghost sorted = views(r@);
            proof {
                assert(all.take(i + 1).drop_last() == all.take(i as int));
                assert(all.take(i + 1).last() == e@);
            }
            if can_use(source, e) {
                let mut p: usize = r.len();
                while p > 0 && !le_text(r[p - 1].name.as_str(), e.name.as_str())
                    invariant
                        p <= r@.len(),
                        sorted == views(r@),
                        le == entry_le(),
                        forall|j: int| p <= j < r@.len() ==> !le(#[trigger] sorted[j], e@),
                    decreases p,
                {
                    assert(sorted[p - 1] == r@[p - 1]@);
                    p = p - 1;
                }
                proof {
                    if p > 0 {
                        assert(sorted[p - 1] == r@[p - 1]@);
                    }
                    lemma_placed_at(sorted, e@, le, p as int);
                    let us = usable_entries(all.take(i as int), source@);
                    assert(us.push(e@).drop_last() == us);
                }
                r.insert(p, e.clone());
                assert(views(r@) == sorted.insert(p as int, e@));
            }
            i = i + 1;
        }
        assert(all.take(all.len() as int) == all);
        r
    }

    /// Name and description of every command that the source can use, by name.
    pub fn get_all_permitted_commands(&self, source: &ProxyCommandSource) -> (r: Vec<
        (String, String),
    >)
        ensures
            text_pairs(r@) == names_and_descriptions(permitted_entries(self@, source@)),
    {
        let es = self.sorted_usable(source);
        let ghost all = permitted_entries(self@, source@);
        let mut r: Vec<(String, String)> = Vec::new();
        let mut i: usize = 0;
        while i < es.len()
            invariant
                i <= es@.len(),
                views(es@) == all,
                r@.len() == i,
                forall|j: int|
                    0 <= j < i ==> (#[trigger] r@[j]).0@ == all[j].name && r@[j].1@
                        == all[j].description,
            decreases es.len() - i,
        {
            assert(all[i as int] == es@[i as int]@);
            r.push((es[i].name.clone(), es[i].description.clone()));
            i = i + 1;
        }
        assert(all.len() == es@.len());
        assert(text_pairs(r@) == names_and_descriptions(all));
        r
    }

    fn suggest_arguments(&self, clean: &str, source: &ProxyCommandSource) -> (r: Suggested)
        ensures
            r@ == argument_suggestions(self@, source@, clean@),
    {
        let parts = split_at_each(clean, ' ');
        proof {
            lemma_last_piece(clean@, ' ');
            assert(texts(parts@)[0] == parts@[0]@);
            assert(texts(parts@).last() == parts@.last()@);
        }
        match self.entries.get(parts[0].as_str()) {
            None => no_suggestions(),
            Some(e) => {
                if !can_use(source, e) {
                    return no_suggestions();
                }
                let whole: usize = clean.as_bytes().len();
                match e.plugin {
                    Some(command) => {
                        let phrase = phrase_after_name(clean);
                        let length: usize = phrase.as_str().as_bytes().len();
                        proof {
                            let p = crate::text::position_of(clean@, ' ');
                            crate::text::lemma_position_of(clean@, ' ');
                            if p < clean@.len() {
                                assert(clean@ == clean@.take(p + 1) + phrase@);
                                crate::text::lemma_suffix_bytes(
                                    clean@.take(p + 1),
                                    phrase@,
                                );
                            } else {
                                assert(encode_utf8(Seq::<char>::empty()).len() == 0);
                            }
                        }
                        Suggested::AskPlugin {
                            command,
                            sender: plugin_sender_of(source),
                            args: split_words(phrase.as_str()),
                            start: whole - length,
                            length,
                        }
                    },
                    None => {
                        let names = argument_names(source, &parts);
                        let offers = offers_of(&names);
                        let length: usize = parts[parts.len() - 1].as_str().as_bytes().len();
                        Suggested::Ready(Suggestions { start: whole - length, length, offers })
                    },
                }
            },
        }
    }

    /// Suggestions for any command input: for arguments once the input has a space, for the
    /// command's name before.
    pub fn suggest_command(&self, input: &str, source: &ProxyCommandSource) -> (r: Suggested)
        ensures
            r@ == suggested(self@, source@, input@),
    {
        let clean = match strip_first(input, '/') {
            Some(s) => s,
            None => owned(input),
        };
        if contains_char(clean.as_str(), ' ') {
            let word = first_word(clean.as_str());
            if self.has_command(word.as_str()) {
                return self.suggest_arguments(clean.as_str(), source);
            }
            return no_suggestions();
        }
        let typed = to_lower(clean.as_str());
        let es = self.sorted_usable(source);
        let ghost all = permitted_entries(self@, source@);
        let mut offers: Vec<Offer> = Vec::new();
        let mut i: usize = 0;
        assert(all.take(0) == Seq::<EntryModel>::empty());
        assert(views(offers@) == Seq::<OfferModel>::empty());
        while i < es.len()
            invariant
                i <= es@.len(),
                views(es@) == all,
                typed@ == lower(clean@),
                views(offers@) == name_offers(all.take(i as int), clean@),
            decreases es.len() - i,
        {
            let ghost before = views(offers@);
            assert(all.take(i + 1).drop_last() == all.take(i as int));
            assert(all.take(i + 1).last() == es@[i as int]@);
            if starts_with(es[i].name.as_str(), typed.as_str()) {
                offers.push(
                    Offer {
                        text: es[i].name.clone(),
                        tooltip: Some(es[i].description.clone()),
                    },
                );
                assert(views(offers@) == before.push(
                    Offer {
                        text: es@[i as int]@.name,
                        tooltip: Some(es@[i as int]@.description),
                    },
                ));
            }
            i = i + 1;
        }
        assert(all.len() == es@.len());
        assert(all.take(all.len() as int) == all);
        Suggested::Ready(
            Suggestions { start: 0, length: clean.as_str().as_bytes().len(), offers },
        )
    }

    /// Suggestions without their range. `answer` is what the plugin has answered where
    /// `suggest_command` has one to ask.
    pub fn suggest(
        &self,
        input: &str,
        source: &ProxyCommandSource,
        answer: Option<Vec<String>>,
    ) -> (r: Vec<Offer>)
        ensures
            views(r@) == (match suggested(self@, source@, input@) {
                SuggestedModel::Ready(s) => s.offers,
                SuggestedModel::AskPlugin { start, length, .. } => plugin_suggestions(
                    start,
                    length,
                    match answer {
                        Some(ns) => Some(texts(ns@)),
                        None => None,
                    },
                ).offers,
            }),
    {
        match self.suggest_command(input, source) {
            Suggested::Ready(s) => s.offers,
            Suggested::AskPlugin { start, length, .. } => {
                on_plugin_suggestions(start, length, answer).offers
            },
        }
    }

    /// Suggestions with range information.
    pub fn suggest_with_range(&self, input: &str, source: &ProxyCommandSource) -> (r: Suggested)
        ensures
            r@ == suggested(self@, source@, input@),
    {
        self.suggest_command(input, source)
    }
}

impl Default for CommandDispatcher {
    fn default() -> (r: Self)
        ensures
            r@ == built_in_entries(),
    {
        CommandDispatcher::new()
    }
}

// ---------------------------------------------------------------------------
// Laws of the dispatcher
// ---------------------------------------------------------------------------

/// A sender is shown the commands that they can use, each once for each entry, by name.
pub proof fn law_permitted_are_in_order(entries: Entries, src: SourceModel)
    ensures
        in_order(permitted_entries(entries, src), entry_le()),
        permitted_entries(entries, src).to_multiset() == usable_entries(
            values_of(entries),
            src,
        ).to_multiset(),
{
    assert(is_total(entry_le())) by {
        assert forall|a: EntryModel, b: EntryModel| #[trigger]
            entry_le()(a, b) || entry_le()(b, a) by {
            lemma_text_le_total(a.name, b.name);
        }
        assert forall|a: EntryModel, b: EntryModel, c: EntryModel|
            #[trigger] entry_le()(a, b) && #[trigger] entry_le()(b, c) implies entry_le()(a, c) by {
            lemma_text_le_transitive(a.name, b.name, c.name);
        }
    }
    law_sorting(usable_entries(values_of(entries), src), entry_le());
}

/// Every name that is offered goes on from what has been typed, in any case.
pub proof fn law_offers_go_on_from_what_is_typed(es: Seq<EntryModel>, typed: Seq<char>, i: int)
    requires
        0 <= i < name_offers(es, typed).len(),
    ensures
        begins_with(name_offers(es, typed)[i].text, lower(typed)),
        exists|j: int|
            0 <= j < es.len() && (#[trigger] es[j]).name == name_offers(es, typed)[i].text
                && name_offers(es, typed)[i].tooltip == Some(es[j].description),
    decreases es.len(),
{
    let front = name_offers(es.drop_last(), typed);
    if i < front.len() {
        law_offers_go_on_from_what_is_typed(es.drop_last(), typed, i);
        let j = choose|j: int|
            0 <= j < es.drop_last().len() && (#[trigger] es.drop_last()[j]).name == front[i].text
                && front[i].tooltip == Some(es.drop_last()[j].description);
        assert(es[j] == es.drop_last()[j]);
    } else {
        assert(es[es.len() - 1] == es.last());
    }
}

/// A line means the same with and without a slash before it.
pub proof fn law_slash_changes_nothing(
    entries: Entries,
    src: SourceModel,
    line: Seq<char>,
)
    requires
        trimmed(line) == line,
        line.len() > 0,
        line[0] != '/',
    ensures
        executed(entries, src, seq!['/'] + line) == executed(entries, src, line),
{
    let with = seq!['/'] + line;
    assert(with.skip(1) == line);
    crate::text::lemma_trim_start_len(line);
    crate::text::lemma_trim_end_len(crate::text::trim_start(line));
    crate::text::lemma_trim_start_same(line);
    assert(with.last() == line.last());
    assert(trimmed(with) == with);
}

/// A command that a sender cannot use is to them as one that does not exist: it is refused in the
/// same words.
pub proof fn law_unusable_is_unknown(
    entries: Entries,
    src: SourceModel,
    clean: Seq<char>,
    e: EntryModel,
)
    requires
        lookup(entries, pieces(clean, ' ')[0]) == Some(e),
        !usable(src, e),
    ensures
        request_of(entries, src, clean) == Err::<RequestModel, Seq<char>>(UNKNOWN_COMMAND@),
{
}

/// A command that has been registered is known from then on, and nothing is forgotten for it.
pub proof fn law_registered_is_known(entries: Entries, e: EntryModel, name: Seq<char>)
    ensures
        knows(entries, name) ==> knows(bound(entries, e.name, e), name),
        lower(without_slashes(name)) == e.name ==> knows(bound(entries, e.name, e), name),
{
    crate::table::law_bound_lookup(entries, e.name, e, lower(without_slashes(name)));
}

/// The slashes at the head of a text, and nothing else, are taken away.
pub proof fn law_slashes_are_taken_away(s: Seq<char>)
    ensures
        without_slashes(s).len() <= s.len(),
        without_slashes(s) == s.skip(s.len() - without_slashes(s).len()),
        forall|i: int| 0 <= i < s.len() - without_slashes(s).len() ==> #[trigger] s[i] == '/',
        without_slashes(s).len() > 0 ==> without_slashes(s)[0] != '/',
    decreases s.len(),
{
    if s.len() > 0 && s[0] == '/' {
        law_slashes_are_taken_away(s.skip(1));
        assert forall|i: int| 0 <= i < s.len() - without_slashes(s).len() implies #[trigger] s[i]
            == '/' by {
            if i > 0 {
                assert(s.skip(1)[i - 1] == s[i]);
            }
        }
    }
}

/// A command is known exactly where one is entered under the name, in lower case and without the
/// slashes before it.
pub proof fn law_known_is_entered(entries: Entries, name: Seq<char>)
    ensures
        knows(entries, name) <==> exists|i: int|
            0 <= i < entries.len() && (#[trigger] entries[i]).0 == lower(without_slashes(name)),
{
    let k = lower(without_slashes(name));
    crate::table::lemma_lookup_some(entries, k);
    if crate::table::keys_of(entries).contains(k) {
        let i = choose|i: int|
            0 <= i < entries.len() && crate::table::keys_of(entries)[i] == k;
        assert(entries[i].0 == k);
    }
    if exists|i: int| 0 <= i < entries.len() && (#[trigger] entries[i]).0 == k {
        let i = choose|i: int| 0 <= i < entries.len() && (#[trigger] entries[i]).0 == k;
        assert(crate::table::keys_of(entries)[i] == k);
    }
}

/// Of the commands, a sender can use exactly those that need no permission and those whose
/// permission they have.
pub proof fn law_usable_commands(entries: Seq<EntryModel>, src: SourceModel, e: EntryModel)
    ensures
        usable_entries(entries, src).contains(e) <==> entries.contains(e) && (e.requirement is None
            || allowed(src, e.requirement->Some_0)),
    decreases entries.len(),
{
    if entries.len() > 0 {
        let front = entries.drop_last();
        law_usable_commands(front, src, e);
        let a = usable_entries(front, src);
        let all = usable_entries(entries, src);
        assert(entries.contains(e) <==> front.contains(e) || e == entries.last()) by {
            if entries.contains(e) {
                let j = choose|j: int| 0 <= j < entries.len() && entries[j] == e;
                if j < front.len() {
                    assert(front[j] == e);
                }
            }
            if front.contains(e) {
                let j = choose|j: int| 0 <= j < front.len() && front[j] == e;
                assert(entries[j] == e);
            }
            assert(entries[entries.len() - 1] == entries.last());
        }
        if a.contains(e) {
            let j = choose|j: int| 0 <= j < a.len() && a[j] == e;
            assert(all[j] == e);
        }
        if all.contains(e) {
            let j = choose|j: int| 0 <= j < all.len() && all[j] == e;
            if j < a.len() {
                assert(a[j] == e);
            }
        }
        if usable(src, entries.last()) {
            assert(all[a.len() as int] == entries.last());
        }
    }
}

/// The commands that are there from the beginning, the permissions that some of them need, and
/// that the proxy itself carries them out.
pub proof fn law_built_in_commands()
    ensures
        ({
            let b = built_in_entries();
            &&& b.len() == 5
            &&& b[0].0 == "server"@ && b[0].1.requirement == Some("vine.command.server"@)
            &&& b[1].0 == "send"@ && b[1].1.requirement is None
            &&& b[2].0 == "glist"@ && b[2].1.requirement == Some("vine.command.glist"@)
            &&& b[3].0 == "list"@ && b[3].1.requirement is None
            &&& b[4].0 == "help"@ && b[4].1.requirement is None
            &&& forall|i: int|
                0 <= i < 5 ==> (#[trigger] b[i]).1.name == b[i].0 && b[i].1.plugin is None
        }),
{
}

/// A command that the sender can use under the first word of a line.
pub open spec fn can_use_under(entries: Entries, src: SourceModel, name: Seq<char>, e: EntryModel) -> bool {
    &&& lookup(entries, name) == Some(e)
    &&& e.requirement is None || allowed(src, e.requirement->Some_0)
}

/// A line of input is one command with its arguments, between single spaces. Each built-in command
/// does what it is for with the arguments that it was given; a wrong number of them, or one that
/// is no word, does nothing.
pub proof fn law_lines_are_carried_out(
    entries: Entries,
    src: SourceModel,
    input: Seq<char>,
    e: EntryModel,
)
    requires
        can_use_under(entries, src, pieces(clean_line(input), ' ')[0], e),
        e.plugin is None,
    ensures
        ({
            let parts = pieces(clean_line(input), ' ');
            let n = parts.len();
            let r = executed(entries, src, input);
            &&& parts[0] == "server"@ && n == 1 ==> r == DispatchedModel::Done(server_info(src))
            &&& parts[0] == "server"@ && n == 2 && is_word(parts[1]) ==> r == DispatchedModel::Done(
                server_switch(src, parts[1]),
            )
            &&& parts[0] == "send"@ && n == 3 && is_word(parts[1]) && is_word(parts[2]) ==> r
                == DispatchedModel::Done(send_outcome(src, parts[1], parts[2]))
            &&& parts[0] == "list"@ && n == 1 ==> r == DispatchedModel::Done(list_outcome(src))
            &&& parts[0] == "glist"@ && n == 1 ==> r == DispatchedModel::Done(glist_outcome(src))
            &&& parts[0] == "help"@ && n == 1 ==> r == DispatchedModel::Done(
                answer(src.sender, HELP_TEXT@, 1),
            )
            &&& parts[0] == "help"@ && n == 2 && is_word(parts[1]) ==> r == DispatchedModel::Done(
                answer(src.sender, help_about(parts[1]), 1),
            )
            &&& ((parts[0] == "list"@ || parts[0] == "glist"@) && n > 1) || ((parts[0]
                == "server"@ || parts[0] == "help"@) && (n > 2 || (n == 2 && !is_word(parts[1]))))
                || (parts[0] == "send"@ && (n != 3 || !is_word(parts[1]) || !is_word(parts[2])))
                ==> (r matches DispatchedModel::Done(o) && o.result is Err && o.effects.len() == 0)
        }),
{
    lemma_command_names();
}

proof fn lemma_command_names()
    ensures
        "server"@ != "send"@ && "server"@ != "list"@ && "server"@ != "glist"@ && "server"@
            != "help"@,
        "send"@ != "list"@ && "send"@ != "glist"@ && "send"@ != "help"@,
        "list"@ != "glist"@ && "list"@ != "help"@ && "glist"@ != "help"@,
{
    reveal_strlit("server");
    reveal_strlit("send");
    reveal_strlit("list");
    reveal_strlit("glist");
    reveal_strlit("help");
    assert("server"@.len() == 6 && "glist"@.len() == 5);
    assert("send"@.len() == 4 && "list"@.len() == 4 && "help"@.len() == 4);
    assert("send"@[0] == 's' && "list"@[0] == 'l' && "help"@[0] == 'h');
}

/// A line whose first word is no command, or none that the sender can use, does nothing.
pub proof fn law_unknown_lines_do_nothing(entries: Entries, src: SourceModel, input: Seq<char>)
    requires
        forall|e: EntryModel|
            !can_use_under(entries, src, pieces(clean_line(input), ' ')[0], e),
    ensures
        executed(entries, src, input) matches DispatchedModel::Done(o) && o.result is Err
            && o.effects.len() == 0,
{
    let name = pieces(clean_line(input), ' ')[0];
    if let Some(e) = lookup(entries, name) {
        assert(!can_use_under(entries, src, name, e));
    }
}

/// A plugin's command goes to that plugin, under the number that it knows it by, with who gave it
/// and with the words behind its name.
pub proof fn law_plugin_lines_go_to_the_plugin(
    entries: Entries,
    src: SourceModel,
    input: Seq<char>,
    e: EntryModel,
    command: PluginCommand,
)
    requires
        can_use_under(entries, src, pieces(clean_line(input), ' ')[0], e),
        e.plugin == Some(command),
    ensures
        executed(entries, src, input) matches DispatchedModel::AskPlugin {
            command: c,
            sender,
            args,
        } && c == command && args == words(after_name(clean_line(input))) && (src.sender is Console
            ==> !sender.is_player && sender.player_uuid is None) && (
        src.sender matches CommandSender::Player { username, .. } ==> sender.is_player
            && sender.name == username && (match session_named(src.sessions, username) {
            Some(s) => sender.player_uuid == Some(uuid_text(s.uuid)),
            None => sender.player_uuid is None,
        })),
{
}

/// What follows a command's name is what stands behind the first space.
pub proof fn law_name_and_rest_make_the_line(clean: Seq<char>)
    ensures
        clean.contains(' ') ==> clean == pieces(clean, ' ')[0] + seq![' '] + after_name(clean),
        !clean.contains(' ') ==> clean == pieces(clean, ' ')[0] && after_name(clean).len() == 0,
{
    let p = crate::text::position_of(clean, ' ');
    crate::text::lemma_position_of(clean, ' ');
    if p < clean.len() {
        assert(clean == clean.take(p) + seq![' '] + clean.skip(p + 1));
        assert(clean.contains(clean[p]));
    } else if clean.contains(' ') {
        let j = choose|j: int| 0 <= j < clean.len() && clean[j] == ' ';
        assert(clean[j] != ' ');
    }
}

/// A line is taken without white space around it and without one slash before it.
pub proof fn law_line_is_cleaned(input: Seq<char>)
    ensures
        trimmed(input).len() > 0 && trimmed(input)[0] == '/' ==> seq!['/'] + clean_line(input)
            == trimmed(input),
        trimmed(input).len() == 0 || trimmed(input)[0] != '/' ==> clean_line(input) == trimmed(
            input,
        ),
{
    let t = trimmed(input);
    if t.len() > 0 {
        assert(seq![t[0]] + t.skip(1) == t);
    }
}

/// A command that fails is told to whoever gave it, after all else; one that succeeds is left as
/// it is, and so is a question to a plugin.
pub proof fn law_failures_are_told(src: SourceModel, d: DispatchedModel)
    ensures
        d matches DispatchedModel::Done(o) ==> match o.result {
            Ok(_) => reported(src, d) == d,
            Err(e) => reported(src, d) matches DispatchedModel::Done(p) && p.result == o.result
                && p.effects.len() == o.effects.len() + 1 && p.effects.drop_last() == o.effects
                && crate::command::source::told(p.effects.last(), src.sender, e),
        },
        d is AskPlugin ==> reported(src, d) == d,
{
    if let DispatchedModel::Done(o) = d {
        if let Err(e) = o.result {
            let empty = Seq::<char>::empty();
            crate::text::lemma_holds_part(empty, e, empty);
            assert(empty + e == e);
            assert(o.effects.push(reply(src.sender, e)).drop_last() == o.effects);
        }
    }
}

/// A plugin's number is the result; an error of the plugin, and of asking it, is told to whoever
/// gave the command.
pub proof fn law_plugin_answers_are_told(
    sender: SenderModel,
    r: Result<Result<i32, Seq<char>>, Seq<char>>,
)
    ensures
        r matches Ok(Ok(code)) ==> plugin_outcome(sender, r).effects.len() == 0 && plugin_outcome(
            sender,
            r,
        ).result == Ok::<i32, Seq<char>>(code),
        r matches Ok(Err(e)) ==> crate::command::source::only_told(
            plugin_outcome(sender, r),
            sender,
            e,
        ) && plugin_outcome(sender, r).result == Ok::<i32, Seq<char>>(0),
        r matches Err(e) ==> crate::command::source::only_told(
            plugin_outcome(sender, r),
            sender,
            e,
        ) && plugin_outcome(sender, r).result == Ok::<i32, Seq<char>>(0),
{
    match r {
        Ok(Err(e)) => crate::text::lemma_holds_part("§cError: "@, e, Seq::empty()),
        Err(e) => crate::text::lemma_holds_part("§cPlugin command error: "@, e, Seq::empty()),
        _ => {},
    }
}

/// Before the first space, names of commands are offered for the whole of what is typed: every
/// command that the sender can use and whose name begins so, and no other.
pub proof fn law_command_names_are_offered(
    entries: Entries,
    src: SourceModel,
    input: Seq<char>,
    e: EntryModel,
)
    requires
        !typed_line(input).contains(' '),
    ensures
        suggested(entries, src, input) matches SuggestedModel::Ready(s) && s.start == 0 && s.length
            == byte_len(typed_line(input)) && (permitted_entries(entries, src).contains(e)
            && begins_with(e.name, lower(typed_line(input))) ==> s.offers.contains(
            (Offer { text: e.name, tooltip: Some(e.description) }),
        )) && (forall|i: int|
            0 <= i < s.offers.len() ==> begins_with(
                (#[trigger] s.offers[i]).text,
                lower(typed_line(input)),
            ) && exists|j: int|
                0 <= j < permitted_entries(entries, src).len() && (#[trigger] permitted_entries(
                    entries,
                    src,
                )[j]).name == s.offers[i].text),
{
    let es = permitted_entries(entries, src);
    let typed = typed_line(input);
    let offers = name_offers(es, typed);
    assert forall|i: int| 0 <= i < offers.len() implies begins_with(
        (#[trigger] offers[i]).text,
        lower(typed),
    ) && exists|j: int| 0 <= j < es.len() && (#[trigger] es[j]).name == offers[i].text by {
        law_offers_go_on_from_what_is_typed(es, typed, i);
    }
    if es.contains(e) && begins_with(e.name, lower(typed)) {
        let j = choose|j: int| 0 <= j < es.len() && es[j] == e;
        lemma_name_offered(es, typed, j);
    }
}

proof fn lemma_name_offered(es: Seq<EntryModel>, typed: Seq<char>, j: int)
    requires
        0 <= j < es.len(),
        begins_with(es[j].name, lower(typed)),
    ensures
        name_offers(es, typed).contains(
            (Offer { text: es[j].name, tooltip: Some(es[j].description) }),
        ),
    decreases es.len(),
{
    let a = name_offers(es.drop_last(), typed);
    let all = name_offers(es, typed);
    let x = Offer { text: es[j].name, tooltip: Some(es[j].description) };
    if j == es.len() - 1 {
        assert(all[a.len() as int] == x);
    } else {
        assert(es.drop_last()[j] == es[j]);
        lemma_name_offered(es.drop_last(), typed, j);
        let k = choose|k: int| 0 <= k < a.len() && a[k] == x;
        assert(all[k] == x);
    }
}

/// Behind a built-in command that the sender can use, what belongs there is offered for the last
/// word: servers behind `/server` and behind the target of `/send`, targets behind `/send`, names
/// of commands behind `/help`.
pub proof fn law_arguments_are_offered(
    entries: Entries,
    src: SourceModel,
    input: Seq<char>,
    e: EntryModel,
)
    requires
        typed_line(input).contains(' '),
        knows(entries, first_word_of(typed_line(input))),
        can_use_under(entries, src, pieces(typed_line(input), ' ')[0], e),
        e.plugin is None,
    ensures
        ({
            let clean = typed_line(input);
            let parts = pieces(clean, ' ');
            let n = parts.len();
            &&& suggested(entries, src, input) matches SuggestedModel::Ready(s)
            &&& s.length == byte_len(parts[n - 1])
            &&& s.start + s.length == byte_len(clean)
            &&& parts[0] == "server"@ && n == 2 ==> s.offers == plain_offers(
                names_like(src.servers, parts[1]),
            )
            &&& parts[0] == "send"@ && n == 2 ==> s.offers == plain_offers(
                target_offers(src, parts[1]),
            )
            &&& parts[0] == "send"@ && n == 3 && is_word(parts[1]) ==> s.offers == plain_offers(
                names_like(src.servers, parts[2]),
            )
            &&& parts[0] == "help"@ && n == 2 ==> s.offers == plain_offers(
                help_offers(src, parts[1]),
            )
            &&& parts[0] == "list"@ || parts[0] == "glist"@ ==> s.offers.len() == 0
        }),
{
    lemma_command_names();
    lemma_last_piece(typed_line(input), ' ');
}

/// Behind a plugin's command, that plugin is asked about the words behind the name, for the part of
/// the line that they take up.
pub proof fn law_plugin_arguments_are_asked_for(
    entries: Entries,
    src: SourceModel,
    input: Seq<char>,
    e: EntryModel,
    command: PluginCommand,
)
    requires
        typed_line(input).contains(' '),
        knows(entries, first_word_of(typed_line(input))),
        can_use_under(entries, src, pieces(typed_line(input), ' ')[0], e),
        e.plugin == Some(command),
    ensures
        ({
            let clean = typed_line(input);
            &&& suggested(entries, src, input) matches SuggestedModel::AskPlugin {
                command: c,
                sender,
                args,
                start,
                length,
            }
            &&& c == command
            &&& sender == plugin_sender(src)
            &&& args == words(after_name(clean))
            &&& length == byte_len(after_name(clean))
            &&& start + length == byte_len(clean)
        }),
{
    let clean = typed_line(input);
    law_name_and_rest_make_the_line(clean);
    let rest = after_name(clean);
    crate::text::lemma_suffix_bytes(pieces(clean, ' ')[0] + seq![' '], rest);
}

/// Behind a command that is not known, or that the sender cannot use, nothing is offered.
pub proof fn law_nothing_is_offered_for_strangers(
    entries: Entries,
    src: SourceModel,
    input: Seq<char>,
)
    requires
        typed_line(input).contains(' '),
        forall|e: EntryModel| !can_use_under(entries, src, pieces(typed_line(input), ' ')[0], e),
    ensures
        suggested(entries, src, input) matches SuggestedModel::Ready(s) && s.offers.len() == 0,
{
    let name = pieces(typed_line(input), ' ')[0];
    if let Some(e) = lookup(entries, name) {
        assert(!can_use_under(entries, src, name, e));
    }
}

/// A plugin's suggestions are offered as they are, for the part of the line that it was asked
/// about; without an answer there are none.
pub proof fn law_plugin_suggestions_are_offered(
    start: nat,
    length: nat,
    names: Option<Seq<Seq<char>>>,
)
    ensures
        ({
            let s = plugin_suggestions(start, length, names);
            &&& s.start == start && s.length == length
            &&& names is None ==> s.offers.len() == 0
            &&& names matches Some(ns) ==> s.offers.len() == ns.len() && forall|i: int|
                0 <= i < ns.len() ==> (#[trigger] s.offers[i]).text == ns[i]
                    && s.offers[i].tooltip is None
        }),
{
}

/// A word is made of the letters and digits of ASCII and of four signs; every such text is one.
pub proof fn law_words_of_a_line(s: Seq<char>)
    ensures
        is_word(s) ==> s.len() > 0,
        s.len() > 0 && (forall|i: int|
            0 <= i < s.len() ==> "abcdefghijklmnopqrstuvwxyzABCDEFGHIJKLMNOPQRSTUVWXYZ0123456789_-.+"@.contains(
                #[trigger] s[i],
            )) ==> is_word(s),
        is_word(s) ==> forall|i: int|
            0 <= i < s.len() ==> !crate::text::is_space(#[trigger] s[i]) && s[i] != '/' && s[i]
                != '"' && s[i] != ',' && (s[i] as u32) < 0x7f,
{
    let signs = "abcdefghijklmnopqrstuvwxyzABCDEFGHIJKLMNOPQRSTUVWXYZ0123456789_-.+"@;
    reveal_strlit("abcdefghijklmnopqrstuvwxyzABCDEFGHIJKLMNOPQRSTUVWXYZ0123456789_-.+");
    assert forall|j: int| 0 <= j < signs.len() implies word_char(#[trigger] signs[j]) by {}
    if forall|i: int| 0 <= i < s.len() ==> signs.contains(#[trigger] s[i]) {
        assert forall|i: int| 0 <= i < s.len() implies word_char(#[trigger] s[i]) by {
            assert(signs.contains(s[i]));
            let j = choose|j: int| 0 <= j < signs.len() && signs[j] == s[i];
            assert(word_char(signs[j]));
        }
    }
    if is_word(s) {
        assert forall|i: int| 0 <= i < s.len() implies !crate::text::is_space(#[trigger] s[i])
            && s[i] != '/' && s[i] != '"' && s[i] != ',' && (s[i] as u32) < 0x7f by {
            assert(word_char(s[i]));
        }
    }
}

/// The dispatcher carries out, reports and completes by its own commands, for whoever has asked.
pub proof fn law_dispatcher_goes_by_its_commands(
    d: CommandDispatcher,
    source: ProxyCommandSource,
    input: &str,
    known: bool,
    x: Dispatched,
    h: Dispatched,
    list: Vec<(String, String)>,
    s: Suggested,
    w: Suggested,
)
    requires
        call_ensures(CommandDispatcher::has_command, (&d, input), known),
        call_ensures(CommandDispatcher::execute_input, (&d, input, &source), x),
        call_ensures(CommandDispatcher::handle_command, (&d, &source, input), h),
        call_ensures(CommandDispatcher::get_all_permitted_commands, (&d, &source), list),
        call_ensures(CommandDispatcher::suggest_command, (&d, input, &source), s),
        call_ensures(CommandDispatcher::suggest_with_range, (&d, input, &source), w),
    ensures
        known == knows(d@, input@),
        x@ == executed(d@, source@, input@),
        h@ == reported(source@, executed(d@, source@, input@)),
        text_pairs(list@) == names_and_descriptions(permitted_entries(d@, source@)),
        s@ == suggested(d@, source@, input@),
        w@ == suggested(d@, source@, input@),
{
}

/// Each of the commands is carried out for the sender and the arguments that it was given.
pub proof fn law_executors_do_their_command(
    source: ProxyCommandSource,
    a: &str,
    b: &str,
    send: SendCommandExecutor,
    server: ServerCommandExecutor,
    list: ListCommandExecutor,
    glist: GlistCommandExecutor,
    help: HelpCommandExecutor,
    r: Seq<Outcome>,
)
    requires
        r.len() == 7,
        call_ensures(SendCommandExecutor::execute, (&send, &source, a, b), r[0]),
        call_ensures(ServerCommandExecutor::execute_info, (&server, &source), r[1]),
        call_ensures(ServerCommandExecutor::execute_switch, (&server, &source, a), r[2]),
        call_ensures(ListCommandExecutor::execute, (&list, &source), r[3]),
        call_ensures(GlistCommandExecutor::execute, (&glist, &source), r[4]),
        call_ensures(HelpCommandExecutor::execute, (&help, &source), r[5]),
        call_ensures(HelpCommandExecutor::execute_for, (&help, &source, a), r[6]),
    ensures
        r[0]@ == send_outcome(source@, a@, b@),
        r[1]@ == server_info(source@),
        r[2]@ == server_switch(source@, a@),
        r[3]@ == list_outcome(source@),
        r[4]@ == glist_outcome(source@),
        r[5]@ == answer(source@.sender, HELP_TEXT@, 1),
        r[6]@ == answer(source@.sender, help_about(a@), 1),
{
}

/// A source is who gave the command, on this proxy: its permissions, its servers and its sessions.
pub proof fn law_source_is_of_this_proxy(source: ProxyCommandSource)
    ensures
        source@.sender == source.sender@,
        source@.permissions == source.config.permissions@,
        source@.servers == crate::table::keys_of(source.config.servers@),
        source@.sessions == source.session_manager@,
{
}

/// A line that is being typed is taken without one slash before it.
pub proof fn law_typed_line_is_cleaned(s: Seq<char>)
    ensures
        typed_line(seq!['/'] + s) == s,
        s.len() == 0 || s[0] != '/' ==> typed_line(s) == s,
{
    assert((seq!['/'] + s).skip(1) == s);
}

/// What plugins answer is offered and told as it is, for the part of the line and to the sender
/// that they were asked for.
pub proof fn law_plugin_answers_are_used_as_given(
    start: usize,
    length: usize,
    names: Vec<String>,
    s: Suggestions,
    sender: CommandSender,
    e: String,
    code: i32,
    a: Outcome,
    b: Outcome,
)
    requires
        call_ensures(on_plugin_suggestions, (start, length, Some::<Vec<String>>(names)), s),
        call_ensures(
            on_plugin_command,
            (&sender, Ok::<Result<i32, String>, String>(Ok::<i32, String>(code))),
            a,
        ),
        call_ensures(
            on_plugin_command,
            (&sender, Err::<Result<i32, String>, String>(e)),
            b,
        ),
    ensures
        s@ == plugin_suggestions(start as nat, length as nat, Some(texts(names@))),
        a@.result == Ok::<i32, Seq<char>>(code) && a@.effects.len() == 0,
        crate::command::source::only_told(b@, sender@, e@),
{
    law_plugin_answers_are_told(sender@, Err(e@));
}

} // verus!
