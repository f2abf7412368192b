//! Who gives a command, what they may do, and what comes of it.
use vstd::prelude::*;
use vstd::string::*;

use crate::config::Config;
use crate::permissions::{effective, permitted, PermissionsModel};
use crate::session::{PlayerAction, SessionManager, Sessions};
use crate::table::{keys_of, views};
use crate::text::{eq_ignore_case, owned, same_ignoring_case, texts};

verus! {

broadcast use vstd::seq::group_seq_axioms;

/// Where a command comes from.
#[derive(Debug, PartialEq, Eq)]
pub enum CommandSender<S = String> {
    /// The proxy's console
    Console,
    /// A player in the game
    Player {
        username: S,
        /// Where actions for the player are sent
        channel: u64,
    },
}

pub type SenderModel = CommandSender<Seq<char>>;

impl View for CommandSender {
    type V = SenderModel;

    open spec fn view(&self) -> SenderModel {
        match self {
            CommandSender::Console => CommandSender::Console,
            CommandSender::Player { username, channel } => CommandSender::Player {
                username: username@,
                channel: *channel,
            },
        }
    }
}

impl Clone for CommandSender {
    fn clone(&self) -> (r: Self)
        ensures
            r@ == self@,
    {
        match self {
            CommandSender::Console => CommandSender::Console,
            CommandSender::Player { username, channel } => CommandSender::Player {
                username: username.clone(),
                channel: *channel,
            },
        }
    }
}

/// Something that a command asks to be done.
#[derive(Debug, PartialEq, Eq)]
pub enum Effect<S = String, B = Vec<u8>> {
    /// Write a line to the console
    Log(S),
    /// Send an action to a player's connection
    Act { channel: u64, action: PlayerAction<S, B> },
}

pub type EffectModel = Effect<Seq<char>, Seq<u8>>;

impl View for Effect {
    type V = EffectModel;

    open spec fn view(&self) -> EffectModel {
        match self {
            Effect::Log(t) => Effect::Log(t@),
            Effect::Act { channel, action } => Effect::Act { channel: *channel, action: action@ },
        }
    }
}

/// A text for whoever gave the command.
pub open spec fn reply(sender: SenderModel, text: Seq<char>) -> EffectModel {
    match sender {
        CommandSender::Console => Effect::Log(text),
        CommandSender::Player { channel, .. } => Effect::Act {
            channel,
            action: PlayerAction::Message(text),
        },
    }
}

pub open spec fn sender_name(sender: SenderModel) -> Seq<char> {
    match sender {
        CommandSender::Console => "CONSOLE"@,
        CommandSender::Player { username, .. } => username,
    }
}

impl CommandSender {
    /// A message to the sender: the console's log, or a line of chat.
    pub fn send_message(&self, message: String) -> (r: Effect)
        ensures
            r@ == reply(self@, message@),
    {
        match self {
            CommandSender::Console => Effect::Log(message),
            CommandSender::Player { channel, .. } => Effect::Act {
                channel: *channel,
                action: PlayerAction::Message(message),
            },
        }
    }

    /// A plain text message to the sender.
    pub fn send_text(&self, text: &str) -> (r: Effect)
        ensures
            r@ == reply(self@, text@),
    {
        self.send_message(owned(text))
    }

    /// The name of the sender.
    pub fn name(&self) -> (r: &str)
        ensures
            r@ == sender_name(self@),
    {
        match self {
            CommandSender::Console => "CONSOLE",
            CommandSender::Player { username, .. } => username.as_str(),
        }
    }
}

/// What a command is given to work with.
pub struct ProxyCommandSource<'a> {
    pub sender: CommandSender,
    pub config: &'a Config,
    pub session_manager: &'a SessionManager,
}

/// What commands go by: of the configuration they read permissions and server names alone.
pub struct SourceModel {
    pub sender: SenderModel,
    pub permissions: PermissionsModel,
    /// Names of the configured servers
    pub servers: Seq<Seq<char>>,
    pub sessions: Sessions,
}

impl<'a> View for ProxyCommandSource<'a> {
    type V = SourceModel;

    open spec fn view(&self) -> SourceModel {
        SourceModel {
            sender: self.sender@,
            permissions: self.config.permissions@,
            servers: keys_of(self.config.servers@),
            sessions: self.session_manager@,
        }
    }
}

/// The console may do anything; a player, what their permissions say.
pub open spec fn allowed(src: SourceModel, node: Seq<char>) -> bool {
    match src.sender {
        CommandSender::Console => true,
        CommandSender::Player { username, .. } => permitted(
            effective(src.permissions, username),
            node,
        ),
    }
}

impl<'a> ProxyCommandSource<'a> {
    /// Whether the source has a permission node. The console has every one.
    pub fn has_permission(&self, node: &str) -> (r: bool)
        ensures
            r == allowed(self@, node@),
    {
        match &self.sender {
            CommandSender::Console => true,
            CommandSender::Player { username, .. } => self.config.permissions.has_permission(
                username.as_str(),
                node,
            ),
        }
    }

    /// Whether the source has administrative privileges.
    pub fn is_admin(&self) -> (r: bool)
        ensures
            r == allowed(self@, "vine.admin"@),
    {
        self.has_permission("vine.admin")
    }

    /// The configured server of this name in any case, as it is configured.
    pub fn server_like(&self, name: &str) -> (r: Option<String>)
        ensures
            crate::text::opt_text(r) == first_like(self@.servers, name@),
    {
        let keys = self.config.servers.keys();
        let mut i: usize = 0;
        assert(texts(keys@).skip(0) == texts(keys@));
        while i < keys.len()
            invariant
                i <= keys@.len(),
                texts(keys@) == self@.servers,
                first_like(self@.servers, name@) == first_like(
                    texts(keys@).skip(i as int),
                    name@,
                ),
            decreases keys.len() - i,
        {
            let ghost rest = texts(keys@).skip(i as int);
            assert(rest[0] == keys@[i as int]@);
            assert(rest.skip(1) == texts(keys@).skip(i + 1));
            if eq_ignore_case(keys[i].as_str(), name) {
                return Some(keys[i].clone());
            }
            i = i + 1;
        }
        None
    }
}

/// The first of some names that is `name` in any case.
pub open spec fn first_like(names: Seq<Seq<char>>, name: Seq<char>) -> Option<Seq<char>>
    decreases names.len(),
{
    if names.len() == 0 {
        None
    } else if same_ignoring_case(names[0], name) {
        Some(names[0])
    } else {
        first_like(names.skip(1), name)
    }
}

/// What a command has come to.
#[derive(Debug, PartialEq, Eq)]
pub struct Outcome {
    /// What is to be done, in order
    pub effects: Vec<Effect>,
    /// A number that says how much was done, or why nothing was
    pub result: Result<i32, String>,
}

pub struct OutcomeModel {
    pub effects: Seq<EffectModel>,
    pub result: Result<i32, Seq<char>>,
}

impl View for Outcome {
    type V = OutcomeModel;

    open spec fn view(&self) -> OutcomeModel {
        OutcomeModel {
            effects: views(self.effects@),
            result: match self.result {
                Ok(n) => Ok(n),
                Err(t) => Err(t@),
            },
        }
    }
}

/// Nothing done, for a reason.
pub open spec fn refusal(text: Seq<char>) -> OutcomeModel {
    OutcomeModel { effects: Seq::empty(), result: Err(text) }
}

/// One reply and a number.
pub open spec fn answer(sender: SenderModel, text: Seq<char>, n: i32) -> OutcomeModel {
    OutcomeModel { effects: seq![reply(sender, text)], result: Ok(n) }
}

/// A command that fails with a message.
pub fn command_error(msg: String) -> (r: Outcome)
    ensures
        r@ == refusal(msg@),
{
    let r = Outcome { effects: Vec::new(), result: Err(msg) };
    assert(r@.effects == Seq::<EffectModel>::empty());
    r
}

pub fn command_answer(sender: &CommandSender, text: String, n: i32) -> (r: Outcome)
    ensures
        r@ == answer(sender@, text@, n),
{
    let r = Outcome { effects: vec![sender.send_message(text)], result: Ok(n) };
    assert(r@.effects == seq![reply(sender@, text@)]);
    r
}

/// The console is never refused for want of a permission.
pub proof fn law_console_may_do_anything(src: SourceModel, node: Seq<char>)
    requires
        src.sender is Console,
    ensures
        allowed(src, node),
{
}

/// A reply reaches whoever gave the command, as it is: a line in the console's log, or a message
/// to the player's own connection.
pub proof fn law_reply_reaches_the_sender(sender: SenderModel, text: Seq<char>)
    ensures
        sender is Console ==> (reply(sender, text) matches Effect::Log(t) && t == text),
        sender matches CommandSender::Player { username, channel } ==> (reply(
            sender,
            text,
        ) matches Effect::Act { channel: c, action: PlayerAction::Message(t) } && c == channel && t
            == text),
{
}

/// A player may do what the permissions in force for them grant, and nothing else.
pub proof fn law_player_needs_permission(src: SourceModel, node: Seq<char>)
    ensures
        src.sender matches CommandSender::Player { username, .. } ==> (allowed(src, node)
            <==> permitted(effective(src.permissions, username), node)),
{
}

/// A refusal does nothing and gives its reason; an answer does nothing but reply.
pub proof fn law_refusals_do_nothing(sender: SenderModel, text: Seq<char>, n: i32)
    ensures
        refusal(text).effects.len() == 0,
        refusal(text).result == Err::<i32, Seq<char>>(text),
        answer(sender, text, n).effects.len() == 1,
        answer(sender, text, n).effects[0] == reply(sender, text),
        answer(sender, text, n).result == Ok::<i32, Seq<char>>(n),
{
}

/// A message is for the one who gave the command and holds a text.
pub open spec fn told(e: EffectModel, sender: SenderModel, part: Seq<char>) -> bool {
    match sender {
        CommandSender::Console => e matches Effect::Log(t) && crate::text::holds_part(t, part),
        CommandSender::Player { channel, .. } => e matches Effect::Act {
            channel: c,
            action: PlayerAction::Message(t),
        } && c == channel && crate::text::holds_part(t, part),
    }
}

/// A command was carried out with nothing but one message to its sender.
pub open spec fn only_told(o: OutcomeModel, sender: SenderModel, part: Seq<char>) -> bool {
    o.effects.len() == 1 && told(o.effects[0], sender, part) && o.result is Ok
}

} // verus!
