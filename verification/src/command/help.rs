//! `/help`.
use vstd::prelude::*;
use vstd::string::*;

use crate::command::source::{
    allowed, answer, command_answer, Outcome, ProxyCommandSource, SourceModel,
};
use crate::text::{begins_with, lower, owned, starts_with, text_eq, texts, to_lower};

verus! {

broadcast use vstd::seq::group_seq_axioms;

/// Help command listing the proxy's commands.
pub struct HelpCommandExecutor;

pub const HELP_TEXT: &'static str = "Available commands:\n  - /server [server]            : View current server or switch to another backend\n  - /send <player|all> <server> : Send players to another backend (Admin)\n  - /list                       : List connected players\n  - /glist                      : List players grouped by server\n  - /help [command]             : Show this help or info about a command";

/// What is said of one command.
pub open spec fn help_about(command: Seq<char>) -> Seq<char> {
    let c = lower(command);
    if c == "server"@ {
        "Command /server:\n  Usage: /server [server]\n  Description: View your current server or switch to another backend server."@
    } else if c == "send"@ {
        "Command /send:\n  Usage: /send <player|all> <server>\n  Description: Send players to another backend server (Requires vine.command.send / admin)."@
    } else if c == "list"@ {
        "Command /list:\n  Usage: /list\n  Description: List all online players connected to the proxy."@
    } else if c == "glist"@ {
        "Command /glist:\n  Usage: /glist\n  Description: List online players grouped by backend server."@
    } else if c == "help"@ {
        "Command /help:\n  Usage: /help [command]\n  Description: Show help information for available proxy commands."@
    } else {
        "Unknown command. Use /help to see all available proxy commands."@
    }
}

impl HelpCommandExecutor {
    pub fn execute(&self, source: &ProxyCommandSource) -> (r: Outcome)
        ensures
            r@ == answer(source@.sender, HELP_TEXT@, 1),
    {
        command_answer(&source.sender, owned(HELP_TEXT), 1)
    }

    /// `/help <command>`.
    pub fn execute_for(&self, source: &ProxyCommandSource, command: &str) -> (r: Outcome)
        ensures
            r@ == answer(source@.sender, help_about(command@), 1),
    {
        let c = to_lower(command);
        let text = if text_eq(c.as_str(), "server") {
            "Command /server:\n  Usage: /server [server]\n  Description: View your current server or switch to another backend server."
        } else if text_eq(c.as_str(), "send") {
            "Command /send:\n  Usage: /send <player|all> <server>\n  Description: Send players to another backend server (Requires vine.command.send / admin)."
        } else if text_eq(c.as_str(), "list") {
            "Command /list:\n  Usage: /list\n  Description: List all online players connected to the proxy."
        } else if text_eq(c.as_str(), "glist") {
            "Command /glist:\n  Usage: /glist\n  Description: List online players grouped by backend server."
        } else if text_eq(c.as_str(), "help") {
            "Command /help:\n  Usage: /help [command]\n  Description: Show help information for available proxy commands."
        } else {
            "Unknown command. Use /help to see all available proxy commands."
        };
        command_answer(&source.sender, owned(text), 1)
    }
}

/// A name is offered where it begins as typed, to those who may use it and to administrators.
pub open spec fn offered(src: SourceModel, typed: Seq<char>, name: Seq<char>, node: Seq<char>) -> bool {
    begins_with(name, typed) && (allowed(src, "vine.admin"@) || allowed(src, node))
}

pub open spec fn if_offered(
    src: SourceModel,
    typed: Seq<char>,
    name: Seq<char>,
    node: Seq<char>,
) -> Seq<Seq<char>> {
    if offered(src, typed, name, node) {
        seq![name]
    } else {
        Seq::empty()
    }
}

/// What `/help` offers for the start of a command's name.
pub open spec fn help_offers(src: SourceModel, typed: Seq<char>) -> Seq<Seq<char>> {
    let t = lower(typed);
    if_offered(src, t, "server"@, "vine.command.server"@) + if_offered(
        src,
        t,
        "send"@,
        "vine.command.send"@,
    ) + if_offered(src, t, "list"@, "vine.command.list"@) + if_offered(
        src,
        t,
        "glist"@,
        "vine.command.glist"@,
    ) + if_offered(src, t, "help"@, "vine.command.help"@)
}

fn offer(
    out: &mut Vec<String>,
    source: &ProxyCommandSource,
    admin: bool,
    typed: &str,
    name: &str,
    node: &str,
)
    requires
        admin == allowed(source@, "vine.admin"@),
    ensures
        texts(final(out)@) == texts(old(out)@) + if_offered(source@, typed@, name@, node@),
{
    let ghost before = texts(out@);
    if starts_with(name, typed) {
        if admin || source.has_permission(node) {
            out.push(owned(name));
            assert(texts(out@) == before + seq![name@]);
            return;
        }
    }
    assert(before + Seq::<Seq<char>>::empty() == before);
}

pub fn help_suggestions(source: &ProxyCommandSource, typed: &str) -> (r: Vec<String>)
    ensures
        texts(r@) == help_offers(source@, typed@),
{
    let t = to_lower(typed);
    let admin = source.is_admin();
    let mut r: Vec<String> = Vec::new();
    assert(texts(r@) == Seq::<Seq<char>>::empty());
    offer(&mut r, source, admin, t.as_str(), "server", "vine.command.server");
    offer(&mut r, source, admin, t.as_str(), "send", "vine.command.send");
    offer(&mut r, source, admin, t.as_str(), "list", "vine.command.list");
    offer(&mut r, source, admin, t.as_str(), "glist", "vine.command.glist");
    offer(&mut r, source, admin, t.as_str(), "help", "vine.command.help");
    assert(texts(r@) == help_offers(source@, typed@));
    r
}

/// A command's name is offered exactly where it begins as typed, in any case, to administrators
/// and to those who may use it.
pub proof fn law_help_offers_what_is_allowed(src: SourceModel, typed: Seq<char>)
    ensures
        ({
            let o = help_offers(src, typed);
            let t = lower(typed);
            let admin = allowed(src, "vine.admin"@);
            &&& o.contains("server"@) <==> begins_with("server"@, t) && (admin || allowed(
                src,
                "vine.command.server"@,
            ))
            &&& o.contains("send"@) <==> begins_with("send"@, t) && (admin || allowed(
                src,
                "vine.command.send"@,
            ))
            &&& o.contains("list"@) <==> begins_with("list"@, t) && (admin || allowed(
                src,
                "vine.command.list"@,
            ))
            &&& o.contains("glist"@) <==> begins_with("glist"@, t) && (admin || allowed(
                src,
                "vine.command.glist"@,
            ))
            &&& o.contains("help"@) <==> begins_with("help"@, t) && (admin || allowed(
                src,
                "vine.command.help"@,
            ))
            &&& o.len() <= 5
        }),
{
    lemma_names_differ();
    let t = lower(typed);
    let a = if_offered(src, t, "server"@, "vine.command.server"@);
    let b = if_offered(src, t, "send"@, "vine.command.send"@);
    let c = if_offered(src, t, "list"@, "vine.command.list"@);
    let d = if_offered(src, t, "glist"@, "vine.command.glist"@);
    let e = if_offered(src, t, "help"@, "vine.command.help"@);
    let o = help_offers(src, typed);
    assert(o == a + b + c + d + e);
    if a.len() > 0 {
        assert(o[0] == "server"@);
    }
    if b.len() > 0 {
        assert(o[a.len() as int] == "send"@);
    }
    if c.len() > 0 {
        assert(o[(a.len() + b.len()) as int] == "list"@);
    }
    if d.len() > 0 {
        assert(o[(a.len() + b.len() + c.len()) as int] == "glist"@);
    }
    if e.len() > 0 {
        assert(o[(a.len() + b.len() + c.len() + d.len()) as int] == "help"@);
    }
    assert forall|x: Seq<char>| #[trigger] o.contains(x) implies (a.contains(x) || b.contains(x)
        || c.contains(x) || d.contains(x) || e.contains(x)) by {
        let i = choose|i: int| 0 <= i < o.len() && o[i] == x;
        let n1 = a.len() as int;
        let n2 = n1 + b.len();
        let n3 = n2 + c.len();
        let n4 = n3 + d.len();
        if i < n1 {
            assert(a[i] == x);
        } else if i < n2 {
            assert(b[i - n1] == x);
        } else if i < n3 {
            assert(c[i - n2] == x);
        } else if i < n4 {
            assert(d[i - n3] == x);
        } else {
            assert(e[i - n4] == x);
        }
    }
}

proof fn lemma_names_differ()
    ensures
        "server"@ != "send"@ && "server"@ != "list"@ && "server"@ != "glist"@ && "server"@
            != "help"@,
        "send"@ != "list"@ && "send"@ != "glist"@ && "send"@ != "help"@,
        "list"@ != "glist"@ && "list"@ != "help"@ && "glist"@ != "help"@,
{
    reveal_strlit("server");
    reveal_strlit("send");
    reveal_strlit("list");
    reveal_strlit("glist");
    reveal_strlit("help");
    assert("server"@.len() == 6 && "glist"@.len() == 5);
    assert("send"@.len() == 4 && "list"@.len() == 4 && "help"@.len() == 4);
    assert("send"@[0] == 's' && "list"@[0] == 'l' && "help"@[0] == 'h');
}

/// Help about a command of the proxy speaks of that command, however its name is written.
pub proof fn law_help_is_about_its_command(command: Seq<char>)
    ensures
        lower(command) == "server"@ ==> crate::text::begins_with(
            help_about(command),
            "Command /server:"@,
        ),
        lower(command) == "send"@ ==> crate::text::begins_with(
            help_about(command),
            "Command /send:"@,
        ),
        lower(command) == "list"@ ==> crate::text::begins_with(
            help_about(command),
            "Command /list:"@,
        ),
        lower(command) == "glist"@ ==> crate::text::begins_with(
            help_about(command),
            "Command /glist:"@,
        ),
        lower(command) == "help"@ ==> crate::text::begins_with(
            help_about(command),
            "Command /help:"@,
        ),
{
    lemma_names_differ();
    reveal_strlit("Command /server:");
    reveal_strlit("Command /send:");
    reveal_strlit("Command /list:");
    reveal_strlit("Command /glist:");
    reveal_strlit("Command /help:");
    reveal_strlit("Command /server:\n  Usage: /server [server]\n  Description: View your current server or switch to another backend server.");
    reveal_strlit("Command /send:\n  Usage: /send <player|all> <server>\n  Description: Send players to another backend server (Requires vine.command.send / admin).");
    reveal_strlit("Command /list:\n  Usage: /list\n  Description: List all online players connected to the proxy.");
    reveal_strlit("Command /glist:\n  Usage: /glist\n  Description: List online players grouped by backend server.");
    reveal_strlit("Command /help:\n  Usage: /help [command]\n  Description: Show help information for available proxy commands.");
    assert("Command /server:\n  Usage: /server [server]\n  Description: View your current server or switch to another backend server."@.take(
        16,
    ) =~= "Command /server:"@);
    assert("Command /send:\n  Usage: /send <player|all> <server>\n  Description: Send players to another backend server (Requires vine.command.send / admin)."@.take(
        14,
    ) =~= "Command /send:"@);
    assert("Command /list:\n  Usage: /list\n  Description: List all online players connected to the proxy."@.take(
        14,
    ) =~= "Command /list:"@);
    assert("Command /glist:\n  Usage: /glist\n  Description: List online players grouped by backend server."@.take(
        15,
    ) =~= "Command /glist:"@);
    assert("Command /help:\n  Usage: /help [command]\n  Description: Show help information for available proxy commands."@.take(
        14,
    ) =~= "Command /help:"@);
}

} // verus!
