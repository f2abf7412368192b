//! Putting the proxy's commands into the tree of commands that a backend sends.
//!
//! The tree's nodes follow one another; the first is the root, which lists the numbers of its
//! children. New nodes go to the end, so that no number changes, and the root lists them too.
use vstd::prelude::*;
use vstd::string::*;

use crate::codec::{
    get_varint, law_varint_round_trip, put_bytes, put_varint, read_varint, signed, slice_of,
    to_signed, varint,
};
use crate::table::views;
use crate::text::{copy_texts, text_eq, texts};
use crate::version::ClientVersion;

verus! {

broadcast use vstd::seq::group_seq_axioms;

/// A node to add to the tree.
#[derive(Debug, PartialEq, Eq)]
pub enum NewNode<S = String> {
    /// A command's name; `child` is the node of its arguments
    Literal { name: S, executable: bool, child: Option<i32> },
    /// The rest of a line, for which the server is asked for suggestions
    Arguments,
}

pub type NewNodeModel = NewNode<Seq<char>>;

impl View for NewNode {
    type V = NewNodeModel;

    open spec fn view(&self) -> NewNodeModel {
        match self {
            NewNode::Literal { name, executable, child } => NewNode::Literal {
                name: name@,
                executable: *executable,
                child: *child,
            },
            NewNode::Arguments => NewNode::Arguments,
        }
    }
}

/// Some VarInts one after the other, and what follows them.
pub open spec fn read_children(b: Seq<u8>, n: nat) -> Option<(Seq<i32>, Seq<u8>)>
    decreases n,
{
    if n == 0 {
        Some((Seq::empty(), b))
    } else {
        match read_children(b, (n - 1) as nat) {
            None => None,
            Some((list, rest)) => match read_varint(rest) {
                Ok((child, after)) => Some((list.push(child), after)),
                Err(_) => None,
            },
        }
    }
}

/// The head of a tree: the number of nodes, the root's children, and what follows the root.
#[verifier::opaque]
pub open spec fn tree_head(payload: Seq<u8>) -> Option<(i32, Seq<i32>, Seq<u8>)> {
    match read_varint(payload) {
        Err(_) => None,
        Ok((node_count, r1)) => if node_count <= 0 || r1.len() == 0 || r1[0] != 0 {
            None
        } else {
            match read_varint(r1.skip(1)) {
                Err(_) => None,
                Ok((n, r2)) => if n < 0 {
                    None
                } else {
                    match read_children(r2, n as nat) {
                        None => None,
                        Some((children, rest)) => Some((node_count, children, rest)),
                    }
                },
            }
        },
    }
}

/// A tree that can be added to: its root comes first, is plain, and is said to be the root by
/// the last byte.
pub open spec fn extendable(payload: Seq<u8>) -> Option<(i32, Seq<i32>, Seq<u8>)> {
    if payload.len() == 0 || payload.last() != 0 {
        None
    } else {
        match tree_head(payload) {
            Some((node_count, children, rest)) => if rest.len() == 0 {
                None
            } else {
                Some((node_count, children, rest.drop_last()))
            },
            None => None,
        }
    }
}

/// Commands of the proxy that take arguments.
pub open spec fn takes_args(name: Seq<char>) -> bool {
    name == "server"@ || name == "send"@ || name == "help"@
}

pub open spec fn node_width(name: Seq<char>) -> nat {
    if takes_args(name) {
        2
    } else {
        1
    }
}

/// How many nodes some commands take.
pub open spec fn nodes_for(names: Seq<Seq<char>>) -> nat
    decreases names.len(),
{
    if names.len() == 0 {
        0
    } else {
        nodes_for(names.drop_last()) + node_width(names.last())
    }
}

/// The nodes of one command, of which the first gets the number `at`.
pub open spec fn command_nodes(name: Seq<char>, at: nat) -> Seq<NewNodeModel> {
    if takes_args(name) {
        seq![
            NewNode::Literal {
                name,
                executable: name != "send"@,
                child: Some(signed(at + 1)),
            },
            NewNode::Arguments,
        ]
    } else {
        seq![NewNode::Literal { name, executable: true, child: None }]
    }
}

/// The nodes of some commands in a tree that has `base` nodes.
pub open spec fn new_nodes(names: Seq<Seq<char>>, base: nat) -> Seq<NewNodeModel>
    decreases names.len(),
{
    if names.len() == 0 {
        Seq::empty()
    } else {
        new_nodes(names.drop_last(), base) + command_nodes(
            names.last(),
            base + nodes_for(names.drop_last()),
        )
    }
}

/// The numbers of the commands' first nodes.
pub open spec fn new_children(names: Seq<Seq<char>>, base: nat) -> Seq<i32>
    decreases names.len(),
{
    if names.len() == 0 {
        Seq::empty()
    } else {
        new_children(names.drop_last(), base).push(signed(base + nodes_for(names.drop_last())))
    }
}

pub open spec fn varints(list: Seq<i32>) -> Seq<u8>
    decreases list.len(),
{
    if list.len() == 0 {
        Seq::empty()
    } else {
        varints(list.drop_last()) + varint(list.last())
    }
}

/// The tree with new nodes: `encoded` holds them as the protocol writes them.
pub open spec fn extended(
    node_count: i32,
    children: Seq<i32>,
    nodes: Seq<u8>,
    names: Seq<Seq<char>>,
    encoded: Seq<u8>,
) -> Seq<u8> {
    let base = node_count as nat;
    varint(signed(base + nodes_for(names))) + seq![0u8] + varint(
        signed(children.len() + names.len()),
    ) + varints(children) + varints(new_children(names, base)) + nodes + encoded + seq![0u8]
}

/// What is to be put into a tree.
#[derive(Debug, PartialEq, Eq)]
pub struct Injection {
    /// The number of nodes in the tree as it came
    pub node_count: i32,
    /// The root's children as they came
    pub children: Vec<i32>,
    /// The nodes behind the root, as they came
    pub nodes: Vec<u8>,
    /// The commands to add
    pub names: Vec<String>,
    /// The numbers of their first nodes
    pub new_children: Vec<i32>,
    /// The number of nodes in the new tree
    pub total: i32,
    /// The nodes to add, in order
    pub new_nodes: Vec<NewNode>,
}

impl Injection {
    /// The numbers are those of the commands.
    pub open spec fn wf(&self) -> bool {
        let names = texts(self.names@);
        &&& self.node_count > 0
        &&& self.new_children@ == new_children(names, self.node_count as nat)
        &&& self.new_children@.len() == names.len()
        &&& self.total == signed(self.node_count as nat + nodes_for(names))
        &&& views(self.new_nodes@) == new_nodes(names, self.node_count as nat)
    }
}

/// Appends the nodes of one command; `child` is the number of the node behind its name.
fn push_command(out: &mut Vec<NewNode>, name: &String, child: i32, Ghost(at): Ghost<nat>)
    requires
        child == signed(at + 1),
    ensures
        views(final(out)@) == views(old(out)@) + command_nodes(name@, at),
{
    let ghost before = views(out@);
    let is_send = text_eq(name.as_str(), "send");
    if text_eq(name.as_str(), "server") || is_send || text_eq(name.as_str(), "help") {
        out.push(
            NewNode::Literal { name: name.clone(), executable: !is_send, child: Some(child) },
        );
        out.push(NewNode::Arguments);
    } else {
        out.push(NewNode::Literal { name: name.clone(), executable: true, child: None });
    }
    assert(views(out@) =~= before + command_nodes(name@, at));
}

fn width_of(name: &String) -> (r: u32)
    ensures
        r == node_width(name@),
{
    if text_eq(name.as_str(), "server") || text_eq(name.as_str(), "send") || text_eq(
        name.as_str(),
        "help",
    ) {
        2
    } else {
        1
    }
}

/// The nodes of some commands, the numbers of their first nodes, and the number of all nodes.
fn number_nodes(node_count: i32, names: &Vec<String>) -> (r: (Vec<NewNode>, Vec<i32>, i32))
    requires
        node_count > 0,
    ensures
        views(r.0@) == new_nodes(texts(names@), node_count as nat),
        r.1@ == new_children(texts(names@), node_count as nat),
        r.1@.len() == names@.len(),
        r.2 == signed(node_count as nat + nodes_for(texts(names@))),
{
    let ghost ns = texts(names@);
    let ghost base = node_count as nat;
    let mut added: Vec<NewNode> = Vec::new();
    let mut roots: Vec<i32> = Vec::new();
    let mut width: u32 = 0;
    let mut k: usize = 0;
    assert(ns.take(0) == Seq::<Seq<char>>::empty());
    assert(views(added@) == Seq::<NewNodeModel>::empty());
    while k < names.len()
        invariant
            k <= names@.len(),
            ns == texts(names@),
            node_count > 0,
            base == node_count as nat,
            width == nodes_for(ns.take(k as int)) % 0x1_0000_0000,
            views(added@) == new_nodes(ns.take(k as int), base),
            roots@ == new_children(ns.take(k as int), base),
            roots@.len() == k,
        decreases names.len() - k,
    {
        let ghost n = nodes_for(ns.take(k as int));
        proof {
            assert(ns.take(k + 1).drop_last() == ns.take(k as int));
            assert(ns.take(k + 1).last() == names@[k as int]@);
            lemma_low_bits(base, width as nat, n);
            lemma_low_bits(base + 1, width as nat, n);
            lemma_low_sum(n, width as nat, node_width(names@[k as int]@));
        }
        let number: i32 = to_signed(node_count as u64 + width as u64);
        let child: i32 = to_signed(node_count as u64 + width as u64 + 1);
        push_command(&mut added, &names[k], child, Ghost(base + n));
        roots.push(number);
        width = width.wrapping_add(width_of(&names[k]));
        k = k + 1;
    }
    assert(ns.take(ns.len() as int) == ns);
    proof {
        lemma_low_bits(base, width as nat, nodes_for(ns));
    }
    (added, roots, to_signed(node_count as u64 + width as u64))
}

proof fn lemma_low_sum(n: nat, low: nat, w: nat)
    requires
        low == n % 0x1_0000_0000,
    ensures
        (low + w) % 0x1_0000_0000 == (n + w) % 0x1_0000_0000,
{
}

/// Plans how commands are put into the tree of a commands packet. Trees of versions before 1.13
/// do not exist, and a tree whose root does not come first is left alone.
pub fn plan_injection(payload: &[u8], version: ClientVersion, names: &Vec<String>) -> (r: Option<
    Injection,
>)
    ensures
        r is Some <==> version.has_command_tree && names@.len() > 0 && extendable(payload@) is Some,
        r matches Some(p) ==> {
            &&& extendable(payload@) == Some((p.node_count, p.children@, p.nodes@))
            &&& texts(p.names@) == texts(names@)
            &&& p.wf()
        },
{
    reveal(tree_head);
    if !version.has_command_tree || names.len() == 0 {
        return None;
    }
    if payload.len() == 0 || payload[payload.len() - 1] != 0 {
        return None;
    }
    assert(payload@.skip(0) == payload@);
    let (node_count, p1) = match get_varint(payload, 0) {
        Ok(x) => x,
        Err(_) => return None,
    };
    if node_count <= 0 || p1 >= payload.len() || payload[p1] != 0 {
        return None;
    }
    assert(payload@.skip(p1 as int).skip(1) == payload@.skip(p1 + 1));
    let (count, p2) = match get_varint(payload, p1 + 1) {
        Ok(x) => x,
        Err(_) => return None,
    };
    if count < 0 {
        return None;
    }
    let ghost r2 = payload@.skip(p2 as int);
    let mut children: Vec<i32> = Vec::new();
    let mut pos: usize = p2;
    let mut i: i32 = 0;
    while i < count
        invariant
            0 <= i <= count,
            pos <= payload@.len(),
            r2 == payload@.skip(p2 as int),
            payload@.len() > 0,
            payload@.last() == 0,
            names@.len() > 0,
            version.has_command_tree,
            read_children(r2, i as nat) == Some((children@, payload@.skip(pos as int))),
            read_varint(payload@) == Ok::<_, crate::codec::ReadError>(
                (node_count, payload@.skip(p1 as int)),
            ),
            node_count > 0,
            p1 < payload@.len(),
            payload@[p1 as int] == 0,
            payload@.skip(p1 as int).skip(1) == payload@.skip(p1 + 1),
            read_varint(payload@.skip(p1 + 1)) == Ok::<_, crate::codec::ReadError>((count, r2)),
        decreases count - i,
    {
        match get_varint(payload, pos) {
            Ok((child, next)) => {
                children.push(child);
                pos = next;
            },
            Err(_) => {
                proof {
                    reveal(tree_head);
                    lemma_children_fail(r2, (i + 1) as nat, count as nat);
                }
                return None;
            },
        }
        i = i + 1;
    }
    let ghost rest = payload@.skip(pos as int);
    if pos >= payload.len() {
        return None;
    }
    let nodes = slice_of(payload, pos, payload.len() - 1);
    assert(nodes@ == rest.drop_last());
    let (new_nodes, roots, total) = number_nodes(node_count, names);
    Some(
        Injection {
            node_count,
            children,
            nodes,
            names: copy_texts(names),
            new_children: roots,
            total,
            new_nodes,
        },
    )
}

proof fn lemma_low_bits(a: nat, low: nat, n: nat)
    requires
        low == n % 0x1_0000_0000,
    ensures
        signed(a + low) == signed(a + n),
{
    assert((a + low) % 0x1_0000_0000 == (a + n) % 0x1_0000_0000);
}

/// Where one VarInt of a list cannot be read, the list cannot be read.
proof fn lemma_children_fail(b: Seq<u8>, m: nat, n: nat)
    requires
        m <= n,
        read_children(b, m) is None,
    ensures
        read_children(b, n) is None,
    decreases n,
{
    if m < n {
        lemma_children_fail(b, m, (n - 1) as nat);
    }
}

fn put_varints(out: &mut Vec<u8>, list: &Vec<i32>)
    ensures
        final(out)@ == old(out)@ + varints(list@),
{
    let ghost before = out@;
    let mut i: usize = 0;
    assert(list@.take(0) == Seq::<i32>::empty());
    assert(out@ == before + varints(list@.take(0)));
    while i < list.len()
        invariant
            i <= list@.len(),
            out@ == before + varints(list@.take(i as int)),
        decreases list.len() - i,
    {
        put_varint(out, list[i]);
        assert(list@.take(i + 1).drop_last() == list@.take(i as int));
        assert(list@.take(i + 1).last() == list@[i as int]);
        assert(out@ == before + (varints(list@.take(i as int)) + varint(list@[i as int])));
        i = i + 1;
    }
    assert(list@.take(list@.len() as int) == list@);
}

/// Carries a plan out. `encoded` holds the plan's new nodes as the protocol writes them.
pub fn inject_proxy_commands(plan: &Injection, encoded: &[u8]) -> (r: Vec<u8>)
    requires
        plan.wf(),
    ensures
        r@ == extended(
            plan.node_count,
            plan.children@,
            plan.nodes@,
            texts(plan.names@),
            encoded@,
        ),
{
    let ghost names = texts(plan.names@);
    let mut out: Vec<u8> = Vec::new();
    put_varint(&mut out, plan.total);
    assert(out@ =~= varint(plan.total));
    out.push(0u8);
    assert(out@ =~= varint(plan.total) + seq![0u8]);
    let n: u64 = (plan.children.len() as u64).wrapping_add(plan.new_children.len() as u64);
    proof {
        lemma_count_bits(plan.children@.len(), names.len(), n);
    }
    put_varint(&mut out, to_signed(n));
    put_varints(&mut out, &plan.children);
    put_varints(&mut out, &plan.new_children);
    put_bytes(&mut out, plan.nodes.as_slice());
    put_bytes(&mut out, encoded);
    let ghost body = out@;
    out.push(0u8);
    assert(out@ =~= body + seq![0u8]);
    out
}

proof fn lemma_count_bits(a: nat, b: nat, n: u64)
    requires
        n == (if a + b > u64::MAX {
            a + b - 0x1_0000_0000_0000_0000
        } else {
            (a + b) as int
        }),
    ensures
        signed(n as nat) == signed(a + b),
{
    if a + b > u64::MAX {
        assert((a + b - 0x1_0000_0000_0000_0000) % 0x1_0000_0000 == (a + b) % 0x1_0000_0000);
    }
}

// ---------------------------------------------------------------------------
// Laws of the tree
// ---------------------------------------------------------------------------

proof fn lemma_children_append(list: Seq<i32>, rest: Seq<u8>)
    ensures
        read_children(varints(list) + rest, list.len()) == Some((list, rest)),
    decreases list.len(),
{
    if list.len() > 0 {
        let front = list.drop_last();
        let last = list.last();
        lemma_children_append(front, varint(last) + rest);
        assert(varints(list) + rest == varints(front) + (varint(last) + rest));
        law_varint_round_trip(last, rest);
        assert(front.push(last) == list);
    } else {
        assert(varints(list) + rest == rest);
    }
}

proof fn lemma_varints_add(a: Seq<i32>, b: Seq<i32>)
    ensures
        varints(a + b) == varints(a) + varints(b),
    decreases b.len(),
{
    if b.len() == 0 {
        assert(a + b == a);
    } else {
        lemma_varints_add(a, b.drop_last());
        assert((a + b).drop_last() == a + b.drop_last());
        assert((a + b).last() == b.last());
    }
}

proof fn lemma_new_children(names: Seq<Seq<char>>, base: nat)
    requires
        base + nodes_for(names) <= i32::MAX,
    ensures
        new_children(names, base).len() == names.len(),
        nodes_for(names) >= names.len(),
        forall|i: int|
            0 <= i < names.len() ==> base <= #[trigger] new_children(names, base)[i] < base
                + nodes_for(names),
    decreases names.len(),
{
    if names.len() > 0 {
        lemma_new_children(names.drop_last(), base);
    }
}

/// The new tree is a tree to which commands could be added in turn: it counts the old nodes and
/// the new, its root lists the old children and then the new, the old nodes follow unchanged,
/// and the new ones come after them.
pub proof fn law_injected_tree_reads_back(
    node_count: i32,
    children: Seq<i32>,
    nodes: Seq<u8>,
    names: Seq<Seq<char>>,
    encoded: Seq<u8>,
)
    requires
        node_count > 0,
        node_count + nodes_for(names) <= i32::MAX,
        children.len() + names.len() <= i32::MAX,
    ensures
        extendable(extended(node_count, children, nodes, names, encoded)) == Some(
            (
                (node_count + nodes_for(names)) as i32,
                children + new_children(names, node_count as nat),
                nodes + encoded,
            ),
        ),
{
    let base = node_count as nat;
    let all = children + new_children(names, base);
    let total = (base + nodes_for(names)) as i32;
    let tail = nodes + encoded + seq![0u8];
    lemma_new_children(names, base);
    lemma_extended_shape(node_count, children, nodes, names, encoded);
    lemma_tree_head(total, all, tail);
    assert(tail.drop_last() =~= nodes + encoded);
    assert(extended(node_count, children, nodes, names, encoded).last() == 0);
}

proof fn lemma_extended_shape(
    node_count: i32,
    children: Seq<i32>,
    nodes: Seq<u8>,
    names: Seq<Seq<char>>,
    encoded: Seq<u8>,
)
    requires
        node_count > 0,
        node_count + nodes_for(names) <= i32::MAX,
        children.len() + names.len() <= i32::MAX,
    ensures
        extended(node_count, children, nodes, names, encoded) == varint(
            (node_count + nodes_for(names)) as i32,
        ) + (seq![0u8] + (varint((children.len() + names.len()) as i32) + (varints(
            children + new_children(names, node_count as nat),
        ) + (nodes + encoded + seq![0u8])))),
{
    let fresh = new_children(names, node_count as nat);
    lemma_varints_add(children, fresh);
    lemma_regroup(
        varint((node_count + nodes_for(names)) as i32),
        seq![0u8],
        varint((children.len() + names.len()) as i32),
        varints(children),
        varints(fresh),
        nodes,
        encoded,
    );
}

proof fn lemma_tree_head(total: i32, all: Seq<i32>, tail: Seq<u8>)
    requires
        total > 0,
        all.len() <= i32::MAX,
    ensures
        tree_head(varint(total) + (seq![0u8] + (varint(all.len() as i32) + (varints(all) + tail))))
            == Some((total, all, tail)),
{
    reveal(tree_head);
    let after = varints(all) + tail;
    let body = varint(all.len() as i32) + after;
    law_varint_round_trip(total, seq![0u8] + body);
    assert((seq![0u8] + body).skip(1) == body);
    law_varint_round_trip(all.len() as i32, after);
    lemma_children_append(all, tail);
}

proof fn lemma_regroup(
    a: Seq<u8>,
    b: Seq<u8>,
    c: Seq<u8>,
    d: Seq<u8>,
    e: Seq<u8>,
    f: Seq<u8>,
    g: Seq<u8>,
)
    ensures
        a + b + c + d + e + f + g + seq![0u8] == a + (b + (c + ((d + e) + (f + g + seq![0u8])))),
{
    let z = seq![0u8];
    assert(a + b + c + d + e + f + g + z =~= (a + b + c) + ((d + e) + (f + g + z)));
    let t = (d + e) + (f + g + z);
    assert((a + b + c) + t =~= a + (b + (c + t)));
}

/// Each new child of the root is one of the new nodes.
pub proof fn law_new_children_are_new_nodes(names: Seq<Seq<char>>, node_count: i32, i: int)
    requires
        node_count > 0,
        node_count + nodes_for(names) <= i32::MAX,
        0 <= i < names.len(),
    ensures
        node_count <= new_children(names, node_count as nat)[i] < node_count + nodes_for(names),
{
    lemma_new_children(names, node_count as nat);
}

proof fn lemma_node_count(names: Seq<Seq<char>>, base: nat)
    ensures
        new_nodes(names, base).len() == nodes_for(names),
        new_children(names, base).len() == names.len(),
    decreases names.len(),
{
    if names.len() > 0 {
        lemma_node_count(names.drop_last(), base);
    }
}

/// Each command is found where the root points: its node bears its name and can be run as it is,
/// but for `/send`, which needs arguments. A command that takes arguments points to the node
/// behind it, which asks the server for suggestions.
pub proof fn law_commands_are_found_in_the_tree(names: Seq<Seq<char>>, node_count: i32, i: int)
    requires
        node_count > 0,
        node_count + nodes_for(names) < i32::MAX,
        0 <= i < names.len(),
    ensures
        ({
            let nodes = new_nodes(names, node_count as nat);
            let at = new_children(names, node_count as nat)[i];
            let k = at - node_count;
            let name = names[i];
            &&& nodes.len() == nodes_for(names)
            &&& 0 <= k < nodes.len()
            &&& nodes[k] matches NewNode::Literal { name: n, executable, child }
            &&& n == name
            &&& executable <==> name != "send"@
            &&& child is Some <==> name == "server"@ || name == "send"@ || name == "help"@
            &&& child matches Some(c) ==> c == at + 1 && k + 1 < nodes.len() && nodes[k + 1]
                is Arguments
        }),
    decreases names.len(),
{
    let base = node_count as nat;
    let front = names.drop_last();
    lemma_node_count(names, base);
    lemma_node_count(front, base);
    let before = new_nodes(front, base);
    let own = command_nodes(names.last(), base + nodes_for(front));
    let nodes = new_nodes(names, base);
    assert(nodes == before + own);
    if i < names.len() - 1 {
        law_commands_are_found_in_the_tree(front, node_count, i);
        assert(front[i] == names[i]);
        let k = new_children(front, base)[i] - node_count;
        assert(nodes[k] == before[k]);
        if before[k]->child is Some {
            assert(nodes[k + 1] == before[k + 1]);
        }
    } else {
        let k = nodes_for(front) as int;
        assert(nodes[k] == own[0]);
        if takes_args(names.last()) {
            assert(nodes[k + 1] == own[1]);
        }
    }
}

/// The tree can be added to only where its root comes first, has no flags, and is said to be the
/// root at the end.
pub proof fn law_only_plain_trees_are_added_to(payload: Seq<u8>)
    ensures
        extendable(payload) is Some ==> payload.len() > 0 && payload.last() == 0,
        extendable(payload) matches Some((n, _, _)) ==> n > 0,
        extendable(payload) is Some ==> (read_varint(payload) matches Ok((_, r)) && r.len() > 0
            && r[0] == 0),
{
    reveal(tree_head);
}

/// A plan is made for a client whose version has a tree, if there are commands to add and the tree
/// can be added to; it is a plan for just these commands and this tree.
pub proof fn law_plans_are_for_their_tree(
    payload: &[u8],
    version: ClientVersion,
    names: Vec<String>,
    r: Option<Injection>,
)
    requires
        call_ensures(plan_injection, (payload, version, &names), r),
    ensures
        r is Some <==> version.has_command_tree && names@.len() > 0 && extendable(payload@) is Some,
        r matches Some(p) ==> extendable(payload@) == Some((p.node_count, p.children@, p.nodes@))
            && texts(p.names@) == texts(names@) && p.new_children@ == new_children(
            texts(names@),
            p.node_count as nat,
        ) && views(p.new_nodes@) == new_nodes(texts(names@), p.node_count as nat),
{
}

/// The new tree holds the old one of the plan and what was encoded for it.
pub proof fn law_tree_is_the_plans(plan: Injection, encoded: &[u8], r: Vec<u8>)
    requires
        plan.wf(),
        call_ensures(inject_proxy_commands, (&plan, encoded), r),
        plan.node_count + nodes_for(texts(plan.names@)) <= i32::MAX,
        plan.children@.len() + plan.names@.len() <= i32::MAX,
    ensures
        extendable(r@) == Some(
            (
                (plan.node_count + nodes_for(texts(plan.names@))) as i32,
                plan.children@ + new_children(texts(plan.names@), plan.node_count as nat),
                plan.nodes@ + encoded@,
            ),
        ),
{
    law_injected_tree_reads_back(
        plan.node_count,
        plan.children@,
        plan.nodes@,
        texts(plan.names@),
        encoded@,
    );
}

} // verus!
