//! Permission nodes, groups with inheritance, and the rights of a player.
use vstd::prelude::*;
use vstd::string::*;

use crate::table::Table;
use crate::text::{
    append_texts, begins_with, ends_with, eq_ignore_case, holds_ignore_case, holds_ignoring_case,
    holds_text, lemma_lower_twice, lower, owned, same_ignoring_case, starts_with, strip_first,
    strip_suffix, text_eq, texts, to_lower, without_first,
};

verus! {

broadcast use vstd::seq::group_seq_axioms;

// ---------------------------------------------------------------------------
// Nodes
// ---------------------------------------------------------------------------

/// `pattern` covers `target`, ASCII case aside: it is `*`, or the target itself, or it ends in
/// `.*` and the target goes on with a dot where the pattern has its last one.
pub open spec fn node_matches(pattern: Seq<char>, target: Seq<char>) -> bool {
    let p = lower(pattern);
    let t = lower(target);
    ||| p == seq!['*']
    ||| p == t
    ||| {
        &&& ends_with(p, seq!['.', '*'])
        &&& begins_with(t, p.take(p.len() - 2))
        &&& t.len() > p.len() - 2
        &&& t[p.len() - 2] == '.'
    }
}

/// Pattern matching for permission nodes.
///
/// - `*` matches everything
/// - a node matches itself
/// - `vine.command.*` matches every node below `vine.command`, but not `vine.commander`
/// - case does not matter
pub fn matches_node(pattern: &str, target: &str) -> (r: bool)
    ensures
        r == node_matches(pattern@, target@),
{
    proof {
        reveal_strlit("*");
        reveal_strlit(".*");
        assert("*"@ == seq!['*']);
        assert(".*"@ == seq!['.', '*']);
    }
    let p = to_lower(pattern);
    let t = to_lower(target);
    if text_eq(p.as_str(), "*") || text_eq(p.as_str(), t.as_str()) {
        return true;
    }
    match strip_suffix(p.as_str(), ".*") {
        Some(prefix) => {
            if starts_with(t.as_str(), prefix.as_str()) {
                let v = crate::text::chars_of(t.as_str());
                let n: usize = crate::text::chars_of(prefix.as_str()).len();
                v.len() > n && v[n] == '.'
            } else {
                false
            }
        },
        None => false,
    }
}

/// The pattern `*` covers every node.
pub proof fn law_star_matches_all(target: Seq<char>)
    ensures
        node_matches(seq!['*'], target),
{
    assert(lower(seq!['*']) == seq!['*']);
}

/// Case changes nothing, neither in the pattern nor in the node.
pub proof fn law_match_ignores_case(
    p: Seq<char>,
    q: Seq<char>,
    t: Seq<char>,
    u: Seq<char>,
)
    requires
        same_ignoring_case(p, q),
        same_ignoring_case(t, u),
    ensures
        node_matches(p, t) == node_matches(q, u),
{
}

/// `prefix.*` covers `prefix.` followed by anything.
pub proof fn law_wildcard_covers_below(prefix: Seq<char>, rest: Seq<char>)
    ensures
        node_matches(prefix + seq!['.', '*'], prefix + seq!['.'] + rest),
{
    let p = lower(prefix + seq!['.', '*']);
    let t = lower(prefix + seq!['.'] + rest);
    assert(p.skip(p.len() - 2) == seq!['.', '*']);
    assert(p.take(p.len() - 2) == lower(prefix));
    assert(t.take(p.len() - 2) == lower(prefix));
}

/// `prefix.*` covers nothing whose next character after the prefix is not a dot.
pub proof fn law_wildcard_stops_at_boundary(prefix: Seq<char>, c: char, rest: Seq<char>)
    requires
        lower(prefix) != Seq::<char>::empty() || c != '*' || rest.len() > 0,
        crate::text::lower_char(c) != '.',
    ensures
        !node_matches(prefix + seq!['.', '*'], prefix.push(c) + rest),
{
    let p = lower(prefix + seq!['.', '*']);
    let t = lower(prefix.push(c) + rest);
    assert(p.len() >= 2);
    assert(p[p.len() - 2] == '.');
    assert(t[p.len() - 2] == crate::text::lower_char(c));
    assert(p != seq!['*']) by {
        assert(p.len() != seq!['*'].len());
    }
}

// ---------------------------------------------------------------------------
// Configuration
// ---------------------------------------------------------------------------

/// A permission group.
#[derive(Debug, PartialEq, Eq)]
pub struct GroupConfig<L = Vec<String>> {
    /// Groups inherited by this group
    pub inherits: L,
    /// Permission nodes; one that starts with `-` is a denial
    pub permissions: L,
}

pub type GroupModel = GroupConfig<Seq<Seq<char>>>;

impl View for GroupConfig {
    type V = GroupModel;

    open spec fn view(&self) -> GroupModel {
        GroupConfig { inherits: texts(self.inherits@), permissions: texts(self.permissions@) }
    }
}

/// What a user is given: groups alone, or groups and permissions of their own.
#[derive(Debug, PartialEq, Eq)]
pub enum UserPermissionConfig<L = Vec<String>> {
    Groups(L),
    Detailed { groups: L, permissions: L },
}

pub type UserModel = UserPermissionConfig<Seq<Seq<char>>>;

impl View for UserPermissionConfig {
    type V = UserModel;

    open spec fn view(&self) -> UserModel {
        match self {
            UserPermissionConfig::Groups(g) => UserPermissionConfig::Groups(texts(g@)),
            UserPermissionConfig::Detailed { groups, permissions } => {
                UserPermissionConfig::Detailed {
                    groups: texts(groups@),
                    permissions: texts(permissions@),
                }
            },
        }
    }
}

pub open spec fn groups_of(u: UserModel) -> Seq<Seq<char>> {
    match u {
        UserPermissionConfig::Groups(g) => g,
        UserPermissionConfig::Detailed { groups, .. } => groups,
    }
}

pub open spec fn own_permissions_of(u: UserModel) -> Seq<Seq<char>> {
    match u {
        UserPermissionConfig::Groups(_) => Seq::empty(),
        UserPermissionConfig::Detailed { permissions, .. } => permissions,
    }
}

impl UserPermissionConfig {
    pub fn groups(&self) -> (r: &[String])
        ensures
            texts(r@) == groups_of(self@),
    {
        match self {
            UserPermissionConfig::Groups(groups) => groups.as_slice(),
            UserPermissionConfig::Detailed { groups, .. } => groups.as_slice(),
        }
    }

    pub fn direct_permissions(&self) -> (r: &[String])
        ensures
            texts(r@) == own_permissions_of(self@),
    {
        match self {
            UserPermissionConfig::Groups(_) => {
                let none: &[String] = &[];
                assert(texts(none@) == Seq::<Seq<char>>::empty());
                none
            },
            UserPermissionConfig::Detailed { permissions, .. } => permissions.as_slice(),
        }
    }
}

/// The permission system's configuration.
#[derive(Debug)]
pub struct PermissionsConfig<
    S = String,
    G = Table<GroupConfig>,
    U = Table<UserPermissionConfig>,
> {
    /// Group that every player is in
    pub default_group: S,
    /// Groups by name
    pub groups: G,
    /// Users by name
    pub users: U,
}

pub type Groups = Seq<(Seq<char>, GroupModel)>;

pub type Users = Seq<(Seq<char>, UserModel)>;

pub type PermissionsModel = PermissionsConfig<Seq<char>, Groups, Users>;

impl View for PermissionsConfig {
    type V = PermissionsModel;

    open spec fn view(&self) -> PermissionsModel {
        PermissionsConfig {
            default_group: self.default_group@,
            groups: self.groups@,
            users: self.users@,
        }
    }
}

pub open spec fn default_groups() -> Groups {
    seq![
        (
            "default"@,
            GroupConfig {
                inherits: Seq::empty(),
                permissions: seq![
                    "vine.command.server"@,
                    "vine.command.glist"@,
                    "vine.command.list"@,
                    "vine.command.help"@,
                ],
            },
        ),
        (
            "admin"@,
            GroupConfig {
                inherits: seq!["default"@],
                permissions: seq!["vine.command.send"@, "vine.admin"@, "*"@],
            },
        ),
    ]
}

/// Everybody is in the group `default`; `Alex` is an administrator.
pub open spec fn default_permissions() -> PermissionsModel {
    PermissionsConfig {
        default_group: "default"@,
        groups: default_groups(),
        users: seq![("Alex"@, UserPermissionConfig::Groups(seq!["admin"@]))],
    }
}

pub fn default_group_name() -> (r: String)
    ensures
        r@ == "default"@,
{
    owned("default")
}

pub fn default_permission_groups() -> (r: Table<GroupConfig>)
    ensures
        r@ == default_groups(),
{
    let mut groups: Table<GroupConfig> = Table::new();
    let mut common: Vec<String> = Vec::new();
    common.push(owned("vine.command.server"));
    common.push(owned("vine.command.glist"));
    common.push(owned("vine.command.list"));
    common.push(owned("vine.command.help"));
    let parents: Vec<String> = Vec::new();
    assert(texts(common@) == default_groups()[0].1.permissions);
    assert(texts(parents@) == Seq::<Seq<char>>::empty());
    groups.insert(owned("default"), GroupConfig { inherits: parents, permissions: common });
    let mut extra: Vec<String> = Vec::new();
    extra.push(owned("vine.command.send"));
    extra.push(owned("vine.admin"));
    extra.push(owned("*"));
    let mut parents: Vec<String> = Vec::new();
    parents.push(owned("default"));
    assert(texts(extra@) == default_groups()[1].1.permissions);
    assert(texts(parents@) == seq!["default"@]);
    groups.insert(owned("admin"), GroupConfig { inherits: parents, permissions: extra });
    proof {
        reveal_strlit("default");
        reveal_strlit("admin");
        assert("default"@.len() == 7 && "admin"@.len() == 5);
        let d = default_groups();
        let none = Seq::<(Seq<char>, GroupModel)>::empty();
        crate::table::lemma_bound_new(none, d[0].0, d[0].1);
        crate::table::lemma_bound_new(none.push(d[0]), d[1].0, d[1].1);
        assert(groups@ == default_groups());
    }
    groups
}

impl Default for PermissionsConfig {
    fn default() -> (r: Self)
        ensures
            r@ == default_permissions(),
    {
        let mut users: Table<UserPermissionConfig> = Table::new();
        let mut admins: Vec<String> = Vec::new();
        admins.push(owned("admin"));
        assert(texts(admins@) == seq!["admin"@]);
        users.insert(owned("Alex"), UserPermissionConfig::Groups(admins));
        assert(users@ == default_permissions().users);
        PermissionsConfig {
            default_group: default_group_name(),
            groups: default_permission_groups(),
            users,
        }
    }
}

// ---------------------------------------------------------------------------
// Collecting the permissions of a user
// ---------------------------------------------------------------------------

/// The value of the first entry whose key is `name`, ASCII case aside.
pub open spec fn find_ignoring_case<X>(s: Seq<(Seq<char>, X)>, name: Seq<char>) -> Option<X>
    decreases s.len(),
{
    if s.len() == 0 {
        None
    } else if same_ignoring_case(s[0].0, name) {
        Some(s[0].1)
    } else {
        find_ignoring_case(s.skip(1), name)
    }
}

/// Groups whose lower-case names are not among `visited`.
pub open spec fn unvisited(groups: Groups, visited: Seq<Seq<char>>) -> nat
    decreases groups.len(),
{
    if groups.len() == 0 {
        0
    } else {
        (if visited.contains(lower(groups[0].0)) {
            0nat
        } else {
            1nat
        }) + unvisited(groups.skip(1), visited)
    }
}

proof fn lemma_unvisited(groups: Groups, visited: Seq<Seq<char>>, name: Seq<char>)
    ensures
        unvisited(groups, visited.push(lower(name))) <= unvisited(groups, visited),
        find_ignoring_case(groups, name) is Some && !visited.contains(lower(name)) ==> unvisited(
            groups,
            visited.push(lower(name)),
        ) < unvisited(groups, visited),
    decreases groups.len(),
{
    if groups.len() > 0 {
        lemma_unvisited(groups.skip(1), visited, name);
        let key = lower(groups[0].0);
        let more = visited.push(lower(name));
        assert(more[visited.len() as int] == lower(name));
        if visited.contains(key) {
            let i = choose|i: int| 0 <= i < visited.len() && visited[i] == key;
            assert(more[i] == key);
        }
    }
}

/// The permissions of the queued groups and of all they inherit: the queue is taken from the
/// front, a group's parents go to the back, and no group counts twice.
pub open spec fn resolved(
    groups: Groups,
    queue: Seq<Seq<char>>,
    visited: Seq<Seq<char>>,
) -> Seq<Seq<char>>
    decreases unvisited(groups, visited), queue.len(),
    via resolved_decreases
{
    if queue.len() == 0 {
        Seq::empty()
    } else {
        let name = lower(queue[0]);
        if visited.contains(name) {
            resolved(groups, queue.skip(1), visited)
        } else {
            match find_ignoring_case(groups, name) {
                Some(g) => g.permissions + resolved(
                    groups,
                    queue.skip(1) + g.inherits,
                    visited.push(name),
                ),
                None => resolved(groups, queue.skip(1), visited.push(name)),
            }
        }
    }
}

#[via_fn]
proof fn resolved_decreases(groups: Groups, queue: Seq<Seq<char>>, visited: Seq<Seq<char>>) {
    if queue.len() > 0 {
        lemma_lower_twice(queue[0]);
        lemma_unvisited(groups, visited, lower(queue[0]));
    }
}

/// The groups that a user starts from: their own, then the default group unless it is there.
pub open spec fn starting_groups(c: PermissionsModel, username: Seq<char>) -> Seq<Seq<char>> {
    let own = match find_ignoring_case(c.users, username) {
        Some(u) => groups_of(u),
        None => Seq::empty(),
    };
    if holds_ignoring_case(own, c.default_group) {
        own
    } else {
        own.push(c.default_group)
    }
}

pub open spec fn starting_permissions(c: PermissionsModel, username: Seq<char>) -> Seq<Seq<char>> {
    match find_ignoring_case(c.users, username) {
        Some(u) => own_permissions_of(u),
        None => Seq::empty(),
    }
}

/// Every permission string in force for a user.
pub open spec fn effective(c: PermissionsModel, username: Seq<char>) -> Seq<Seq<char>> {
    starting_permissions(c, username) + resolved(
        c.groups,
        starting_groups(c, username),
        Seq::empty(),
    )
}

/// A denial of `node`: a minus sign before a pattern that covers it.
pub open spec fn denies(perm: Seq<char>, node: Seq<char>) -> bool {
    without_first(perm, '-') matches Some(p) && node_matches(p, node)
}

/// A grant of `node`: a pattern without a minus sign that covers it.
pub open spec fn grants(perm: Seq<char>, node: Seq<char>) -> bool {
    without_first(perm, '-') is None && node_matches(perm, node)
}

/// Granted, and denied by nothing.
pub open spec fn permitted(perms: Seq<Seq<char>>, node: Seq<char>) -> bool {
    &&& forall|i: int| 0 <= i < perms.len() ==> !denies(#[trigger] perms[i], node)
    &&& exists|i: int| 0 <= i < perms.len() && grants(#[trigger] perms[i], node)
}

fn find_entry<'a, X: View>(t: &'a Table<X>, name: &str) -> (r: Option<&'a X>)
    ensures
        r is Some <==> find_ignoring_case(t@, name@) is Some,
        r matches Some(x) ==> find_ignoring_case(t@, name@) == Some(x@),
{
    let mut i: usize = 0;
    assert(t@.skip(0) == t@);
    while i < t.len()
        invariant
            i <= t@.len(),
            find_ignoring_case(t@, name@) == find_ignoring_case(t@.skip(i as int), name@),
        decreases t@.len() - i,
    {
        if eq_ignore_case(t.key_at(i).as_str(), name) {
            return Some(t.value_at(i));
        }
        assert(t@.skip(i as int).skip(1) == t@.skip(i + 1));
        i = i + 1;
    }
    None
}

fn append_slice(out: &mut Vec<String>, v: &[String])
    ensures
        texts(final(out)@) == texts(old(out)@) + texts(v@),
{
    let ghost before = texts(out@);
    let mut i: usize = 0;
    assert(texts(out@) == before + texts(v@).take(0));
    while i < v.len()
        invariant
            i <= v@.len(),
            texts(out@) == before + texts(v@).take(i as int),
        decreases v.len() - i,
    {
        let ghost o = out@;
        out.push(v[i].clone());
        assert(texts(out@) == texts(o).push(texts(v@)[i as int]));
        assert(texts(out@) == before + texts(v@).take(i + 1));
        i = i + 1;
    }
    assert(texts(v@).take(v@.len() as int) == texts(v@));
}

impl PermissionsConfig {
    /// Collects every effective permission string of a user: their own, then those of their
    /// groups, of the default group and of all that these inherit.
    pub fn collect_permissions(&self, username: &str) -> (r: Vec<String>)
        ensures
            texts(r@) == effective(self@, username@),
    {
        let mut result: Vec<String> = Vec::new();
        let mut queue: Vec<String> = Vec::new();
        assert(texts(result@) == Seq::<Seq<char>>::empty());
        assert(texts(queue@) == Seq::<Seq<char>>::empty());
        match find_entry(&self.users, username) {
            Some(user) => {
                append_slice(&mut result, user.direct_permissions());
                append_slice(&mut queue, user.groups());
            },
            None => {},
        }
        assert(texts(result@) == starting_permissions(self@, username@));
        if !holds_ignore_case(&queue, self.default_group.as_str()) {
            let ghost q = queue@;
            queue.push(self.default_group.clone());
            assert(texts(queue@) == texts(q).push(self.default_group@));
        }
        assert(texts(queue@) == starting_groups(self@, username@));
        let mut visited: Vec<String> = Vec::new();
        let mut head: usize = 0;
        assert(texts(visited@) == Seq::<Seq<char>>::empty());
        assert(texts(queue@).skip(0) == texts(queue@));
        while head < queue.len()
            invariant
                head <= queue@.len(),
                texts(result@) + resolved(
                    self@.groups,
                    texts(queue@).skip(head as int),
                    texts(visited@),
                ) == effective(self@, username@),
            decreases unvisited(self@.groups, texts(visited@)), queue@.len() - head,
        {
            let ghost q0 = texts(queue@).skip(head as int);
            let ghost v0 = texts(visited@);
            let ghost r0 = texts(result@);
            let name = to_lower(queue[head].as_str());
            assert(q0[0] == queue@[head as int]@);
            assert(q0.skip(1) == texts(queue@).skip(head + 1));
            head = head + 1;
            if !holds_text(&visited, name.as_str()) {
                proof {
                    lemma_lower_twice(q0[0]);
                    lemma_unvisited(self@.groups, v0, name@);
                }
                let found = find_entry(&self.groups, name.as_str());
                let ghost vs = visited@;
                visited.push(name);
                assert(texts(visited@) == v0.push(name@));
                match found {
                    Some(group) => {
                        append_texts(&mut result, &group.permissions);
                        append_texts(&mut queue, &group.inherits);
                        proof {
                            assert(texts(queue@).skip(head as int) == q0.skip(1)
                                + texts(group.inherits@));
                            assert(r0 + (texts(group.permissions@) + resolved(
                                self@.groups,
                                texts(queue@).skip(head as int),
                                texts(visited@),
                            )) == texts(result@) + resolved(
                                self@.groups,
                                texts(queue@).skip(head as int),
                                texts(visited@),
                            ));
                        }
                    },
                    None => {},
                }
            }
        }
        assert(texts(result@) + Seq::<Seq<char>>::empty() == texts(result@));
        result
    }

    /// Whether a user may use a node: a denial that covers it wins over every grant; without
    /// one, a grant that covers it is needed.
    pub fn has_permission(&self, username: &str, node: &str) -> (r: bool)
        ensures
            r == permitted(effective(self@, username@), node@),
    {
        let perms = self.collect_permissions(username);
        let ghost all = texts(perms@);
        let mut i: usize = 0;
        while i < perms.len()
            invariant
                i <= perms@.len(),
                all == texts(perms@),
                all == effective(self@, username@),
                forall|j: int| 0 <= j < i ==> !denies(#[trigger] all[j], node@),
            decreases perms.len() - i,
        {
            match strip_first(perms[i].as_str(), '-') {
                Some(p) => {
                    if matches_node(p.as_str(), node) {
                        assert(denies(all[i as int], node@));
                        return false;
                    }
                },
                None => {},
            }
            i = i + 1;
        }
        let mut i: usize = 0;
        while i < perms.len()
            invariant
                i <= perms@.len(),
                all == texts(perms@),
                all == effective(self@, username@),
                forall|j: int| 0 <= j < all.len() ==> !denies(#[trigger] all[j], node@),
                forall|j: int| 0 <= j < i ==> !grants(#[trigger] all[j], node@),
            decreases perms.len() - i,
        {
            if strip_first(perms[i].as_str(), '-').is_none() && matches_node(
                perms[i].as_str(),
                node,
            ) {
                assert(grants(all[i as int], node@));
                return true;
            }
            i = i + 1;
        }
        false
    }
}

// ---------------------------------------------------------------------------
// Laws of permissions
// ---------------------------------------------------------------------------

/// One denial that covers a node takes it away, whatever grants there are.
pub proof fn law_denial_wins(c: PermissionsModel, username: Seq<char>, perm: Seq<char>, node: Seq<char>)
    requires
        effective(c, username).contains(perm),
        denies(perm, node),
    ensures
        !permitted(effective(c, username), node),
{
    let all = effective(c, username);
    let i = choose|i: int| 0 <= i < all.len() && all[i] == perm;
    assert(denies(all[i], node));
}

/// A user with the permission `*` and no denial of a node may use it.
pub proof fn law_star_grants(c: PermissionsModel, username: Seq<char>, node: Seq<char>)
    requires
        effective(c, username).contains(seq!['*']),
        forall|i: int|
            0 <= i < effective(c, username).len() ==> !denies(
                #[trigger] effective(c, username)[i],
                node,
            ),
    ensures
        permitted(effective(c, username), node),
{
    law_star_matches_all(node);
    let all = effective(c, username);
    let i = choose|i: int| 0 <= i < all.len() && all[i] == seq!['*'];
    assert(grants(all[i], node));
}

/// A user's name may be written in any case.
pub proof fn law_user_ignores_case(c: PermissionsModel, a: Seq<char>, b: Seq<char>)
    requires
        same_ignoring_case(a, b),
    ensures
        effective(c, a) == effective(c, b),
{
    lemma_find_ignores_case(c.users, a, b);
}

proof fn lemma_find_ignores_case<X>(s: Seq<(Seq<char>, X)>, a: Seq<char>, b: Seq<char>)
    requires
        same_ignoring_case(a, b),
    ensures
        find_ignoring_case(s, a) == find_ignoring_case(s, b),
    decreases s.len(),
{
    if s.len() > 0 {
        lemma_find_ignores_case(s.skip(1), a, b);
    }
}

/// `g` (in lower case) is one of `starts`, or is inherited from them in `depth` steps.
pub open spec fn reaches(groups: Groups, starts: Seq<Seq<char>>, g: Seq<char>, depth: nat) -> bool
    decreases depth,
{
    if depth == 0 {
        exists|i: int| 0 <= i < starts.len() && lower(#[trigger] starts[i]) == g
    } else {
        exists|p: Seq<char>, j: int|
            reaches(groups, starts, p, (depth - 1) as nat) && #[trigger] inherits_at(
                groups,
                p,
                g,
                j,
            )
    }
}

/// The `j`-th parent of the group `p` is `g`.
pub open spec fn inherits_at(groups: Groups, p: Seq<char>, g: Seq<char>, j: int) -> bool {
    find_ignoring_case(groups, p) matches Some(c) && 0 <= j < c.inherits.len() && lower(
        c.inherits[j],
    ) == g
}

/// The lower-case names of all groups that a resolution comes across.
pub open spec fn seen(groups: Groups, queue: Seq<Seq<char>>, visited: Seq<Seq<char>>) -> Seq<
    Seq<char>,
>
    decreases unvisited(groups, visited), queue.len(),
    via seen_decreases
{
    if queue.len() == 0 {
        visited
    } else {
        let name = lower(queue[0]);
        if visited.contains(name) {
            seen(groups, queue.skip(1), visited)
        } else {
            match find_ignoring_case(groups, name) {
                Some(g) => seen(groups, queue.skip(1) + g.inherits, visited.push(name)),
                None => seen(groups, queue.skip(1), visited.push(name)),
            }
        }
    }
}

#[via_fn]
proof fn seen_decreases(groups: Groups, queue: Seq<Seq<char>>, visited: Seq<Seq<char>>) {
    if queue.len() > 0 {
        lemma_lower_twice(queue[0]);
        lemma_unvisited(groups, visited, lower(queue[0]));
    }
}

spec fn queued(queue: Seq<Seq<char>>, g: Seq<char>) -> bool {
    exists|i: int| 0 <= i < queue.len() && lower(#[trigger] queue[i]) == g
}

/// Every parent of a visited group is visited or waits in the queue.
spec fn parents_pending(groups: Groups, queue: Seq<Seq<char>>, visited: Seq<Seq<char>>) -> bool {
    forall|p: Seq<char>, g: Seq<char>, j: int|
        visited.contains(p) && #[trigger] inherits_at(groups, p, g, j) ==> visited.contains(g)
            || queued(queue, g)
}

proof fn lemma_queue_step(queue: Seq<Seq<char>>, more: Seq<Seq<char>>, g: Seq<char>)
    requires
        queue.len() > 0,
        queued(queue, g),
    ensures
        lower(queue[0]) == g || queued(queue.skip(1) + more, g),
        lower(queue[0]) == g || queued(queue.skip(1), g),
{
    let i = choose|i: int| 0 <= i < queue.len() && lower(#[trigger] queue[i]) == g;
    if i > 0 {
        assert((queue.skip(1) + more)[i - 1] == queue[i]);
        assert(queue.skip(1)[i - 1] == queue[i]);
    }
}

proof fn lemma_seen(groups: Groups, queue: Seq<Seq<char>>, visited: Seq<Seq<char>>)
    requires
        parents_pending(groups, queue, visited),
    ensures
        ({
            let all = seen(groups, queue, visited);
            &&& forall|g: Seq<char>|
                visited.contains(g) || queued(queue, g) ==> #[trigger] all.contains(g)
            &&& forall|p: Seq<char>, g: Seq<char>, j: int|
                all.contains(p) && #[trigger] inherits_at(groups, p, g, j) ==> all.contains(g)
            &&& forall|g: Seq<char>, c: GroupModel, x: Seq<char>|
                #![trigger all.contains(g), find_ignoring_case(groups, g), c.permissions.contains(x)]
                all.contains(g) && !visited.contains(g) && find_ignoring_case(groups, g) == Some(c)
                    && c.permissions.contains(x) ==> resolved(groups, queue, visited).contains(x)
        }),
    decreases unvisited(groups, visited), queue.len(),
{
    let all = seen(groups, queue, visited);
    let res = resolved(groups, queue, visited);
    if queue.len() > 0 {
        let name = lower(queue[0]);
        let rest = queue.skip(1);
        lemma_lower_twice(queue[0]);
        lemma_unvisited(groups, visited, name);
        if visited.contains(name) {
            assert(parents_pending(groups, rest, visited)) by {
                assert forall|p: Seq<char>, g: Seq<char>, j: int|
                    visited.contains(p) && #[trigger] inherits_at(
                        groups,
                        p,
                        g,
                        j,
                    ) implies visited.contains(g) || queued(rest, g) by {
                    if queued(queue, g) {
                        lemma_queue_step(queue, rest, g);
                    }
                }
            }
            lemma_seen(groups, rest, visited);
            assert(all == seen(groups, rest, visited));
            assert(res == resolved(groups, rest, visited));
            assert forall|g: Seq<char>| visited.contains(g) || queued(
                queue,
                g,
            ) implies #[trigger] all.contains(g) by {
                if queued(queue, g) {
                    lemma_queue_step(queue, rest, g);
                }
            }
        } else {
            let now = visited.push(name);
            assert(now[visited.len() as int] == name);
            assert forall|g: Seq<char>| visited.contains(g) implies #[trigger] now.contains(g) by {
                let i = choose|i: int| 0 <= i < visited.len() && visited[i] == g;
                assert(now[i] == g);
            }
            let more = match find_ignoring_case(groups, name) {
                Some(c) => c.inherits,
                None => Seq::empty(),
            };
            let next = rest + more;
            assert(rest + Seq::<Seq<char>>::empty() == rest);
            assert(parents_pending(groups, next, now)) by {
                assert forall|p: Seq<char>, g: Seq<char>, j: int|
                    now.contains(p) && #[trigger] inherits_at(groups, p, g, j) implies now.contains(
                    g,
                ) || queued(next, g) by {
                    if p == name {
                        assert(next[rest.len() + j] == more[j]);
                    } else {
                        let i = choose|i: int| 0 <= i < now.len() && now[i] == p;
                        assert(visited[i] == p);
                        if queued(queue, g) {
                            lemma_queue_step(queue, more, g);
                        }
                    }
                }
            }
            lemma_seen(groups, next, now);
            assert(all == seen(groups, next, now));
            let tail = resolved(groups, next, now);
            assert forall|g: Seq<char>| visited.contains(g) || queued(
                queue,
                g,
            ) implies #[trigger] all.contains(g) by {
                if queued(queue, g) {
                    lemma_queue_step(queue, more, g);
                }
            }
            assert forall|g: Seq<char>, c: GroupModel, x: Seq<char>|
                #![trigger all.contains(g), find_ignoring_case(groups, g), c.permissions.contains(x)]
                all.contains(g) && !visited.contains(g) && find_ignoring_case(groups, g) == Some(c)
                    && c.permissions.contains(x) implies res.contains(x) by {
                match find_ignoring_case(groups, name) {
                    Some(own) => {
                        assert(res == own.permissions + tail);
                        if g == name {
                            let i = choose|i: int|
                                0 <= i < own.permissions.len() && own.permissions[i] == x;
                            assert(res[i] == x);
                        } else {
                            lemma_not_pushed(visited, name, g);
                            let i = choose|i: int| 0 <= i < tail.len() && tail[i] == x;
                            assert(res[own.permissions.len() + i] == x);
                        }
                    },
                    None => {
                        lemma_not_pushed(visited, name, g);
                    },
                }
            }
        }
    }
}

proof fn lemma_not_pushed(visited: Seq<Seq<char>>, name: Seq<char>, g: Seq<char>)
    requires
        !visited.contains(g),
        g != name,
    ensures
        !visited.push(name).contains(g),
{
    if visited.push(name).contains(g) {
        let i = choose|i: int| 0 <= i < visited.push(name).len() && visited.push(name)[i] == g;
        assert(visited[i] == g);
    }
}

proof fn lemma_reaches_seen(groups: Groups, starts: Seq<Seq<char>>, g: Seq<char>, depth: nat)
    requires
        reaches(groups, starts, g, depth),
    ensures
        seen(groups, starts, Seq::empty()).contains(g),
    decreases depth,
{
    assert(parents_pending(groups, starts, Seq::empty()));
    lemma_seen(groups, starts, Seq::empty());
    if depth == 0 {
        assert(queued(starts, g));
    } else {
        let (p, j) = choose|p: Seq<char>, j: int|
            reaches(groups, starts, p, (depth - 1) as nat) && #[trigger] inherits_at(
                groups,
                p,
                g,
                j,
            );
        lemma_reaches_seen(groups, starts, p, (depth - 1) as nat);
    }
}

/// A user has every permission of every group that they reach through inheritance, however
/// long the way and whatever circles it has.
pub proof fn law_inherited_permissions_count(
    c: PermissionsModel,
    username: Seq<char>,
    g: Seq<char>,
    depth: nat,
    group: GroupModel,
    perm: Seq<char>,
)
    requires
        reaches(c.groups, starting_groups(c, username), g, depth),
        find_ignoring_case(c.groups, g) == Some(group),
        group.permissions.contains(perm),
    ensures
        effective(c, username).contains(perm),
{
    let starts = starting_groups(c, username);
    lemma_reaches_seen(c.groups, starts, g, depth);
    assert(parents_pending(c.groups, starts, Seq::empty()));
    lemma_seen(c.groups, starts, Seq::empty());
    let res = resolved(c.groups, starts, Seq::empty());
    assert(res.contains(perm));
    let i = choose|i: int| 0 <= i < res.len() && res[i] == perm;
    assert(effective(c, username)[starting_permissions(c, username).len() + i] == perm);
}

/// The default group is one that every user starts from, so all its permissions count.
pub proof fn law_default_group_counts(
    c: PermissionsModel,
    username: Seq<char>,
    group: GroupModel,
    perm: Seq<char>,
)
    requires
        find_ignoring_case(c.groups, c.default_group) == Some(group),
        group.permissions.contains(perm),
    ensures
        effective(c, username).contains(perm),
{
    let starts = starting_groups(c, username);
    let own = match find_ignoring_case(c.users, username) {
        Some(u) => groups_of(u),
        None => Seq::empty(),
    };
    if holds_ignoring_case(own, c.default_group) {
        let i = choose|i: int|
            0 <= i < own.len() && same_ignoring_case(#[trigger] own[i], c.default_group);
        assert(lower(starts[i]) == lower(c.default_group));
    } else {
        assert(lower(starts[own.len() as int]) == lower(c.default_group));
    }
    assert(reaches(c.groups, starts, lower(c.default_group), 0));
    lemma_lower_twice(c.default_group);
    lemma_find_ignores_case(c.groups, c.default_group, lower(c.default_group));
    law_inherited_permissions_count(c, username, lower(c.default_group), 0, group, perm);
}

spec fn comes_from(groups: Groups, starts: Seq<Seq<char>>, perm: Seq<char>) -> bool {
    exists|g: Seq<char>, depth: nat| #[trigger]
        reaches(groups, starts, g, depth) && given_by(groups, g, perm)
}

/// The group `g` lists the permission.
pub open spec fn given_by(groups: Groups, g: Seq<char>, perm: Seq<char>) -> bool {
    find_ignoring_case(groups, g) matches Some(c) && c.permissions.contains(perm)
}

spec fn all_reach(groups: Groups, starts: Seq<Seq<char>>, queue: Seq<Seq<char>>) -> bool {
    forall|i: int|
        0 <= i < queue.len() ==> in_reach(groups, starts, lower(#[trigger] queue[i]))
}

/// `g` is reached from `starts` in some number of steps.
pub open spec fn in_reach(groups: Groups, starts: Seq<Seq<char>>, g: Seq<char>) -> bool {
    exists|depth: nat| reaches(groups, starts, g, depth)
}

proof fn lemma_resolved_sound(
    groups: Groups,
    starts: Seq<Seq<char>>,
    queue: Seq<Seq<char>>,
    visited: Seq<Seq<char>>,
    perm: Seq<char>,
)
    requires
        all_reach(groups, starts, queue),
        resolved(groups, queue, visited).contains(perm),
    ensures
        comes_from(groups, starts, perm),
    decreases unvisited(groups, visited), queue.len(),
{
    if queue.len() > 0 {
        let name = lower(queue[0]);
        let rest = queue.skip(1);
        lemma_lower_twice(queue[0]);
        lemma_unvisited(groups, visited, name);
        assert(all_reach(groups, starts, rest)) by {
            assert forall|i: int| 0 <= i < rest.len() implies in_reach(
                groups,
                starts,
                lower(#[trigger] rest[i]),
            ) by {
                assert(rest[i] == queue[i + 1]);
            }
        }
        if visited.contains(name) {
            lemma_resolved_sound(groups, starts, rest, visited, perm);
        } else {
            match find_ignoring_case(groups, name) {
                Some(c) => {
                    assert(in_reach(groups, starts, lower(queue[0])));
                    let depth = choose|depth: nat| reaches(groups, starts, name, depth);
                    let next = rest + c.inherits;
                    assert(all_reach(groups, starts, next)) by {
                        assert forall|i: int| 0 <= i < next.len() implies in_reach(
                            groups,
                            starts,
                            lower(#[trigger] next[i]),
                        ) by {
                            if i < rest.len() {
                                assert(next[i] == rest[i]);
                            } else {
                                let j = i - rest.len();
                                assert(next[i] == c.inherits[j]);
                                assert(inherits_at(groups, name, lower(next[i]), j));
                                assert(reaches(groups, starts, lower(next[i]), (depth + 1) as nat));
                            }
                        }
                    }
                    let tail = resolved(groups, next, visited.push(name));
                    let res = c.permissions + tail;
                    let i = choose|i: int| 0 <= i < res.len() && res[i] == perm;
                    if i < c.permissions.len() {
                        assert(c.permissions[i] == perm);
                        assert(given_by(groups, name, perm));
                    } else {
                        assert(tail[i - c.permissions.len()] == perm);
                        lemma_resolved_sound(groups, starts, next, visited.push(name), perm);
                    }
                },
                None => {
                    lemma_resolved_sound(groups, starts, rest, visited.push(name), perm);
                },
            }
        }
    }
}

/// Nobody has a permission that is neither their own nor listed by a group they reach.
pub proof fn law_permissions_have_a_source(c: PermissionsModel, username: Seq<char>, perm: Seq<char>)
    requires
        effective(c, username).contains(perm),
    ensures
        starting_permissions(c, username).contains(perm) || exists|g: Seq<char>, depth: nat|
            #[trigger] reaches(c.groups, starting_groups(c, username), g, depth) && given_by(
                c.groups,
                g,
                perm,
            ),
{
    let starts = starting_groups(c, username);
    let own = starting_permissions(c, username);
    let all = effective(c, username);
    let i = choose|i: int| 0 <= i < all.len() && all[i] == perm;
    if i < own.len() {
        assert(own[i] == perm);
    } else {
        let res = resolved(c.groups, starts, Seq::empty());
        assert(res[i - own.len()] == perm);
        assert(all_reach(c.groups, starts, starts)) by {
            assert forall|i: int| 0 <= i < starts.len() implies in_reach(
                c.groups,
                starts,
                lower(#[trigger] starts[i]),
            ) by {
                assert(reaches(c.groups, starts, lower(starts[i]), 0));
            }
        }
        lemma_resolved_sound(c.groups, starts, starts, Seq::empty(), perm);
    }
}

/// The first entry whose key is `name`, ASCII case aside, stands at place `i`.
pub open spec fn found_at<X>(s: Seq<(Seq<char>, X)>, name: Seq<char>, i: int) -> bool {
    &&& 0 <= i < s.len()
    &&& same_ignoring_case(s[i].0, name)
    &&& forall|j: int| 0 <= j < i ==> !same_ignoring_case(#[trigger] s[j].0, name)
}

/// A user with one more permission of their own at place `k`.
pub open spec fn user_with(u: UserModel, k: int, perm: Seq<char>) -> UserModel {
    UserPermissionConfig::Detailed {
        groups: groups_of(u),
        permissions: own_permissions_of(u).insert(k, perm),
    }
}

/// A group with one more permission at place `k`.
pub open spec fn group_with(g: GroupModel, k: int, perm: Seq<char>) -> GroupModel {
    GroupConfig { inherits: g.inherits, permissions: g.permissions.insert(k, perm) }
}

/// A configuration whose `i`-th user has one more permission.
pub open spec fn with_user_permission(
    c: PermissionsModel,
    i: int,
    k: int,
    perm: Seq<char>,
) -> PermissionsModel {
    PermissionsConfig {
        users: c.users.update(i, (c.users[i].0, user_with(c.users[i].1, k, perm))),
        ..c
    }
}

/// A configuration whose `i`-th group has one more permission.
pub open spec fn with_group_permission(
    c: PermissionsModel,
    i: int,
    k: int,
    perm: Seq<char>,
) -> PermissionsModel {
    PermissionsConfig {
        groups: c.groups.update(i, (c.groups[i].0, group_with(c.groups[i].1, k, perm))),
        ..c
    }
}

proof fn lemma_find_updated<X>(s: Seq<(Seq<char>, X)>, i: int, x: X, name: Seq<char>)
    requires
        0 <= i < s.len(),
    ensures
        ({
            let t = s.update(i, (s[i].0, x));
            &&& found_at(s, name, i) ==> find_ignoring_case(s, name) == Some(s[i].1)
                && find_ignoring_case(t, name) == Some(x)
            &&& !found_at(s, name, i) ==> find_ignoring_case(t, name) == find_ignoring_case(s, name)
        }),
    decreases s.len(),
{
    let t = s.update(i, (s[i].0, x));
    if same_ignoring_case(s[0].0, name) {
    } else if i == 0 {
        assert(t.skip(1) == s.skip(1));
    } else {
        let rest = s.skip(1);
        lemma_find_updated(rest, i - 1, x, name);
        assert(t.skip(1) == rest.update(i - 1, (rest[i - 1].0, x)));
        assert(rest[i - 1] == s[i]);
        if found_at(s, name, i) {
            assert forall|j: int| 0 <= j < i - 1 implies !same_ignoring_case(
                #[trigger] rest[j].0,
                name,
            ) by {
                assert(rest[j] == s[j + 1]);
            }
        }
        if found_at(rest, name, i - 1) {
            assert forall|j: int| 0 <= j < i implies !same_ignoring_case(
                #[trigger] s[j].0,
                name,
            ) by {
                if j > 0 {
                    assert(rest[j - 1] == s[j]);
                }
            }
        }
    }
}

/// One denial among other permissions takes away what it covers, and nothing else.
proof fn lemma_one_denial(
    perms: Seq<Seq<char>>,
    more: Seq<Seq<char>>,
    pattern: Seq<char>,
    node: Seq<char>,
)
    requires
        forall|x: Seq<char>| #[trigger]
            more.contains(x) <==> perms.contains(x) || x == seq!['-'] + pattern,
    ensures
        permitted(more, node) == (permitted(perms, node) && !node_matches(pattern, node)),
{
    let perm = seq!['-'] + pattern;
    assert(perm.skip(1) == pattern);
    assert(without_first(perm, '-') == Some(pattern));
    assert(more.contains(perm));
    if permitted(more, node) {
        let d = choose|d: int| 0 <= d < more.len() && more[d] == perm;
        assert(!denies(more[d], node));
        assert forall|i: int| 0 <= i < perms.len() implies !denies(#[trigger] perms[i], node) by {
            assert(perms.contains(perms[i]));
            assert(more.contains(perms[i]));
            let j = choose|j: int| 0 <= j < more.len() && more[j] == perms[i];
            assert(!denies(more[j], node));
        }
        let g = choose|g: int| 0 <= g < more.len() && grants(#[trigger] more[g], node);
        assert(more.contains(more[g]));
        assert(perms.contains(more[g]));
        let j = choose|j: int| 0 <= j < perms.len() && perms[j] == more[g];
        assert(grants(perms[j], node));
    }
    if permitted(perms, node) && !node_matches(pattern, node) {
        assert forall|i: int| 0 <= i < more.len() implies !denies(#[trigger] more[i], node) by {
            assert(more.contains(more[i]));
            if more[i] != perm {
                let j = choose|j: int| 0 <= j < perms.len() && perms[j] == more[i];
                assert(!denies(perms[j], node));
            }
        }
        let g = choose|g: int| 0 <= g < perms.len() && grants(#[trigger] perms[g], node);
        assert(perms.contains(perms[g]));
        assert(more.contains(perms[g]));
        let j = choose|j: int| 0 <= j < more.len() && more[j] == perms[g];
        assert(grants(more[j], node));
    }
}

proof fn lemma_inserted(s: Seq<Seq<char>>, k: int, perm: Seq<char>, x: Seq<char>)
    requires
        0 <= k <= s.len(),
    ensures
        s.insert(k, perm).contains(x) <==> s.contains(x) || x == perm,
{
    let t = s.insert(k, perm);
    assert(t[k] == perm);
    if s.contains(x) {
        let i = choose|i: int| 0 <= i < s.len() && s[i] == x;
        assert(t[if i < k {
            i
        } else {
            i + 1
        }] == x);
    }
    if t.contains(x) && x != perm {
        let i = choose|i: int| 0 <= i < t.len() && t[i] == x;
        assert(s[if i < k {
            i
        } else {
            i - 1
        }] == x);
    }
}

/// A denial put anywhere among a user's own permissions takes away exactly the nodes that it
/// covers, `*` or not, and grants nothing.
pub proof fn law_own_denial_takes_away_what_it_covers(
    c: PermissionsModel,
    username: Seq<char>,
    i: int,
    k: int,
    pattern: Seq<char>,
    node: Seq<char>,
)
    requires
        found_at(c.users, username, i),
        0 <= k <= own_permissions_of(c.users[i].1).len(),
    ensures
        permitted(effective(with_user_permission(c, i, k, seq!['-'] + pattern), username), node)
            == (permitted(effective(c, username), node) && !node_matches(pattern, node)),
{
    let perm = seq!['-'] + pattern;
    let d = with_user_permission(c, i, k, perm);
    let u = c.users[i].1;
    lemma_find_updated(c.users, i, user_with(u, k, perm), username);
    assert(starting_groups(d, username) == starting_groups(c, username));
    let own = own_permissions_of(u);
    let res = resolved(c.groups, starting_groups(c, username), Seq::empty());
    let all = effective(c, username);
    assert(all == own + res);
    assert(effective(d, username) == own.insert(k, perm) + res);
    assert(effective(d, username) == all.insert(k, perm));
    assert forall|x: Seq<char>| #[trigger]
        all.insert(k, perm).contains(x) <==> all.contains(x) || x == perm by {
        lemma_inserted(all, k, perm, x);
    }
    lemma_one_denial(all, all.insert(k, perm), pattern, node);
}

proof fn lemma_reaches_updated(
    c: PermissionsModel,
    i: int,
    k: int,
    perm: Seq<char>,
    starts: Seq<Seq<char>>,
    g: Seq<char>,
    depth: nat,
)
    requires
        0 <= i < c.groups.len(),
    ensures
        reaches(with_group_permission(c, i, k, perm).groups, starts, g, depth) == reaches(
            c.groups,
            starts,
            g,
            depth,
        ),
    decreases depth,
{
    if depth > 0 {
        let d = with_group_permission(c, i, k, perm);
        let less = (depth - 1) as nat;
        assert forall|p: Seq<char>, j: int| #[trigger]
            inherits_at(d.groups, p, g, j) == inherits_at(c.groups, p, g, j) by {
            lemma_find_updated(c.groups, i, group_with(c.groups[i].1, k, perm), p);
        }
        if reaches(d.groups, starts, g, depth) {
            let (p, j) = choose|p: Seq<char>, j: int|
                reaches(d.groups, starts, p, less) && #[trigger] inherits_at(d.groups, p, g, j);
            lemma_reaches_updated(c, i, k, perm, starts, p, less);
            assert(inherits_at(c.groups, p, g, j));
        }
        if reaches(c.groups, starts, g, depth) {
            let (p, j) = choose|p: Seq<char>, j: int|
                reaches(c.groups, starts, p, less) && #[trigger] inherits_at(c.groups, p, g, j);
            lemma_reaches_updated(c, i, k, perm, starts, p, less);
            assert(inherits_at(d.groups, p, g, j));
        }
    }
}

proof fn lemma_source_counts(
    c: PermissionsModel,
    username: Seq<char>,
    g: Seq<char>,
    depth: nat,
    perm: Seq<char>,
)
    requires
        reaches(c.groups, starting_groups(c, username), g, depth),
        given_by(c.groups, g, perm),
    ensures
        effective(c, username).contains(perm),
{
    let group = find_ignoring_case(c.groups, g)->Some_0;
    law_inherited_permissions_count(c, username, g, depth, group, perm);
}

/// A denial put anywhere among the permissions of a group that a user has, by themself, by
/// inheritance or by default, takes away exactly the nodes that it covers, `*` or not, and grants
/// nothing.
pub proof fn law_group_denial_takes_away_what_it_covers(
    c: PermissionsModel,
    username: Seq<char>,
    g: Seq<char>,
    i: int,
    k: int,
    pattern: Seq<char>,
    node: Seq<char>,
)
    requires
        in_reach(c.groups, starting_groups(c, username), g),
        found_at(c.groups, g, i),
        0 <= k <= c.groups[i].1.permissions.len(),
    ensures
        permitted(effective(with_group_permission(c, i, k, seq!['-'] + pattern), username), node)
            == (permitted(effective(c, username), node) && !node_matches(pattern, node)),
{
    let perm = seq!['-'] + pattern;
    let d = with_group_permission(c, i, k, perm);
    let starts = starting_groups(c, username);
    let own = starting_permissions(c, username);
    let all = effective(c, username);
    let more = effective(d, username);
    let old_group = c.groups[i].1;
    let new_group = group_with(old_group, k, perm);
    assert(starting_groups(d, username) == starts);
    assert(starting_permissions(d, username) == own);
    assert forall|x: Seq<char>| #[trigger] more.contains(x) <==> all.contains(x) || x == perm by {
        lemma_inserted(old_group.permissions, k, perm, x);
        if more.contains(x) {
            law_permissions_have_a_source(d, username, x);
            if own.contains(x) {
                let j = choose|j: int| 0 <= j < own.len() && own[j] == x;
                assert(all[j] == x);
            } else {
                let (h, depth) = choose|h: Seq<char>, depth: nat| #[trigger]
                    reaches(d.groups, starts, h, depth) && given_by(d.groups, h, x);
                lemma_reaches_updated(c, i, k, perm, starts, h, depth);
                lemma_find_updated(c.groups, i, new_group, h);
                if x != perm {
                    assert(given_by(c.groups, h, x));
                    lemma_source_counts(c, username, h, depth, x);
                }
            }
        }
        if all.contains(x) {
            law_permissions_have_a_source(c, username, x);
            if own.contains(x) {
                let j = choose|j: int| 0 <= j < own.len() && own[j] == x;
                assert(more[j] == x);
            } else {
                let (h, depth) = choose|h: Seq<char>, depth: nat| #[trigger]
                    reaches(c.groups, starts, h, depth) && given_by(c.groups, h, x);
                lemma_reaches_updated(c, i, k, perm, starts, h, depth);
                lemma_find_updated(c.groups, i, new_group, h);
                assert(given_by(d.groups, h, x));
                lemma_source_counts(d, username, h, depth, x);
            }
        }
        if x == perm {
            let depth = choose|depth: nat| reaches(c.groups, starts, g, depth);
            lemma_reaches_updated(c, i, k, perm, starts, g, depth);
            lemma_find_updated(c.groups, i, new_group, g);
            assert(given_by(d.groups, g, x));
            lemma_source_counts(d, username, g, depth, x);
        }
    }
    lemma_one_denial(all, more, pattern, node);
}

/// A pattern covers everything, itself, or what lies below it, and nothing else, case aside.
pub proof fn law_patterns_cover(pattern: Seq<char>, target: Seq<char>)
    ensures
        node_matches(pattern, target) <==> {
            ||| lower(pattern) == seq!['*']
            ||| lower(pattern) == lower(target)
            ||| exists|prefix: Seq<char>, rest: Seq<char>|
                lower(pattern) == prefix + seq!['.', '*'] && lower(target) == #[trigger] (prefix
                    + seq!['.'] + rest)
        },
{
    let p = lower(pattern);
    let t = lower(target);
    if node_matches(pattern, target) && p != seq!['*'] && p != t {
        let prefix = p.take(p.len() - 2);
        let rest = t.skip(p.len() - 1);
        assert(p == prefix + seq!['.', '*']);
        assert(t == prefix + seq!['.'] + rest);
    }
    if exists|prefix: Seq<char>, rest: Seq<char>|
        p == prefix + seq!['.', '*'] && t == #[trigger] (prefix + seq!['.'] + rest) {
        let (prefix, rest) = choose|prefix: Seq<char>, rest: Seq<char>|
            p == prefix + seq!['.', '*'] && t == #[trigger] (prefix + seq!['.'] + rest);
        assert(p.skip(p.len() - 2) == seq!['.', '*']);
        assert(p.take(p.len() - 2) == prefix);
        assert(t.take(p.len() - 2) == prefix);
    }
}

/// A permission with a minus sign denies what the pattern behind it covers and grants nothing; one
/// without grants what it covers and denies nothing.
pub proof fn law_grants_and_denials(pattern: Seq<char>, node: Seq<char>)
    requires
        pattern.len() == 0 || pattern[0] != '-',
    ensures
        denies(seq!['-'] + pattern, node) <==> node_matches(pattern, node),
        !grants(seq!['-'] + pattern, node),
        grants(pattern, node) <==> node_matches(pattern, node),
        !denies(pattern, node),
{
    let perm = seq!['-'] + pattern;
    assert(perm.skip(1) == pattern);
}

/// A node may be used exactly where some permission grants it and none denies it.
pub proof fn law_permitted_is_granted_and_not_denied(perms: Seq<Seq<char>>, node: Seq<char>)
    ensures
        permitted(perms, node) <==> (exists|g: Seq<char>|
            perms.contains(g) && #[trigger] grants(g, node)) && (forall|d: Seq<char>|
            perms.contains(d) ==> !(#[trigger] denies(d, node))),
{
    if permitted(perms, node) {
        let i = choose|i: int| 0 <= i < perms.len() && grants(#[trigger] perms[i], node);
        assert(perms.contains(perms[i]));
        assert forall|d: Seq<char>| perms.contains(d) implies !(#[trigger] denies(d, node)) by {
            let j = choose|j: int| 0 <= j < perms.len() && perms[j] == d;
            assert(!denies(perms[j], node));
        }
    }
    if (exists|g: Seq<char>| perms.contains(g) && #[trigger] grants(g, node)) && (forall|
        d: Seq<char>,
    |
        perms.contains(d) ==> !(#[trigger] denies(d, node))) {
        let g = choose|g: Seq<char>| perms.contains(g) && #[trigger] grants(g, node);
        let j = choose|j: int| 0 <= j < perms.len() && perms[j] == g;
        assert(grants(perms[j], node));
        assert forall|i: int| 0 <= i < perms.len() implies !denies(#[trigger] perms[i], node) by {
            assert(perms.contains(perms[i]));
        }
    }
}

/// A user's own permissions count, and so do those of every group that the user is put into, in
/// whatever case user and group are written.
pub proof fn law_own_permissions_and_groups_count(
    c: PermissionsModel,
    username: Seq<char>,
    i: int,
    perm: Seq<char>,
    g: int,
    group: GroupModel,
)
    requires
        found_at(c.users, username, i),
    ensures
        own_permissions_of(c.users[i].1).contains(perm) ==> effective(c, username).contains(perm),
        0 <= g < groups_of(c.users[i].1).len() && find_ignoring_case(
            c.groups,
            groups_of(c.users[i].1)[g],
        ) == Some(group) && group.permissions.contains(perm) ==> effective(c, username).contains(
            perm,
        ),
{
    let u = c.users[i].1;
    lemma_find_updated(c.users, i, u, username);
    let own = own_permissions_of(u);
    let all = effective(c, username);
    if own.contains(perm) {
        let j = choose|j: int| 0 <= j < own.len() && own[j] == perm;
        assert(all[j] == perm);
    }
    if 0 <= g < groups_of(u).len() && find_ignoring_case(c.groups, groups_of(u)[g]) == Some(group)
        && group.permissions.contains(perm) {
        let name = groups_of(u)[g];
        let starts = starting_groups(c, username);
        assert(starts[g] == name);
        assert(lower(starts[g]) == lower(name));
        assert(reaches(c.groups, starts, lower(name), 0));
        lemma_lower_twice(name);
        lemma_find_ignores_case(c.groups, name, lower(name));
        law_inherited_permissions_count(c, username, lower(name), 0, group, perm);
    }
}

/// An entry of a table is found under its key in any case.
pub proof fn law_found_ignoring_case<X>(s: Seq<(Seq<char>, X)>, name: Seq<char>, i: int)
    requires
        0 <= i < s.len(),
    ensures
        found_at(s, name, i) ==> find_ignoring_case(s, name) == Some(s[i].1),
        (forall|j: int| 0 <= j < s.len() ==> !same_ignoring_case(#[trigger] s[j].0, name))
            ==> find_ignoring_case(s, name) is None,
    decreases s.len(),
{
    lemma_find_updated(s, i, s[i].1, name);
    if forall|j: int| 0 <= j < s.len() ==> !same_ignoring_case(#[trigger] s[j].0, name) {
        lemma_find_nothing(s, name);
    }
}

proof fn lemma_find_nothing<X>(s: Seq<(Seq<char>, X)>, name: Seq<char>)
    requires
        forall|j: int| 0 <= j < s.len() ==> !same_ignoring_case(#[trigger] s[j].0, name),
    ensures
        find_ignoring_case(s, name) is None,
    decreases s.len(),
{
    if s.len() > 0 {
        let t = s.skip(1);
        assert forall|j: int| 0 <= j < t.len() implies !same_ignoring_case(
            #[trigger] t[j].0,
            name,
        ) by {
            assert(t[j] == s[j + 1]);
        }
        assert(!same_ignoring_case(s[0].0, name));
        lemma_find_nothing(t, name);
    }
}

/// A user is given groups alone, or groups and permissions of their own.
pub proof fn law_what_a_user_is_given(groups: Seq<Seq<char>>, permissions: Seq<Seq<char>>)
    ensures
        groups_of(UserPermissionConfig::Groups(groups)) == groups,
        own_permissions_of(UserPermissionConfig::Groups(groups)).len() == 0,
        groups_of(UserPermissionConfig::Detailed { groups, permissions }) == groups,
        own_permissions_of(UserPermissionConfig::Detailed { groups, permissions }) == permissions,
{
}

/// A user's rights are those that the configuration gives to that user.
pub proof fn law_rights_are_the_users(
    c: PermissionsConfig,
    username: &str,
    node: &str,
    all: Vec<String>,
    may: bool,
    m: bool,
)
    requires
        call_ensures(PermissionsConfig::collect_permissions, (&c, username), all),
        call_ensures(PermissionsConfig::has_permission, (&c, username, node), may),
        call_ensures(matches_node, (username, node), m),
    ensures
        texts(all@) == effective(c@, username@),
        may == permitted(texts(all@), node@),
        m == node_matches(username@, node@),
        c@.default_group == c.default_group@,
        c@.groups == c.groups@,
        c@.users == c.users@,
{
}

} // verus!
