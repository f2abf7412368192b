use vine::config::{GroupConfig, PermissionsConfig, UserPermissionConfig};
use vine::permissions::{default_group_name, default_permission_groups, matches_node};
use vine::table::Table;

fn list(items: &[&str]) -> Vec<String> {
    items.iter().map(|s| s.to_string()).collect()
}

#[test]
fn test_matches_node() {
    assert!(matches_node("*", "vine.command.send"));
    assert!(matches_node("vine.command.send", "vine.command.send"));
    assert!(matches_node("VINE.COMMAND.SEND", "vine.command.send"));
    assert!(matches_node("vine.command.*", "vine.command.send"));
    assert!(matches_node("vine.command.*", "vine.command.server"));
    assert!(!matches_node("vine.command.*", "vine.commander"));
    assert!(!matches_node("vine.command.*", "other.command.send"));
}

#[test]
fn test_default_permissions() {
    let config = PermissionsConfig::default();

    // Regular player in default group
    assert!(config.has_permission("Steve", "vine.command.server"));
    assert!(config.has_permission("Steve", "vine.command.glist"));
    assert!(config.has_permission("Steve", "vine.command.list"));
    assert!(config.has_permission("Steve", "vine.command.help"));
    assert!(!config.has_permission("Steve", "vine.command.send"));
    assert!(!config.has_permission("Steve", "vine.admin"));

    // Alex in admin group
    assert!(config.has_permission("Alex", "vine.command.send"));
    assert!(config.has_permission("alex", "vine.command.send")); // case-insensitive
    assert!(config.has_permission("Alex", "vine.command.server"));
    assert!(config.has_permission("Alex", "any.random.node")); // * wildcard
}

#[test]
fn test_negated_permissions() {
    let mut config = PermissionsConfig::default();
    let mut groups = Table::new();
    groups.insert(
        "moderator".to_string(),
        GroupConfig {
            inherits: vec!["default".to_string()],
            permissions: vec![
                "vine.command.*".to_string(),
                "-vine.command.send".to_string(),
            ],
        },
    );
    config.groups = groups;
    config.users.insert(
        "ModUser".to_string(),
        UserPermissionConfig::Groups(vec!["moderator".to_string()]),
    );

    assert!(config.has_permission("ModUser", "vine.command.server"));
    assert!(config.has_permission("ModUser", "vine.command.glist"));
    // Explicitly negated
    assert!(!config.has_permission("ModUser", "vine.command.send"));
}

#[test]
fn test_circular_group_inheritance_does_not_loop() {
    let mut config = PermissionsConfig::default();
    let mut groups = Table::new();
    groups.insert(
        "group_a".to_string(),
        GroupConfig {
            inherits: vec!["group_b".to_string()],
            permissions: vec!["node.a".to_string()],
        },
    );
    groups.insert(
        "group_b".to_string(),
        GroupConfig {
            inherits: vec!["group_a".to_string()],
            permissions: vec!["node.b".to_string()],
        },
    );
    config.groups = groups;
    config.users.insert(
        "User1".to_string(),
        UserPermissionConfig::Groups(vec!["group_a".to_string()]),
    );

    assert!(config.has_permission("User1", "node.a"));
    assert!(config.has_permission("User1", "node.b"));
}

#[test]
fn test_detailed_user_config() {
    let mut config = PermissionsConfig::default();
    config.users.insert(
        "CustomUser".to_string(),
        UserPermissionConfig::Detailed {
            groups: vec!["default".to_string()],
            permissions: vec!["custom.perm".to_string()],
        },
    );

    assert!(config.has_permission("CustomUser", "custom.perm"));
    assert!(config.has_permission("CustomUser", "vine.command.server"));
    assert!(!config.has_permission("CustomUser", "vine.command.send"));
}

#[test]
fn users_hold_groups_and_their_own_permissions() {
    let plain = UserPermissionConfig::Groups(list(&["a", "b"]));
    assert_eq!(plain.groups(), list(&["a", "b"]).as_slice());
    assert!(plain.direct_permissions().is_empty());
    let detailed =
        UserPermissionConfig::Detailed { groups: list(&["a"]), permissions: list(&["x", "-y"]) };
    assert_eq!(detailed.groups(), list(&["a"]).as_slice());
    assert_eq!(detailed.direct_permissions(), list(&["x", "-y"]).as_slice());
}

#[test]
fn default_group_applies_to_everyone() {
    assert_eq!(default_group_name(), "default");
    assert!(default_permission_groups().contains_key("default"));
    assert!(default_permission_groups().contains_key("admin"));
    let config = PermissionsConfig::default();
    assert_eq!(
        config.collect_permissions("Nobody"),
        config.collect_permissions("SomeoneElse")
    );
}

#[test]
fn denial_wins_over_star() {
    let mut config = PermissionsConfig::default();
    config.users.insert(
        "Careful".to_string(),
        UserPermissionConfig::Detailed {
            groups: list(&["admin"]),
            permissions: list(&["-vine.command.send"]),
        },
    );
    assert!(config.has_permission("Careful", "vine.admin"));
    assert!(!config.has_permission("Careful", "vine.command.send"));
    assert!(!config.has_permission("CAREFUL", "VINE.command.send"));
}

#[test]
fn a_wildcard_matches_its_own_stem() {
    assert!(matches_node("vine.command.*", "vine.command.send.all"));
    assert!(!matches_node("vine.command", "vine.command.send"));
    assert!(!matches_node("", "vine"));
}

#[test]
fn a_denial_takes_away_what_it_covers() {
    let nodes = ["vine.command.send", "vine.command.list", "vine.admin", "other"];
    let before = PermissionsConfig::default();
    let mut by_group = PermissionsConfig::default();
    by_group.groups.insert(
        "admin".to_string(),
        GroupConfig {
            inherits: list(&["default"]),
            permissions: list(&["vine.command.send", "-VINE.command.*", "vine.admin", "*"]),
        },
    );
    let mut by_user = PermissionsConfig::default();
    by_user.users.insert(
        "Alex".to_string(),
        UserPermissionConfig::Detailed {
            groups: list(&["admin"]),
            permissions: list(&["-vine.command.*"]),
        },
    );
    for node in nodes {
        let kept = before.has_permission("Alex", node) && !matches_node("vine.command.*", node);
        assert_eq!(by_group.has_permission("Alex", node), kept);
        assert_eq!(by_user.has_permission("Alex", node), kept);
        assert_eq!(by_group.has_permission("Steve", node), before.has_permission("Steve", node));
    }
}
