use rhubarb::command::{
    parse_command, parse_command_to_expr, parse_operation, CommandError, DatabaseOperationType, Side,
};
use rhubarb::database::{Database, Permission, SetRegistry};
use rhubarb::expr::{resolve_set, ResolveError, SetExpr};
use rhubarb::idset::IdSet;
use rhubarb::parser::{parse, parse_complete, parse_expr, ExprError, SyntaxError};
use rhubarb::registry::RoleRegistry;

fn set_of(words: &str) -> IdSet {
    let mut set = IdSet::new();
    for w in words.split_whitespace() {
        set.insert(w.to_string());
    }
    set
}

fn put(map: &mut RoleRegistry, label: &str, words: &str) {
    for w in words.split_whitespace() {
        map.insert(label.to_string(), w.to_string());
    }
}

fn abc() -> RoleRegistry {
    let mut map = RoleRegistry::new();
    put(&mut map, "A", "1 2");
    put(&mut map, "B", "2 3");
    put(&mut map, "C", "3 4");
    map
}

fn database(assets: RoleRegistry, users: RoleRegistry, permissions: &[&str]) -> Database {
    let mut asset_registry = SetRegistry::new();
    asset_registry.data = assets;
    let mut user_registry = SetRegistry::new();
    user_registry.data = users;
    Database {
        asset_registry,
        user_registry,
        valid_permissions: permissions.iter().map(|p| p.to_string()).collect(),
        permission_log: Vec::new(),
    }
}

fn is_label(e: &SetExpr, name: &str) -> bool {
    matches!(e, SetExpr::Label(l) if l == name)
}

#[test]
fn union_parses_to_tree_and_resolves() {
    let (rest, e) = parse_expr("(A OR B)").unwrap();
    assert_eq!(rest, "");
    match &e {
        SetExpr::Union(l, r) => assert!(is_label(l, "A") && is_label(r, "B")),
        other => panic!("unexpected tree {:?}", other),
    }
    assert_eq!(resolve_set(e, &abc()).unwrap(), set_of("1 2 3"));
}

#[test]
fn intersection_resolves() {
    assert_eq!(parse("(A AND B)", &abc()).unwrap(), set_of("2"));
}

#[test]
fn difference_resolves() {
    assert_eq!(parse("(A EXCEPT B)", &abc()).unwrap(), set_of("1"));
}

#[test]
fn difference_is_not_symmetric() {
    assert_eq!(parse("(B EXCEPT A)", &abc()).unwrap(), set_of("3"));
    assert_ne!(parse("(A EXCEPT B)", &abc()).unwrap(), parse("(B EXCEPT A)", &abc()).unwrap());
}

#[test]
fn nested_resolves() {
    assert_eq!(parse("(A OR (B AND C))", &abc()).unwrap(), set_of("1 2 3"));
}

#[test]
fn union_and_intersection_commute() {
    let map = abc();
    assert_eq!(parse("(A OR C)", &map).unwrap(), parse("(C OR A)", &map).unwrap());
    assert_eq!(parse("(A AND B)", &map).unwrap(), parse("(B AND A)", &map).unwrap());
}

#[test]
fn label_resolves_to_its_set() {
    assert_eq!(parse("C", &abc()).unwrap(), set_of("3 4"));
}

#[test]
fn unknown_label_anywhere_fails() {
    let map = abc();
    for text in ["Z", "(A OR Z)", "(Z AND A)", "(A OR (B EXCEPT Z))", "((Z OR A) AND B)"] {
        assert_eq!(parse(text, &map), Err(ExprError::UnknownLabel("Z".to_string())), "{}", text);
    }
    let (_, e) = parse_expr("(A OR (B EXCEPT Z))").unwrap();
    assert_eq!(resolve_set(e, &map), Err(ResolveError::UnknownLabel("Z".to_string())));
}

#[test]
fn leftmost_unknown_label_is_reported() {
    assert_eq!(parse("(X OR Y)", &abc()), Err(ExprError::UnknownLabel("X".to_string())));
    assert_eq!(parse("(Y OR X)", &abc()), Err(ExprError::UnknownLabel("Y".to_string())));
}

#[test]
fn trailing_input_is_refused() {
    assert_eq!(
        parse_complete("A OR B"),
        Err(SyntaxError::TrailingInput(" OR B".to_string()))
    );
    let (rest, e) = parse_expr("A OR B").unwrap();
    assert_eq!(rest, " OR B");
    assert!(is_label(&e, "A"));
}

#[test]
fn no_match_is_refused() {
    assert_eq!(parse_complete(""), Err(SyntaxError::NoMatch(String::new())));
    assert_eq!(parse_complete("(A OR B"), Err(SyntaxError::NoMatch("(A OR B".to_string())));
    assert_eq!(parse_complete(")"), Err(SyntaxError::NoMatch(")".to_string())));
    assert!(matches!(parse("(A OR B AND C)", &abc()), Err(ExprError::Syntax(SyntaxError::NoMatch(_)))));
}

#[test]
fn whitespace_around_groups_is_tolerated() {
    let map = abc();
    assert_eq!(parse("  (A OR B)  ", &map).unwrap(), set_of("1 2 3"));
    assert_eq!(parse("((A) )", &map).unwrap(), set_of("1 2"));
    assert_eq!(parse("(A OR  (B AND C))", &map).unwrap(), set_of("1 2 3"));
    assert!(parse("(A  OR B)", &map).is_err());
    assert!(parse("(A OR B )", &map).is_err());
}

#[test]
fn whole_parse_consumes_everything() {
    for text in ["A", "(A)", "((A OR B) EXCEPT C)", "  ( (A) AND B)\t"] {
        assert!(parse_complete(text).is_ok(), "{}", text);
    }
    for text in ["A B", "(A) B", "(A OR B))", "A)"] {
        assert!(matches!(parse_complete(text), Err(SyntaxError::TrailingInput(_))), "{}", text);
    }
}

#[test]
fn grant_resolves_both_sides() {
    let mut assets = RoleRegistry::new();
    put(&mut assets, "A", "1 2");
    let mut users = RoleRegistry::new();
    put(&mut users, "B", "10 20");
    let db = database(assets, users, &["READ"]);
    let r = db.resolve_command("GRANT READ ON (A) TO (B)").unwrap();
    assert_eq!(r.command_raw, "GRANT READ ON (A) TO (B)");
    assert_eq!(r.database_operation, DatabaseOperationType::Grant("READ".to_string()));
    assert_eq!(r.asset_set_affected, set_of("1 2"));
    assert_eq!(r.user_set_affected, set_of("10 20"));
}

#[test]
fn grant_with_unlisted_permission_is_refused() {
    let db = database(abc(), abc(), &["READ"]);
    assert_eq!(
        db.resolve_command("GRANT WRITE ON (A) TO (B)").unwrap_err(),
        CommandError::InvalidPermission("WRITE".to_string())
    );
}

#[test]
fn permission_is_checked_before_labels() {
    let db = database(RoleRegistry::new(), RoleRegistry::new(), &["READ"]);
    assert_eq!(
        db.resolve_command("GRANT BOGUS ON (A) TO (B)").unwrap_err(),
        CommandError::InvalidPermission("BOGUS".to_string())
    );
    assert_eq!(
        db.resolve_command("GRANT BOGUS ON (A OR B AND C) TO (B)").unwrap_err(),
        CommandError::InvalidPermission("BOGUS".to_string())
    );
}

#[test]
fn malformed_commands_are_refused() {
    let db = database(abc(), abc(), &["READ"]);
    for text in ["", "READ ON (A) TO (B)", "GRANT READ (A) TO (B)", "GRANT READ ON (A)", "GRANTREAD ON (A) TO (B)", "GRANT  ON (A) TO (B)"] {
        assert_eq!(
            db.resolve_command(text).unwrap_err(),
            CommandError::CommandSyntax(text.to_string()),
            "{}",
            text
        );
    }
}

#[test]
fn side_errors_name_their_side() {
    let db = database(abc(), abc(), &["READ"]);
    assert_eq!(
        db.resolve_command("GRANT READ ON A B TO (B)").unwrap_err(),
        CommandError::Syntax(Side::Asset, SyntaxError::TrailingInput(" B".to_string()))
    );
    assert_eq!(
        db.resolve_command("GRANT READ ON (A) TO (B").unwrap_err(),
        CommandError::Syntax(Side::User, SyntaxError::NoMatch("(B".to_string()))
    );
    assert_eq!(
        db.resolve_command("GRANT READ ON (Q) TO (B)").unwrap_err(),
        CommandError::UnknownLabel(Side::Asset, "Q".to_string())
    );
    assert_eq!(
        db.resolve_command("GRANT READ ON (A) TO (Q)").unwrap_err(),
        CommandError::UnknownLabel(Side::User, "Q".to_string())
    );
}

#[test]
fn sides_use_their_own_registry() {
    let mut assets = RoleRegistry::new();
    put(&mut assets, "X", "a1 a2");
    let mut users = RoleRegistry::new();
    put(&mut users, "X", "u1");
    let db = database(assets, users, &["READ", "WRITE"]);
    let r = db.resolve_command("GRANT WRITE ON X TO X").unwrap();
    assert_eq!(r.asset_set_affected, set_of("a1 a2"));
    assert_eq!(r.user_set_affected, set_of("u1"));
}

#[test]
fn command_splits_at_first_to() {
    let (perm, asset, user) = parse_command("GRANT READ ON (A OR B) TO (C EXCEPT A)").unwrap();
    assert_eq!(perm, "READ");
    assert_eq!(asset, "(A OR B)");
    assert_eq!(user, "(C EXCEPT A)");
    let (_, asset, user) = parse_command("GRANT READ ON A TO B TO C").unwrap();
    assert_eq!(asset, "A");
    assert_eq!(user, "B TO C");
    let (_, asset, user) = parse_command("GRANT\tREAD ON  TO ").unwrap();
    assert_eq!(asset, "");
    assert_eq!(user, "");
}

#[test]
fn operation_prefix_is_read() {
    let (rest, op) = parse_operation("GRANT   Read ON x").unwrap();
    assert_eq!(rest, "x");
    assert_eq!(op, DatabaseOperationType::Grant("Read".to_string()));
    assert_eq!(
        parse_operation("GRANT R2 ON x").unwrap_err(),
        CommandError::CommandSyntax("GRANT R2 ON x".to_string())
    );
}

#[test]
fn command_expressions_are_read() {
    let (op, a, u) = parse_command_to_expr("GRANT READ ON (A AND B) TO C").unwrap();
    assert_eq!(op, DatabaseOperationType::Grant("READ".to_string()));
    assert_eq!(resolve_set(a, &abc()).unwrap(), set_of("2"));
    assert!(is_label(&u, "C"));
    assert_eq!(
        parse_command_to_expr("GRANT READ ON (A AND B) TO C D").unwrap_err(),
        CommandError::Syntax(Side::User, SyntaxError::TrailingInput(" D".to_string()))
    );
}

#[test]
fn status_report_counts() {
    let mut db = database(abc(), abc(), &["READ", "WRITE"]);
    for id in ["1", "2", "3"] {
        db.asset_registry.ids.insert(id.to_string());
    }
    for id in ["u1", "u2"] {
        db.user_registry.ids.insert(id.to_string());
    }
    db.permission_log.push(("k".to_string(), Permission {}));
    let r = db.status_report();
    assert_eq!(r.asset_count, 3);
    assert_eq!(r.user_count, 2);
    assert_eq!(r.valid_permissions, vec!["READ".to_string(), "WRITE".to_string()]);
    assert_eq!(r.max_combinations, Some(12));
    assert_eq!(r.permissions_in_effect, 1);
}
