use rhubarb::expr::resolve_set;
use rhubarb::idset::IdSet;
use rhubarb::parser::{parse, parse_expr};
use rhubarb::registry::RoleRegistry;

fn set_of(words: &str) -> IdSet {
    let mut set = IdSet::new();
    for w in words.split_whitespace() {
        set.insert(w.to_string());
    }
    set
}

fn put(map: &mut RoleRegistry, label: &str, words: &str) {
    for w in words.split_whitespace() {
        map.insert(label.to_string(), w.to_string());
    }
}

#[test]
fn parse_set_test_resolve_set_single_set() {
    let mut map = RoleRegistry::new();
    let set = set_of("1 2 3 4 5 6");
    put(&mut map, "division:product_design3", "1 2 3 4 5 6");

    let (_, parsed_expr) = parse_expr("division:product_design3").unwrap();
    let result = resolve_set(parsed_expr, &map).unwrap();

    assert_eq!(
        result, set,
        "Result should be equal to the set for input 'division:product_design3'"
    );
}

#[test]
fn parse_set_test_resolve_set_union() {
    let mut map = RoleRegistry::new();
    put(&mut map, "A", "1 2 3");
    put(&mut map, "B", "4 5 6");
    let set_union = set_of("1 2 3 4 5 6");

    let (_, parsed_expr) = parse_expr("(A OR B)").unwrap();
    let result = resolve_set(parsed_expr, &map).unwrap();

    assert_eq!(result, set_union, "Result should be equal to the union of sets A and B");
}

#[test]
fn parse_set_test_resolve_set_intersection() {
    let mut map = RoleRegistry::new();
    put(&mut map, "A", "1 2 3 4 5");
    put(&mut map, "B", "4 5 6");
    let set_intersection = set_of("4 5");

    let (_, parsed_expr) = parse_expr("(A AND B)").unwrap();
    let result = resolve_set(parsed_expr, &map).unwrap();

    assert_eq!(
        result, set_intersection,
        "Result should be equal to the intersection of sets A and B"
    );
}

#[test]
fn parse_set_test_resolve_set_complement() {
    let mut map = RoleRegistry::new();
    put(&mut map, "A", "1 2 3 4 5");
    put(&mut map, "B", "4 5 6");
    let set_complement = set_of("1 2 3");

    let (_, parsed_expr) = parse_expr("(A EXCEPT B)").unwrap();
    let result = resolve_set(parsed_expr, &map).unwrap();

    assert_eq!(
        result, set_complement,
        "Result should be equal to the complement of set B intersected with A"
    );
}

#[test]
fn parse_set_test_resolve_set_simple_nested_1() {
    let mut map = RoleRegistry::new();
    put(&mut map, "A", "1 2");
    put(&mut map, "B", "2 3");
    put(&mut map, "C", "3 4");
    let set_result = set_of("1 2 3");

    let (_, parsed_expr) = parse_expr("(A OR (B AND C))").unwrap();
    let result = resolve_set(parsed_expr, &map).unwrap();

    assert_eq!(
        result, set_result,
        "Result should be equal to the evaluation of the expression 'A OR (B AND C)'"
    );
}

#[test]
fn parse_set_test_resolve_set_simple_nested_2() {
    let mut map = RoleRegistry::new();
    put(&mut map, "A", "1 2");
    put(&mut map, "B", "2 3");
    put(&mut map, "C", "3 4");
    let set_result = set_of("1 2 3 4");

    let (_, parsed_expr) = parse_expr("((B OR C) OR A)").unwrap();
    let result = resolve_set(parsed_expr, &map).unwrap();

    assert_eq!(
        result, set_result,
        "Result should be equal to the evaluation of the expression '(B OR C) OR A'"
    );
}

// Each text is malformed as a whole: the first and the last leave text after a label,
// the second matches no production.
#[test]
fn parse_set_test_resolve_set_bad_syntax() {
    let mut map = RoleRegistry::new();
    put(&mut map, "A", "1 2");
    put(&mut map, "B", "2 3");
    put(&mut map, "C", "3 4");

    assert!(
        parse("A OR B AND C", &map).is_err(),
        "Should return an error for bad syntax 'A OR B AND C'"
    );
    assert!(
        parse("(A OR B AND C)", &map).is_err(),
        "Should return an error for bad syntax '(A OR B AND C)'"
    );
    assert!(
        parse("AOR B", &map).is_err(),
        "Should return an error for bad syntax 'AOR B'"
    );
}

#[test]
fn parse_set_test_resolve_set_deeply_nested() {
    let mut map = RoleRegistry::new();
    put(&mut map, "A", "1 2");
    put(&mut map, "B", "2 3");
    put(&mut map, "C", "3 4");
    put(&mut map, "D", "4 5");
    let set_result = set_of("1 2 3 4 5");

    let (_, parsed_expr) = parse_expr("(A OR ((C AND B) OR D))").unwrap();
    let result = resolve_set(parsed_expr, &map).unwrap();

    assert_eq!(result, set_result);
}

#[test]
fn parser_test_resolve_set_single_set() {
    let mut map = RoleRegistry::new();
    let set = set_of("1 2 3 4 5 6");
    put(&mut map, "division:product_design3", "1 2 3 4 5 6");

    let result = parse("division:product_design3", &map).unwrap();

    assert_eq!(
        result, set,
        "Result should be equal to the set for input 'division:product_design3'"
    );
}

#[test]
fn parser_test_resolve_set_intersection() {
    let mut map = RoleRegistry::new();
    put(&mut map, "A", "1 2 3 4 5");
    put(&mut map, "B", "4 5 6");
    let set_intersection = set_of("4 5");

    let result = parse("(A AND B)", &map).unwrap();

    assert_eq!(
        result, set_intersection,
        "Result should be equal to the intersection of sets A and B"
    );
}

#[test]
fn parser_test_resolve_set_complement() {
    let mut map = RoleRegistry::new();
    put(&mut map, "A", "1 2 3 4 5");
    put(&mut map, "B", "4 5 6");
    let set_complement = set_of("1 2 3");

    let result = parse("(A EXCEPT B)", &map).unwrap();

    assert_eq!(
        result, set_complement,
        "Result should be equal to the complement of sets A and B"
    );
}

#[test]
fn parser_test_resolve_set_bad_syntax() {
    let mut map = RoleRegistry::new();
    put(&mut map, "A", "1 2");
    put(&mut map, "B", "2 3");
    put(&mut map, "C", "3 4");

    assert!(parse("A OR B AND C", &map).is_err(), "Should return an error for bad syntax 'A OR B AND C'");
    assert!(parse("(A OR B AND C)", &map).is_err(), "Should return an error for bad syntax '(A OR B AND C)'");
    assert!(parse("AOR B", &map).is_err(), "Should return an error for bad syntax 'AOR B'");
}
