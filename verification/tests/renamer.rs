use dir_mapper::renamer::{substitute, Renamer};

#[test]
fn works() {
    let r = Renamer::new("(.+)", "$1").unwrap();
    assert_eq!("foo", r.process("foo"));
    assert_eq!("asd23$1", r.process("asd23$1"));

    let r = Renamer::new("(.+)", "$1_asdf").unwrap();
    assert_eq!("foo_asdf", r.process("foo"));
    assert_eq!("asd23$1_asdf", r.process("asd23$1"));

    let r = Renamer::new("foo(\\d+)", "$1_foo").unwrap();
    assert_eq!("1_foo", r.process("foo1"));
    assert_eq!("345_foo", r.process("foo345"));
    assert_eq!("$1_foo", r.process("foo"));
    assert_eq!("$1_foo", r.process("1234"));
}

#[test]
fn new_rejects_a_finder_that_does_not_compile() {
    assert!(Renamer::new("foo(bar", "$1").is_none());
    assert!(Renamer::new("[", "x").is_none());
    assert!(Renamer::new("", "x").is_some());
    assert!(Renamer::new("(.+)", "$").is_some());
}

#[test]
fn process_matches_anywhere_in_the_input() {
    let r = Renamer::new("(\\d+)", "n$1").unwrap();
    assert_eq!("n42", r.process("episode 42 final"));
}

#[test]
fn process_stops_at_the_first_placeholder_that_is_missing() {
    let r = Renamer::new("(a)(b)", "$2_only").unwrap();
    assert_eq!("$2_only", r.process("ab"));
    let r = Renamer::new("(a)(b)", "$2_$1").unwrap();
    assert_eq!("b_a", r.process("ab"));
    let r = Renamer::new("(a)", "$2_$1").unwrap();
    assert_eq!("$2_a", r.process("a"));
}

#[test]
fn process_stops_at_a_group_that_took_no_part() {
    let r = Renamer::new("(a)(x)?(b)", "$1-$2-$3").unwrap();
    assert_eq!("a-$2-$3", r.process("ab"));
    assert_eq!("a-x-b", r.process("axb"));
}

#[test]
fn process_replaces_every_occurrence_of_a_placeholder() {
    let r = Renamer::new("(\\w+) (\\w+)", "$2 $1 $2 $1").unwrap();
    assert_eq!("world hello world hello", r.process("hello world"));
}

#[test]
fn process_reads_placeholders_of_several_digits() {
    let r = Renamer::new("(a)(b)(c)(d)(e)(f)(g)(h)(i)(j)(k)", "$11$10").unwrap();
    assert_eq!("a1a0", r.process("abcdefghijk"));
    let r = Renamer::new("(a)(b)(c)(d)(e)(f)(g)(h)(i)(j)(k)", "$1$2$3$4$5$6$7$8$9$10$11").unwrap();
    assert_eq!("abcdefghia0a1", r.process("abcdefghijk"));
}

#[test]
fn substitute_fills_groups_in_order() {
    let groups = Some(vec![
        Some("ab".to_string()),
        Some("a".to_string()),
        Some("b".to_string()),
    ]);
    assert_eq!("b+a", substitute("$2+$1", &groups));
    assert_eq!("a$1", substitute("a$1", &None));
    assert_eq!("", substitute("", &groups));
    assert_eq!("plain", substitute("plain", &groups));
}

#[test]
fn substitute_keeps_text_that_a_group_brought_in() {
    let groups = Some(vec![Some("x$1".to_string()), Some("x$1".to_string())]);
    assert_eq!("x$1", substitute("$1", &groups));
    let groups = Some(vec![Some("$2".to_string()), Some("$2".to_string()), Some("z".to_string())]);
    assert_eq!("z", substitute("$1", &groups));
}

#[test]
fn substitute_skips_nothing_after_a_gap() {
    let groups = Some(vec![
        Some("ac".to_string()),
        Some("a".to_string()),
        None,
        Some("c".to_string()),
    ]);
    assert_eq!("a $2 $3", substitute("$1 $2 $3", &groups));
}

#[test]
fn clone_keeps_the_rule() {
    let r = Renamer::new("foo(\\d+)", "$1_foo").unwrap();
    let copy = r.clone();
    assert_eq!(r.process("foo7"), copy.process("foo7"));
}

#[test]
fn identity_rule_gives_back_what_its_group_spans() {
    let r = Renamer::new("(.+)", "$1").unwrap();
    for input in ["a", "movie", "$1", "$2$1", "a.b c", "\u{e9}t\u{e9}"] {
        assert_eq!(input, r.process(input));
    }
    assert_eq!("first", r.process("first\nsecond"));
    assert_eq!("$1", r.process(""));
}
