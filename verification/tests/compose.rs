use waymark::pack::Pack;
use waymark::pack::Template;
use waymark::pack::WordList;

fn basic_pack(templates: Vec<Template>, conjunctions: Option<Vec<String>>, words: Option<Vec<WordList>>) -> Pack {
    Pack {
        name: "test pack".to_string(),
        id: 7,
        visible: true,
        order: 0,
        templates,
        conjunctions,
        words,
    }
}

#[test]
fn plain_template_composes_to_itself() {
    let pack = basic_pack(vec![Template::Basic("hi".to_string())], None, None);
    let out = pack.format(0, None, None, None, None);
    assert_eq!(out, Some("hi".to_string()));
}

#[test]
fn placeholder_filled_from_pack_word_list() {
    let pack = basic_pack(
        vec![Template::Basic("hi {0}".to_string())],
        None,
        Some(vec![WordList { name: "greetings".to_string(), words: vec!["world".to_string()] }]),
    );
    let out = pack.format(0, Some((0, 0)), None, None, None);
    assert_eq!(out, Some("hi world".to_string()));
}

#[test]
fn missing_word_selection_is_invalid() {
    let pack = basic_pack(
        vec![Template::Basic("hi {0}".to_string())],
        None,
        Some(vec![WordList { name: "greetings".to_string(), words: vec!["world".to_string()] }]),
    );
    assert_eq!(pack.format(0, None, None, None, None), None);
}

#[test]
fn punctuation_conjunction_binds_before_newline() {
    let pack = basic_pack(
        vec![Template::Basic("left".to_string()), Template::Basic("right".to_string())],
        Some(vec!["&".to_string()]),
        None,
    );
    let out = pack.format(0, None, Some(0), Some(1), None);
    assert_eq!(out, Some("left&\nright".to_string()));
}

#[test]
fn word_conjunction_stands_on_second_line() {
    let pack = basic_pack(
        vec![Template::Basic("left".to_string()), Template::Basic("right".to_string())],
        Some(vec!["and".to_string()]),
        None,
    );
    let out = pack.format(0, None, Some(0), Some(1), None);
    assert_eq!(out, Some("left\nand right".to_string()));
}

#[test]
fn compose_is_pure() {
    let pack = basic_pack(
        vec![Template::Basic("hi {0}".to_string()), Template::Basic("bye".to_string())],
        Some(vec![",".to_string()]),
        Some(vec![WordList { name: "w".to_string(), words: vec!["there".to_string()] }]),
    );
    let first = pack.format(0, Some((0, 0)), Some(0), Some(1), None);
    let second = pack.format(0, Some((0, 0)), Some(0), Some(1), None);
    assert_eq!(first, second);
    assert_eq!(first, Some("hi there,\nbye".to_string()));
}

#[test]
fn list_template_draws_from_private_words() {
    let pack = basic_pack(
        vec![Template::List {
            template: "pick {0}".to_string(),
            words: vec!["one".to_string(), "two".to_string()],
        }],
        None,
        None,
    );
    // the list selector is ignored for a template that carries its own list
    let out = pack.format(0, Some((5, 1)), None, None, None);
    assert_eq!(out, Some("pick two".to_string()));
}

#[test]
fn list_template_word_out_of_range_is_invalid() {
    let pack = basic_pack(
        vec![Template::List {
            template: "pick {0}".to_string(),
            words: vec!["one".to_string()],
        }],
        None,
        None,
    );
    assert_eq!(pack.format(0, Some((0, 1)), None, None, None), None);
}

#[test]
fn template_index_out_of_range_is_invalid() {
    let pack = basic_pack(vec![Template::Basic("hi".to_string())], None, None);
    assert_eq!(pack.format(1, None, None, None, None), None);
}

#[test]
fn conjunction_index_out_of_range_is_invalid() {
    let pack = basic_pack(
        vec![Template::Basic("a".to_string()), Template::Basic("b".to_string())],
        Some(vec!["&".to_string()]),
        None,
    );
    assert_eq!(pack.format(0, None, Some(1), Some(1), None), None);
}

#[test]
fn empty_conjunction_list_yields_first_clause_alone() {
    let pack = basic_pack(
        vec![Template::Basic("a".to_string()), Template::Basic("b".to_string())],
        Some(vec![]),
        None,
    );
    assert_eq!(pack.format(0, None, Some(0), Some(1), None), Some("a".to_string()));
}

#[test]
fn absent_conjunction_pair_yields_first_clause_alone() {
    let pack = basic_pack(
        vec![Template::Basic("a".to_string()), Template::Basic("b".to_string())],
        Some(vec!["&".to_string()]),
        None,
    );
    // conjunction without second template
    assert_eq!(pack.format(0, None, Some(0), None, None), Some("a".to_string()));
    // second template without conjunction
    assert_eq!(pack.format(0, None, None, Some(1), None), Some("a".to_string()));
}

#[test]
fn second_clause_word_is_resolved_like_the_first() {
    let pack = basic_pack(
        vec![Template::Basic("a".to_string()), Template::Basic("b {0}".to_string())],
        Some(vec!["so".to_string()]),
        Some(vec![WordList { name: "w".to_string(), words: vec!["it".to_string()] }]),
    );
    let out = pack.format(0, None, Some(0), Some(1), Some((0, 0)));
    assert_eq!(out, Some("a\nso b it".to_string()));
    assert_eq!(pack.format(0, None, Some(0), Some(1), None), None);
}

#[test]
fn every_placeholder_occurrence_is_replaced() {
    let pack = basic_pack(
        vec![Template::Basic("{0} and {0}".to_string())],
        None,
        Some(vec![WordList { name: "w".to_string(), words: vec!["x".to_string()] }]),
    );
    assert_eq!(pack.format(0, Some((0, 0)), None, None, None), Some("x and x".to_string()));
}

#[test]
fn word_given_where_none_required_is_ignored() {
    let pack = basic_pack(
        vec![Template::Basic("hi".to_string())],
        None,
        Some(vec![WordList { name: "w".to_string(), words: vec!["x".to_string()] }]),
    );
    assert_eq!(pack.format(0, Some((9, 9)), None, None, None), Some("hi".to_string()));
}

#[test]
fn no_conjunction_list_yields_first_clause_alone() {
    let pack = basic_pack(
        vec![Template::Basic("a".to_string()), Template::Basic("b".to_string())],
        None,
        None,
    );
    assert_eq!(pack.format(0, None, Some(0), Some(1), None), Some("a".to_string()));
}

#[test]
fn enormous_indices_are_invalid_not_fatal() {
    let pack = basic_pack(
        vec![Template::Basic("hi {0}".to_string()), Template::Basic("b".to_string())],
        Some(vec!["&".to_string()]),
        Some(vec![WordList { name: "w".to_string(), words: vec!["x".to_string()] }]),
    );
    assert_eq!(pack.format(usize::MAX, None, None, None, None), None);
    assert_eq!(pack.format(0, Some((usize::MAX, usize::MAX)), None, None, None), None);
    assert_eq!(pack.format(0, Some((0, 0)), Some(usize::MAX), Some(1), None), None);
}

#[test]
fn requires_word_detects_placeholder() {
    let with = Template::Basic("say {0} now".to_string());
    let without = Template::Basic("say now".to_string());
    let braces = Template::Basic("say {1} now".to_string());
    assert!(with.requires_word());
    assert!(!without.requires_word());
    assert!(!braces.requires_word());
}

#[test]
fn template_format_replaces_directly() {
    let t = Template::Basic("a {0} b".to_string());
    assert_eq!(t.format("c"), "a c b".to_string());
    assert_eq!(t.template(), "a {0} b");
}

#[test]
fn single_unicode_character_is_not_ascii_punctuation() {
    let pack = basic_pack(
        vec![Template::Basic("a".to_string()), Template::Basic("b".to_string())],
        Some(vec!["\u{00e9}".to_string()]),
        None,
    );
    // one character, but not ASCII punctuation: joined as a word conjunction
    assert_eq!(pack.format(0, None, Some(0), Some(1), None), Some("a\n\u{00e9} b".to_string()));
}
