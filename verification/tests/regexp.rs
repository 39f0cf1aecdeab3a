use ezno_checker::constant::Constant;
use ezno_checker::evaluation::{count_of_match, count_of_shape, evaluate_match, evaluate_shape};
use ezno_checker::ids::{
    Span, SpanWithSource, ARRAY_TYPE, EMPTY_STRING, INTERNAL_TYPE_COUNT, NULL_TYPE, NUMBER_TYPE,
    ONE, STRING_TYPE, UNDEFINED_TYPE, ZERO,
};
use ezno_checker::objects::Environment;
use ezno_checker::properties::{PropertyKey, PropertyValue, Publicity};
use ezno_checker::regexp::{
    parse_flags, read_source, write_source, RegExp, RegExpFlags, RegExpMatch, SUPPORTED_FLAGS,
    UNSUPPORTED_FLAGS,
};
use ezno_checker::store::TypeStore;
use ezno_checker::types::{ObjectNature, SpecialObject, Type};

const NOWHERE: SpanWithSource = SpanWithSource { start: 0, end: 0, source: 0 };

fn no_flags() -> RegExpFlags {
    RegExpFlags {
        icase: false,
        multiline: false,
        dot_all: false,
        unicode: false,
        unicode_sets: false,
    }
}

fn value_under(environment: &Environment, object: u16, key: &str) -> Option<u16> {
    match environment.info.get_own_property(
        object,
        Publicity::Public,
        &PropertyKey::String(key.to_owned()),
    ) {
        Some(PropertyValue::Value(id)) => Some(id),
        Some(other) => panic!("unexpected value {:?}", other),
        None => None,
    }
}

fn text_of(store: &TypeStore, id: u16) -> String {
    match store.get_type_by_id(id) {
        Type::Constant(Constant::String(text)) => text.clone(),
        other => panic!("not a text: {:?}", other),
    }
}

fn number_at(store: &TypeStore, id: u16) -> f64 {
    match store.get_type_by_id(id) {
        Type::Constant(Constant::Number(bits)) => f64::from_bits(*bits),
        other => panic!("not a number: {:?}", other),
    }
}

fn keys_of(environment: &Environment, object: u16) -> Vec<String> {
    let count = environment.info.count_of_properties(object);
    (0..count)
        .map(|index| match &environment.info.get_property_at(object, index).1 {
            PropertyKey::String(name) => name.clone(),
            PropertyKey::Type(id) => format!("<{}>", id),
        })
        .collect()
}

#[test]
fn flags_are_read_character_by_character() {
    assert_eq!(parse_flags(""), Some((no_flags(), false)));
    assert_eq!(parse_flags("i"), Some((RegExpFlags { icase: true, ..no_flags() }, false)));
    assert_eq!(parse_flags("m"), Some((RegExpFlags { multiline: true, ..no_flags() }, false)));
    assert_eq!(parse_flags("s"), Some((RegExpFlags { dot_all: true, ..no_flags() }, false)));
    assert_eq!(parse_flags("u"), Some((RegExpFlags { unicode: true, ..no_flags() }, false)));
    assert_eq!(parse_flags("v"), Some((RegExpFlags { unicode_sets: true, ..no_flags() }, false)));
    assert_eq!(
        parse_flags("smi"),
        Some((RegExpFlags { icase: true, multiline: true, dot_all: true, ..no_flags() }, false))
    );
    assert_eq!(parse_flags("ii"), Some((RegExpFlags { icase: true, ..no_flags() }, false)));
}

#[test]
fn some_flags_are_recognised_but_not_supported() {
    for flag in ["d", "g", "y"] {
        assert_eq!(parse_flags(flag), Some((no_flags(), true)));
    }
    assert_eq!(parse_flags("gi"), Some((RegExpFlags { icase: true, ..no_flags() }, true)));
    assert_eq!(parse_flags("ig"), Some((RegExpFlags { icase: true, ..no_flags() }, true)));
    for flag in UNSUPPORTED_FLAGS.chars() {
        assert_eq!(parse_flags(&flag.to_string()).unwrap().1, true);
    }
    for flag in SUPPORTED_FLAGS.chars() {
        assert_eq!(parse_flags(&flag.to_string()).unwrap().1, false);
    }
}

#[test]
fn another_character_is_no_flag() {
    for flags in ["x", "G", "i ", "/", "gx", "xg", "é"] {
        assert_eq!(parse_flags(flags), None);
    }
}

#[test]
fn the_canonical_source_is_the_pattern_between_slashes_and_the_flags() {
    assert_eq!(write_source("abc", "g"), "/abc/g");
    assert_eq!(write_source("abc", ""), "/abc/");
    assert_eq!(write_source("", ""), "//");
    assert_eq!(write_source("a/b", "im"), "/a/b/im");
}

#[test]
fn a_source_is_taken_apart_at_its_last_slash() {
    assert_eq!(read_source("/abc/g"), Some(("abc".to_owned(), "g".to_owned())));
    assert_eq!(read_source("/abc/"), Some(("abc".to_owned(), String::new())));
    assert_eq!(read_source("//"), Some((String::new(), String::new())));
    assert_eq!(read_source("/a/b/im"), Some(("a/b".to_owned(), "im".to_owned())));
    assert_eq!(read_source("/é|ü/u"), Some(("é|ü".to_owned(), "u".to_owned())));
}

#[test]
fn what_is_no_canonical_source_is_not_taken_apart() {
    for source in ["", "/", "abc", "/abc", "abc/", "a/b/c", "x/abc/g"] {
        assert_eq!(read_source(source), None);
    }
}

#[test]
fn a_regular_expression_knows_its_source_and_groups() {
    let plain = RegExp::new("abc", None).unwrap();
    assert_eq!(plain.source(), "/abc/");
    assert_eq!(plain.groups(), 1);
    assert!(!plain.used());
    assert!(!plain.flags_unsupported());

    let grouped = RegExp::new(r"^(?<year>\d{4})-(\d{2})$", Some("")).unwrap();
    assert_eq!(grouped.source(), r"/^(?<year>\d{4})-(\d{2})$/");
    assert_eq!(grouped.groups(), 3);

    let global = RegExp::new("abc", Some("gi")).unwrap();
    assert_eq!(global.source(), "/abc/gi");
    assert!(global.flags_unsupported());
}

#[test]
fn a_pattern_that_does_not_compile_gives_the_message_of_the_parser() {
    let message = RegExp::new("(", None).unwrap_err();
    assert!(!message.is_empty());
    assert_ne!(message, "(");
    let other = RegExp::new("a{2,1}", None).unwrap_err();
    assert!(!other.is_empty());
    assert!(RegExp::new("[", Some("i")).is_err());
}

#[test]
fn serializing_then_deserializing_gives_the_same_source() {
    for (pattern, flags) in [
        ("abc", None),
        ("abc", Some("g")),
        (r"^(?<year>\d{4})-(\d{2})$", Some("")),
        ("a/b", Some("imsuy")),
        (r"\/", Some("d")),
        ("", None),
    ] {
        let regexp = RegExp::new(pattern, flags).unwrap();
        let rebuilt = RegExp::from_source(regexp.source()).unwrap().unwrap();
        assert_eq!(rebuilt.source(), regexp.source());
        assert_eq!(rebuilt.groups(), regexp.groups());
        assert_eq!(rebuilt.flags_unsupported(), regexp.flags_unsupported());
    }
}

#[test]
fn a_source_that_cannot_be_read_is_not_rebuilt() {
    assert!(RegExp::from_source("abc").is_none());
    assert!(RegExp::from_source("/abc").is_none());
    assert!(RegExp::from_source("/abc/x").is_none());
    assert!(matches!(RegExp::from_source("/(/"), Some(Err(_))));
}

#[test]
fn a_regular_expression_literal_becomes_a_type() {
    let mut store = TypeStore::default();
    let id = store.new_regexp("a(b)c", "i", &Span { start: 0, end: 7 }).unwrap();
    assert_eq!(id as usize, INTERNAL_TYPE_COUNT);
    match store.get_type_by_id(id) {
        Type::SpecialObject(SpecialObject::RegularExpression(regexp)) => {
            assert_eq!(regexp.source(), "/a(b)c/i");
            assert_eq!(regexp.groups(), 2);
        }
        other => panic!("unexpected descriptor {:?}", other),
    }
    assert!(store.new_regexp("a(b", "", &Span { start: 0, end: 3 }).is_err());
    assert_eq!(store.count_of_types(), INTERNAL_TYPE_COUNT + 1);
}

#[test]
fn a_match_against_a_known_text_gives_its_fields() {
    let mut store = TypeStore::default();
    let mut environment = Environment::new();
    let regexp = RegExp::new(r"^(?<year>\d{4})-(\d{2})$", None).unwrap();
    let input = store.new_constant_type(Constant::String("2024-07".to_owned()));
    let result = regexp.exec(input, &mut store, &mut environment, NOWHERE);

    assert!(matches!(store.get_type_by_id(result), Type::Object(ObjectNature::RealDeal)));
    assert_eq!(environment.info.get_prototype(result), Some(ARRAY_TYPE));
    assert_eq!(value_under(&environment, result, "input"), Some(input));
    assert_eq!(text_of(&store, value_under(&environment, result, "input").unwrap()), "2024-07");
    assert_eq!(value_under(&environment, result, "index"), Some(ZERO));
    assert_eq!(text_of(&store, value_under(&environment, result, "0").unwrap()), "2024-07");
    assert_eq!(text_of(&store, value_under(&environment, result, "1").unwrap()), "2024");
    assert_eq!(text_of(&store, value_under(&environment, result, "2").unwrap()), "07");
    assert_eq!(value_under(&environment, result, "3"), None);
    assert_eq!(number_at(&store, value_under(&environment, result, "length").unwrap()), 3.0);

    let groups = value_under(&environment, result, "groups").unwrap();
    assert!(matches!(store.get_type_by_id(groups), Type::Object(ObjectNature::RealDeal)));
    assert_eq!(environment.info.get_prototype(groups), Some(NULL_TYPE));
    assert_eq!(text_of(&store, value_under(&environment, groups, "year").unwrap()), "2024");
    assert_eq!(keys_of(&environment, groups), vec!["year"]);
    assert_eq!(
        keys_of(&environment, result),
        vec!["input", "index", "0", "1", "2", "groups", "length"]
    );
}

#[test]
fn the_types_of_a_match_are_registered_in_order() {
    let mut store = TypeStore::default();
    let mut environment = Environment::new();
    let regexp = RegExp::new(r"(b+)(c*)", None).unwrap();
    let input = store.new_constant_type(Constant::String("abbd".to_owned()));
    assert_eq!(input, 57);
    let result = regexp.exec(input, &mut store, &mut environment, NOWHERE);
    // the object, the index 1 (reserved), "bb", "bb", "" (reserved), the groups object, the length 3
    assert_eq!(result, 58);
    assert_eq!(value_under(&environment, result, "index"), Some(ONE));
    assert_eq!(value_under(&environment, result, "0"), Some(59));
    assert_eq!(value_under(&environment, result, "1"), Some(60));
    assert_eq!(value_under(&environment, result, "2"), Some(EMPTY_STRING));
    assert_eq!(value_under(&environment, result, "groups"), Some(61));
    assert_eq!(value_under(&environment, result, "length"), Some(62));
    assert_eq!(store.count_of_types(), 63);
    assert_eq!(text_of(&store, 59), "bb");
    assert_eq!(number_at(&store, 62), 3.0);
    assert!(keys_of(&environment, 61).is_empty());
}

#[test]
fn where_nothing_matches_the_result_is_null() {
    let mut store = TypeStore::default();
    let mut environment = Environment::new();
    let regexp = RegExp::new("abc", None).unwrap();
    let input = store.new_constant_type(Constant::String("xyz".to_owned()));
    let before = store.count_of_types();
    let result = regexp.exec(input, &mut store, &mut environment, NOWHERE);
    assert_eq!(result, NULL_TYPE);
    // the object that was begun stays, with the input as its only property
    assert_eq!(store.count_of_types(), before + 1);
    assert_eq!(keys_of(&environment, before as u16), vec!["input"]);
}

#[test]
fn an_unsupported_flag_gives_only_the_shape_of_a_result() {
    let mut store = TypeStore::default();
    let mut environment = Environment::new();
    let regexp = RegExp::new("abc", Some("g")).unwrap();
    assert!(regexp.flags_unsupported());
    let input = store.new_constant_type(Constant::String("xabcx".to_owned()));
    let result = regexp.exec(input, &mut store, &mut environment, NOWHERE);
    let object = match store.get_type_by_id(result) {
        Type::Or(object, NULL_TYPE) => *object,
        other => panic!("not a union with null: {:?}", other),
    };
    assert!(matches!(store.get_type_by_id(object), Type::Object(ObjectNature::RealDeal)));
    assert_eq!(environment.info.get_prototype(object), Some(ARRAY_TYPE));
    assert_eq!(value_under(&environment, object, "input"), Some(STRING_TYPE));
    assert_eq!(value_under(&environment, object, "index"), Some(NUMBER_TYPE));
    assert_eq!(value_under(&environment, object, "0"), Some(STRING_TYPE));
    assert_eq!(value_under(&environment, object, "1"), None);
    assert_eq!(value_under(&environment, object, "length"), Some(ONE));
    let groups = value_under(&environment, object, "groups").unwrap();
    assert_eq!(environment.info.get_prototype(groups), Some(NULL_TYPE));
    assert!(keys_of(&environment, groups).is_empty());
}

#[test]
fn a_text_that_is_not_known_gives_only_the_shape_of_a_result() {
    let mut store = TypeStore::default();
    let mut environment = Environment::new();
    let regexp = RegExp::new(r"(?<first>a)|(?<second>b)|(c)", None).unwrap();
    let result = regexp.exec(STRING_TYPE, &mut store, &mut environment, NOWHERE);
    let object = match store.get_type_by_id(result) {
        Type::Or(object, NULL_TYPE) => *object,
        other => panic!("not a union with null: {:?}", other),
    };
    assert_eq!(
        keys_of(&environment, object),
        vec!["input", "index", "0", "1", "2", "3", "groups", "length"]
    );
    for key in ["0", "1", "2", "3"] {
        assert_eq!(value_under(&environment, object, key), Some(STRING_TYPE));
    }
    assert_eq!(number_at(&store, value_under(&environment, object, "length").unwrap()), 4.0);
    let groups = value_under(&environment, object, "groups").unwrap();
    assert_eq!(keys_of(&environment, groups), vec!["first", "second"]);
    assert_eq!(value_under(&environment, groups, "first"), Some(STRING_TYPE));
    // the object, the groups object, the length and the union
    assert_eq!(store.count_of_types(), INTERNAL_TYPE_COUNT + 4);
    assert_eq!(result as usize, INTERNAL_TYPE_COUNT + 3);
}

#[test]
fn a_group_that_took_no_part_is_undefined() {
    let mut store = TypeStore::default();
    let mut environment = Environment::new();
    let regexp = RegExp::new("(a)(b)?", None).unwrap();
    let input = store.new_constant_type(Constant::String("a".to_owned()));
    let result = regexp.exec(input, &mut store, &mut environment, NOWHERE);
    assert_eq!(text_of(&store, value_under(&environment, result, "0").unwrap()), "a");
    assert_eq!(text_of(&store, value_under(&environment, result, "1").unwrap()), "a");
    assert_eq!(value_under(&environment, result, "2"), Some(UNDEFINED_TYPE));
    assert_eq!(number_at(&store, value_under(&environment, result, "length").unwrap()), 3.0);
}

#[test]
fn a_named_group_that_took_no_part_is_undefined() {
    let mut store = TypeStore::default();
    let mut environment = Environment::new();
    let regexp = RegExp::new("(?<x>a)|(?<y>b)", None).unwrap();
    let input = store.new_constant_type(Constant::String("b".to_owned()));
    let result = regexp.exec(input, &mut store, &mut environment, NOWHERE);
    let groups = value_under(&environment, result, "groups").unwrap();
    assert_eq!(value_under(&environment, groups, "x"), Some(UNDEFINED_TYPE));
    assert_eq!(text_of(&store, value_under(&environment, groups, "y").unwrap()), "b");
}

#[test]
fn matching_obeys_the_flags() {
    let mut store = TypeStore::default();
    let mut environment = Environment::new();
    let input = store.new_constant_type(Constant::String("xABC".to_owned()));
    let strict = RegExp::new("abc", None).unwrap();
    assert_eq!(strict.exec(input, &mut store, &mut environment, NOWHERE), NULL_TYPE);
    let loose = RegExp::new("abc", Some("i")).unwrap();
    let result = loose.exec(input, &mut store, &mut environment, NOWHERE);
    assert_eq!(text_of(&store, value_under(&environment, result, "0").unwrap()), "ABC");
    assert_eq!(value_under(&environment, result, "index"), Some(ONE));
}

#[test]
fn the_index_of_a_match_counts_bytes() {
    let mut store = TypeStore::default();
    let mut environment = Environment::new();
    let regexp = RegExp::new("ü+", None).unwrap();
    let input = store.new_constant_type(Constant::String("éüü!".to_owned()));
    let result = regexp.exec(input, &mut store, &mut environment, NOWHERE);
    assert_eq!(number_at(&store, value_under(&environment, result, "index").unwrap()), 2.0);
    assert_eq!(text_of(&store, value_under(&environment, result, "0").unwrap()), "üü");
}

#[test]
fn evaluation_is_tried_only_where_there_is_room() {
    let mut store = TypeStore::default();
    let mut environment = Environment::new();
    let regexp = RegExp::new("(a)(b)", None).unwrap();
    let input = store.new_constant_type(Constant::String("ab".to_owned()));
    let result = regexp.try_exec(input, &mut store, &mut environment, NOWHERE).unwrap();
    assert_eq!(text_of(&store, value_under(&environment, result, "1").unwrap()), "a");
    assert_eq!(text_of(&store, value_under(&environment, result, "2").unwrap()), "b");

    // fill the store up to three free identifiers: a match needs more
    while store.count_of_types() < 65533 {
        store.register_type(Type::Object(ObjectNature::RealDeal));
    }
    let before = store.count_of_types();
    assert_eq!(regexp.try_exec(input, &mut store, &mut environment, NOWHERE), None);
    assert_eq!(store.count_of_types(), before);
    // a text without a match needs only the object
    let other = RegExp::new("zzz", None).unwrap();
    assert_eq!(other.try_exec(input, &mut store, &mut environment, NOWHERE), Some(NULL_TYPE));
    assert_eq!(store.count_of_types(), before + 1);
}

#[test]
fn a_match_is_evaluated_from_what_the_search_gave() {
    let mut store = TypeStore::default();
    let mut environment = Environment::new();
    let input = store.new_constant_type(Constant::String("héllo world".to_owned()));
    let found = Some(RegExpMatch {
        start: 7,
        groups: vec![Some((7, 12)), None, Some((0, 6)), Some((1, 2)), Some((6, 6))],
        named_groups: vec![("word".to_owned(), Some((7, 12))), ("none".to_owned(), None)],
    });
    assert_eq!(count_of_match(&found, "héllo world", 5), 7);
    let result = evaluate_match(&found, input, "héllo world", 5, &mut store, &mut environment, NOWHERE);
    assert_eq!(number_at(&store, value_under(&environment, result, "index").unwrap()), 7.0);
    assert_eq!(text_of(&store, value_under(&environment, result, "0").unwrap()), "world");
    assert_eq!(value_under(&environment, result, "1"), Some(UNDEFINED_TYPE));
    assert_eq!(text_of(&store, value_under(&environment, result, "2").unwrap()), "héllo");
    // a range that cuts a character in two gives nothing, as a group that took no part
    assert_eq!(value_under(&environment, result, "3"), Some(UNDEFINED_TYPE));
    assert_eq!(value_under(&environment, result, "4"), Some(EMPTY_STRING));
    assert_eq!(number_at(&store, value_under(&environment, result, "length").unwrap()), 5.0);
    let groups = value_under(&environment, result, "groups").unwrap();
    assert_eq!(text_of(&store, value_under(&environment, groups, "word").unwrap()), "world");
    assert_eq!(value_under(&environment, groups, "none"), Some(UNDEFINED_TYPE));
    assert_eq!(store.count_of_types(), 58 + 7);

    assert_eq!(count_of_match(&None, "abc", 1), 1);
    assert_eq!(
        evaluate_match(&None, input, "abc", 1, &mut store, &mut environment, NOWHERE),
        NULL_TYPE
    );
}

#[test]
fn a_shape_names_each_group_once() {
    let mut store = TypeStore::default();
    let mut environment = Environment::new();
    let names = vec![
        "a".to_owned(),
        String::new(),
        "b".to_owned(),
        "a".to_owned(),
        String::new(),
        "c".to_owned(),
    ];
    assert_eq!(count_of_shape(7), 4);
    assert_eq!(count_of_shape(1), 3);
    let result = evaluate_shape(7, &names, &mut store, &mut environment, NOWHERE);
    let object = match store.get_type_by_id(result) {
        Type::Or(object, NULL_TYPE) => *object,
        other => panic!("not a union with null: {:?}", other),
    };
    let groups = value_under(&environment, object, "groups").unwrap();
    assert_eq!(keys_of(&environment, groups), vec!["a", "b", "c"]);
    assert_eq!(
        keys_of(&environment, object),
        vec!["input", "index", "0", "1", "2", "3", "4", "5", "6", "groups", "length"]
    );
    assert_eq!(number_at(&store, value_under(&environment, object, "length").unwrap()), 7.0);
}

#[test]
fn a_named_group_is_found_by_its_name() {
    let regexp = RegExp::new(r"(a)(?<x>b)(c)(?<y>d)", None).unwrap();
    assert_eq!(regexp.groups(), 5);
    assert_eq!(regexp.group_index_of("x"), Some(2));
    assert_eq!(regexp.group_index_of("y"), Some(4));
    assert_eq!(regexp.group_index_of("z"), None);
    assert_eq!(regexp.group_index_of(""), None);
    let unnamed = RegExp::new("(a)(b)", None).unwrap();
    assert_eq!(unnamed.group_index_of("a"), None);
    assert_eq!(unnamed.group_index_of(""), None);
}
