use zzstat_json::text::{
    char_is_space, entity_id_of, join_entity_stat, placeholder, same_text, scope_name,
    stat_type_of_name, to_chars,
};

#[test]
fn white_space_is_what_the_standard_library_calls_white_space() {
    for code in 0u32..=0x10FFFF {
        if let Some(c) = char::from_u32(code) {
            assert_eq!(char_is_space(c), c.is_whitespace(), "U+{:04X}", code);
        }
    }
}

#[test]
fn placeholder_gives_the_name_between_the_braces() {
    assert_eq!(placeholder("{{level}}"), Some("level".to_string()));
    assert_eq!(placeholder("{{base_hp}}"), Some("base_hp".to_string()));
}

#[test]
fn placeholder_trims_the_name() {
    assert_eq!(placeholder("{{ level }}"), Some("level".to_string()));
    assert_eq!(placeholder("{{\tlevel\n}}"), Some("level".to_string()));
    assert_eq!(placeholder("{{\u{3000}hp per level\u{a0}}}"), Some("hp per level".to_string()));
    assert_eq!(placeholder("{{   }}"), Some("".to_string()));
    assert_eq!(placeholder("{{}}"), Some("".to_string()));
}

#[test]
fn placeholder_agrees_with_the_standard_library_on_trimming() {
    let inners = [
        "x", " x", "x ", "  x  y  ", "\u{2003}x\u{2003}", "\u{200b}x", "x\u{feff}", "é", " é ",
        "{", "}", "{{x}}", "",
    ];
    for inner in inners {
        let text = format!("{{{{{}}}}}", inner);
        assert_eq!(placeholder(&text), Some(inner.trim().to_string()), "{:?}", text);
    }
}

#[test]
fn placeholder_needs_both_pairs_of_braces() {
    assert_eq!(placeholder("level"), None);
    assert_eq!(placeholder("{{level"), None);
    assert_eq!(placeholder("level}}"), None);
    assert_eq!(placeholder("{level}"), None);
    assert_eq!(placeholder(" {{level}}"), None);
    assert_eq!(placeholder("{{level}} "), None);
    assert_eq!(placeholder(""), None);
    assert_eq!(placeholder("{{"), None);
    assert_eq!(placeholder("}}"), None);
    assert_eq!(placeholder("{{}"), None);
    assert_eq!(placeholder("{}}"), None);
    assert_eq!(placeholder("1.5"), None);
}

#[test]
fn placeholder_keeps_inner_braces() {
    assert_eq!(placeholder("{{{x}}}"), Some("{x}".to_string()));
    assert_eq!(placeholder("{{a}}b{{c}}"), Some("a}}b{{c".to_string()));
}

#[test]
fn entity_is_what_stands_before_the_first_colon() {
    assert_eq!(entity_id_of("A:HP"), "A");
    assert_eq!(entity_id_of("player1:HP"), "player1");
    assert_eq!(entity_id_of("a:b:c"), "a");
    assert_eq!(entity_id_of("héros:PV"), "héros");
}

#[test]
fn a_name_without_a_colon_has_no_entity() {
    assert_eq!(entity_id_of("HP"), "");
    assert_eq!(entity_id_of("player1_HP"), "");
    assert_eq!(entity_id_of(""), "");
}

#[test]
fn a_leading_colon_gives_the_empty_entity() {
    assert_eq!(entity_id_of(":HP"), "");
    assert_eq!(entity_id_of(":"), "");
}

#[test]
fn entity_agrees_with_a_search_for_the_colon() {
    for name in ["A:HP", "HP", "", ":", "a:b:c", "é:x", "x:é", "no colon here", "::"] {
        let expected = match name.find(':') {
            Some(at) => &name[..at],
            None => "",
        };
        assert_eq!(entity_id_of(name), expected);
    }
}

#[test]
fn stat_type_is_what_stands_behind_the_first_colon() {
    assert_eq!(stat_type_of_name("A:HP"), "HP");
    assert_eq!(stat_type_of_name("a:b:c"), "b:c");
    assert_eq!(stat_type_of_name(":HP"), "HP");
    assert_eq!(stat_type_of_name("A:"), "");
    assert_eq!(stat_type_of_name("héros:PV é"), "PV é");
}

#[test]
fn a_name_without_a_colon_is_its_own_stat_type() {
    assert_eq!(stat_type_of_name("HP"), "HP");
    assert_eq!(stat_type_of_name("player1_HP"), "player1_HP");
    assert_eq!(stat_type_of_name(""), "");
}

#[test]
fn a_name_with_a_colon_is_put_together_from_its_parts() {
    for name in ["A:HP", "a:b:c", ":HP", "A:", ":", "héros:PV"] {
        assert_eq!(join_entity_stat(&entity_id_of(name), &stat_type_of_name(name)), name);
    }
}

#[test]
fn join_puts_a_colon_between_entity_and_stat() {
    assert_eq!(join_entity_stat("A", "HP"), "A:HP");
    assert_eq!(join_entity_stat("player1", "ATK"), "player1:ATK");
    assert_eq!(join_entity_stat("", "HP"), ":HP");
    assert_eq!(join_entity_stat("A", ""), "A:");
}

#[test]
fn scope_prefixes_the_entity_unless_it_is_empty() {
    assert_eq!(scope_name("A", "STR"), "A:STR");
    assert_eq!(scope_name("B", "STR"), "B:STR");
    assert_eq!(scope_name("", "STR"), "STR");
}

#[test]
fn the_entity_of_a_scoped_name_is_the_entity() {
    for entity in ["A", "B", "player1", "héros"] {
        for name in ["STR", "a:b", ""] {
            assert_eq!(entity_id_of(&scope_name(entity, name)), entity);
        }
    }
}

#[test]
fn same_text_compares_characters() {
    assert!(same_text("HP", "HP"));
    assert!(same_text("", ""));
    assert!(same_text("héros", "héros"));
    assert!(!same_text("HP", "hp"));
    assert!(!same_text("HP", "HP "));
    assert!(!same_text("HP", "H"));
    assert!(!same_text("", "x"));
}

#[test]
fn to_chars_gives_the_characters_in_order() {
    assert_eq!(to_chars("a:é"), vec!['a', ':', 'é']);
    assert_eq!(to_chars(""), Vec::<char>::new());
}
