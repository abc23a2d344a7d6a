use rustedex_gen::error::GenError;
use rustedex_gen::model::{Genus, Name};
use rustedex_gen::translation::{english_name, page_names, FindTrad};

fn name(language: &str, text: &str) -> Name {
    Name { language: language.to_string(), name: text.to_string() }
}

fn genus(language: &str, text: &str) -> Genus {
    Genus { language: language.to_string(), genus: text.to_string() }
}

#[test]
fn find_trad_takes_the_first_english_name() {
    let names = vec![name("fr", "Engrais"), name("en", "Overgrow"), name("en", "Second")];
    assert_eq!(names.find_trad("ability", 1).unwrap(), "Overgrow");
}

#[test]
fn find_trad_without_english_name_fails() {
    let names = vec![name("fr", "Engrais"), name("de", "Notdünger")];
    let e = names.find_trad("ability", 25).unwrap_err();
    assert!(matches!(&e, GenError::MissingTranslation { kind, id: 25 } if kind == "ability"));
    assert_eq!(e.message(), "Can't find trad for ability for 25");
}

#[test]
fn find_trad_on_an_empty_list_fails() {
    let names: Vec<Name> = vec![];
    assert!(names.find_trad("color", 4).is_err());
}

#[test]
fn find_trad_of_genera() {
    let genera = vec![genus("ja", "たねポケモン"), genus("en", "Seed Pokémon")];
    assert_eq!(genera.find_trad("genus", 1).unwrap(), "Seed Pokémon");
    let none = vec![genus("ja", "たねポケモン")];
    let e = none.find_trad("genus", 1).unwrap_err();
    assert_eq!(e.message(), "Can't find trad for genus for 1");
}

#[test]
fn page_names_take_the_last_entry_of_each_language() {
    let names = vec![
        name("en", "Old"),
        name("ja", "フシギダネ"),
        name("fr", "Bulbizarre"),
        name("roomaji", "Fushigidane"),
        name("en", "Bulbasaur"),
        name("de", "Bisasam"),
    ];
    let n = page_names(&names, 1).unwrap();
    assert_eq!(n.name, "Bulbasaur");
    assert_eq!(n.french_name, "Bulbizarre");
    assert_eq!(n.japanese_name, "フシギダネ");
    assert_eq!(n.japanese_romanized, "Fushigidane");
}

#[test]
fn page_names_missing_one_language_fail() {
    let names = vec![name("en", "Bulbasaur"), name("fr", "Bulbizarre"), name("ja", "フシギダネ")];
    let e = page_names(&names, 1).unwrap_err();
    assert!(matches!(e, GenError::MissingNames { id: 1 }));
    assert_eq!(e.message(), "Missing some names for 1");
}

#[test]
fn single_english_name_is_the_same_on_card_and_page() {
    let names = vec![
        name("ja", "ピカチュウ"),
        name("en", "Pikachu"),
        name("fr", "Pikachu"),
        name("roomaji", "Pikachu"),
    ];
    let card_name = english_name(&names).unwrap();
    let page = page_names(&names, 25).unwrap();
    assert_eq!(card_name, page.name);
}

#[test]
fn card_and_page_differ_with_two_english_names() {
    let names = vec![
        name("en", "First"),
        name("fr", "F"),
        name("ja", "J"),
        name("roomaji", "R"),
        name("en", "Last"),
    ];
    assert_eq!(english_name(&names).unwrap(), "First");
    assert_eq!(page_names(&names, 9).unwrap().name, "Last");
}
