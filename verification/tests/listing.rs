use rustedex_gen::index::{pokemon_card, pokemon_cards};
use rustedex_gen::error::GenError;
use rustedex_gen::model::{Cries, Name, PokemonRecord, PokemonSpecie, SpeciesRecord};
use rustedex_gen::species::{collect_species, is_listed, limit_entries, DEV_ENTRY_LIMIT};

fn name(language: &str, text: &str) -> Name {
    Name { language: language.to_string(), name: text.to_string() }
}

fn specie(id: i64, order: i64, english: Option<&str>, artwork: Option<&str>) -> PokemonSpecie {
    let mut names = vec![name("fr", "Nom")];
    if let Some(e) = english {
        names.push(name("en", e));
    }
    PokemonSpecie {
        p: PokemonRecord {
            id,
            order,
            is_default: true,
            base_experience: Some(64),
            height: 7,
            weight: 69,
            official_artwork: artwork.map(|a| a.to_string()),
            types: vec!["grass".to_string(), "poison".to_string()],
            abilities: vec![],
            stats: vec![],
            cries: Cries { legacy: None, latest: None },
        },
        s: SpeciesRecord {
            id,
            order: order + 100,
            names,
            genera: vec![],
            egg_groups: vec![],
            growth_rate: "medium-slow".to_string(),
            color: "green".to_string(),
            hatch_counter: Some(20),
            capture_rate: 45,
            gender_rate: 1,
        },
    }
}

#[test]
fn dev_mode_keeps_the_first_thousand_entries() {
    let mut entries: Vec<u32> = (0..1500).collect();
    limit_entries(&mut entries, true);
    assert_eq!(entries.len(), DEV_ENTRY_LIMIT);
    assert_eq!(entries[0], 0);
    assert_eq!(entries[999], 999);
}

#[test]
fn dev_mode_keeps_short_listings() {
    let mut entries: Vec<u32> = (0..10).collect();
    limit_entries(&mut entries, true);
    assert_eq!(entries, (0..10).collect::<Vec<u32>>());
}

#[test]
fn normal_mode_keeps_all_entries() {
    let mut entries: Vec<u32> = (0..1500).collect();
    limit_entries(&mut entries, false);
    assert_eq!(entries.len(), 1500);
}

#[test]
fn only_default_forms_are_listed() {
    let mut s = specie(1, 1, Some("Bulbasaur"), Some("a"));
    assert!(is_listed(&s.p));
    s.p.is_default = false;
    assert!(!is_listed(&s.p));
}

#[test]
fn collected_species_are_sorted_by_order() {
    let fetched = vec![
        Some(specie(3, 30, None, None)),
        None,
        Some(specie(1, 10, None, None)),
        Some(specie(2, 20, None, None)),
        None,
    ];
    let out = collect_species(fetched);
    let ids: Vec<i64> = out.iter().map(|x| x.p.id).collect();
    assert_eq!(ids, vec![1, 2, 3]);
}

#[test]
fn collected_species_with_equal_order_keep_fetch_order() {
    let fetched = vec![
        Some(specie(7, 5, None, None)),
        Some(specie(8, 1, None, None)),
        Some(specie(9, 5, None, None)),
        Some(specie(10, 5, None, None)),
    ];
    let out = collect_species(fetched);
    let ids: Vec<i64> = out.iter().map(|x| x.p.id).collect();
    assert_eq!(ids, vec![8, 7, 9, 10]);
}

#[test]
fn nothing_fetched_gives_an_empty_listing() {
    assert!(collect_species(vec![None, None]).is_empty());
    assert!(collect_species(vec![]).is_empty());
}

#[test]
fn card_of_a_species() {
    let s = specie(1, 1, Some("Bulbasaur"), Some("https://img/1.png"));
    let c = pokemon_card(&s).unwrap();
    assert_eq!(c.id, 1);
    assert_eq!(c.pokedex_number, 101);
    assert_eq!(c.name, "Bulbasaur");
    assert_eq!(c.sprite, "https://img/1.png");
    assert_eq!(c.types, vec!["grass".to_string(), "poison".to_string()]);
}

#[test]
fn card_without_english_name_fails_first() {
    let s = specie(12, 1, None, None);
    let e = pokemon_card(&s).unwrap_err();
    assert!(matches!(e, GenError::MissingName { id: 12 }));
    assert_eq!(e.message(), "No name for 12");
}

#[test]
fn card_without_artwork_fails() {
    let s = specie(13, 1, Some("Ivysaur"), None);
    let e = pokemon_card(&s).unwrap_err();
    assert!(matches!(e, GenError::MissingSprite { id: 13 }));
    assert_eq!(e.message(), "No sprite for 13");
}

#[test]
fn cards_keep_the_order_of_the_listing() {
    let list = vec![
        specie(4, 4, Some("Charmander"), Some("c")),
        specie(1, 1, Some("Bulbasaur"), Some("b")),
    ];
    let cards = pokemon_cards(&list).unwrap();
    assert_eq!(cards.len(), 2);
    assert_eq!(cards[0].name, "Charmander");
    assert_eq!(cards[1].name, "Bulbasaur");
}

#[test]
fn cards_fail_with_the_first_bad_entry() {
    let list = vec![
        specie(1, 1, Some("Bulbasaur"), Some("b")),
        specie(2, 2, Some("Ivysaur"), None),
        specie(3, 3, None, Some("v")),
    ];
    let e = pokemon_cards(&list).unwrap_err();
    assert!(matches!(e, GenError::MissingSprite { id: 2 }));
}

#[test]
fn listing_does_not_depend_on_fetch_order() {
    let first = vec![
        Some(specie(3, 30, None, None)),
        Some(specie(1, 10, None, None)),
        None,
        Some(specie(2, 20, None, None)),
    ];
    let second = vec![
        None,
        Some(specie(2, 20, None, None)),
        Some(specie(3, 30, None, None)),
        Some(specie(1, 10, None, None)),
    ];
    let a: Vec<i64> = collect_species(first).iter().map(|x| x.p.id).collect();
    let b: Vec<i64> = collect_species(second).iter().map(|x| x.p.id).collect();
    assert_eq!(a, b);
    assert_eq!(a, vec![1, 2, 3]);
}
