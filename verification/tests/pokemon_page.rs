use rustedex_gen::error::GenError;
use rustedex_gen::model::{Cries, Genus, GrowthLevel, Name, PokemonRecord, PokemonSpecie, SpeciesRecord, StatEntry};
use rustedex_gen::pokemon::{effort_table_of, EffortPoint, egg_hatch_steps, experience_at_level, PageBuilder, PageRequest};

fn name(language: &str, text: &str) -> Name {
    Name { language: language.to_string(), name: text.to_string() }
}

fn en(text: &str) -> Vec<Name> {
    vec![name("fr", "x"), name("en", text)]
}

fn stat(s: &str, effort: i64) -> StatEntry {
    StatEntry { stat: s.to_string(), effort }
}

fn bulbasaur() -> PokemonSpecie {
    PokemonSpecie {
        p: PokemonRecord {
            id: 1,
            order: 1,
            is_default: true,
            base_experience: Some(64),
            height: 7,
            weight: 69,
            official_artwork: Some("https://img/1.png".to_string()),
            types: vec!["grass".to_string(), "poison".to_string()],
            abilities: vec!["overgrow".to_string(), "chlorophyll".to_string()],
            stats: vec![stat("hp", 0), stat("attack", 0), stat("special-attack", 1)],
            cries: Cries { legacy: Some("old.ogg".to_string()), latest: Some("new.ogg".to_string()) },
        },
        s: SpeciesRecord {
            id: 1,
            order: 1,
            names: vec![
                name("ja", "フシギダネ"),
                name("roomaji", "Fushigidane"),
                name("fr", "Bulbizarre"),
                name("en", "Bulbasaur"),
            ],
            genera: vec![Genus { language: "en".to_string(), genus: "Seed Pokémon".to_string() }],
            egg_groups: vec!["monster".to_string()],
            growth_rate: "medium-slow".to_string(),
            color: "green".to_string(),
            hatch_counter: Some(20),
            capture_rate: 45,
            gender_rate: 1,
        },
    }
}

fn levels() -> Vec<GrowthLevel> {
    vec![GrowthLevel { level: 1, experience: 0 }, GrowthLevel { level: 100, experience: 1059860 }]
}

#[test]
fn hatch_steps_formula() {
    assert_eq!(egg_hatch_steps(Some(20)), 5355);
    assert_eq!(egg_hatch_steps(Some(0)), 255);
    assert_eq!(egg_hatch_steps(None), 255);
}

#[test]
fn experience_at_level_takes_the_first_row() {
    let l = vec![
        GrowthLevel { level: 100, experience: 7 },
        GrowthLevel { level: 100, experience: 8 },
    ];
    assert_eq!(experience_at_level(&l, 100), Some(7));
    assert_eq!(experience_at_level(&levels(), 50), None);
}

#[test]
fn full_page_build() {
    let mut b = PageBuilder::start(bulbasaur()).unwrap();
    let mut seen = Vec::new();
    while let Some(req) = b.next_request() {
        seen.push(format!("{:?}", req));
        match req {
            PageRequest::Ability(0) => b.answer_names(&en("Overgrow")).unwrap(),
            PageRequest::Ability(1) => b.answer_names(&en("Chlorophyll")).unwrap(),
            PageRequest::EggGroup(0) => b.answer_names(&en("Monster")).unwrap(),
            PageRequest::Stat(2) => b.answer_names(&en("Special Attack")).unwrap(),
            PageRequest::GrowthRate => b.answer_levels(&levels()).unwrap(),
            PageRequest::Color => b.answer_names(&en("Green")).unwrap(),
            other => panic!("unexpected request {:?}", other),
        }
    }
    assert_eq!(
        seen,
        vec!["Ability(0)", "Ability(1)", "EggGroup(0)", "Stat(2)", "GrowthRate", "Color"]
    );
    let page = b.finish().unwrap();
    assert_eq!(page.sprite, "https://img/1.png");
    assert_eq!(page.name, "Bulbasaur");
    assert_eq!(page.french_name, "Bulbizarre");
    assert_eq!(page.japanese_name, "フシギダネ");
    assert_eq!(page.japanese_romanized, "Fushigidane");
    assert_eq!(page.genus, "Seed Pokémon");
    assert_eq!(page.types, vec!["grass".to_string(), "poison".to_string()]);
    assert_eq!(page.height, 7);
    assert_eq!(page.weight, 69);
    assert_eq!(page.abilities, vec!["Overgrow".to_string(), "Chlorophyll".to_string()]);
    assert_eq!(page.egg_groups, vec!["Monster".to_string()]);
    assert_eq!(page.egg_hatch_steps, 5355);
    assert_eq!(page.effort_points.len(), 1);
    assert_eq!(page.effort_points[0].stat, "Special Attack");
    assert_eq!(page.effort_points[0].effort, 1);
    assert_eq!(page.base_experience, 64);
    assert_eq!(page.exp_at_100, 1059860);
    assert_eq!(page.color, "Green");
    assert_eq!(page.capture_rate, 45);
    assert_eq!(page.gender_rate, Some(1));
    assert_eq!(page.cries.legacy.as_deref(), Some("old.ogg"));
    assert_eq!(page.cries.latest.as_deref(), Some("new.ogg"));
}

fn answer_all(b: &mut PageBuilder) {
    while let Some(req) = b.next_request() {
        match req {
            PageRequest::GrowthRate => b.answer_levels(&levels()).unwrap(),
            _ => b.answer_names(&en("Text")).unwrap(),
        }
    }
}

#[test]
fn genderless_and_unknown_values() {
    let mut s = bulbasaur();
    s.s.gender_rate = -1;
    s.s.hatch_counter = None;
    s.p.base_experience = None;
    let mut b = PageBuilder::start(s).unwrap();
    answer_all(&mut b);
    let page = b.finish().unwrap();
    assert_eq!(page.gender_rate, None);
    assert_eq!(page.egg_hatch_steps, 255);
    assert_eq!(page.base_experience, 0);
}

#[test]
fn missing_page_name_stops_the_start() {
    let mut s = bulbasaur();
    s.s.names.retain(|n| n.language != "roomaji");
    let e = PageBuilder::start(s).unwrap_err();
    assert!(matches!(e, GenError::MissingNames { id: 1 }));
}

#[test]
fn missing_genus_stops_the_start() {
    let mut s = bulbasaur();
    s.s.genera.clear();
    let e = PageBuilder::start(s).unwrap_err();
    assert_eq!(e.message(), "Can't find trad for genus for 1");
}

#[test]
fn missing_ability_name_fails_and_keeps_the_request() {
    let mut b = PageBuilder::start(bulbasaur()).unwrap();
    let e = b.answer_names(&vec![name("fr", "Engrais")]).unwrap_err();
    assert_eq!(e.message(), "Can't find trad for ability for 1");
    assert!(matches!(b.next_request(), Some(PageRequest::Ability(0))));
}

#[test]
fn missing_names_report_the_kind_requested() {
    let mut b = PageBuilder::start(bulbasaur()).unwrap();
    b.answer_names(&en("A")).unwrap();
    b.answer_names(&en("B")).unwrap();
    let e = b.answer_names(&vec![]).unwrap_err();
    assert_eq!(e.message(), "Can't find trad for egg group for 1");
    b.answer_names(&en("Monster")).unwrap();
    let e = b.answer_names(&vec![]).unwrap_err();
    assert_eq!(e.message(), "Can't find trad for stat for 1");
    b.answer_names(&en("Sp")).unwrap();
    b.answer_levels(&levels()).unwrap();
    let e = b.answer_names(&vec![]).unwrap_err();
    assert_eq!(e.message(), "Can't find trad for color for 1");
}

#[test]
fn missing_level_100_fails() {
    let mut s = bulbasaur();
    s.p.abilities.clear();
    s.s.egg_groups.clear();
    s.p.stats.clear();
    let mut b = PageBuilder::start(s).unwrap();
    assert!(matches!(b.next_request(), Some(PageRequest::GrowthRate)));
    let e = b.answer_levels(&vec![GrowthLevel { level: 99, experience: 5 }]).unwrap_err();
    assert!(matches!(e, GenError::MissingExperience { id: 1 }));
    assert_eq!(e.message(), "No experience at lvl 100 for 1");
}

#[test]
fn missing_artwork_fails_at_the_end() {
    let mut s = bulbasaur();
    s.p.official_artwork = None;
    let mut b = PageBuilder::start(s).unwrap();
    answer_all(&mut b);
    let e = b.finish().unwrap_err();
    assert!(matches!(e, GenError::MissingSprite { id: 1 }));
}

#[test]
fn missing_artwork_is_reported_whatever_the_hatch_counter() {
    let mut s = bulbasaur();
    s.p.official_artwork = None;
    s.s.hatch_counter = Some(i64::MAX);
    let mut b = PageBuilder::start(s).unwrap();
    answer_all(&mut b);
    let e = b.finish().unwrap_err();
    assert_eq!(e.message(), "No sprite for 1");
}

fn ep(stat: &str, effort: i64) -> EffortPoint {
    EffortPoint { stat: stat.to_string(), effort }
}

#[test]
fn effort_table_keeps_each_name_once_with_the_last_effort() {
    let raw = vec![ep("Attack", 1), ep("Speed", 2), ep("Attack", 3)];
    let t = effort_table_of(&raw);
    assert_eq!(t.len(), 2);
    assert_eq!(t[0].stat, "Attack");
    assert_eq!(t[0].effort, 3);
    assert_eq!(t[1].stat, "Speed");
    assert_eq!(t[1].effort, 2);
}

#[test]
fn page_with_two_stats_of_the_same_name() {
    let mut s = bulbasaur();
    s.p.stats = vec![stat("attack", 1), stat("special-attack", 2)];
    let mut b = PageBuilder::start(s).unwrap();
    while let Some(req) = b.next_request() {
        match req {
            PageRequest::GrowthRate => b.answer_levels(&levels()).unwrap(),
            PageRequest::Stat(0) => b.answer_names(&en("Attack")).unwrap(),
            PageRequest::Stat(1) => b.answer_names(&en("Attack")).unwrap(),
            _ => b.answer_names(&en("Text")).unwrap(),
        }
    }
    let page = b.finish().unwrap();
    assert_eq!(page.effort_points.len(), 1);
    assert_eq!(page.effort_points[0].stat, "Attack");
    assert_eq!(page.effort_points[0].effort, 2);
}
