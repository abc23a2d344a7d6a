//! Picking localized texts out of a resource's list of names.

use vstd::prelude::*;
use vstd::string::*;
use crate::error::GenError;
use crate::model::{opt_view, Genus, Name};
use crate::text::copy_string;

verus! {

/// A list of (language code, text) pairs.
pub type Localized = Seq<(Seq<char>, Seq<char>)>;

/// The text of the first entry in language `lang`, if any.
pub open spec fn first_in_language(e: Localized, lang: Seq<char>) -> Option<Seq<char>>
    decreases e.len(),
{
    if e.len() == 0 {
        None
    } else {
        let earlier = first_in_language(e.drop_last(), lang);
        if earlier is Some {
            earlier
        } else if e.last().0 == lang {
            Some(e.last().1)
        } else {
            None
        }
    }
}

/// The text of the last entry in language `lang`, if any.
pub open spec fn last_in_language(e: Localized, lang: Seq<char>) -> Option<Seq<char>>
    decreases e.len(),
{
    if e.len() == 0 {
        None
    } else if e.last().0 == lang {
        Some(e.last().1)
    } else {
        last_in_language(e.drop_last(), lang)
    }
}

/// The localized entries of a list of names.
pub open spec fn name_entries(v: Seq<Name>) -> Localized {
    v.map_values(|n: Name| (n.language@, n.name@))
}

/// The localized entries of a list of genera.
pub open spec fn genus_entries(v: Seq<Genus>) -> Localized {
    v.map_values(|g: Genus| (g.language@, g.genus@))
}

/// The code of the English language.
pub open spec fn english() -> Seq<char> {
    "en"@
}

/// The English text of a list of localized entries: that of its first English
/// entry.
pub open spec fn english_text(e: Localized) -> Option<Seq<char>> {
    first_in_language(e, english())
}

/// The error of a missing English translation of a resource of kind `kind`.
pub open spec fn is_missing_translation(r: GenError, kind: Seq<char>, id: i64) -> bool {
    r matches GenError::MissingTranslation { kind: k, id: i } && k@ == kind && i == id
}

/// Once a prefix holds an entry in `lang`, the whole list has the same first
/// such entry.
pub proof fn lemma_first_in_language_prefix(e: Localized, i: int, lang: Seq<char>)
    requires
        0 <= i <= e.len(),
        first_in_language(e.take(i), lang) is Some,
    ensures
        first_in_language(e, lang) == first_in_language(e.take(i), lang),
    decreases e.len(),
{
    if i == e.len() {
        assert(e.take(i) =~= e);
    } else {
        assert(e.drop_last().take(i) =~= e.take(i));
        lemma_first_in_language_prefix(e.drop_last(), i, lang);
    }
}

/// The text of the first entry in `lang` is that of an entry in `lang` with no
/// entry in `lang` before it; with no entry in `lang` there is none.
pub proof fn lemma_first_in_language_is_first(e: Localized, lang: Seq<char>)
    ensures
        first_in_language(e, lang) is None <==> (forall|j: int|
            0 <= j < e.len() ==> (#[trigger] e[j]).0 != lang),
        first_in_language(e, lang) matches Some(t) ==> exists|i: int|
            0 <= i < e.len() && (#[trigger] e[i]).0 == lang && e[i].1 == t && forall|j: int|
                0 <= j < i ==> (#[trigger] e[j]).0 != lang,
    decreases e.len(),
{
    if e.len() > 0 {
        let d = e.drop_last();
        lemma_first_in_language_is_first(d, lang);
        if first_in_language(d, lang) is Some {
            let i = choose|i: int|
                0 <= i < d.len() && (#[trigger] d[i]).0 == lang && d[i].1
                    == first_in_language(d, lang)->0 && forall|j: int|
                    0 <= j < i ==> (#[trigger] d[j]).0 != lang;
            assert(e[i] == d[i]);
            assert forall|j: int| 0 <= j < i implies (#[trigger] e[j]).0 != lang by {
                assert(e[j] == d[j]);
            }
        } else {
            assert forall|j: int| 0 <= j < e.len() - 1 implies (#[trigger] e[j]).0 != lang by {
                assert(e[j] == d[j]);
            }
            if e.last().0 == lang {
                let i = e.len() - 1;
                assert(e[i].0 == lang);
            }
        }
    }
}

/// The text of the last entry in `lang` is that of an entry in `lang` with no
/// entry in `lang` after it; with no entry in `lang` there is none.
pub proof fn lemma_last_in_language_is_last(e: Localized, lang: Seq<char>)
    ensures
        last_in_language(e, lang) is None <==> (forall|j: int|
            0 <= j < e.len() ==> (#[trigger] e[j]).0 != lang),
        last_in_language(e, lang) matches Some(t) ==> exists|i: int|
            0 <= i < e.len() && (#[trigger] e[i]).0 == lang && e[i].1 == t && forall|j: int|
                i < j < e.len() ==> (#[trigger] e[j]).0 != lang,
    decreases e.len(),
{
    if e.len() > 0 {
        let d = e.drop_last();
        lemma_last_in_language_is_last(d, lang);
        if e.last().0 == lang {
            let i = e.len() - 1;
            assert(e[i].0 == lang);
        } else {
            assert forall|j: int| 0 <= j < e.len() - 1 implies #[trigger] e[j] == d[j] by {}
            if last_in_language(d, lang) is Some {
                let i = choose|i: int|
                    0 <= i < d.len() && (#[trigger] d[i]).0 == lang && d[i].1
                        == last_in_language(d, lang)->0 && forall|j: int|
                        i < j < d.len() ==> (#[trigger] d[j]).0 != lang;
                assert(e[i] == d[i]);
                assert forall|j: int| i < j < e.len() implies (#[trigger] e[j]).0 != lang by {
                    if j < e.len() - 1 {
                        assert(e[j] == d[j]);
                    }
                }
            }
        }
    }
}

/// The four names a Pokémon page shows.
#[derive(Debug)]
pub struct PageNames {
    pub name: String,
    pub french_name: String,
    pub japanese_name: String,
    pub japanese_romanized: String,
}

/// The names of a page, taken from a species' names: for each of English,
/// French, Japanese and romanized Japanese the last entry in that language;
/// `None` when one of the four is missing.
pub open spec fn spec_page_names(e: Localized) -> Option<(Seq<char>, Seq<char>, Seq<char>, Seq<char>)> {
    match (
        last_in_language(e, "en"@),
        last_in_language(e, "fr"@),
        last_in_language(e, "ja"@),
        last_in_language(e, "roomaji"@),
    ) {
        (Some(en), Some(fr), Some(ja), Some(ro)) => Some((en, fr, ja, ro)),
        _ => None,
    }
}

/// The four language codes of a page are distinct.
proof fn lemma_page_languages_distinct()
    ensures
        "en"@ != "fr"@,
        "en"@ != "ja"@,
        "en"@ != "roomaji"@,
        "fr"@ != "ja"@,
        "fr"@ != "roomaji"@,
        "ja"@ != "roomaji"@,
{
    reveal_strlit("en");
    reveal_strlit("fr");
    reveal_strlit("ja");
    reveal_strlit("roomaji");
    assert("en"@[0] != "fr"@[0]);
    assert("en"@[0] != "ja"@[0]);
    assert("en"@[0] != "roomaji"@[0]);
    assert("fr"@[0] != "ja"@[0]);
    assert("fr"@[0] != "roomaji"@[0]);
    assert("ja"@[0] != "roomaji"@[0]);
}

/// Picks the page names out of `names` (see `spec_page_names`); fails with
/// `MissingNames` when one of them is missing.
pub fn page_names(names: &Vec<Name>, id: i64) -> (r: Result<PageNames, GenError>)
    ensures
        match spec_page_names(name_entries(names@)) {
            Some((en, fr, ja, ro)) => r matches Ok(n) && n.name@ == en && n.french_name@ == fr
                && n.japanese_name@ == ja && n.japanese_romanized@ == ro,
            None => r == Err::<PageNames, GenError>(GenError::MissingNames { id }),
        },
{
    let en = String::from_str("en");
    let fr = String::from_str("fr");
    let ja = String::from_str("ja");
    let ro = String::from_str("roomaji");
    let ghost e = name_entries(names@);
    let mut name: Option<String> = None;
    let mut french_name: Option<String> = None;
    let mut japanese_name: Option<String> = None;
    let mut japanese_romanized: Option<String> = None;
    for i in 0..names.len()
        invariant
            e == name_entries(names@),
            en@ == "en"@,
            fr@ == "fr"@,
            ja@ == "ja"@,
            ro@ == "roomaji"@,
            opt_view(name) == last_in_language(e.take(i as int), "en"@),
            opt_view(french_name) == last_in_language(e.take(i as int), "fr"@),
            opt_view(japanese_name) == last_in_language(e.take(i as int), "ja"@),
            opt_view(japanese_romanized) == last_in_language(e.take(i as int), "roomaji"@),
    {
        let n = &names[i];
        proof {
            lemma_page_languages_distinct();
        }
        assert(e.take(i + 1).drop_last() =~= e.take(i as int));
        assert(e.take(i + 1).last() == (n.language@, n.name@));
        if n.language == en {
            name = Some(copy_string(&n.name));
        } else if n.language == fr {
            french_name = Some(copy_string(&n.name));
        } else if n.language == ja {
            japanese_name = Some(copy_string(&n.name));
        } else if n.language == ro {
            japanese_romanized = Some(copy_string(&n.name));
        }
    }
    assert(e.take(names.len() as int) =~= e);
    match (name, french_name, japanese_name, japanese_romanized) {
        (Some(name), Some(french_name), Some(japanese_name), Some(japanese_romanized)) => Ok(
            PageNames { name, french_name, japanese_name, japanese_romanized },
        ),
        _ => Err(GenError::MissingNames { id }),
    }
}

/// The English text of a list of names: that of its first English entry.
pub fn english_name(names: &Vec<Name>) -> (r: Option<String>)
    ensures
        opt_view(r) == english_text(name_entries(names@)),
{
    let en = String::from_str("en");
    let ghost e = name_entries(names@);
    for i in 0..names.len()
        invariant
            e == name_entries(names@),
            en@ == english(),
            first_in_language(e.take(i as int), english()) is None,
    {
        let n = &names[i];
        assert(e.take(i + 1).drop_last() =~= e.take(i as int));
        assert(e.take(i + 1).last() == (n.language@, n.name@));
        if n.language == en {
            proof {
                lemma_first_in_language_prefix(e, i + 1, english());
            }
            return Some(copy_string(&n.name));
        }
    }
    assert(e.take(names.len() as int) =~= e);
    None
}

/// The English text of a list of genera: that of its first English entry.
pub fn english_genus(genera: &Vec<Genus>) -> (r: Option<String>)
    ensures
        opt_view(r) == english_text(genus_entries(genera@)),
{
    let en = String::from_str("en");
    let ghost e = genus_entries(genera@);
    for i in 0..genera.len()
        invariant
            e == genus_entries(genera@),
            en@ == english(),
            first_in_language(e.take(i as int), english()) is None,
    {
        let g = &genera[i];
        assert(e.take(i + 1).drop_last() =~= e.take(i as int));
        assert(e.take(i + 1).last() == (g.language@, g.genus@));
        if g.language == en {
            proof {
                lemma_first_in_language_prefix(e, i + 1, english());
            }
            return Some(copy_string(&g.genus));
        }
    }
    assert(e.take(genera.len() as int) =~= e);
    None
}

/// Finding the English translation of a resource's names.
pub trait FindTrad {
    /// The (language, text) entries of the list.
    spec fn trad_entries(&self) -> Localized;

    /// The text of the first English entry; fails with `MissingTranslation`
    /// for a resource of kind `type_` of the Pokémon `id` when there is none.
    fn find_trad(&self, type_: &str, id: i64) -> (r: Result<String, GenError>)
        ensures
            match english_text(self.trad_entries()) {
                Some(t) => r matches Ok(s) && s@ == t,
                None => r matches Err(e) && is_missing_translation(e, type_@, id),
            },
    ;
}

impl FindTrad for Vec<Name> {
    open spec fn trad_entries(&self) -> Localized {
        name_entries(self@)
    }

    fn find_trad(&self, type_: &str, id: i64) -> (r: Result<String, GenError>) {
        match english_name(self) {
            Some(t) => Ok(t),
            None => Err(GenError::MissingTranslation { kind: type_.to_owned(), id }),
        }
    }
}

impl FindTrad for Vec<Genus> {
    open spec fn trad_entries(&self) -> Localized {
        genus_entries(self@)
    }

    fn find_trad(&self, type_: &str, id: i64) -> (r: Result<String, GenError>) {
        match english_genus(self) {
            Some(t) => Ok(t),
            None => Err(GenError::MissingTranslation { kind: type_.to_owned(), id }),
        }
    }
}

/// With at most one entry in `lang`, the first and the last entry in `lang`
/// are the same: a species with a single English name shows that name both on
/// its index card and on its page.
pub proof fn lemma_single_entry_first_is_last(e: Localized, lang: Seq<char>)
    requires
        forall|i: int, j: int|
            0 <= i < e.len() && 0 <= j < e.len() && (#[trigger] e[i]).0 == lang && (#[trigger] e[j]).0
                == lang ==> i == j,
    ensures
        first_in_language(e, lang) == last_in_language(e, lang),
{
    lemma_first_in_language_is_first(e, lang);
    lemma_last_in_language_is_last(e, lang);
    if first_in_language(e, lang) is Some {
        let i = choose|i: int|
            0 <= i < e.len() && (#[trigger] e[i]).0 == lang && e[i].1 == first_in_language(e, lang)->0
                && forall|j: int| 0 <= j < i ==> (#[trigger] e[j]).0 != lang;
        let k = choose|k: int|
            0 <= k < e.len() && (#[trigger] e[k]).0 == lang && e[k].1 == last_in_language(e, lang)->0
                && forall|j: int| k < j < e.len() ==> (#[trigger] e[j]).0 != lang;
        assert(i == k);
    }
}

/// The page names exist exactly when each of English, French, Japanese and
/// romanized Japanese has an entry; each name is then the text of the last
/// entry in its own language.
pub proof fn lemma_page_names_from_entries(e: Localized)
    ensures
        spec_page_names(e) is Some <==> ((exists|i: int| 0 <= i < e.len() && (#[trigger] e[i]).0 == "en"@)
            && (exists|i: int| 0 <= i < e.len() && (#[trigger] e[i]).0 == "fr"@) && (exists|i: int|
            0 <= i < e.len() && (#[trigger] e[i]).0 == "ja"@) && (exists|i: int|
            0 <= i < e.len() && (#[trigger] e[i]).0 == "roomaji"@)),
        spec_page_names(e) matches Some((en, fr, ja, ro)) ==> {
            &&& is_last_entry(e, "en"@, en)
            &&& is_last_entry(e, "fr"@, fr)
            &&& is_last_entry(e, "ja"@, ja)
            &&& is_last_entry(e, "roomaji"@, ro)
        },
{
    lemma_last_in_language_is_last(e, "en"@);
    lemma_last_in_language_is_last(e, "fr"@);
    lemma_last_in_language_is_last(e, "ja"@);
    lemma_last_in_language_is_last(e, "roomaji"@);
}

/// `t` is the text of an entry in `lang` after which no entry is in `lang`.
pub open spec fn is_last_entry(e: Localized, lang: Seq<char>, t: Seq<char>) -> bool {
    exists|i: int|
        0 <= i < e.len() && (#[trigger] e[i]).0 == lang && e[i].1 == t && forall|j: int|
            i < j < e.len() ==> (#[trigger] e[j]).0 != lang
}

/// The English text of a list is that of an `"en"` entry with no `"en"`
/// entry before it; there is none exactly when no entry is in English.
pub proof fn lemma_english_text_is_first_english(e: Localized)
    ensures
        english_text(e) is None <==> forall|j: int| 0 <= j < e.len() ==> (#[trigger] e[j]).0 != "en"@,
        english_text(e) matches Some(t) ==> exists|i: int|
            0 <= i < e.len() && (#[trigger] e[i]).0 == "en"@ && e[i].1 == t && forall|j: int|
                0 <= j < i ==> (#[trigger] e[j]).0 != "en"@,
{
    lemma_first_in_language_is_first(e, "en"@);
}

} // verus!
