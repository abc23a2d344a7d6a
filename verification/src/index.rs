//! The cards of the index page.

use vstd::prelude::*;
use crate::error::GenError;
use crate::model::{opt_view, PokemonSpecie};
use crate::text::{copy_string, copy_strings};
use crate::translation::{english_name, english_text, name_entries};

verus! {

/// What the index page shows of one Pokémon.
#[derive(Debug)]
pub struct PokemonCard {
    pub id: i64,
    pub pokedex_number: i64,
    /// English name of the species.
    pub name: String,
    /// Link to the official artwork.
    pub sprite: String,
    /// Names of the Pokémon's types.
    pub types: Vec<String>,
}

/// Why no card can be made for `ps`, if it cannot: a missing English name is
/// reported before a missing artwork.
pub open spec fn card_error(ps: PokemonSpecie) -> Option<GenError> {
    if english_text(name_entries(ps.s.names@)) is None {
        Some(GenError::MissingName { id: ps.p.id })
    } else if ps.p.official_artwork is None {
        Some(GenError::MissingSprite { id: ps.p.id })
    } else {
        None
    }
}

/// `c` is the card of `ps`: its id, the species' order as Pokédex number, the
/// first English name of the species, the official artwork and the type names.
pub open spec fn is_card_of(c: PokemonCard, ps: PokemonSpecie) -> bool {
    &&& c.id == ps.p.id
    &&& c.pokedex_number == ps.s.order
    &&& english_text(name_entries(ps.s.names@)) == Some(c.name@)
    &&& opt_view(ps.p.official_artwork) == Some(c.sprite@)
    &&& c.types@ == ps.p.types@
}

/// The card of one Pokédex entry.
pub fn pokemon_card(ps: &PokemonSpecie) -> (r: Result<PokemonCard, GenError>)
    ensures
        match card_error(*ps) {
            Some(e) => r == Err::<PokemonCard, GenError>(e),
            None => r matches Ok(c) && is_card_of(c, *ps),
        },
{
    let name = match english_name(&ps.s.names) {
        Some(n) => n,
        None => return Err(GenError::MissingName { id: ps.p.id }),
    };
    let sprite = match &ps.p.official_artwork {
        Some(s) => copy_string(s),
        None => return Err(GenError::MissingSprite { id: ps.p.id }),
    };
    Ok(PokemonCard {
        id: ps.p.id,
        pokedex_number: ps.s.order,
        name,
        sprite,
        types: copy_strings(&ps.p.types),
    })
}

/// The error of the first entry of `s` for which no card can be made.
pub open spec fn first_card_error(s: Seq<PokemonSpecie>) -> Option<GenError>
    decreases s.len(),
{
    if s.len() == 0 {
        None
    } else {
        let earlier = first_card_error(s.drop_last());
        if earlier is Some {
            earlier
        } else {
            card_error(s.last())
        }
    }
}

/// The index fails exactly when some entry lacks an English name or an
/// artwork, and then with the error of the first such entry.
pub proof fn lemma_card_error_iff(s: Seq<PokemonSpecie>)
    ensures
        first_card_error(s) is None <==> forall|i: int|
            0 <= i < s.len() ==> card_error(#[trigger] s[i]) is None,
        first_card_error(s) is Some ==> exists|i: int|
            0 <= i < s.len() && first_card_error(s) == card_error(#[trigger] s[i]) && forall|j: int|
                0 <= j < i ==> card_error(#[trigger] s[j]) is None,
    decreases s.len(),
{
    if s.len() > 0 {
        let d = s.drop_last();
        lemma_card_error_iff(d);
        assert forall|i: int| 0 <= i < d.len() implies #[trigger] s[i] == d[i] by {}
        if first_card_error(d) is Some {
            let i = choose|i: int|
                0 <= i < d.len() && first_card_error(d) == card_error(#[trigger] d[i]) && forall|j: int|
                    0 <= j < i ==> card_error(#[trigger] d[j]) is None;
            assert(s[i] == d[i]);
            assert forall|j: int| 0 <= j < i implies card_error(#[trigger] s[j]) is None by {
                assert(s[j] == d[j]);
            }
            assert(card_error(d[i]) is Some);
        } else {
            let last = s.len() - 1;
            assert(s[last] == s.last());
            if card_error(s.last()) is Some {
                assert forall|j: int| 0 <= j < last implies card_error(#[trigger] s[j]) is None by {
                    assert(s[j] == d[j]);
                }
            }
        }
    }
}

/// The cards of all entries, in the same order; fails with the error of the
/// first entry for which no card can be made.
pub fn pokemon_cards(species: &Vec<PokemonSpecie>) -> (r: Result<Vec<PokemonCard>, GenError>)
    ensures
        match first_card_error(species@) {
            Some(e) => r == Err::<Vec<PokemonCard>, GenError>(e),
            None => r matches Ok(cards) && cards.len() == species.len() && forall|i: int|
                0 <= i < species.len() ==> is_card_of(#[trigger] cards@[i], species@[i]),
        },
{
    let mut cards: Vec<PokemonCard> = Vec::new();
    for i in 0..species.len()
        invariant
            first_card_error(species@.take(i as int)) is None,
            cards.len() == i,
            forall|j: int| 0 <= j < i ==> is_card_of(#[trigger] cards@[j], species@[j]),
    {
        assert(species@.take(i + 1).drop_last() =~= species@.take(i as int));
        match pokemon_card(&species[i]) {
            Ok(c) => cards.push(c),
            Err(e) => {
                proof {
                    lemma_first_card_error_prefix(species@, i + 1);
                }
                return Err(e);
            },
        }
    }
    assert(species@.take(species.len() as int) =~= species@);
    Ok(cards)
}

/// Once a prefix holds an entry without a card, the whole list fails with the
/// same error.
proof fn lemma_first_card_error_prefix(s: Seq<PokemonSpecie>, i: int)
    requires
        0 <= i <= s.len(),
        first_card_error(s.take(i)) is Some,
    ensures
        first_card_error(s) == first_card_error(s.take(i)),
    decreases s.len(),
{
    if i == s.len() {
        assert(s.take(i) =~= s);
    } else {
        assert(s.drop_last().take(i) =~= s.take(i));
        lemma_first_card_error_prefix(s.drop_last(), i);
    }
}

/// A card shows the Pokémon's id, the species' order, the species' first
/// English name, the official artwork, and exactly the Pokémon's type names
/// in order, however many there are.
pub proof fn lemma_card_fields(c: PokemonCard, ps: PokemonSpecie)
    requires
        is_card_of(c, ps),
    ensures
        c.id == ps.p.id,
        c.pokedex_number == ps.s.order,
        c.types.len() == ps.p.types.len(),
        forall|i: int| 0 <= i < c.types.len() ==> #[trigger] c.types@[i] == ps.p.types@[i],
        ps.p.official_artwork matches Some(a) && a@ == c.sprite@,
        exists|i: int|
            0 <= i < ps.s.names.len() && (#[trigger] ps.s.names@[i]).language@ == "en"@
                && ps.s.names@[i].name@ == c.name@ && forall|j: int|
                0 <= j < i ==> (#[trigger] ps.s.names@[j]).language@ != "en"@,
{
    let e = name_entries(ps.s.names@);
    crate::translation::lemma_first_in_language_is_first(e, "en"@);
    let i = choose|i: int|
        0 <= i < e.len() && (#[trigger] e[i]).0 == "en"@ && e[i].1 == c.name@ && forall|j: int|
            0 <= j < i ==> (#[trigger] e[j]).0 != "en"@;
    assert(e[i] == (ps.s.names@[i].language@, ps.s.names@[i].name@));
    assert forall|j: int| 0 <= j < i implies (#[trigger] ps.s.names@[j]).language@ != "en"@ by {
        assert(e[j] == (ps.s.names@[j].language@, ps.s.names@[j].name@));
    }
}

/// A card fails for want of an English name exactly when the species has no
/// `"en"` name, and for want of artwork exactly when it has one but the
/// Pokémon has no official artwork; it never fails otherwise.
pub proof fn lemma_card_error_cases(ps: PokemonSpecie)
    ensures
        card_error(ps) == Some(GenError::MissingName { id: ps.p.id }) <==> forall|j: int|
            0 <= j < ps.s.names.len() ==> (#[trigger] ps.s.names@[j]).language@ != "en"@,
        card_error(ps) == Some(GenError::MissingSprite { id: ps.p.id }) <==> ((exists|j: int|
            0 <= j < ps.s.names.len() && (#[trigger] ps.s.names@[j]).language@ == "en"@)
            && ps.p.official_artwork is None),
        card_error(ps) is None <==> ((exists|j: int|
            0 <= j < ps.s.names.len() && (#[trigger] ps.s.names@[j]).language@ == "en"@)
            && ps.p.official_artwork is Some),
{
    let e = name_entries(ps.s.names@);
    let v = ps.s.names@;
    crate::translation::lemma_first_in_language_is_first(e, "en"@);
    assert(e.len() == v.len());
    let no_en = forall|j: int| 0 <= j < v.len() ==> (#[trigger] v[j]).language@ != "en"@;
    assert(no_en <==> forall|j: int| 0 <= j < e.len() ==> (#[trigger] e[j]).0 != "en"@) by {
        assert forall|j: int| 0 <= j < e.len() implies #[trigger] e[j] == (v[j].language@, v[j].name@) by {}
        if no_en {
            assert forall|j: int| 0 <= j < e.len() implies (#[trigger] e[j]).0 != "en"@ by {
                assert(e[j] == (v[j].language@, v[j].name@));
            }
        }
        if forall|j: int| 0 <= j < e.len() ==> (#[trigger] e[j]).0 != "en"@ {
            assert forall|j: int| 0 <= j < v.len() implies (#[trigger] v[j]).language@ != "en"@ by {
                assert(e[j] == (v[j].language@, v[j].name@));
            }
        }
    }
    if !no_en {
        let j = choose|j: int| 0 <= j < v.len() && (#[trigger] v[j]).language@ == "en"@;
        assert(exists|j: int| 0 <= j < v.len() && (#[trigger] v[j]).language@ == "en"@);
    }
}

} // verus!
