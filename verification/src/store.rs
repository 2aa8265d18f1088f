//! The store: the public catalog, marked up with what this wallet already owns.

use std::collections::HashSet;

use vstd::prelude::*;
use vstd::string::*;

use crate::api::{LibraryResponse, MarketResponse, StoreGame};
use crate::library;
use crate::number;
use crate::state::LauncherState;
use crate::text;

verus! {

broadcast use vstd::std_specs::hash::group_hash_axioms;

/// One game of the store as the player sees it.
#[derive(Debug, Clone, PartialEq, Eq)]
pub struct StoreView {
    pub product_id: i64,
    pub title: String,
    pub tagline: Option<String>,
    pub image: Option<String>,
    pub price_cents: Option<i64>,
    pub runtime: Option<String>,
    pub genres: Vec<String>,
    pub studio: Option<String>,
    pub trusted: bool,
    /// Already phrased for display, so that nobody else has to reason about supply.
    pub supply: String,
    pub sold_out: bool,
    pub owned: bool,
    pub installed: bool,
}

/// How the supply of a game is phrased.
pub open spec fn supply_words(
    model: Option<Seq<char>>,
    available: Option<i64>,
    minted_count: Option<i64>,
) -> Seq<char> {
    if model == Some("finite"@) {
        if available is Some && available->0 > 0 {
            number::decimal_of(available->0 as int) + " left"@
        } else {
            "Limited run"@
        }
    } else if minted_count is Some && minted_count->0 > 0 {
        "Open edition · "@ + number::decimal_of(minted_count->0 as int) + " sold"@
    } else {
        "Open edition"@
    }
}

/// The supply of a game, phrased for display.
pub fn supply(
    model: &Option<String>,
    available: Option<i64>,
    minted_count: Option<i64>,
) -> (words: String)
    ensures
        words@ == supply_words(text::text_in(*model), available, minted_count),
{
    let finite = match model {
        Some(name) => text::same_text(name.as_str(), "finite"),
        None => false,
    };
    if finite {
        if let Some(left) = available {
            if left > 0 {
                return number::decimal(left).concat(" left");
            }
        }
        return "Limited run".to_owned();
    }
    if let Some(sold) = minted_count {
        if sold > 0 {
            let count = number::decimal(sold);
            return "Open edition · ".to_owned().concat(count.as_str()).concat(" sold");
        }
    }
    "Open edition".to_owned()
}

/// `view` shows a game of the store.
pub open spec fn shows(view: StoreView, game: StoreGame, owned: bool, installed: bool) -> bool {
    &&& view.product_id == game.id
    &&& view.title@ == game.title@
    &&& view.tagline == game.tagline
    &&& view.image == game.image
    &&& view.price_cents == game.price_cents
    &&& view.runtime == game.runtime
    &&& text::texts(view.genres@) == text::texts(game.genres@)
    &&& view.studio == (match game.dev {
        Some(dev) => dev.studio,
        None => None,
    })
    &&& view.trusted == (match game.dev {
        Some(dev) => dev.trusted,
        None => false,
    })
    &&& view.supply@ == supply_words(
        text::text_in(game.supply_model),
        game.available,
        game.minted_count,
    )
    &&& view.sold_out == game.sold_out
    &&& view.owned == owned
    &&& view.installed == installed
}

/// One game of the store.
pub fn store_view(game: &StoreGame, owned: bool, installed: bool) -> (view: StoreView)
    ensures
        shows(view, *game, owned, installed),
{
    let (studio, trusted): (Option<String>, bool) = match &game.dev {
        Some(dev) => (text::copy_of(&dev.studio), dev.trusted),
        None => (None, false),
    };
    StoreView {
        product_id: game.id,
        title: game.title.clone(),
        tagline: text::copy_of(&game.tagline),
        image: text::copy_of(&game.image),
        price_cents: game.price_cents,
        runtime: text::copy_of(&game.runtime),
        genres: text::copy_of_all(&game.genres),
        studio,
        trusted,
        supply: supply(&game.supply_model, game.available, game.minted_count),
        sold_out: game.sold_out,
        owned,
        installed,
    }
}

/// A copy of the product is owned, as far as a library is known.
pub open spec fn known_owned(library: Option<LibraryResponse>, product_id: i64) -> bool {
    library is Some && library::listed(library->0.games@, true)(product_id)
}

/// The catalog, in its order, marked up with what is owned and what is installed.
///
/// An unpaired launcher, or one that cannot reach its library, has no library to
/// give: the store still shows everything, and marks nothing as owned.
pub fn store_views(
    market: &MarketResponse,
    library: &Option<LibraryResponse>,
    state: &LauncherState,
) -> (views: Vec<StoreView>)
    ensures
        views@.len() == market.games@.len(),
        forall|i: int|
            0 <= i < views@.len() ==> shows(
                #[trigger] views@[i],
                market.games@[i],
                known_owned(*library, market.games@[i].id),
                state.games@.contains_key(market.games@[i].id),
            ),
{
    let owned: HashSet<i64> = match library {
        Some(library) => library::products_listed(&library.games, true),
        None => HashSet::new(),
    };
    let games = &market.games;
    let mut views: Vec<StoreView> = Vec::new();
    for i in 0..games.len()
        invariant
            games == market.games,
            forall|id: i64| #[trigger] owned@.contains(id) <==> known_owned(*library, id),
            views.len() == i,
            forall|j: int|
                0 <= j < i ==> shows(
                    #[trigger] views@[j],
                    market.games@[j],
                    known_owned(*library, market.games@[j].id),
                    state.games@.contains_key(market.games@[j].id),
                ),
    {
        let id = games[i].id;
        let installed = state.get(id).is_some();
        views.push(store_view(&games[i], owned.contains(&id), installed));
    }
    views
}

// ---------------------------------------------------------------------------
// Laws
// ---------------------------------------------------------------------------

/// Without a library a game is shown as it is with one, but for being marked as
/// owned: browsing needs no wallet.
pub proof fn law_browsing_needs_no_library(
    with: StoreView,
    without: StoreView,
    game: StoreGame,
    library: LibraryResponse,
    installed: bool,
)
    requires
        shows(with, game, known_owned(Some(library), game.id), installed),
        shows(without, game, known_owned(None, game.id), installed),
    ensures
        !without.owned,
        shows(StoreView { owned: with.owned, ..without }, game, with.owned, installed),
{
}

/// Of a limited run the number of copies that are left is told, in decimal, whatever number
/// was sold; where none is left, or none is counted, it is told as a limited run.
pub proof fn law_a_limited_run_tells_what_is_left(
    available: Option<i64>,
    minted: Option<i64>,
    other: Option<i64>,
)
    ensures
        ({
            let words = supply_words(Some("finite"@), available, minted);
            &&& words == supply_words(Some("finite"@), available, other)
            &&& available is Some && available->0 > 0 ==> {
                &&& words.len() > 5
                &&& words.take(words.len() - 5) == number::decimal_of(available->0 as int)
                &&& words.skip(words.len() - 5) == " left"@
            }
            &&& (available is None || available->0 <= 0) ==> words == "Limited run"@
        }),
{
    reveal_strlit(" left");
    if available is Some && available->0 > 0 {
        let left = available->0 as int;
        let words = supply_words(Some("finite"@), available, minted);
        number::law_decimal_is_plain(left);
        assert(words.take(words.len() - 5) =~= number::decimal_of(left));
        assert(words.skip(words.len() - 5) =~= " left"@);
    }
}

/// Of any other supply the number of copies sold is told, in decimal, whatever number is
/// available, once there is one.
pub proof fn law_an_open_edition_tells_what_was_sold(
    model: Option<Seq<char>>,
    available: Option<i64>,
    other: Option<i64>,
    minted: Option<i64>,
)
    requires
        model != Some("finite"@),
    ensures
        supply_words(model, available, minted) == supply_words(model, other, minted),
        supply_words(model, available, minted) == supply_words(None, available, minted),
        minted is Some && minted->0 > 0 ==> supply_words(model, available, minted)
            == "Open edition · "@ + number::decimal_of(minted->0 as int) + " sold"@,
        minted is None || minted->0 <= 0 ==> supply_words(model, available, minted)
            == "Open edition"@,
{
}

/// A product is marked as owned exactly where a library is known and one of its entries for
/// the product is owned.
pub proof fn law_what_the_library_owns_is_marked(
    library: Option<LibraryResponse>,
    product_id: i64,
)
    ensures
        known_owned(None, product_id) == false,
        library matches Some(known) ==> (known_owned(library, product_id) <==> exists|i: int|
            0 <= i < known.games@.len() && (#[trigger] known.games@[i]).product_id == product_id
                && known.games@[i].owned),
{
}

/// A game of the store is shown as the catalog gives it, with its maker where there is one.
pub proof fn law_a_game_of_the_store_is_shown_as_it_is(
    view: StoreView,
    game: StoreGame,
    owned: bool,
    installed: bool,
)
    requires
        shows(view, game, owned, installed),
    ensures
        view.product_id == game.id,
        view.title@ == game.title@,
        view.tagline == game.tagline,
        view.image == game.image,
        view.price_cents == game.price_cents,
        view.runtime == game.runtime,
        view.sold_out == game.sold_out,
        view.owned == owned,
        view.installed == installed,
        view.genres@.len() == game.genres@.len(),
        forall|i: int|
            0 <= i < game.genres@.len() ==> (#[trigger] view.genres@[i])@ == game.genres@[i]@,
        game.dev is None ==> view.studio is None && !view.trusted,
        game.dev matches Some(dev) ==> view.studio == dev.studio && view.trusted == dev.trusted,
        view.supply@ == supply_words(
            text::text_in(game.supply_model),
            game.available,
            game.minted_count,
        ),
{
    let ours = text::texts(view.genres@);
    let theirs = text::texts(game.genres@);
    assert(ours.len() == view.genres@.len());
    assert(theirs.len() == game.genres@.len());
    assert forall|i: int| 0 <= i < game.genres@.len() implies (#[trigger] view.genres@[i])@
        == game.genres@[i]@ by {
        assert(ours[i] == theirs[i]);
    }
}

} // verus!
