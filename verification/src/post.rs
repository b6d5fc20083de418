//! The text of a guild's post: its categories, each with its games.

use crate::emoji::emoji_text;
use crate::model::{categories_view, games_view, Category, CategoryView, GameView};
use crate::text::{bold_line, push_bold_line, push_text};
use vstd::prelude::*;

verus! {

/// What the post says while the guild has no category.
pub open spec fn no_category_text() -> Seq<char> {
    "Please add a category."@
}

/// What the post says under a category without games.
pub open spec fn no_game_text() -> Seq<char> {
    "Please add a game."@
}

/// The line of a game: its emoji, ` - `, its name.
pub open spec fn game_line(g: GameView) -> Seq<char> {
    emoji_text(g.emoji) + seq![' ', '-', ' '] + g.name + seq!['\n']
}

/// The lines of the games, in order.
pub open spec fn games_text(games: Seq<GameView>) -> Seq<char>
    decreases games.len(),
{
    if games.len() == 0 {
        Seq::empty()
    } else {
        games_text(games.drop_last()) + game_line(games.last())
    }
}

/// The block of a category: its name in bold on a line of its own, then its
/// games (or a request for one), then an empty line.
pub open spec fn category_block(c: CategoryView) -> Seq<char> {
    bold_line(c.name) + (if c.games.len() == 0 {
        no_game_text()
    } else {
        games_text(c.games)
    }) + seq!['\n']
}

/// The blocks of the categories, in order.
pub open spec fn categories_text(categories: Seq<CategoryView>) -> Seq<char>
    decreases categories.len(),
{
    if categories.len() == 0 {
        Seq::empty()
    } else {
        categories_text(categories.drop_last()) + category_block(categories.last())
    }
}

/// The whole post for a guild with these categories.
pub open spec fn post_text(categories: Seq<CategoryView>) -> Seq<char> {
    if categories.len() == 0 {
        no_category_text()
    } else {
        categories_text(categories)
    }
}

/// The text of the post that lists `categories`.
pub fn format_post(categories: &Vec<Category>) -> (post: String)
    ensures
        post@ == post_text(categories_view(categories@)),
{
    if categories.len() == 0 {
        return "Please add a category.".to_owned();
    }
    let ghost cats = categories_view(categories@);
    let mut text = String::new();
    let mut i: usize = 0;
    while i < categories.len()
        invariant
            i <= categories.len(),
            cats == categories_view(categories@),
            text@ == categories_text(cats.take(i as int)),
        decreases categories.len() - i,
    {
        let category = &categories[i];
        let ghost c = category@;
        assert(cats[i as int] == c);
        let games = category.games();
        let ghost gs = games_view(games@);
        let ghost before = text@;
        text = push_bold_line(text, category.name().as_str());
        if games.len() == 0 {
            text = push_text(text, "Please add a game.");
        } else {
            let mut j: usize = 0;
            while j < games.len()
                invariant
                    j <= games.len(),
                    gs == games_view(games@),
                    text@ == before + bold_line(c.name) + games_text(gs.take(j as int)),
                decreases games.len() - j,
            {
                let game = &games[j];
                assert(gs[j as int] == game@);
                let mention = game.emoji().mention();
                text = push_text(text, mention.as_str());
                text = push_text(text, " - ");
                text = push_text(text, game.name().as_str());
                text = push_text(text, "\n");
                proof {
                    reveal_strlit(" - ");
                    reveal_strlit("\n");
                    assert(gs.take(j + 1).drop_last() =~= gs.take(j as int));
                }
                assert(text@ =~= before + bold_line(c.name) + games_text(gs.take(j + 1)));
                j = j + 1;
            }
            assert(gs.take(j as int) =~= gs);
        }
        text = push_text(text, "\n");
        proof {
            reveal_strlit("\n");
            assert(cats.take(i + 1).drop_last() =~= cats.take(i as int));
        }
        assert(text@ =~= categories_text(cats.take(i + 1)));
        i = i + 1;
    }
    assert(cats.take(i as int) =~= cats);
    text
}

} // verus!
