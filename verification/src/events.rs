//! The decisions the bot takes on gateway events and on the permission check
//! of its commands. Fetching, posting and deleting stay with the caller; these
//! functions say what to do.

use crate::emoji::{Emoji, EmojiView};
use crate::model::{categories_view, Category, CategoryView, GuildGames};
use crate::post::{format_post, post_text};
use serenity::model::permissions::Permissions;
use vstd::prelude::*;

verus! {

/// The reaction that the bot adds to its usage answers, and by which any
/// member deletes a message of the bot: the wastebasket emoji.
pub const TRASHCAN_EMOJI: &'static str = "\u{1F5D1}\u{FE0F}";

/// The emoji of a reaction.
pub enum ReactionEmoji {
    /// A standard emoji, by its text.
    Unicode(String),
    /// A custom emoji of a guild, by its id.
    Custom(u64),
}

/// The emoji is the wastebasket.
pub open spec fn is_trashcan(emoji: ReactionEmoji) -> bool {
    match emoji {
        ReactionEmoji::Unicode(text) => text@ == TRASHCAN_EMOJI@,
        ReactionEmoji::Custom(_) => false,
    }
}

/// A reaction by `user_id` is looked at unless the bot made it.
pub fn reaction_needs_message(user_id: u64, bot_id: u64) -> (fetch: bool)
    ensures
        fetch == (user_id != bot_id),
{
    user_id != bot_id
}

/// Whether a reaction deletes the message it was added to: the message is
/// the bot's and the reaction is the wastebasket.
pub fn reaction_deletes_message(author_id: u64, bot_id: u64, emoji: &ReactionEmoji) -> (delete: bool)
    ensures
        delete == (author_id == bot_id && is_trashcan(*emoji)),
{
    if author_id != bot_id {
        return false;
    }
    match emoji {
        ReactionEmoji::Unicode(text) => *text == TRASHCAN_EMOJI.to_owned(),
        ReactionEmoji::Custom(_) => false,
    }
}

/// The bit of the administrator permission.
pub open spec fn administrator_bit(bits: u64) -> bool {
    bits & 8 == 8
}

/// `Permissions::administrator`, on the permissions with these bits (bits
/// serenity does not know are dropped by `from_bits_truncate`): whether the
/// administrator bit, `1 << 3`, is set.
#[verifier::external_body]
fn has_administrator(bits: u64) -> (admin: bool)
    ensures
        admin == administrator_bit(bits),
{
    Permissions::from_bits_truncate(bits).administrator()
}

/// The check of the management commands: the author passes when their
/// permissions in the guild (`None` where they could not be had) hold the
/// administrator permission.
pub fn admin_check(permission_bits: Option<u64>) -> (pass: bool)
    ensures
        pass == (permission_bits matches Some(bits) && administrator_bit(bits)),
{
    match permission_bits {
        Some(bits) => has_administrator(bits),
        None => false,
    }
}

/// What the emojis of a sequence are.
pub open spec fn emoji_views(emojis: Seq<Emoji>) -> Seq<EmojiView> {
    emojis.map_values(|e: Emoji| e@)
}

/// The emojis of these games, in order.
pub open spec fn game_emojis(games: Seq<crate::model::GameView>) -> Seq<EmojiView> {
    games.map_values(|g: crate::model::GameView| g.emoji)
}

/// The emojis of the games of these categories, category after category.
pub open spec fn categories_emojis(categories: Seq<CategoryView>) -> Seq<EmojiView>
    decreases categories.len(),
{
    if categories.len() == 0 {
        Seq::empty()
    } else {
        categories_emojis(categories.drop_last()) + game_emojis(categories.last().games)
    }
}

/// The emojis that the bot reacts with on a post listing `categories`: one
/// for each game, in the order of the post.
pub fn reaction_emojis(categories: &Vec<Category>) -> (emojis: Vec<Emoji>)
    ensures
        emoji_views(emojis@) == categories_emojis(categories_view(categories@)),
{
    let ghost cats = categories_view(categories@);
    let mut emojis: Vec<Emoji> = Vec::new();
    let mut i: usize = 0;
    while i < categories.len()
        invariant
            i <= categories.len(),
            cats == categories_view(categories@),
            emoji_views(emojis@) == categories_emojis(cats.take(i as int)),
        decreases categories.len() - i,
    {
        let games = categories[i].games();
        let ghost before = emoji_views(emojis@);
        let ghost gs = crate::model::games_view(games@);
        assert(cats[i as int] == categories@[i as int]@);
        let mut j: usize = 0;
        while j < games.len()
            invariant
                j <= games.len(),
                gs == crate::model::games_view(games@),
                emoji_views(emojis@) == before + game_emojis(gs.take(j as int)),
            decreases games.len() - j,
        {
            let ghost prev = emojis@;
            let e = games[j].emoji().clone();
            assert(gs[j as int] == games@[j as int]@);
            assert(e@ == gs[j as int].emoji);
            emojis.push(e);
            assert(emojis@ == prev.push(e));
            assert(emoji_views(emojis@) =~= emoji_views(prev).push(e@));
            assert(game_emojis(gs.take(j + 1)) =~= game_emojis(gs.take(j as int)).push(gs[j as int].emoji));
            assert(emoji_views(emojis@) =~= before + game_emojis(gs.take(j + 1)));
            j = j + 1;
        }
        assert(gs.take(j as int) =~= gs);
        assert(cats.take(i + 1).drop_last() =~= cats.take(i as int));
        i = i + 1;
    }
    assert(cats.take(i as int) =~= cats);
    emojis
}

/// What the bot does to the post of one guild when it connects: the post,
/// `message` in `channel`, gets `content` and, in place of its reactions,
/// one reaction for each of `emojis`.
pub struct PostRefresh {
    pub guild: u64,
    pub channel: u64,
    pub message: u64,
    pub content: String,
    pub emojis: Vec<Emoji>,
}

/// `refresh` renews the post of its guild in `games`.
pub open spec fn renews_post(refresh: PostRefresh, games: crate::model::GuildGamesView) -> bool {
    &&& games.msgs.contains_key(refresh.guild)
    &&& games.msgs[refresh.guild] == (refresh.channel, refresh.message)
    &&& refresh.content@ == post_text(games.guild_categories(refresh.guild))
    &&& emoji_views(refresh.emojis@) == categories_emojis(
        games.guild_categories(refresh.guild),
    )
}

/// What the bot does on connecting: renew the post of every guild that has
/// one, each once. Every such guild must have had a category.
pub fn ready_refreshes(games: &GuildGames) -> (plan: Vec<PostRefresh>)
    requires
        forall|g: u64| #[trigger] games@.msgs.contains_key(g) ==> games@.categories.contains_key(g),
    ensures
        plan@.len() == games@.msgs.dom().len(),
        forall|i: int| 0 <= i < plan@.len() ==> renews_post(#[trigger] plan@[i], games@),
        forall|g: u64|
            #[trigger] games@.msgs.contains_key(g) ==> exists|i: int|
                0 <= i < plan@.len() && #[trigger] plan@[i].guild == g,
        forall|i: int, j: int|
            0 <= i < plan@.len() && 0 <= j < plan@.len() && i != j ==> #[trigger] plan@[i].guild
                != #[trigger] plan@[j].guild,
{
    let posts = games.msgs();
    let mut plan: Vec<PostRefresh> = Vec::new();
    let mut i: usize = 0;
    while i < posts.len()
        invariant
            i <= posts.len(),
            plan@.len() == i,
            forall|g: u64| #[trigger] games@.msgs.contains_key(g) ==> games@.categories.contains_key(g),
            forall|k: int|
                0 <= k < posts@.len() ==> games@.msgs.contains_key(#[trigger] posts@[k].0)
                    && games@.msgs[posts@[k].0] == posts@[k].1,
            forall|k: int| 0 <= k < i ==> #[trigger] plan@[k].guild == posts@[k].0,
            forall|k: int| 0 <= k < i ==> renews_post(#[trigger] plan@[k], games@),
        decreases posts.len() - i,
    {
        let (guild, (channel, message)) = posts[i];
        assert(games@.msgs.contains_key(posts@[i as int].0));
        let categories = games.categories(guild).unwrap();
        let content = format_post(categories);
        let emojis = reaction_emojis(categories);
        plan.push(PostRefresh { guild, channel, message, content, emojis });
        i = i + 1;
    }
    assert forall|g: u64| #[trigger] games@.msgs.contains_key(g) implies exists|k: int|
        0 <= k < plan@.len() && #[trigger] plan@[k].guild == g by {
        let k = choose|k: int| 0 <= k < posts@.len() && #[trigger] posts@[k].0 == g;
        assert(plan@[k].guild == g);
    }
    assert forall|a: int, b: int|
        0 <= a < plan@.len() && 0 <= b < plan@.len() && a != b implies #[trigger] plan@[a].guild
        != #[trigger] plan@[b].guild by {
        assert(plan@[a].guild == posts@[a].0);
        assert(plan@[b].guild == posts@[b].0);
    }
    plan
}

} // verus!
