//! What holds of the operations on the state, over what the operations'
//! contracts say they do.

use crate::emoji::{
    emoji_text, emoji_text_parsable, lemma_plain_mention_parsable, lemma_reads_as_unique,
    mentioned_emoji, plain_emoji_name, reads_as, utf8_len, EmojiView,
};
use crate::events::{administrator_bit, categories_emojis, game_emojis, is_trashcan, ReactionEmoji};
use crate::post::{
    categories_text, category_block, game_line, games_text, no_game_text, post_text,
};
use crate::text::{bold_line, decimal};
use crate::model::{
    categories_wf, lemma_categories_upsert, lemma_categories_without, lemma_wf_insert,
    CategoryView, GameView,
    GuildGamesView,
};
use crate::named::{
    has_key, key_index, lemma_upsert, lemma_upsert_upsert, lemma_without,
    lemma_without_upsert, upsert, without,
};
use vstd::prelude::*;

verus! {

/// After a game is added to a category, the category has that game with that
/// emoji; every other game is as it was; no name occurs twice.
pub proof fn law_category_add_game(c: CategoryView, name: Seq<char>, emoji: EmojiView)
    requires
        c.wf(),
    ensures
        c.with_game(name, emoji).wf(),
        c.with_game(name, emoji).name == c.name,
        c.with_game(name, emoji).game(name) == Some(GameView { name, emoji }),
        forall|other: Seq<char>| other != name ==> c.with_game(name, emoji).game(other) == c.game(other),
{
    lemma_upsert(c.games, GameView { name, emoji });
}

/// After a game is removed from a category, the category has no game of that
/// name; every other game is as it was.
pub proof fn law_category_remove_game(c: CategoryView, name: Seq<char>)
    requires
        c.wf(),
    ensures
        c.without_game(name).wf(),
        c.without_game(name).name == c.name,
        c.without_game(name).game(name) is None,
        forall|other: Seq<char>| other != name ==> c.without_game(name).game(other) == c.game(other),
{
    lemma_without(c.games, name);
}

/// Removing a game undoes adding it: the category is as if the game had been
/// removed from the start, and is unchanged where it had no such game.
pub proof fn law_remove_game_undoes_add_game(c: CategoryView, name: Seq<char>, emoji: EmojiView)
    requires
        c.wf(),
    ensures
        c.with_game(name, emoji).without_game(name) == c.without_game(name),
        c.game(name) is None ==> c.with_game(name, emoji).without_game(name) == c,
{
    lemma_without_upsert(c.games, GameView { name, emoji });
    if c.game(name) is None {
        assert(!has_key(c.games, name));
    }
}

/// Adding a game twice under one name leaves the second emoji, as if only the
/// second had been added.
pub proof fn law_add_game_last_wins(c: CategoryView, name: Seq<char>, first: EmojiView, second: EmojiView)
    requires
        c.wf(),
    ensures
        c.with_game(name, first).with_game(name, second) == c.with_game(name, second),
{
    lemma_upsert_upsert(c.games, GameView { name, emoji: first }, GameView { name, emoji: second });
}

/// After a guild's post is set, the guild's post is there; every other
/// guild's post and all categories are as they were.
pub proof fn law_set_msg(s: GuildGamesView, guild: u64, channel: u64, message: u64)
    requires
        s.wf(),
    ensures
        s.with_msg(guild, channel, message).wf(),
        s.with_msg(guild, channel, message).msgs[guild] == (channel, message),
        forall|g: u64| g != guild ==> s.with_msg(guild, channel, message).msgs.contains_key(g) == s.msgs.contains_key(g)
            && s.with_msg(guild, channel, message).msgs[g] == s.msgs[g],
        s.with_msg(guild, channel, message).categories == s.categories,
{
}

/// After a category is added to a guild, the guild has that category with no
/// game (also where it had one of that name before); every other category
/// of every guild, and every post, is as it was.
pub proof fn law_add_category(s: GuildGamesView, guild: u64, name: Seq<char>)
    requires
        s.wf(),
    ensures
        s.with_category(guild, name).wf(),
        s.with_category(guild, name).category(guild, name) == Some(CategoryView::named(name)),
        forall|other: Seq<char>| other != name ==> s.with_category(guild, name).category(guild, other)
            == s.category(guild, other),
        forall|g: u64| g != guild ==> s.with_category(guild, name).guild_categories(g) == s.guild_categories(g),
        s.with_category(guild, name).msgs == s.msgs,
{
    let before = s.guild_categories(guild);
    lemma_upsert(before, CategoryView::named(name));
    lemma_categories_upsert(before, CategoryView::named(name));
    lemma_wf_insert(s, guild, upsert(before, CategoryView::named(name)));
}

/// Adding a category twice is adding it once.
pub proof fn law_add_category_idempotent(s: GuildGamesView, guild: u64, name: Seq<char>)
    requires
        s.wf(),
    ensures
        s.with_category(guild, name).with_category(guild, name) == s.with_category(guild, name),
{
    let before = s.guild_categories(guild);
    lemma_categories_wf_of(s, guild);
    lemma_upsert_upsert(before, CategoryView::named(name), CategoryView::named(name));
    assert(s.with_category(guild, name).with_category(guild, name).categories =~= s.with_category(
        guild,
        name,
    ).categories);
}

/// After a category is removed from a guild, the guild has no category of
/// that name; every other category of every guild, and every post, is as it
/// was.
pub proof fn law_remove_category(s: GuildGamesView, guild: u64, name: Seq<char>)
    requires
        s.wf(),
    ensures
        s.without_category(guild, name).wf(),
        s.without_category(guild, name).category(guild, name) is None,
        forall|other: Seq<char>| other != name ==> s.without_category(guild, name).category(guild, other)
            == s.category(guild, other),
        forall|g: u64| g != guild ==> s.without_category(guild, name).guild_categories(g) == s.guild_categories(g),
        s.without_category(guild, name).msgs == s.msgs,
{
    let before = s.guild_categories(guild);
    lemma_categories_wf_of(s, guild);
    lemma_without(before, name);
    lemma_categories_without(before, name);
    lemma_wf_insert(s, guild, without(before, name));
}

/// After a game is added to a category of a guild, that category is what
/// adding the game to it gives; every other category of every guild, and
/// every post, is as it was.
pub proof fn law_guild_add_game(
    s: GuildGamesView,
    guild: u64,
    category: Seq<char>,
    name: Seq<char>,
    emoji: EmojiView,
)
    requires
        s.wf(),
        s.category(guild, category) is Some,
    ensures
        s.with_game(guild, category, name, emoji).wf(),
        s.with_game(guild, category, name, emoji).category(guild, category) == Some(
            s.category(guild, category).unwrap().with_game(name, emoji),
        ),
        forall|other: Seq<char>| other != category ==> s.with_game(guild, category, name, emoji).category(
            guild,
            other,
        ) == s.category(guild, other),
        forall|g: u64| g != guild ==> s.with_game(guild, category, name, emoji).guild_categories(g)
            == s.guild_categories(g),
        s.with_game(guild, category, name, emoji).msgs == s.msgs,
{
    let before = s.guild_categories(guild);
    lemma_categories_wf_of(s, guild);
    let target = before[key_index(before, category)];
    assert(target.wf());
    law_category_add_game(target, name, emoji);
    lemma_upsert(before, target.with_game(name, emoji));
    lemma_categories_upsert(before, target.with_game(name, emoji));
    lemma_wf_insert(s, guild, upsert(before, target.with_game(name, emoji)));
}

/// After a game is removed from a category of a guild, that category is what
/// removing the game from it gives; every other category of every guild, and
/// every post, is as it was.
pub proof fn law_guild_remove_game(s: GuildGamesView, guild: u64, category: Seq<char>, name: Seq<char>)
    requires
        s.wf(),
        s.category(guild, category) is Some,
    ensures
        s.without_game(guild, category, name).wf(),
        s.without_game(guild, category, name).category(guild, category) == Some(
            s.category(guild, category).unwrap().without_game(name),
        ),
        forall|other: Seq<char>| other != category ==> s.without_game(guild, category, name).category(
            guild,
            other,
        ) == s.category(guild, other),
        forall|g: u64| g != guild ==> s.without_game(guild, category, name).guild_categories(g)
            == s.guild_categories(g),
        s.without_game(guild, category, name).msgs == s.msgs,
{
    let before = s.guild_categories(guild);
    lemma_categories_wf_of(s, guild);
    let target = before[key_index(before, category)];
    assert(target.wf());
    law_category_remove_game(target, name);
    lemma_upsert(before, target.without_game(name));
    lemma_categories_upsert(before, target.without_game(name));
    lemma_wf_insert(s, guild, upsert(before, target.without_game(name)));
}

/// A guild's categories, also where it has none, are well formed.
proof fn lemma_categories_wf_of(s: GuildGamesView, guild: u64)
    requires
        s.wf(),
    ensures
        categories_wf(s.guild_categories(guild)),
{
}

/// The mention of a custom emoji shows the whole emoji: `<:`, its whole name,
/// `:`, the decimal digits of its id, `>`.
pub proof fn law_mention_shows_whole_emoji(e: EmojiView)
    ensures
        emoji_text(e) == seq!['<', ':'] + e.name + seq![':'] + decimal(e.id as nat) + seq!['>'],
        emoji_text(e).len() == e.name.len() + decimal(e.id as nat).len() + 4,
        emoji_text(e).subrange(2, 2 + e.name.len() as int) == e.name,
{
    let t = emoji_text(e);
    assert(t.subrange(2, 2 + e.name.len() as int) =~= e.name);
}

/// Reading a mention gives the emoji back: the mention of an emoji whose name
/// is ASCII without `:` may be given to the parser, and, where it is 6 to 56
/// bytes long, it is read as that very emoji (name and id).
pub proof fn law_mention_reads_back(e: EmojiView)
    requires
        plain_emoji_name(e.name),
    ensures
        emoji_text_parsable(emoji_text(e)),
        6 <= utf8_len(emoji_text(e)) <= 56 ==> mentioned_emoji(emoji_text(e)) == Some(e),
{
    lemma_plain_mention_parsable(e);
    let t = emoji_text(e);
    if 6 <= utf8_len(t) <= 56 {
        assert(reads_as(t, e));
        let chosen = choose|x: EmojiView| #[trigger] reads_as(t, x);
        lemma_reads_as_unique(t, chosen, e);
    }
}

/// Only the wastebasket deletes: a reaction's emoji counts as the wastebasket
/// exactly when it is the standard emoji U+1F5D1 U+FE0F, and never when it is
/// a custom emoji or any other standard emoji.
pub proof fn law_only_wastebasket_deletes(emoji: ReactionEmoji)
    ensures
        is_trashcan(emoji) <==> (emoji matches ReactionEmoji::Unicode(text) && text@ == seq![
            '\u{1F5D1}',
            '\u{FE0F}',
        ]),
{
    reveal_strlit("\u{1F5D1}\u{FE0F}");
    if let ReactionEmoji::Unicode(text) = emoji {
        assert(crate::events::TRASHCAN_EMOJI@ =~= seq!['\u{1F5D1}', '\u{FE0F}']);
    }
}

/// The number of games over all the categories.
pub open spec fn total_games(categories: Seq<CategoryView>) -> nat
    decreases categories.len(),
{
    if categories.len() == 0 {
        0
    } else {
        total_games(categories.drop_last()) + categories.last().games.len()
    }
}

/// The bot reacts on a post with one emoji for each game of each category:
/// as many reactions as games, and every game's emoji among them.
pub proof fn law_reactions_cover_every_game(categories: Seq<CategoryView>)
    ensures
        categories_emojis(categories).len() == total_games(categories),
        forall|i: int, j: int|
            0 <= i < categories.len() && 0 <= j < categories[i].games.len() ==> categories_emojis(
                categories,
            ).contains(#[trigger] categories[i].games[j].emoji),
    decreases categories.len(),
{
    if categories.len() > 0 {
        let init = categories.drop_last();
        let last = categories.last();
        law_reactions_cover_every_game(init);
        let all = categories_emojis(categories);
        assert(all == categories_emojis(init) + game_emojis(last.games));
        assert forall|i: int, j: int|
            0 <= i < categories.len() && 0 <= j < categories[i].games.len() implies all.contains(
            #[trigger] categories[i].games[j].emoji,
        ) by {
            if i < categories.len() - 1 {
                assert(init[i] == categories[i]);
                let k = choose|k: int|
                    0 <= k < categories_emojis(init).len() && categories_emojis(init)[k]
                        == init[i].games[j].emoji;
                assert(all[k] == categories_emojis(init)[k]);
            } else {
                let k = categories_emojis(init).len() + j;
                assert(all[k] == game_emojis(last.games)[j]);
            }
        }
    }
}

/// `t` stands somewhere in `s`.
pub open spec fn occurs(s: Seq<char>, t: Seq<char>) -> bool {
    exists|k: int| 0 <= k && k + t.len() <= s.len() && #[trigger] s.subrange(k, k + t.len()) == t
}

proof fn lemma_occurs_middle(a: Seq<char>, t: Seq<char>, b: Seq<char>)
    ensures
        occurs(a + t + b, t),
{
    let s = a + t + b;
    assert(s.subrange(a.len() as int, (a.len() + t.len()) as int) =~= t);
}

proof fn lemma_categories_text_concat(a: Seq<CategoryView>, b: Seq<CategoryView>)
    ensures
        categories_text(a + b) == categories_text(a) + categories_text(b),
    decreases b.len(),
{
    if b.len() == 0 {
        assert(a + b =~= a);
        assert(categories_text(a) + categories_text(b) =~= categories_text(a));
    } else {
        assert((a + b).drop_last() =~= a + b.drop_last());
        lemma_categories_text_concat(a, b.drop_last());
        assert(categories_text(a + b) =~= categories_text(a) + categories_text(b));
    }
}

proof fn lemma_games_text_concat(a: Seq<GameView>, b: Seq<GameView>)
    ensures
        games_text(a + b) == games_text(a) + games_text(b),
    decreases b.len(),
{
    if b.len() == 0 {
        assert(a + b =~= a);
        assert(games_text(a) + games_text(b) =~= games_text(a));
    } else {
        assert((a + b).drop_last() =~= a + b.drop_last());
        lemma_games_text_concat(a, b.drop_last());
        assert(games_text(a + b) =~= games_text(a) + games_text(b));
    }
}

/// The post's text is the blocks of the categories before the `i`th one,
/// the `i`th one's block, and the blocks after it.
proof fn lemma_post_around(categories: Seq<CategoryView>, i: int)
    requires
        0 <= i < categories.len(),
    ensures
        post_text(categories) == categories_text(categories.take(i)) + category_block(categories[i])
            + categories_text(categories.skip(i + 1)),
{
    let a = categories.take(i);
    let b = categories.skip(i + 1);
    let mid = seq![categories[i]];
    assert(categories =~= a + mid + b);
    lemma_categories_text_concat(a + mid, b);
    lemma_categories_text_concat(a, mid);
    assert(mid.drop_last() =~= Seq::<CategoryView>::empty());
    assert(categories_text(mid.drop_last()) == Seq::<char>::empty());
    assert(categories_text(mid) =~= category_block(categories[i]));
}

/// The post names every category, in bold on a line of its own, and says
/// "Please add a game." for each category without games.
pub proof fn law_post_shows_every_category(categories: Seq<CategoryView>, i: int)
    requires
        0 <= i < categories.len(),
    ensures
        occurs(post_text(categories), seq!['*', '*'] + categories[i].name + seq!['*', '*', '\n']),
        categories[i].games.len() == 0 ==> occurs(post_text(categories), "Please add a game."@),
{
    let c = categories[i];
    let before = categories_text(categories.take(i));
    let after = categories_text(categories.skip(i + 1));
    lemma_post_around(categories, i);
    let body = if c.games.len() == 0 {
        no_game_text()
    } else {
        games_text(c.games)
    };
    let heading = seq!['*', '*'] + c.name + seq!['*', '*', '\n'];
    assert(bold_line(c.name) =~= heading);
    assert(post_text(categories) =~= before + heading + (body + seq!['\n'] + after));
    lemma_occurs_middle(before, heading, body + seq!['\n'] + after);
    if c.games.len() == 0 {
        assert(post_text(categories) =~= (before + heading) + no_game_text() + (seq!['\n'] + after));
        lemma_occurs_middle(before + heading, no_game_text(), seq!['\n'] + after);
    }
}

/// The games' text is the lines before the `j`th game, its line, and the
/// lines after it.
proof fn lemma_games_around(games: Seq<GameView>, j: int)
    requires
        0 <= j < games.len(),
    ensures
        games_text(games) == games_text(games.take(j)) + game_line(games[j]) + games_text(
            games.skip(j + 1),
        ),
{
    let ga = games.take(j);
    let gb = games.skip(j + 1);
    let gmid = seq![games[j]];
    assert(games =~= ga + gmid + gb);
    lemma_games_text_concat(ga + gmid, gb);
    lemma_games_text_concat(ga, gmid);
    assert(gmid.drop_last() =~= Seq::<GameView>::empty());
    assert(games_text(gmid.drop_last()) == Seq::<char>::empty());
    assert(games_text(gmid) =~= game_line(games[j]));
}

/// The post has a line for every game of every category: its emoji shown as
/// `<:name:id>`, ` - `, the game's name.
#[verifier::spinoff_prover]
#[verifier::rlimit(40)]
pub proof fn law_post_shows_every_game(categories: Seq<CategoryView>, i: int, j: int)
    requires
        0 <= i < categories.len(),
        0 <= j < categories[i].games.len(),
    ensures
        occurs(
            post_text(categories),
            seq!['<', ':'] + categories[i].games[j].emoji.name + seq![':'] + decimal(
                categories[i].games[j].emoji.id as nat,
            ) + seq!['>', ' ', '-', ' '] + categories[i].games[j].name + seq!['\n'],
        ),
{
    let c = categories[i];
    let g = c.games[j];
    let line = seq!['<', ':'] + g.emoji.name + seq![':'] + decimal(g.emoji.id as nat) + seq![
        '>',
        ' ',
        '-',
        ' ',
    ] + g.name + seq!['\n'];
    assert(game_line(g) =~= line);
    lemma_games_around(c.games, j);
    lemma_post_around(categories, i);
    let p = categories_text(categories.take(i));
    let q = categories_text(categories.skip(i + 1));
    let ga = games_text(c.games.take(j));
    let gb = games_text(c.games.skip(j + 1));
    assert(category_block(c) == bold_line(c.name) + games_text(c.games) + seq!['\n']);
    let before = p + bold_line(c.name) + ga;
    let after = gb + seq!['\n'] + q;
    assert(post_text(categories) =~= before + line + after);
    lemma_occurs_middle(before, line, after);
}

/// The administrator permission is the fourth bit (value 8) of the
/// permission bits: it is set exactly when the bits, halved three times, are
/// odd.
pub proof fn law_administrator_is_fourth_bit(bits: u64)
    ensures
        administrator_bit(bits) <==> (bits / 8) % 2 == 1,
{
    assert((bits & 8 == 8) <==> ((bits / 8) % 2 == 1)) by (bit_vector);
}

/// A call that changes the state of the guilds.
pub enum StateOp {
    SetMsg { guild: u64, channel: u64, message: u64 },
    AddCategory { guild: u64, name: Seq<char> },
    RemoveCategory { guild: u64, name: Seq<char> },
    AddGame { guild: u64, category: Seq<char>, name: Seq<char>, emoji: EmojiView },
    RemoveGame { guild: u64, category: Seq<char>, name: Seq<char> },
}

/// The state after the call.
pub open spec fn apply_op(s: GuildGamesView, op: StateOp) -> GuildGamesView {
    match op {
        StateOp::SetMsg { guild, channel, message } => s.with_msg(guild, channel, message),
        StateOp::AddCategory { guild, name } => s.with_category(guild, name),
        StateOp::RemoveCategory { guild, name } => s.without_category(guild, name),
        StateOp::AddGame { guild, category, name, emoji } => s.with_game(guild, category, name, emoji),
        StateOp::RemoveGame { guild, category, name } => s.without_game(guild, category, name),
    }
}

/// The call may be made on `s`: a category is removed only from a guild that
/// has had one, and a game is added to or removed from an existing category.
pub open spec fn op_allowed(s: GuildGamesView, op: StateOp) -> bool {
    match op {
        StateOp::RemoveCategory { guild, .. } => s.categories.contains_key(guild),
        StateOp::AddGame { guild, category, .. } => s.category(guild, category) is Some,
        StateOp::RemoveGame { guild, category, .. } => s.category(guild, category) is Some,
        _ => true,
    }
}

/// The state after the calls, in order.
pub open spec fn run_ops(s: GuildGamesView, ops: Seq<StateOp>) -> GuildGamesView
    decreases ops.len(),
{
    if ops.len() == 0 {
        s
    } else {
        apply_op(run_ops(s, ops.drop_last()), ops.last())
    }
}

/// Each call may be made on the state that the calls before it leave.
pub open spec fn ops_allowed(s: GuildGamesView, ops: Seq<StateOp>) -> bool
    decreases ops.len(),
{
    if ops.len() == 0 {
        true
    } else {
        ops_allowed(s, ops.drop_last()) && op_allowed(run_ops(s, ops.drop_last()), ops.last())
    }
}

/// The state of a new `GuildGames`.
pub open spec fn initial_state() -> GuildGamesView {
    GuildGamesView { msgs: Map::empty(), categories: Map::empty() }
}

/// The post that the last `set_msg` of `guild` among the calls set, if any.
pub open spec fn last_post(ops: Seq<StateOp>, guild: u64) -> Option<(u64, u64)>
    decreases ops.len(),
{
    if ops.len() == 0 {
        None
    } else {
        match ops.last() {
            StateOp::SetMsg { guild: g, channel, message } if g == guild => Some((channel, message)),
            _ => last_post(ops.drop_last(), guild),
        }
    }
}

/// Some call among them adds a category to `guild`.
pub open spec fn category_added(ops: Seq<StateOp>, guild: u64) -> bool
    decreases ops.len(),
{
    if ops.len() == 0 {
        false
    } else {
        category_added(ops.drop_last(), guild) || (ops.last() matches StateOp::AddCategory {
            guild: g,
            ..
        } && g == guild)
    }
}

/// Only `set_msg` sets a post, and nothing removes one: after any calls from
/// a new state, a guild has a post exactly when some `set_msg` was made for
/// it, and the post is the one the last such call set.
pub proof fn law_posts_come_from_set_msg(ops: Seq<StateOp>, guild: u64)
    ensures
        run_ops(initial_state(), ops).msgs.contains_key(guild) == (last_post(ops, guild) is Some),
        last_post(ops, guild) matches Some(post) ==> run_ops(initial_state(), ops).msgs[guild] == post,
    decreases ops.len(),
{
    if ops.len() > 0 {
        law_posts_come_from_set_msg(ops.drop_last(), guild);
    }
}

/// A guild has categories (possibly none left) exactly once a category has
/// been added to it, and keeps them: after any calls from a new state, each
/// made on a state that allows it, the guild's categories exist exactly when
/// some `add_category` was made for it.
pub proof fn law_categories_exist_once_added(ops: Seq<StateOp>, guild: u64)
    requires
        ops_allowed(initial_state(), ops),
    ensures
        run_ops(initial_state(), ops).categories.contains_key(guild) == category_added(ops, guild),
    decreases ops.len(),
{
    if ops.len() > 0 {
        let before = run_ops(initial_state(), ops.drop_last());
        law_categories_exist_once_added(ops.drop_last(), guild);
        match ops.last() {
            StateOp::AddGame { guild: g, category, .. } => {
                if !before.categories.contains_key(g) {
                    assert(before.guild_categories(g) =~= Seq::<CategoryView>::empty());
                }
            },
            StateOp::RemoveGame { guild: g, category, .. } => {
                if !before.categories.contains_key(g) {
                    assert(before.guild_categories(g) =~= Seq::<CategoryView>::empty());
                }
            },
            _ => {},
        }
    }
}

/// Every state reached from a new state by allowed calls is well formed.
pub proof fn law_runs_stay_well_formed(ops: Seq<StateOp>)
    requires
        ops_allowed(initial_state(), ops),
    ensures
        run_ops(initial_state(), ops).wf(),
    decreases ops.len(),
{
    if ops.len() > 0 {
        let before = run_ops(initial_state(), ops.drop_last());
        law_runs_stay_well_formed(ops.drop_last());
        match ops.last() {
            StateOp::SetMsg { guild, channel, message } => law_set_msg(before, guild, channel, message),
            StateOp::AddCategory { guild, name } => law_add_category(before, guild, name),
            StateOp::RemoveCategory { guild, name } => law_remove_category(before, guild, name),
            StateOp::AddGame { guild, category, name, emoji } => law_guild_add_game(
                before,
                guild,
                category,
                name,
                emoji,
            ),
            StateOp::RemoveGame { guild, category, name } => law_guild_remove_game(
                before,
                guild,
                category,
                name,
            ),
        }
    }
}

/// A call that changes a category's games.
pub enum GameOp {
    Add { name: Seq<char>, emoji: EmojiView },
    Remove { name: Seq<char> },
}

/// The category after the calls, in order.
pub open spec fn run_game_ops(c: CategoryView, ops: Seq<GameOp>) -> CategoryView
    decreases ops.len(),
{
    if ops.len() == 0 {
        c
    } else {
        let before = run_game_ops(c, ops.drop_last());
        match ops.last() {
            GameOp::Add { name, emoji } => before.with_game(name, emoji),
            GameOp::Remove { name } => before.without_game(name),
        }
    }
}

/// No call changes a category's name: after any games are added and removed,
/// the category has the name it was made with.
pub proof fn law_category_name_kept(c: CategoryView, ops: Seq<GameOp>)
    ensures
        run_game_ops(c, ops).name == c.name,
    decreases ops.len(),
{
    if ops.len() > 0 {
        law_category_name_kept(c, ops.drop_last());
    }
}

} // verus!
