//! The state of the bot: for each guild, where its post stands and which
//! categories of games it lists.

use crate::emoji::{Emoji, EmojiView};
use crate::named::{
    has_key, key_index, lemma_key_index, lemma_upsert, lemma_without, lookup, unique_keys,
    upsert, without, Named,
};
use std::collections::HashMap;
use vstd::std_specs::hash::spec_hash_map_iter;
use vstd::std_specs::iter::IteratorSpec;
use vstd::prelude::*;

verus! {

broadcast use vstd::std_specs::hash::group_hash_axioms;

/// A game of a category, with the emoji that stands for it.
pub struct Game {
    name: String,
    emoji: Emoji,
}

/// What a [`Game`] is: its name and its emoji.
pub struct GameView {
    pub name: Seq<char>,
    pub emoji: EmojiView,
}

impl Named for GameView {
    open spec fn key(&self) -> Seq<char> {
        self.name
    }
}

impl View for Game {
    type V = GameView;

    closed spec fn view(&self) -> GameView {
        GameView { name: self.name@, emoji: self.emoji@ }
    }
}

impl Game {
    pub fn name(&self) -> (name: &String)
        ensures
            name@ == self@.name,
    {
        &self.name
    }

    pub fn emoji(&self) -> (emoji: &Emoji)
        ensures
            emoji@ == self@.emoji,
    {
        &self.emoji
    }
}

/// The games of a stored sequence, as what they are.
pub open spec fn games_view(games: Seq<Game>) -> Seq<GameView> {
    games.map_values(|g: Game| g@)
}

/// A named category of games.
pub struct Category {
    name: String,
    games: Vec<Game>,
}

/// What a [`Category`] is: its name and its games, each name once, in the
/// order in which they were first added.
pub struct CategoryView {
    pub name: Seq<char>,
    pub games: Seq<GameView>,
}

impl Named for CategoryView {
    open spec fn key(&self) -> Seq<char> {
        self.name
    }
}

impl CategoryView {
    /// A category with this name and no game.
    pub open spec fn named(name: Seq<char>) -> CategoryView {
        CategoryView { name, games: Seq::empty() }
    }

    /// No two games of the category share a name.
    pub open spec fn wf(self) -> bool {
        unique_keys(self.games)
    }

    /// The game of this name, if any.
    pub open spec fn game(self, name: Seq<char>) -> Option<GameView> {
        lookup(self.games, name)
    }

    /// The category with the game `name` reacted with `emoji`, in place of
    /// any game of that name.
    pub open spec fn with_game(self, name: Seq<char>, emoji: EmojiView) -> CategoryView {
        CategoryView { games: upsert(self.games, GameView { name, emoji }), ..self }
    }

    /// The category without the game `name`.
    pub open spec fn without_game(self, name: Seq<char>) -> CategoryView {
        CategoryView { games: without(self.games, name), ..self }
    }
}

impl View for Category {
    type V = CategoryView;

    closed spec fn view(&self) -> CategoryView {
        CategoryView { name: self.name@, games: games_view(self.games@) }
    }
}

/// The position in `games` of the game named `name`.
fn game_position(games: &Vec<Game>, name: &String) -> (pos: Option<usize>)
    ensures
        match pos {
            Some(i) => i < games.len() && games@[i as int].name@ == name@,
            None => !has_key(games_view(games@), name@),
        },
{
    let mut i: usize = 0;
    while i < games.len()
        invariant
            i <= games.len(),
            forall|j: int| 0 <= j < i ==> games@[j].name@ != name@,
        decreases games.len() - i,
    {
        if games[i].name == *name {
            return Some(i);
        }
        i = i + 1;
    }
    assert forall|j: int| 0 <= j < games_view(games@).len() implies #[trigger] games_view(
        games@,
    )[j].key() != name@ by {
        assert(games_view(games@)[j] == games@[j]@);
    }
    None
}

impl Category {
    /// Its games have distinct names.
    #[verifier::type_invariant]
    spec fn inv(self) -> bool {
        self@.wf()
    }

    pub fn new(name: String) -> (category: Category)
        ensures
            category@ == CategoryView::named(name@),
            category@.wf(),
    {
        let category = Category { name, games: Vec::new() };
        assert(category@.games =~= Seq::<GameView>::empty());
        category
    }

    pub fn name(&self) -> (name: &String)
        ensures
            name@ == self@.name,
    {
        &self.name
    }

    /// Adds the game `name` with its emoji; a game of that name is replaced.
    pub fn add_game(&mut self, name: String, emoji: Emoji)
        ensures
            final(self)@ == old(self)@.with_game(name@, emoji@),
            final(self)@.wf(),
    {
        proof {
            use_type_invariant(&*self);
        }
        let ghost before = games_view(self.games@);
        let ghost added = GameView { name: name@, emoji: emoji@ };
        proof {
            lemma_upsert(before, added);
        }
        let mut games: Vec<Game> = Vec::new();
        std::mem::swap(&mut games, &mut self.games);
        match game_position(&games, &name) {
            Some(i) => {
                proof {
                    lemma_key_index(before, name@, i as int);
                }
                games.set(i, Game { name, emoji });
            },
            None => {
                games.push(Game { name, emoji });
            },
        }
        assert(games_view(games@) =~= upsert(before, added));
        self.games = games;
    }

    /// Removes the game `name`, if there is one.
    pub fn remove_game(&mut self, name: &str)
        ensures
            final(self)@ == old(self)@.without_game(name@),
            final(self)@.wf(),
    {
        proof {
            use_type_invariant(&*self);
        }
        let ghost before = games_view(self.games@);
        proof {
            lemma_without(before, name@);
        }
        let key = name.to_owned();
        let mut games: Vec<Game> = Vec::new();
        std::mem::swap(&mut games, &mut self.games);
        match game_position(&games, &key) {
            Some(i) => {
                proof {
                    lemma_key_index(before, name@, i as int);
                }
                games.remove(i);
            },
            None => {},
        }
        assert(games_view(games@) =~= without(before, name@));
        self.games = games;
    }

    pub fn games(&self) -> (games: &Vec<Game>)
        ensures
            games_view(games@) == self@.games,
    {
        &self.games
    }
}

} // verus!

verus! {

/// The categories of a stored sequence, as what they are.
pub open spec fn categories_view(categories: Seq<Category>) -> Seq<CategoryView> {
    categories.map_values(|c: Category| c@)
}

/// Every category of the sequence is well formed and no two share a name.
pub open spec fn categories_wf(categories: Seq<CategoryView>) -> bool {
    &&& unique_keys(categories)
    &&& forall|i: int| 0 <= i < categories.len() ==> (#[trigger] categories[i]).wf()
}

/// The position in `categories` of the category named `name`.
fn category_position(categories: &Vec<Category>, name: &String) -> (pos: Option<usize>)
    ensures
        match pos {
            Some(i) => i < categories.len() && categories@[i as int]@.name == name@,
            None => !has_key(categories_view(categories@), name@),
        },
{
    let mut i: usize = 0;
    while i < categories.len()
        invariant
            i <= categories.len(),
            forall|j: int| 0 <= j < i ==> categories@[j]@.name != name@,
        decreases categories.len() - i,
    {
        if *categories[i].name() == *name {
            return Some(i);
        }
        i = i + 1;
    }
    assert forall|j: int| 0 <= j < categories_view(categories@).len() implies #[trigger] categories_view(
        categories@,
    )[j].key() != name@ by {
        assert(categories_view(categories@)[j] == categories@[j]@);
    }
    None
}

/// Storing a well formed category keeps a guild's categories well formed.
pub(crate) proof fn lemma_categories_upsert(s: Seq<CategoryView>, c: CategoryView)
    requires
        categories_wf(s),
        c.wf(),
    ensures
        categories_wf(upsert(s, c)),
{
    lemma_upsert(s, c);
    let t = upsert(s, c);
    assert forall|i: int| 0 <= i < t.len() implies (#[trigger] t[i]).wf() by {
        if i < s.len() && t[i] != c {
            assert(t[i] == s[i]);
        }
    }
}

/// Removing a category keeps a guild's categories well formed.
pub(crate) proof fn lemma_categories_without(s: Seq<CategoryView>, name: Seq<char>)
    requires
        categories_wf(s),
    ensures
        categories_wf(without(s, name)),
{
    lemma_without(s, name);
    let t = without(s, name);
    if has_key(s, name) {
        let p = key_index(s, name);
        assert forall|i: int| 0 <= i < t.len() implies (#[trigger] t[i]).wf() by {
            if i < p {
                assert(t[i] == s[i]);
            } else {
                assert(t[i] == s[i + 1]);
            }
        }
    }
}

/// The categories of each guild, as what they are.
pub open spec fn guild_categories_view(m: Map<u64, Vec<Category>>) -> Map<u64, Seq<CategoryView>> {
    m.map_values(|v: Vec<Category>| categories_view(v@))
}

/// Replacing a guild's categories by well formed ones keeps the state well
/// formed.
pub(crate) proof fn lemma_wf_insert(s: GuildGamesView, guild: u64, categories: Seq<CategoryView>)
    requires
        s.wf(),
        categories_wf(categories),
    ensures
        (GuildGamesView { categories: s.categories.insert(guild, categories), ..s }).wf(),
{
}

/// Whether the state is well formed does not depend on the posts.
proof fn lemma_wf_any_msgs(s: GuildGamesView, msgs: Map<u64, (u64, u64)>)
    requires
        s.wf(),
    ensures
        (GuildGamesView { msgs, ..s }).wf(),
{
    assert forall|g: u64| #[trigger] (GuildGamesView { msgs, ..s }).categories.contains_key(g) implies categories_wf(
        (GuildGamesView { msgs, ..s }).categories[g],
    ) by {
        assert(s.categories.contains_key(g));
    }
}

/// For each guild: the channel and the message of its post, and its
/// categories of games.
pub struct GuildGames {
    guild_msg: HashMap<u64, (u64, u64)>,
    guild_categories: HashMap<u64, Vec<Category>>,
}

/// What a [`GuildGames`] holds: by guild id, the (channel id, message id) of
/// the guild's post, and the guild's categories, each name once, in the order
/// in which they were first added.
pub struct GuildGamesView {
    pub msgs: Map<u64, (u64, u64)>,
    pub categories: Map<u64, Seq<CategoryView>>,
}

impl GuildGamesView {
    /// Every guild's categories are well formed and named apart.
    pub open spec fn wf(self) -> bool {
        forall|g: u64| #[trigger] self.categories.contains_key(g) ==> categories_wf(self.categories[g])
    }

    /// The categories of a guild; none where the guild has none yet.
    pub open spec fn guild_categories(self, guild: u64) -> Seq<CategoryView> {
        if self.categories.contains_key(guild) {
            self.categories[guild]
        } else {
            Seq::empty()
        }
    }

    /// The category `name` of a guild, if any.
    pub open spec fn category(self, guild: u64, name: Seq<char>) -> Option<CategoryView> {
        lookup(self.guild_categories(guild), name)
    }

    /// The post of `guild` is `message` in `channel`.
    pub open spec fn with_msg(self, guild: u64, channel: u64, message: u64) -> GuildGamesView {
        GuildGamesView { msgs: self.msgs.insert(guild, (channel, message)), ..self }
    }

    /// The guild has a category `name` without games, in place of any
    /// category of that name.
    pub open spec fn with_category(self, guild: u64, name: Seq<char>) -> GuildGamesView {
        GuildGamesView {
            categories: self.categories.insert(
                guild,
                upsert(self.guild_categories(guild), CategoryView::named(name)),
            ),
            ..self
        }
    }

    /// The guild has no category `name`.
    pub open spec fn without_category(self, guild: u64, name: Seq<char>) -> GuildGamesView {
        GuildGamesView {
            categories: self.categories.insert(guild, without(self.guild_categories(guild), name)),
            ..self
        }
    }

    /// The category `category` of the guild has the game `name` reacted with
    /// `emoji` (where the guild has that category).
    pub open spec fn with_game(
        self,
        guild: u64,
        category: Seq<char>,
        name: Seq<char>,
        emoji: EmojiView,
    ) -> GuildGamesView {
        let categories = self.guild_categories(guild);
        GuildGamesView {
            categories: self.categories.insert(
                guild,
                upsert(categories, categories[key_index(categories, category)].with_game(name, emoji)),
            ),
            ..self
        }
    }

    /// The category `category` of the guild has no game `name` (where the
    /// guild has that category).
    pub open spec fn without_game(self, guild: u64, category: Seq<char>, name: Seq<char>) -> GuildGamesView {
        let categories = self.guild_categories(guild);
        GuildGamesView {
            categories: self.categories.insert(
                guild,
                upsert(categories, categories[key_index(categories, category)].without_game(name)),
            ),
            ..self
        }
    }
}

impl View for GuildGames {
    type V = GuildGamesView;

    closed spec fn view(&self) -> GuildGamesView {
        GuildGamesView {
            msgs: self.guild_msg@,
            categories: guild_categories_view(self.guild_categories@),
        }
    }
}

impl GuildGames {
    /// Every guild's categories are well formed and named apart.
    #[verifier::type_invariant]
    pub(crate) open spec fn inv(self) -> bool {
        self@.wf()
    }

    pub fn new() -> (games: GuildGames)
        ensures
            games@.msgs == Map::<u64, (u64, u64)>::empty(),
            games@.categories == Map::<u64, Seq<CategoryView>>::empty(),
            games@.wf(),
    {
        let games = GuildGames { guild_msg: HashMap::new(), guild_categories: HashMap::new() };
        assert(games@.categories =~= Map::<u64, Seq<CategoryView>>::empty());
        games
    }

    /// The channel and the message of the guild's post, if it has one.
    pub fn msg(&self, guild_id: u64) -> (msg: Option<(u64, u64)>)
        ensures
            msg == (if self@.msgs.contains_key(guild_id) {
                Some(self@.msgs[guild_id])
            } else {
                None
            }),
    {
        match self.guild_msg.get(&guild_id) {
            Some(m) => Some(*m),
            None => None,
        }
    }

    /// The categories of the guild, if it has ever had one.
    pub fn categories(&self, guild_id: u64) -> (categories: Option<&Vec<Category>>)
        ensures
            match categories {
                Some(c) => self@.categories.contains_key(guild_id) && categories_view(c@)
                    == self@.categories[guild_id],
                None => !self@.categories.contains_key(guild_id),
            },
    {
        self.guild_categories.get(&guild_id)
    }

    /// The post of the guild is now `message_id` in `channel_id`.
    pub fn set_msg(&mut self, guild_id: u64, channel_id: u64, message_id: u64)
        ensures
            final(self)@ == old(self)@.with_msg(guild_id, channel_id, message_id),
            final(self)@.wf(),
    {
        proof {
            use_type_invariant(&*self);
        }
        let mut msgs: HashMap<u64, (u64, u64)> = HashMap::new();
        proof {
            lemma_wf_any_msgs(self@, msgs@);
        }
        std::mem::swap(&mut msgs, &mut self.guild_msg);
        assert(self@.categories == old(self)@.categories);
        msgs.insert(guild_id, (channel_id, message_id));
        proof {
            lemma_wf_any_msgs(self@, msgs@);
        }
        self.guild_msg = msgs;
    }

    /// Gives the guild a category `name` without games; a category of that
    /// name is replaced by it.
    pub fn add_category(&mut self, guild_id: u64, category_name: String)
        ensures
            final(self)@ == old(self)@.with_category(guild_id, category_name@),
            final(self)@.wf(),
    {
        proof {
            use_type_invariant(&*self);
        }
        let ghost before = old(self)@.guild_categories(guild_id);
        let mut map: HashMap<u64, Vec<Category>> = HashMap::new();
        std::mem::swap(&mut map, &mut self.guild_categories);
        let mut categories = match map.remove(&guild_id) {
            Some(c) => c,
            None => Vec::new(),
        };
        assert(categories_view(categories@) =~= before);
        let key = category_name.clone();
        let category = Category::new(category_name);
        proof {
            lemma_upsert(before, category@);
            lemma_categories_upsert(before, category@);
        }
        match category_position(&categories, &key) {
            Some(i) => {
                proof {
                    lemma_key_index(before, key@, i as int);
                }
                categories.set(i, category);
            },
            None => {
                categories.push(category);
            },
        }
        assert(categories_view(categories@) =~= upsert(before, CategoryView::named(key@)));
        map.insert(guild_id, categories);
        assert(guild_categories_view(map@) =~= old(self)@.with_category(guild_id, key@).categories);
        self.guild_categories = map;
    }

    /// Removes the guild's category `name`, if there is one. The guild must
    /// have had a category.
    pub fn remove_category(&mut self, guild_id: u64, category_name: &str)
        requires
            old(self)@.categories.contains_key(guild_id),
        ensures
            final(self)@ == old(self)@.without_category(guild_id, category_name@),
            final(self)@.wf(),
    {
        proof {
            use_type_invariant(&*self);
        }
        let ghost before = old(self)@.guild_categories(guild_id);
        let mut map: HashMap<u64, Vec<Category>> = HashMap::new();
        std::mem::swap(&mut map, &mut self.guild_categories);
        let mut categories = map.remove(&guild_id).unwrap();
        assert(categories_view(categories@) =~= before);
        proof {
            lemma_categories_without(before, category_name@);
        }
        let key = category_name.to_owned();
        match category_position(&categories, &key) {
            Some(i) => {
                proof {
                    lemma_key_index(before, key@, i as int);
                }
                categories.remove(i);
            },
            None => {},
        }
        assert(categories_view(categories@) =~= without(before, category_name@));
        map.insert(guild_id, categories);
        assert(guild_categories_view(map@) =~= old(self)@.without_category(guild_id, category_name@).categories);
        self.guild_categories = map;
    }

    /// Adds the game `name`, with its emoji, to the guild's category
    /// `category_name`; a game of that name is replaced. The category must
    /// exist.
    pub fn add_game(&mut self, guild_id: u64, category_name: &String, name: String, emoji: Emoji)
        requires
            old(self)@.categories.contains_key(guild_id),
            has_key(old(self)@.categories[guild_id], category_name@),
        ensures
            final(self)@ == old(self)@.with_game(guild_id, category_name@, name@, emoji@),
            final(self)@.wf(),
    {
        proof {
            use_type_invariant(&*self);
        }
        let ghost before = old(self)@.guild_categories(guild_id);
        let mut map: HashMap<u64, Vec<Category>> = HashMap::new();
        std::mem::swap(&mut map, &mut self.guild_categories);
        let ghost target = before[key_index(before, category_name@)];
        let ghost game_name = name@;
        let ghost game_emoji = emoji@;
        let mut categories = map.remove(&guild_id).unwrap();
        assert(categories_view(categories@) =~= before);
        let i = category_position(&categories, category_name).unwrap();
        proof {
            lemma_key_index(before, category_name@, i as int);
            assert(categories_view(categories@)[i as int] == categories@[i as int]@);
        }
        let mut category = categories.remove(i);
        assert(category@ == target);
        category.add_game(name, emoji);
        categories.insert(i, category);
        proof {
            lemma_upsert(before, category@);
            lemma_categories_upsert(before, category@);
        }
        assert(categories_view(categories@) =~= upsert(before, target.with_game(game_name, game_emoji)));
        map.insert(guild_id, categories);
        assert(guild_categories_view(map@) =~= old(self)@.with_game(
            guild_id,
            category_name@,
            game_name,
            game_emoji,
        ).categories);
        self.guild_categories = map;
    }

    /// Removes the game `name` from the guild's category `category_name`, if
    /// it is there. The category must exist.
    pub fn remove_game(&mut self, guild_id: u64, category_name: &str, name: &str)
        requires
            old(self)@.categories.contains_key(guild_id),
            has_key(old(self)@.categories[guild_id], category_name@),
        ensures
            final(self)@ == old(self)@.without_game(guild_id, category_name@, name@),
            final(self)@.wf(),
    {
        proof {
            use_type_invariant(&*self);
        }
        let ghost before = old(self)@.guild_categories(guild_id);
        let mut map: HashMap<u64, Vec<Category>> = HashMap::new();
        std::mem::swap(&mut map, &mut self.guild_categories);
        let ghost target = before[key_index(before, category_name@)];
        let mut categories = map.remove(&guild_id).unwrap();
        assert(categories_view(categories@) =~= before);
        let key = category_name.to_owned();
        let i = category_position(&categories, &key).unwrap();
        proof {
            lemma_key_index(before, category_name@, i as int);
            assert(categories_view(categories@)[i as int] == categories@[i as int]@);
        }
        let mut category = categories.remove(i);
        assert(category@ == target);
        category.remove_game(name);
        categories.insert(i, category);
        proof {
            lemma_upsert(before, category@);
            lemma_categories_upsert(before, category@);
        }
        assert(categories_view(categories@) =~= upsert(before, target.without_game(name@)));
        map.insert(guild_id, categories);
        assert(guild_categories_view(map@) =~= old(self)@.without_game(guild_id, category_name@, name@).categories);
        self.guild_categories = map;
    }
    /// The posts of all guilds that have one, as (guild, (channel, message)),
    /// each guild once, in no particular order.
    pub fn msgs(&self) -> (posts: Vec<(u64, (u64, u64))>)
        ensures
            posts@.len() == self@.msgs.dom().len(),
            forall|i: int|
                0 <= i < posts@.len() ==> self@.msgs.contains_key(#[trigger] posts@[i].0)
                    && self@.msgs[posts@[i].0] == posts@[i].1,
            forall|g: u64|
                #[trigger] self@.msgs.contains_key(g) ==> exists|i: int|
                    0 <= i < posts@.len() && #[trigger] posts@[i].0 == g,
            forall|i: int, j: int|
                0 <= i < posts@.len() && 0 <= j < posts@.len() && i != j ==> #[trigger] posts@[i].0
                    != #[trigger] posts@[j].0,
    {
        let mut posts: Vec<(u64, (u64, u64))> = Vec::new();
        let ghost v = spec_hash_map_iter(&self.guild_msg).remaining();
        for entry in it: self.guild_msg.iter()
            invariant
                it.seq() == v,
                posts@.len() == it.index(),
                forall|i: int| 0 <= i < it.index() ==> #[trigger] posts@[i] == (*v[i].0, *v[i].1),
        {
            let (g, m) = entry;
            posts.push((*g, *m));
        }
        assert forall|g: u64| #[trigger] self@.msgs.contains_key(g) implies exists|i: int|
            0 <= i < posts@.len() && #[trigger] posts@[i].0 == g by {
            assert(v.contains((&g, &self.guild_msg@[g])));
            let i = choose|i: int| 0 <= i < v.len() && v[i] == (&g, &self.guild_msg@[g]);
            assert(posts@[i].0 == g);
        }
        assert forall|i: int, j: int|
            0 <= i < posts@.len() && 0 <= j < posts@.len() && i != j implies #[trigger] posts@[i].0
            != #[trigger] posts@[j].0 by {
            if posts@[i].0 == posts@[j].0 {
                assert(self.guild_msg@.contains_key(*v[i].0));
                assert(self.guild_msg@.contains_key(*v[j].0));
                assert(v[i] == v[j]);
            }
        }
        posts
    }
}

} // verus!
