use guild_games::emoji::Emoji;
use guild_games::model::{Category, GuildGames};

fn emoji(id: u64, name: &str) -> Emoji {
    Emoji { id, name: name.to_string() }
}

fn category_names(games: &GuildGames, guild: u64) -> Vec<String> {
    games.categories(guild).unwrap().iter().map(|c| c.name().clone()).collect()
}

fn game_list(category: &Category) -> Vec<(String, u64, String)> {
    category
        .games()
        .iter()
        .map(|g| (g.name().clone(), g.emoji().id, g.emoji().name.clone()))
        .collect()
}

#[test]
fn new_state_is_empty() {
    let games = GuildGames::new();
    assert_eq!(games.msg(1), None);
    assert!(games.categories(1).is_none());
    assert!(games.msgs().is_empty());
}

#[test]
fn set_msg_then_msg_reads_it_back() {
    let mut games = GuildGames::new();
    games.set_msg(10, 20, 30);
    assert_eq!(games.msg(10), Some((20, 30)));
    assert_eq!(games.msg(11), None);
    games.set_msg(10, 21, 31);
    assert_eq!(games.msg(10), Some((21, 31)));
    games.set_msg(11, 5, 6);
    assert_eq!(games.msg(10), Some((21, 31)));
    let mut posts = games.msgs();
    posts.sort();
    assert_eq!(posts, vec![(10, (21, 31)), (11, (5, 6))]);
}

#[test]
fn add_category_creates_empty_category() {
    let mut games = GuildGames::new();
    games.add_category(1, "Shooters".to_string());
    games.add_category(1, "Puzzles".to_string());
    games.add_category(2, "Racing".to_string());
    assert_eq!(category_names(&games, 1), vec!["Shooters", "Puzzles"]);
    assert_eq!(category_names(&games, 2), vec!["Racing"]);
    let shooters = &games.categories(1).unwrap()[0];
    assert!(shooters.games().is_empty());
}

#[test]
fn add_category_again_resets_its_games() {
    let mut games = GuildGames::new();
    games.add_category(1, "Shooters".to_string());
    games.add_category(1, "Puzzles".to_string());
    games.add_game(1, &"Shooters".to_string(), "Quake".to_string(), emoji(7, "quake"));
    games.add_category(1, "Shooters".to_string());
    assert_eq!(category_names(&games, 1), vec!["Shooters", "Puzzles"]);
    assert!(games.categories(1).unwrap()[0].games().is_empty());
}

#[test]
fn add_category_twice_is_adding_once() {
    let mut once = GuildGames::new();
    once.add_category(3, "A".to_string());
    let mut twice = GuildGames::new();
    twice.add_category(3, "A".to_string());
    twice.add_category(3, "A".to_string());
    assert_eq!(category_names(&once, 3), category_names(&twice, 3));
}

#[test]
fn remove_category_removes_only_it() {
    let mut games = GuildGames::new();
    games.add_category(1, "A".to_string());
    games.add_category(1, "B".to_string());
    games.add_category(1, "C".to_string());
    games.add_category(2, "B".to_string());
    games.remove_category(1, "B");
    assert_eq!(category_names(&games, 1), vec!["A", "C"]);
    assert_eq!(category_names(&games, 2), vec!["B"]);
    games.remove_category(1, "missing");
    assert_eq!(category_names(&games, 1), vec!["A", "C"]);
    games.remove_category(1, "A");
    games.remove_category(1, "C");
    assert!(games.categories(1).unwrap().is_empty());
}

#[test]
fn add_game_then_read_back() {
    let mut games = GuildGames::new();
    games.add_category(1, "Shooters".to_string());
    games.add_category(1, "Puzzles".to_string());
    games.add_game(1, &"Shooters".to_string(), "Quake".to_string(), emoji(7, "quake"));
    games.add_game(1, &"Shooters".to_string(), "Doom".to_string(), emoji(8, "doom"));
    let cats = games.categories(1).unwrap();
    assert_eq!(
        game_list(&cats[0]),
        vec![
            ("Quake".to_string(), 7, "quake".to_string()),
            ("Doom".to_string(), 8, "doom".to_string())
        ]
    );
    assert!(cats[1].games().is_empty());
}

#[test]
fn add_game_with_same_name_replaces_emoji() {
    let mut games = GuildGames::new();
    games.add_category(1, "Shooters".to_string());
    games.add_game(1, &"Shooters".to_string(), "Quake".to_string(), emoji(7, "quake"));
    games.add_game(1, &"Shooters".to_string(), "Doom".to_string(), emoji(8, "doom"));
    games.add_game(1, &"Shooters".to_string(), "Quake".to_string(), emoji(9, "q3"));
    assert_eq!(
        game_list(&games.categories(1).unwrap()[0]),
        vec![
            ("Quake".to_string(), 9, "q3".to_string()),
            ("Doom".to_string(), 8, "doom".to_string())
        ]
    );
}

#[test]
fn remove_game_removes_only_it() {
    let mut games = GuildGames::new();
    games.add_category(1, "Shooters".to_string());
    games.add_game(1, &"Shooters".to_string(), "Quake".to_string(), emoji(7, "quake"));
    games.add_game(1, &"Shooters".to_string(), "Doom".to_string(), emoji(8, "doom"));
    games.remove_game(1, "Shooters", "Quake");
    assert_eq!(
        game_list(&games.categories(1).unwrap()[0]),
        vec![("Doom".to_string(), 8, "doom".to_string())]
    );
    games.remove_game(1, "Shooters", "Quake");
    assert_eq!(game_list(&games.categories(1).unwrap()[0]).len(), 1);
}

#[test]
fn category_new_has_name_and_no_game() {
    let category = Category::new("Racing".to_string());
    assert_eq!(category.name(), "Racing");
    assert!(category.games().is_empty());
}

#[test]
fn category_remove_game_undoes_add_game() {
    let mut category = Category::new("Racing".to_string());
    category.add_game("Mario Kart".to_string(), emoji(1, "kart"));
    let before = game_list(&category);
    category.add_game("F-Zero".to_string(), emoji(2, "fzero"));
    category.remove_game("F-Zero");
    assert_eq!(game_list(&category), before);
}

#[test]
fn category_add_game_last_wins() {
    let mut twice = Category::new("Racing".to_string());
    twice.add_game("Kart".to_string(), emoji(1, "a"));
    twice.add_game("Kart".to_string(), emoji(2, "b"));
    let mut once = Category::new("Racing".to_string());
    once.add_game("Kart".to_string(), emoji(2, "b"));
    assert_eq!(game_list(&twice), game_list(&once));
}

#[test]
fn posts_come_only_from_set_msg() {
    let mut games = GuildGames::new();
    games.add_category(1, "A".to_string());
    assert_eq!(games.msg(1), None);
    games.set_msg(1, 2, 3);
    games.add_game(1, &"A".to_string(), "g".to_string(), emoji(1, "e"));
    games.remove_game(1, "A", "g");
    games.remove_category(1, "A");
    games.add_category(1, "B".to_string());
    assert_eq!(games.msg(1), Some((2, 3)));
    games.set_msg(1, 4, 5);
    games.add_category(2, "C".to_string());
    assert_eq!(games.msg(1), Some((4, 5)));
    assert_eq!(games.msg(2), None);
}

#[test]
fn categories_exist_once_added_and_stay() {
    let mut games = GuildGames::new();
    games.set_msg(1, 2, 3);
    assert!(games.categories(1).is_none());
    games.add_category(1, "A".to_string());
    games.remove_category(1, "A");
    assert!(games.categories(1).is_some());
    assert!(games.categories(1).unwrap().is_empty());
    assert!(games.categories(2).is_none());
}

#[test]
fn category_name_never_changes() {
    let mut category = Category::new("Racing".to_string());
    category.add_game("Racing".to_string(), emoji(1, "a"));
    category.add_game("Kart".to_string(), emoji(2, "b"));
    category.remove_game("Racing");
    category.remove_game("Kart");
    assert_eq!(category.name(), "Racing");
}
