use guild_games::commands::{
    add_category, add_game, remove_category, remove_game, try_add_game, CommandReply,
};
use guild_games::model::GuildGames;

fn args(list: &[&str]) -> Vec<String> {
    list.iter().map(|s| s.to_string()).collect()
}

fn refreshed(reply: CommandReply) -> (u64, u64, String) {
    match reply {
        CommandReply::Refresh { channel, message, content } => (channel, message, content),
        CommandReply::Usage(text) => panic!("unexpected usage answer: {}", text),
    }
}

fn usage(reply: CommandReply) -> String {
    match reply {
        CommandReply::Usage(text) => text,
        CommandReply::Refresh { .. } => panic!("unexpected refresh"),
    }
}

fn with_post() -> GuildGames {
    let mut games = GuildGames::new();
    games.set_msg(1, 50, 60);
    games
}

#[test]
fn add_category_command_refreshes_post() {
    let mut games = with_post();
    let reply = add_category(&mut games, 1, 99, &args(&["Shooters"]));
    assert_eq!(refreshed(reply), (50, 60, "**Shooters**\nPlease add a game.\n".to_string()));
}

#[test]
fn add_category_command_wrong_arguments() {
    let mut games = with_post();
    let reply = add_category(&mut games, 1, 99, &args(&["A", "B"]));
    assert_eq!(
        usage(reply),
        "Wrong number of arguments (2 instead of 1)\nUse \"<@99> add_category category_name\" to add a category"
    );
    assert!(games.categories(1).is_none());
}

#[test]
fn remove_category_command() {
    let mut games = with_post();
    add_category(&mut games, 1, 99, &args(&["Shooters"]));
    let reply = remove_category(&mut games, 1, 99, &args(&["Shooters"]));
    assert_eq!(refreshed(reply), (50, 60, "Please add a category.".to_string()));
    let reply = remove_category(&mut games, 1, 99, &args(&[]));
    assert_eq!(
        usage(reply),
        "Wrong number of arguments (0 instead of 1)\nUse \"<@99> remove_category category_name\" to remove a category"
    );
}

#[test]
fn add_game_command() {
    let mut games = with_post();
    add_category(&mut games, 1, 99, &args(&["Shooters"]));
    let reply = add_game(&mut games, 1, 99, &args(&["Shooters", "Quake", "<:quake:42>"]));
    assert_eq!(refreshed(reply), (50, 60, "**Shooters**\n<:quake:42> - Quake\n\n".to_string()));
}

#[test]
fn try_add_game_with_bad_emoji_changes_nothing() {
    let mut games = with_post();
    add_category(&mut games, 1, 99, &args(&["Shooters"]));
    let reply = try_add_game(&mut games, 1, 99, &args(&["Shooters", "Quake", "quake"]));
    assert!(reply.is_none());
    assert!(games.categories(1).unwrap()[0].games().is_empty());
}

#[test]
fn add_game_command_wrong_arguments() {
    let mut games = with_post();
    let reply = add_game(&mut games, 1, 5, &args(&["Shooters"]));
    assert_eq!(
        usage(reply),
        "Wrong number of arguments (1 instead of 3)\nUse \"<@5> add_game category_name game_name emoji\" to add a game"
    );
}

#[test]
fn remove_game_command() {
    let mut games = with_post();
    add_category(&mut games, 1, 99, &args(&["Shooters"]));
    add_game(&mut games, 1, 99, &args(&["Shooters", "Quake", "<:quake:42>"]));
    let reply = remove_game(&mut games, 1, 99, &args(&["Shooters", "Quake"]));
    assert_eq!(refreshed(reply), (50, 60, "**Shooters**\nPlease add a game.\n".to_string()));
    let reply = remove_game(&mut games, 1, 99, &args(&["Shooters"]));
    assert_eq!(
        usage(reply),
        "Wrong number of arguments (1 instead of 2)\nUse \"<@99> remove_game category_name game_name\" to remove a game"
    );
}

#[test]
fn try_add_game_with_custom_emoji_adds_it() {
    let mut games = with_post();
    add_category(&mut games, 1, 99, &args(&["Shooters"]));
    let reply = try_add_game(&mut games, 1, 99, &args(&["Shooters", "Doom", "<:doom:7>"])).unwrap();
    assert_eq!(refreshed(reply), (50, 60, "**Shooters**\n<:doom:7> - Doom\n\n".to_string()));
}
