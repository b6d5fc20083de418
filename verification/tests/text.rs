use guild_games::commands::{here_message, wrong_argument_message};
use guild_games::emoji::Emoji;
use guild_games::model::GuildGames;
use guild_games::post::format_post;

#[test]
fn post_without_categories_asks_for_one() {
    assert_eq!(format_post(&Vec::new()), "Please add a category.");
}

#[test]
fn post_lists_categories_and_games() {
    let mut games = GuildGames::new();
    games.add_category(1, "Shooters".to_string());
    games.add_category(1, "Puzzles".to_string());
    games.add_game(1, &"Shooters".to_string(), "Quake".to_string(), Emoji { id: 123, name: "quake".to_string() });
    games.add_game(1, &"Shooters".to_string(), "Doom".to_string(), Emoji { id: 4567890123, name: "doom".to_string() });
    let post = format_post(games.categories(1).unwrap());
    assert_eq!(
        post,
        "**Shooters**\n<:quake:123> - Quake\n<:doom:4567890123> - Doom\n\n**Puzzles**\nPlease add a game.\n"
    );
}

#[test]
fn emoji_mention_text() {
    let e = Emoji { id: 0, name: "zero".to_string() };
    assert_eq!(e.mention(), "<:zero:0>");
    let e = Emoji { id: u64::MAX, name: "big".to_string() };
    assert_eq!(e.mention(), "<:big:18446744073709551615>");
}

#[test]
fn wrong_argument_message_text() {
    let text = wrong_argument_message(2, 1, 42, "add_category", vec!["category_name"], "add a category");
    assert_eq!(
        text,
        "Wrong number of arguments (2 instead of 1)\nUse \"<@42> add_category category_name\" to add a category"
    );
    let text = wrong_argument_message(0, 3, 7, "add_game", vec!["a", "b", "c"], "do it");
    assert_eq!(text, "Wrong number of arguments (0 instead of 3)\nUse \"<@7> add_game a b c\" to do it");
    let text = wrong_argument_message(10, 0, 1, "x", vec![], "");
    assert_eq!(text, "Wrong number of arguments (10 instead of 0)\nUse \"<@1> x\" to ");
}

#[test]
fn here_message_text() {
    assert_eq!(
        here_message(111, 222, 333),
        "Ok <@111>. I will use the <#222> channel.\nUse \"<@333> add_category category_name\" to add a category"
    );
}

#[test]
fn emoji_parse_reads_custom_emoji() {
    let e = Emoji::parse("<:smile:123456>").unwrap();
    assert_eq!(e.id, 123456);
    assert_eq!(e.name, "smile");
    assert!(Emoji::parse("smile").is_none());
    assert!(Emoji::parse("<:smile:abc>").is_none());
    assert!(Emoji::parse("<:x1>").is_none());
    assert_eq!(Emoji::parse("<:x:1>").unwrap().id, 1);
}

#[test]
fn emoji_parse_then_mention_round_trip() {
    let e = Emoji::parse("<:party_parrot:987654321>").unwrap();
    assert_eq!(e.mention(), "<:party_parrot:987654321>");
}

#[test]
fn emoji_parsable_texts() {
    assert!(Emoji::parsable("<:smile:123>"));
    assert!(Emoji::parsable("plain"));
    assert!(Emoji::parsable(""));
    assert!(Emoji::parsable("<:ab:12\u{e9}>"));
    assert!(!Emoji::parsable("<:\u{e9}\u{e9}:12>"));
    assert!(Emoji::parsable("ab\u{e9}"));
    assert!(Emoji::parsable("<:\u{e9}\u{e9}:12"));
    assert!(Emoji::parsable("<:\u{e9}:1234>"));
    assert!(Emoji::parse("<:\u{e9}:1234>").is_none());
    assert!(!Emoji::parsable("<:a\u{e9}\u{e9}:1234>"));
}

#[test]
fn emoji_parse_reads_texts_that_serenity_reads_without_panicking() {
    assert!(Emoji::parsable("<:\u{e9}\u{e9}\u{e9}>12>:5>"));
    let e = Emoji::parse("<:\u{e9}\u{e9}\u{e9}>12>:5>").unwrap();
    assert_eq!(e.id, 2);
    assert_eq!(e.name, "\u{e9}\u{e9}\u{e9}>12>");
    let long = format!("<:{}:1>", "\u{e9}".repeat(40));
    assert!(Emoji::parsable(&long));
    assert!(Emoji::parse(&long).is_none());
}
