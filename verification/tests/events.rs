use guild_games::emoji::Emoji;
use guild_games::events::{
    admin_check, reaction_deletes_message, reaction_emojis, reaction_needs_message, ready_refreshes,
    ReactionEmoji, TRASHCAN_EMOJI,
};
use guild_games::model::GuildGames;

#[test]
fn admin_check_needs_administrator_bit() {
    assert!(admin_check(Some(8)));
    assert!(admin_check(Some(0x8 | 0x400)));
    assert!(admin_check(Some(u64::MAX)));
    assert!(!admin_check(Some(0x10)));
    assert!(!admin_check(Some(0)));
    assert!(!admin_check(None));
}

#[test]
fn reactions_by_the_bot_are_ignored() {
    assert!(!reaction_needs_message(5, 5));
    assert!(reaction_needs_message(6, 5));
}

#[test]
fn trashcan_on_bot_message_deletes_it() {
    let trash = ReactionEmoji::Unicode(TRASHCAN_EMOJI.to_string());
    assert!(reaction_deletes_message(5, 5, &trash));
    assert!(!reaction_deletes_message(6, 5, &trash));
    assert!(!reaction_deletes_message(5, 5, &ReactionEmoji::Unicode("\u{1F5D1}".to_string())));
    assert!(!reaction_deletes_message(5, 5, &ReactionEmoji::Custom(3)));
    assert_eq!(TRASHCAN_EMOJI, "\u{1F5D1}\u{FE0F}");
}

#[test]
fn reaction_emojis_follow_post_order() {
    let mut games = GuildGames::new();
    games.add_category(1, "A".to_string());
    games.add_category(1, "B".to_string());
    games.add_game(1, &"B".to_string(), "b1".to_string(), Emoji { id: 3, name: "x".to_string() });
    games.add_game(1, &"A".to_string(), "a1".to_string(), Emoji { id: 1, name: "y".to_string() });
    games.add_game(1, &"A".to_string(), "a2".to_string(), Emoji { id: 2, name: "z".to_string() });
    let ids: Vec<u64> = reaction_emojis(games.categories(1).unwrap()).iter().map(|e| e.id).collect();
    assert_eq!(ids, vec![1, 2, 3]);
}

#[test]
fn ready_renews_each_post_once() {
    let mut games = GuildGames::new();
    games.add_category(1, "A".to_string());
    games.add_game(1, &"A".to_string(), "a1".to_string(), Emoji { id: 1, name: "y".to_string() });
    games.set_msg(1, 10, 100);
    games.add_category(2, "B".to_string());
    games.set_msg(2, 20, 200);
    games.add_category(3, "C".to_string());
    let mut plan = ready_refreshes(&games);
    plan.sort_by_key(|r| r.guild);
    assert_eq!(plan.len(), 2);
    assert_eq!((plan[0].guild, plan[0].channel, plan[0].message), (1, 10, 100));
    assert_eq!(plan[0].content, "**A**\n<:y:1> - a1\n\n");
    assert_eq!(plan[0].emojis.iter().map(|e| e.id).collect::<Vec<_>>(), vec![1]);
    assert_eq!((plan[1].guild, plan[1].channel, plan[1].message), (2, 20, 200));
    assert_eq!(plan[1].content, "**B**\nPlease add a game.\n");
    assert!(plan[1].emojis.is_empty());
}
