//! The management commands of the bot: what each does to the state, and what
//! it answers.
//!
//! A command whose number of arguments is wrong changes nothing and answers
//! with a usage text; otherwise it changes the guild's state and answers with
//! the new text of the guild's post.

use crate::emoji::{emoji_text_parsable, parsed_emoji, Emoji};
use crate::model::GuildGames;
use crate::named::has_key;
use crate::post::{format_post, post_text};
use crate::text::{
    channel_mention, decimal, push_channel_mention, push_number, push_text, push_user_mention,
    user_mention,
};
use vstd::prelude::*;

verus! {

/// The names of a command's arguments, each after a space.
pub open spec fn arg_names_text(names: Seq<Seq<char>>) -> Seq<char>
    decreases names.len(),
{
    if names.len() == 0 {
        Seq::empty()
    } else {
        arg_names_text(names.drop_last()) + " "@ + names.last()
    }
}

/// The answer to a command given `args_num` arguments where it takes
/// `expected`: the numbers, then how the command is written (the bot's
/// mention, the command, its arguments' names) and what it does.
pub open spec fn usage_text(
    args_num: nat,
    expected: nat,
    bot_id: u64,
    command: Seq<char>,
    names: Seq<Seq<char>>,
    desc: Seq<char>,
) -> Seq<char> {
    "Wrong number of arguments ("@ + decimal(args_num) + " instead of "@ + decimal(expected)
        + ")\n"@ + "Use \""@ + user_mention(bot_id) + " "@ + command + arg_names_text(names)
        + "\" to "@ + desc
}

/// The answer to a command given the wrong number of arguments.
pub fn wrong_argument_message(
    args_num: usize,
    expected_args_num: usize,
    bot_id: u64,
    command_name: &str,
    args_name: Vec<&str>,
    desc: &str,
) -> (message: String)
    ensures
        message@ == usage_text(
            args_num as nat,
            expected_args_num as nat,
            bot_id,
            command_name@,
            args_name@.map_values(|s: &str| s@),
            desc@,
        ),
{
    let ghost names = args_name@.map_values(|s: &str| s@);
    let text = push_text(String::new(), "Wrong number of arguments (");
    let text = push_number(text, args_num as u64);
    let text = push_text(text, " instead of ");
    let text = push_number(text, expected_args_num as u64);
    let text = push_text(text, ")\n");
    let text = push_text(text, "Use \"");
    let text = push_user_mention(text, bot_id);
    let text = push_text(text, " ");
    let mut text = push_text(text, command_name);
    let ghost head = text@;
    assert(head == "Wrong number of arguments ("@ + decimal(args_num as nat) + " instead of "@
        + decimal(expected_args_num as nat) + ")\n"@ + "Use \""@ + user_mention(bot_id) + " "@
        + command_name@);
    let mut i: usize = 0;
    while i < args_name.len()
        invariant
            i <= args_name.len(),
            names == args_name@.map_values(|s: &str| s@),
            text@ == head + arg_names_text(names.take(i as int)),
        decreases args_name.len() - i,
    {
        text = push_text(text, " ");
        text = push_text(text, args_name[i]);
        proof {
            assert(names.take(i + 1).drop_last() =~= names.take(i as int));
            assert(names[i as int] == args_name@[i as int]@);
        }
        assert(text@ =~= head + arg_names_text(names.take(i + 1)));
        i = i + 1;
    }
    assert(names.take(i as int) =~= names);
    let text = push_text(text, "\" to ");
    let text = push_text(text, desc);
    assert(text@ =~= usage_text(
        args_num as nat,
        expected_args_num as nat,
        bot_id,
        command_name@,
        names,
        desc@,
    ));
    text
}

/// The answer to `here`, given by the bot `bot_id` to `author_id` in
/// `channel_id`: the channel it will use for the post, and how to add a
/// category.
pub open spec fn here_text(author_id: u64, channel_id: u64, bot_id: u64) -> Seq<char> {
    "Ok "@ + user_mention(author_id) + ". I will use the "@ + channel_mention(channel_id)
        + " channel.\n"@ + "Use \""@ + user_mention(bot_id)
        + " add_category category_name\" to add a category"@
}

/// The text of the answer to `here`; that answer becomes the guild's post.
pub fn here_message(author_id: u64, channel_id: u64, bot_id: u64) -> (message: String)
    ensures
        message@ == here_text(author_id, channel_id, bot_id),
{
    let text = push_text(String::new(), "Ok ");
    let text = push_user_mention(text, author_id);
    let text = push_text(text, ". I will use the ");
    let text = push_channel_mention(text, channel_id);
    let text = push_text(text, " channel.\n");
    let text = push_text(text, "Use \"");
    let text = push_user_mention(text, bot_id);
    let text = push_text(text, " add_category category_name\" to add a category");
    assert(text@ =~= here_text(author_id, channel_id, bot_id));
    text
}

/// What a management command answers.
pub enum CommandReply {
    /// The number of arguments was wrong: this text is posted in the
    /// command's channel, and nothing changed.
    Usage(String),
    /// The guild's state changed: its post, `message` in `channel`, now reads
    /// `content`.
    Refresh { channel: u64, message: u64, content: String },
}

pub open spec fn add_category_usage(args_num: nat, bot_id: u64) -> Seq<char> {
    usage_text(args_num, 1, bot_id, "add_category"@, seq!["category_name"@], "add a category"@)
}

pub open spec fn remove_category_usage(args_num: nat, bot_id: u64) -> Seq<char> {
    usage_text(args_num, 1, bot_id, "remove_category"@, seq!["category_name"@], "remove a category"@)
}

pub open spec fn add_game_usage(args_num: nat, bot_id: u64) -> Seq<char> {
    usage_text(
        args_num,
        3,
        bot_id,
        "add_game"@,
        seq!["category_name"@, "game_name"@, "emoji"@],
        "add a game"@,
    )
}

pub open spec fn remove_game_usage(args_num: nat, bot_id: u64) -> Seq<char> {
    usage_text(
        args_num,
        2,
        bot_id,
        "remove_game"@,
        seq!["category_name"@, "game_name"@],
        "remove a game"@,
    )
}

/// `reply` is the usage text `usage`.
pub open spec fn is_usage(reply: CommandReply, usage: Seq<char>) -> bool {
    reply matches CommandReply::Usage(text) && text@ == usage
}

/// `reply` refreshes the post of `guild` in `games` to list its categories.
pub open spec fn is_refresh(reply: CommandReply, games: crate::model::GuildGamesView, guild: u64) -> bool {
    &&& reply matches CommandReply::Refresh { channel, message, content }
    &&& games.msgs.contains_key(guild)
    &&& games.msgs[guild] == (channel, message)
    &&& content@ == post_text(games.guild_categories(guild))
}

/// The answer that refreshes the guild's post from the current state.
fn refresh_reply(games: &GuildGames, guild_id: u64) -> (reply: CommandReply)
    requires
        games@.msgs.contains_key(guild_id),
        games@.categories.contains_key(guild_id),
    ensures
        is_refresh(reply, games@, guild_id),
{
    let (channel, message) = games.msg(guild_id).unwrap();
    let categories = games.categories(guild_id).unwrap();
    let content = format_post(categories);
    CommandReply::Refresh { channel, message, content }
}

/// `add_category category_name`: gives the guild a category without games
/// (in place of one of that name). The guild must have a post by then.
pub fn add_category(games: &mut GuildGames, guild_id: u64, bot_id: u64, args: &Vec<String>) -> (reply:
    CommandReply)
    requires
        args.len() == 1 ==> old(games)@.msgs.contains_key(guild_id),
    ensures
        final(games)@.wf(),
        args.len() != 1 ==> final(games)@ == old(games)@ && is_usage(
            reply,
            add_category_usage(args.len() as nat, bot_id),
        ),
        args.len() == 1 ==> final(games)@ == old(games)@.with_category(guild_id, args@[0]@)
            && is_refresh(reply, final(games)@, guild_id),
{
    proof {
        use_type_invariant(&*games);
    }
    if args.len() != 1 {
        let names = vec!["category_name"];
        let text = wrong_argument_message(args.len(), 1, bot_id, "add_category", names, "add a category");
        assert(names@.map_values(|s: &str| s@) =~= seq!["category_name"@]);
        return CommandReply::Usage(text);
    }
    games.add_category(guild_id, args[0].clone());
    refresh_reply(games, guild_id)
}

/// `remove_category category_name`: removes the guild's category of that
/// name. The guild must have had a category and have a post.
pub fn remove_category(games: &mut GuildGames, guild_id: u64, bot_id: u64, args: &Vec<String>) -> (reply:
    CommandReply)
    requires
        args.len() == 1 ==> old(games)@.msgs.contains_key(guild_id) && old(
            games,
        )@.categories.contains_key(guild_id),
    ensures
        final(games)@.wf(),
        args.len() != 1 ==> final(games)@ == old(games)@ && is_usage(
            reply,
            remove_category_usage(args.len() as nat, bot_id),
        ),
        args.len() == 1 ==> final(games)@ == old(games)@.without_category(guild_id, args@[0]@)
            && is_refresh(reply, final(games)@, guild_id),
{
    proof {
        use_type_invariant(&*games);
    }
    if args.len() != 1 {
        let names = vec!["category_name"];
        let text = wrong_argument_message(args.len(), 1, bot_id, "remove_category", names, "remove a category");
        assert(names@.map_values(|s: &str| s@) =~= seq!["category_name"@]);
        return CommandReply::Usage(text);
    }
    games.remove_category(guild_id, args[0].as_str());
    refresh_reply(games, guild_id)
}

/// `add_game category_name game_name emoji`: adds the game, with the custom
/// emoji written as `<:name:id>`, to the guild's category (in place of a game
/// of that name). The guild must have that category and a post, and the third
/// argument must be a custom emoji.
pub fn add_game(games: &mut GuildGames, guild_id: u64, bot_id: u64, args: &Vec<String>) -> (reply:
    CommandReply)
    requires
        args.len() == 3 ==> {
            &&& old(games)@.msgs.contains_key(guild_id)
            &&& old(games)@.categories.contains_key(guild_id)
            &&& has_key(old(games)@.categories[guild_id], args@[0]@)
            &&& emoji_text_parsable(args@[2]@)
            &&& parsed_emoji(args@[2]@) is Some
        },
    ensures
        final(games)@.wf(),
        args.len() != 3 ==> final(games)@ == old(games)@ && is_usage(
            reply,
            add_game_usage(args.len() as nat, bot_id),
        ),
        args.len() == 3 ==> final(games)@ == old(games)@.with_game(
            guild_id,
            args@[0]@,
            args@[1]@,
            parsed_emoji(args@[2]@).unwrap(),
        ) && is_refresh(reply, final(games)@, guild_id),
{
    proof {
        use_type_invariant(&*games);
    }
    if args.len() != 3 {
        let names = vec!["category_name", "game_name", "emoji"];
        let text = wrong_argument_message(args.len(), 3, bot_id, "add_game", names, "add a game");
        assert(names@.map_values(|s: &str| s@) =~= seq!["category_name"@, "game_name"@, "emoji"@]);
        return CommandReply::Usage(text);
    }
    let emoji = Emoji::parse(args[2].as_str()).unwrap();
    games.add_game(guild_id, &args[0], args[1].clone(), emoji);
    refresh_reply(games, guild_id)
}

/// [`add_game`] where the third argument is not known to be a custom emoji:
/// `None` (and nothing changed) where it is none; else what [`add_game`]
/// answers.
pub fn try_add_game(games: &mut GuildGames, guild_id: u64, bot_id: u64, args: &Vec<String>) -> (reply:
    Option<CommandReply>)
    requires
        args.len() == 3 ==> {
            &&& old(games)@.msgs.contains_key(guild_id)
            &&& old(games)@.categories.contains_key(guild_id)
            &&& has_key(old(games)@.categories[guild_id], args@[0]@)
            &&& emoji_text_parsable(args@[2]@)
        },
    ensures
        final(games)@.wf(),
        args.len() == 3 && parsed_emoji(args@[2]@) is None ==> final(games)@ == old(games)@
            && reply is None,
        args.len() != 3 ==> {
            &&& final(games)@ == old(games)@
            &&& reply matches Some(r) && is_usage(r, add_game_usage(args.len() as nat, bot_id))
        },
        args.len() == 3 && parsed_emoji(args@[2]@) is Some ==> {
            &&& final(games)@ == old(games)@.with_game(
                guild_id,
                args@[0]@,
                args@[1]@,
                parsed_emoji(args@[2]@).unwrap(),
            )
            &&& reply matches Some(r) && is_refresh(r, final(games)@, guild_id)
        },
{
    proof {
        use_type_invariant(&*games);
    }
    if args.len() == 3 {
        if Emoji::parse(args[2].as_str()).is_none() {
            return None;
        }
    }
    Some(add_game(games, guild_id, bot_id, args))
}

/// `remove_game category_name game_name`: removes the game from the guild's
/// category. The guild must have that category and a post.
pub fn remove_game(games: &mut GuildGames, guild_id: u64, bot_id: u64, args: &Vec<String>) -> (reply:
    CommandReply)
    requires
        args.len() == 2 ==> {
            &&& old(games)@.msgs.contains_key(guild_id)
            &&& old(games)@.categories.contains_key(guild_id)
            &&& has_key(old(games)@.categories[guild_id], args@[0]@)
        },
    ensures
        final(games)@.wf(),
        args.len() != 2 ==> final(games)@ == old(games)@ && is_usage(
            reply,
            remove_game_usage(args.len() as nat, bot_id),
        ),
        args.len() == 2 ==> final(games)@ == old(games)@.without_game(guild_id, args@[0]@, args@[1]@)
            && is_refresh(reply, final(games)@, guild_id),
{
    proof {
        use_type_invariant(&*games);
    }
    if args.len() != 2 {
        let names = vec!["category_name", "game_name"];
        let text = wrong_argument_message(args.len(), 2, bot_id, "remove_game", names, "remove a game");
        assert(names@.map_values(|s: &str| s@) =~= seq!["category_name"@, "game_name"@]);
        return CommandReply::Usage(text);
    }
    games.remove_game(guild_id, args[0].as_str(), args[1].as_str());
    refresh_reply(games, guild_id)
}

} // verus!
