//! Custom emojis: the emoji a game is reacted with.

use crate::text::{decimal, lemma_decimal_injective, push_number, push_text};
use serenity::model::misc::EmojiIdentifier;
use vstd::prelude::*;

verus! {

/// A custom emoji of a guild, known by its id and its name.
pub struct Emoji {
    pub id: u64,
    pub name: String,
}

/// What an [`Emoji`] is: its id and its name.
pub struct EmojiView {
    pub id: u64,
    pub name: Seq<char>,
}

impl View for Emoji {
    type V = EmojiView;

    open spec fn view(&self) -> EmojiView {
        EmojiView { id: self.id, name: self.name@ }
    }
}

/// The text by which a message shows a custom emoji: `<:name:id>`.
pub open spec fn emoji_text(e: EmojiView) -> Seq<char> {
    seq!['<', ':'] + e.name + seq![':'] + decimal(e.id as nat) + seq!['>']
}

/// A name that the emoji parser reads back whole: ASCII, without `:`.
pub open spec fn plain_emoji_name(name: Seq<char>) -> bool {
    forall|k: int| 0 <= k < name.len() ==> (#[trigger] name[k] as u32) < 0x80 && name[k] != ':'
}

/// `text` is the mention of `e`, `e`'s name is plain and the text is 6 to 56
/// bytes long: the texts that the emoji parser reads as `e`.
pub open spec fn reads_as(text: Seq<char>, e: EmojiView) -> bool {
    &&& text == emoji_text(e)
    &&& plain_emoji_name(e.name)
    &&& 6 <= utf8_len(text) <= 56
}

/// The emoji that `text` is the mention of, if it is the mention of one the
/// parser reads back whole.
pub open spec fn mentioned_emoji(text: Seq<char>) -> Option<EmojiView> {
    if exists|e: EmojiView| #[trigger] reads_as(text, e) {
        Some(choose|e: EmojiView| #[trigger] reads_as(text, e))
    } else {
        None
    }
}

/// A text of ASCII characters has one byte per character.
pub(crate) proof fn lemma_utf8_ascii(s: Seq<char>)
    requires
        forall|k: int| 0 <= k < s.len() ==> (#[trigger] s[k] as u32) < 0x80,
    ensures
        utf8_len(s) == s.len(),
    decreases s.len(),
{
    if s.len() > 0 {
        lemma_utf8_ascii(s.drop_last());
    }
}

/// A text is the mention of at most one emoji with a plain name.
pub(crate) proof fn lemma_reads_as_unique(text: Seq<char>, a: EmojiView, b: EmojiView)
    requires
        reads_as(text, a),
        reads_as(text, b),
    ensures
        a == b,
{
    let la = a.name.len() as int;
    let lb = b.name.len() as int;
    let ta = seq!['<', ':'] + a.name + seq![':'] + decimal(a.id as nat) + seq!['>'];
    let tb = seq!['<', ':'] + b.name + seq![':'] + decimal(b.id as nat) + seq!['>'];
    assert(text == ta);
    assert(text == tb);
    if la < lb {
        assert(ta[2 + la] == ':');
        assert(tb[2 + la] == b.name[la]);
    } else if lb < la {
        assert(tb[2 + lb] == ':');
        assert(ta[2 + lb] == a.name[lb]);
    }
    assert(a.name =~= text.subrange(2, 2 + la));
    assert(b.name =~= text.subrange(2, 2 + lb));
    let n = text.len() as int;
    assert(decimal(a.id as nat) =~= text.subrange(3 + la, n - 1));
    assert(decimal(b.id as nat) =~= text.subrange(3 + lb, n - 1));
    lemma_decimal_injective(a.id as nat, b.id as nat);
}

/// The parser can be given the mention of an emoji with a plain name.
pub(crate) proof fn lemma_plain_mention_parsable(e: EmojiView)
    requires
        plain_emoji_name(e.name),
    ensures
        emoji_text_parsable(emoji_text(e)),
{
    let t = emoji_text(e);
    let l = e.name.len() as int;
    let c0 = 2 + l;
    assert(t[c0] == ':');
    let head = t.take(c0 + 1);
    assert(head =~= seq!['<', ':'] + e.name + seq![':']);
    assert forall|k: int| 0 <= k < head.len() implies (#[trigger] head[k] as u32) < 0x80 by {
        if 2 <= k < c0 {
            assert(head[k] == e.name[k - 2]);
        }
    }
    lemma_utf8_ascii(head);
    assert(is_char_boundary(t, (c0 + 1) as nat));
    if emoji_parse_panics(t) {
        let c = choose|c: int|
            2 <= c < t.len() && #[trigger] t[c] == ':' && colon_free(t, 2, c) && !is_char_boundary(
                t,
                (c + 1) as nat,
            );
        if c < c0 {
            assert(t[c] == e.name[c - 2]);
        } else if c > c0 {
            assert(t[c0] != ':');
        }
    }
}

/// The number of bytes of `c` in UTF-8.
pub open spec fn char_bytes(c: char) -> nat {
    if (c as u32) < 0x80 {
        1
    } else if (c as u32) < 0x800 {
        2
    } else if (c as u32) < 0x10000 {
        3
    } else {
        4
    }
}

/// The number of bytes of `s` in UTF-8.
pub open spec fn utf8_len(s: Seq<char>) -> nat
    decreases s.len(),
{
    if s.len() == 0 {
        0
    } else {
        utf8_len(s.drop_last()) + char_bytes(s.last())
    }
}

/// The byte offset `b` of `s` is where a character of `s` starts, or its end.
pub open spec fn is_char_boundary(s: Seq<char>, b: nat) -> bool {
    exists|k: int| 0 <= k <= s.len() && #[trigger] utf8_len(s.take(k)) == b
}

/// No `:` stands at the positions `from .. to` of `t`.
pub open spec fn colon_free(t: Seq<char>, from: int, to: int) -> bool {
    forall|k: int| from <= k < to ==> t[k] != ':'
}

/// serenity's emoji parser panics on `t`: `t` is 6 to 56 bytes long, starts
/// with `<:` and ends with `>`, and, where `c` is the position of the first
/// `:` after the second character, the parser cuts the text at byte `c + 1`
/// (it counts characters and slices by bytes), which is no character boundary.
pub open spec fn emoji_parse_panics(t: Seq<char>) -> bool {
    &&& 6 <= utf8_len(t) <= 56
    &&& t.len() >= 3
    &&& t[0] == '<'
    &&& t[1] == ':'
    &&& t.last() == '>'
    &&& exists|c: int|
        2 <= c < t.len() && #[trigger] t[c] == ':' && colon_free(t, 2, c) && !is_char_boundary(
            t,
            (c + 1) as nat,
        )
}

/// serenity's emoji parser can be given `t`: it does not panic on it.
pub open spec fn emoji_text_parsable(t: Seq<char>) -> bool {
    !emoji_parse_panics(t)
}

/// The bytes of a prefix one character longer.
proof fn lemma_utf8_take_step(s: Seq<char>, k: int)
    requires
        0 <= k < s.len(),
    ensures
        utf8_len(s.take(k + 1)) == utf8_len(s.take(k)) + char_bytes(s[k]),
{
    assert(s.take(k + 1).drop_last() =~= s.take(k));
}

/// A prefix has no more bytes than the whole.
proof fn lemma_utf8_take_le(s: Seq<char>, k: int)
    requires
        0 <= k <= s.len(),
    ensures
        utf8_len(s.take(k)) <= utf8_len(s),
    decreases s.len(),
{
    if k == s.len() {
        assert(s.take(k) =~= s);
    } else {
        assert(s.drop_last().take(k) =~= s.take(k));
        lemma_utf8_take_le(s.drop_last(), k);
    }
}

/// Every character has at least one byte.
proof fn lemma_utf8_len_ge_len(s: Seq<char>)
    ensures
        s.len() <= utf8_len(s),
    decreases s.len(),
{
    if s.len() > 0 {
        lemma_utf8_len_ge_len(s.drop_last());
    }
}

/// The number of bytes of `c` in UTF-8.
fn char_byte_len(c: char) -> (n: u64)
    ensures
        n == char_bytes(c),
{
    let code = c as u32;
    if code < 0x80 {
        1
    } else if code < 0x800 {
        2
    } else if code < 0x10000 {
        3
    } else {
        4
    }
}

/// What serenity's `EmojiIdentifier::from_str` makes of a text: the emoji it
/// reads from `<:name:id>`, or `None`.
pub uninterp spec fn parsed_emoji(text: Seq<char>) -> Option<EmojiView>;

/// `<EmojiIdentifier as FromStr>::from_str` (serenity's `utils::parse_emoji`):
/// the result is a function of the text alone, named [`parsed_emoji`].
/// The `requires` keeps out exactly the texts on which it panics. On the
/// mention `<:name:id>` of an emoji whose name is ASCII without `:`, 6 to 56
/// bytes long, it reads the name up to the `:`, then the digits up to the
/// `>` as a `u64`: the emoji itself.
#[verifier::external_body]
fn parse_emoji_identifier(text: &str) -> (res: Option<Emoji>)
    requires
        emoji_text_parsable(text@),
    ensures
        match res {
            Some(e) => parsed_emoji(text@) == Some(e@),
            None => parsed_emoji(text@) is None,
        },
        mentioned_emoji(text@) is Some ==> res is Some && res.unwrap()@ == mentioned_emoji(text@).unwrap(),
{
    match text.parse::<EmojiIdentifier>() {
        Ok(e) => Some(Emoji { id: e.id.0, name: e.name }),
        Err(()) => None,
    }
}

impl Clone for Emoji {
    fn clone(&self) -> (copy: Emoji)
        ensures
            copy@ == self@,
    {
        Emoji { id: self.id, name: self.name.clone() }
    }
}

impl Emoji {
    /// Reads a custom emoji written as `<:name:id>`.
    pub fn parse(text: &str) -> (res: Option<Emoji>)
        requires
            emoji_text_parsable(text@),
        ensures
            match res {
                Some(e) => parsed_emoji(text@) == Some(e@),
                None => parsed_emoji(text@) is None,
            },
            mentioned_emoji(text@) is Some ==> res is Some && res.unwrap()@ == mentioned_emoji(text@).unwrap(),
    {
        parse_emoji_identifier(text)
    }

    /// Whether [`Emoji::parse`] may be given `text`.
    pub fn parsable(text: &str) -> (ok: bool)
        ensures
            ok == emoji_text_parsable(text@),
    {
        let ghost t = text@;
        let n = text.unicode_len();
        // The bytes of the text, counted as long as they do not pass 56.
        let mut bytes: u64 = 0;
        let mut k: usize = 0;
        while k < n && bytes <= 56
            invariant
                t == text@,
                n == t.len(),
                k <= n,
                bytes == utf8_len(t.take(k as int)),
            decreases n - k,
        {
            proof {
                lemma_utf8_take_step(t, k as int);
            }
            bytes = bytes + char_byte_len(text.get_char(k));
            k = k + 1;
        }
        proof {
            lemma_utf8_take_le(t, k as int);
            if k == n {
                assert(t.take(k as int) =~= t);
            }
        }
        if bytes < 6 || bytes > 56 || n < 3 {
            return true;
        }
        assert(t.take(n as int) =~= t);
        if text.get_char(0) != '<' || text.get_char(1) != ':' || text.get_char(n - 1) != '>' {
            return true;
        }
        // The first `:` after the second character.
        let mut c: usize = 2;
        while c < n && text.get_char(c) != ':'
            invariant
                t == text@,
                n == t.len(),
                2 <= c <= n,
                colon_free(t, 2, c as int),
            decreases n - c,
        {
            c = c + 1;
        }
        if c == n {
            assert forall|c2: int| 2 <= c2 < t.len() && #[trigger] t[c2] == ':' implies !colon_free(
                t,
                2,
                c2,
            ) by {}
            return true;
        }
        assert(t[c as int] == ':');
        proof {
            lemma_utf8_len_ge_len(t);
        }
        // Whether byte `c + 1` starts a character (or ends the text).
        let target: u64 = c as u64 + 1;
        let mut prefix: u64 = 0;
        let mut k: usize = 0;
        while k <= n
            invariant
                t == text@,
                n == t.len(),
                k <= n + 1,
                2 <= c < n,
                t[c as int] == ':',
                colon_free(t, 2, c as int),
                target == c + 1,
                n <= 56,
                utf8_len(t) <= 56,
                k <= n ==> prefix == utf8_len(t.take(k as int)),
                forall|j: int| 0 <= j < k ==> #[trigger] utf8_len(t.take(j)) != target,
            decreases n + 1 - k,
        {
            proof {
                lemma_utf8_take_le(t, k as int);
            }
            if prefix == target {
                assert(is_char_boundary(t, target as nat));
                assert forall|c2: int|
                    2 <= c2 < t.len() && #[trigger] t[c2] == ':' && colon_free(t, 2, c2) implies is_char_boundary(
                    t,
                    (c2 + 1) as nat,
                ) by {
                    if c2 < c {
                        assert(t[c2] != ':');
                    } else if c2 > c {
                        assert(t[c as int] != ':');
                    }
                }
                return true;
            }
            if k < n {
                proof {
                    lemma_utf8_take_step(t, k as int);
                    lemma_utf8_take_le(t, k + 1);
                }
                prefix = prefix + char_byte_len(text.get_char(k));
            }
            k = k + 1;
        }
        assert(!is_char_boundary(t, (c + 1) as nat));
        false
    }

    /// The text by which a message shows this emoji: `<:name:id>`.
    pub fn mention(&self) -> (text: String)
        ensures
            text@ == emoji_text(self@),
    {
        let text = push_text(String::new(), "<:");
        let text = push_text(text, self.name.as_str());
        let text = push_text(text, ":");
        let text = push_number(text, self.id);
        let text = push_text(text, ">");
        proof {
            reveal_strlit("<:");
            reveal_strlit(":");
            reveal_strlit(">");
        }
        assert(text@ =~= emoji_text(self@));
        text
    }
}

} // verus!
