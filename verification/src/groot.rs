use vstd::prelude::*;
use unicode_segmentation::UnicodeSegmentation;
use crate::text::{chars_of, contains, contains_exec, copy_str, string_from_chars, trim, trim_chars, append_chars};

verus! {

/// Penalty points at which a user is put on the global black list.
pub const PENALTY_BLACKLIST_THRESHOLD: i32 = 7;

/// Seconds before the bot deletes its warning in a paying chat.
pub const PAID_WARNING_LIFETIME_SECS: u64 = 120;

/// Seconds before the bot deletes its demo notice in a chat without a
/// subscription.
pub const UNPAID_WARNING_LIFETIME_SECS: u64 = 30;

/// The penalty points of users: per chat, per user.
pub struct PenaltyBook {
    pub chats: std::collections::HashMap<i64, std::collections::HashMap<u64, i32>>,
}

impl View for PenaltyBook {
    type V = Map<(i64, u64), i32>;

    /// The points recorded for each (chat, user).
    open spec fn view(&self) -> Map<(i64, u64), i32> {
        Map::new(
            |k: (i64, u64)| self.chats@.contains_key(k.0) && self.chats@[k.0]@.contains_key(k.1),
            |k: (i64, u64)| self.chats@[k.0]@[k.1],
        )
    }
}

/// The points of `user` in `chat`; 0 where none are recorded.
pub open spec fn points_of(book: Map<(i64, u64), i32>, chat_id: i64, user_id: u64) -> i32 {
    if book.dom().contains((chat_id, user_id)) {
        book[(chat_id, user_id)]
    } else {
        0
    }
}

impl PenaltyBook {
    /// A book without points.
    pub fn new() -> (res: PenaltyBook)
        ensures
            res@ == Map::<(i64, u64), i32>::empty(),
    {
        let res = PenaltyBook { chats: std::collections::HashMap::new() };
        assert(res@ =~= Map::<(i64, u64), i32>::empty());
        res
    }

    /// The points of `user_id` in `chat_id`, 0 where none are recorded.
    pub fn get_penalty_points(&self, chat_id: i64, user_id: u64) -> (res: i32)
        ensures
            res == points_of(self@, chat_id, user_id),
    {
        broadcast use vstd::std_specs::hash::group_hash_axioms;

        match self.chats.get(&chat_id) {
            Some(users) => match users.get(&user_id) {
                Some(p) => *p,
                None => 0,
            },
            None => 0,
        }
    }

    /// Adds one penalty point for `user_id` in `chat_id`, and gives the new
    /// count.
    pub fn add_penalty_points(&mut self, chat_id: i64, user_id: u64) -> (res: i32)
        requires
            points_of(old(self)@, chat_id, user_id) < i32::MAX,
        ensures
            res == points_of(old(self)@, chat_id, user_id) + 1,
            final(self)@ == old(self)@.insert((chat_id, user_id), res),
    {
        broadcast use vstd::std_specs::hash::group_hash_axioms;

        let ghost before = self@;
        let ghost chats0 = self.chats@;
        let mut users = match self.chats.remove(&chat_id) {
            Some(users) => users,
            None => std::collections::HashMap::new(),
        };
        assert(self.chats@ == chats0.remove(chat_id));
        assert(chats0.contains_key(chat_id) ==> users@ == chats0[chat_id]@);
        assert(!chats0.contains_key(chat_id) ==> users@ == Map::<u64, i32>::empty());
        let current: i32 = match users.get(&user_id) {
            Some(p) => *p,
            None => 0,
        };
        assert(current == points_of(before, chat_id, user_id));
        let n = current + 1;
        users.insert(user_id, n);
        self.chats.insert(chat_id, users);
        assert(self@ =~= before.insert((chat_id, user_id), n));
        n
    }
}

/// Whether a user with `points` penalty points in a chat goes on the black
/// list.
pub fn reaches_blacklist(points: i32) -> (res: bool)
    ensures
        res == (points >= PENALTY_BLACKLIST_THRESHOLD),
{
    points >= PENALTY_BLACKLIST_THRESHOLD
}

/// Adding a penalty point counts it for that user and chat alone.
pub proof fn lemma_penalty_counts_one(book: Map<(i64, u64), i32>, chat_id: i64, user_id: u64, other_chat: i64, other_user: u64)
    requires
        points_of(book, chat_id, user_id) < i32::MAX,
        (other_chat, other_user) != (chat_id, user_id),
    ensures
        points_of(book.insert((chat_id, user_id), (points_of(book, chat_id, user_id) + 1) as i32), chat_id, user_id)
            == points_of(book, chat_id, user_id) + 1,
        points_of(book.insert((chat_id, user_id), (points_of(book, chat_id, user_id) + 1) as i32), other_chat, other_user)
            == points_of(book, other_chat, other_user),
{
}

/// The global black list of users.
pub struct BlackList {
    pub users: std::collections::HashSet<u64>,
}

impl View for BlackList {
    type V = Set<u64>;

    open spec fn view(&self) -> Set<u64> {
        self.users@
    }
}

impl BlackList {
    /// An empty list.
    pub fn new() -> (res: BlackList)
        ensures
            res@ == Set::<u64>::empty(),
    {
        BlackList { users: std::collections::HashSet::new() }
    }

    /// Puts `user_id` on the list; `false` where it already was, and the list
    /// is then left as it was.
    pub fn add_user_to_black_list(&mut self, user_id: u64) -> (res: bool)
        ensures
            res == !old(self)@.contains(user_id),
            final(self)@ == old(self)@.insert(user_id),
            !res ==> final(self)@ == old(self)@,
    {
        broadcast use vstd::std_specs::hash::group_hash_axioms;

        let res = self.users.insert(user_id);
        proof {
            if !res {
                assert(old(self)@.insert(user_id) =~= old(self)@);
            }
        }
        res
    }
}

/// The penalty points and the black list after one more point for
/// `user_id` in `chat_id`: the point is counted, and a user whose points
/// there reach the threshold goes on the black list.
pub open spec fn penalty_recorded(
    book: Map<(i64, u64), i32>,
    black_list: Set<u64>,
    chat_id: i64,
    user_id: u64,
) -> (Map<(i64, u64), i32>, Set<u64>) {
    let n = (points_of(book, chat_id, user_id) + 1) as i32;
    (
        book.insert((chat_id, user_id), n),
        if n >= PENALTY_BLACKLIST_THRESHOLD {
            black_list.insert(user_id)
        } else {
            black_list
        },
    )
}

/// Counts a penalty point for `user_id` in `chat_id` and, when the user's
/// points there reach the threshold, puts the user on the black list; gives
/// the new count.
pub fn record_penalty(book: &mut PenaltyBook, black_list: &mut BlackList, chat_id: i64, user_id: u64) -> (res: i32)
    requires
        points_of(old(book)@, chat_id, user_id) < i32::MAX,
    ensures
        res == points_of(old(book)@, chat_id, user_id) + 1,
        (final(book)@, final(black_list)@) == penalty_recorded(old(book)@, old(black_list)@, chat_id, user_id),
{
    let count = book.add_penalty_points(chat_id, user_id);
    if reaches_blacklist(count) {
        black_list.add_user_to_black_list(user_id);
    }
    count
}

/// Every user with at least the threshold of points in some chat is on the
/// black list.
pub open spec fn black_list_covers(book: Map<(i64, u64), i32>, black_list: Set<u64>) -> bool {
    forall|c: i64, u: u64|
        #[trigger] book.dom().contains((c, u)) && book[(c, u)] >= PENALTY_BLACKLIST_THRESHOLD
            ==> black_list.contains(u)
}

/// Recording penalties keeps every user who reached the threshold in a chat
/// on the black list.
pub proof fn lemma_penalties_keep_black_list(
    book: Map<(i64, u64), i32>,
    black_list: Set<u64>,
    chat_id: i64,
    user_id: u64,
)
    requires
        black_list_covers(book, black_list),
        points_of(book, chat_id, user_id) < i32::MAX,
    ensures
        black_list_covers(
            penalty_recorded(book, black_list, chat_id, user_id).0,
            penalty_recorded(book, black_list, chat_id, user_id).1,
        ),
{
    let (b2, l2) = penalty_recorded(book, black_list, chat_id, user_id);
    assert forall|c: i64, u: u64|
        #[trigger] b2.dom().contains((c, u)) && b2[(c, u)] >= PENALTY_BLACKLIST_THRESHOLD implies l2.contains(u) by {
        if (c, u) != (chat_id, user_id) {
            assert(book.dom().contains((c, u)) && book[(c, u)] == b2[(c, u)]);
        }
    }
}

/// A chat the bot has joined.
pub struct ChatObject {
    pub chat_id: i64,
    pub username: String,
}

/// Adds `chat` to the list unless a chat with its id is listed; `false` then,
/// and the list is unchanged.
pub fn add_chat_to_file(chats: &mut Vec<ChatObject>, chat: ChatObject) -> (res: bool)
    ensures
        res == forall|i: int| 0 <= i < old(chats)@.len() ==> old(chats)@[i].chat_id != chat.chat_id,
        res ==> final(chats)@ == old(chats)@.push(chat),
        !res ==> final(chats)@ == old(chats)@,
{
    let mut i: usize = 0;
    while i < chats.len()
        invariant
            i <= chats@.len(),
            chats@ == old(chats)@,
            forall|j: int| 0 <= j < i ==> chats@[j].chat_id != chat.chat_id,
        decreases chats.len() - i,
    {
        if chats[i].chat_id == chat.chat_id {
            return false;
        }
        i = i + 1;
    }
    chats.push(chat);
    true
}


/// The lowercase form of a text, as `str::to_lowercase` gives it.
pub uninterp spec fn lowercase(s: Seq<char>) -> Seq<char>;

/// Whether every character of `s` is ASCII.
pub open spec fn is_ascii_text(s: Seq<char>) -> bool {
    forall|i: int| 0 <= i < s.len() ==> (#[trigger] s[i] as u32) < 128
}

/// The lowercase form of an ASCII character: 'A'..='Z' become 'a'..='z', the
/// rest stay as they are.
pub open spec fn ascii_lower(c: char) -> char {
    if 'A' <= c && c <= 'Z' {
        ((c as u32) + 32) as char
    } else {
        c
    }
}

/// Every character of `s` taken to its ASCII lowercase form.
pub open spec fn ascii_lowered(s: Seq<char>) -> Seq<char> {
    s.map_values(|c: char| ascii_lower(c))
}

/// Calls `str::to_lowercase`, which maps every character to its Unicode
/// lowercase form. The contract names the result and states it for ASCII text,
/// where the mapping takes 'A'..='Z' to 'a'..='z' one for one and keeps every
/// other character; it does not restate the case tables beyond ASCII.
#[verifier::external_body]
pub(crate) fn lowercase_string(s: &str) -> (res: String)
    ensures
        res@ == lowercase(s@),
        is_ascii_text(s@) ==> res@ == ascii_lowered(s@),
{
    s.to_lowercase()
}

/// Whether the text, lowercased, contains one of the words, lowercased.
pub open spec fn mentions_restricted(words: Seq<String>, text: Seq<char>) -> bool {
    exists|i: int| 0 <= i < words.len() && #[trigger] contains(lowercase(text), lowercase(words[i]@))
}

/// For ASCII text and words: whether the text contains one of the words, with
/// 'A'..='Z' read as 'a'..='z' on both sides.
pub open spec fn mentions_restricted_ascii(words: Seq<String>, text: Seq<char>) -> bool {
    exists|i: int|
        0 <= i < words.len() && #[trigger] contains(ascii_lowered(text), ascii_lowered(words[i]@))
}

/// Whether `text` contains one of the restricted `words`, ignoring case.
pub fn parsing_restricted_words(words: &Vec<String>, text: &str) -> (res: bool)
    ensures
        res == mentions_restricted(words@, text@),
        is_ascii_text(text@) && (forall|i: int| 0 <= i < words@.len() ==> is_ascii_text(#[trigger] words@[i]@))
            ==> res == mentions_restricted_ascii(words@, text@),
{
    let text_lower = lowercase_string(text);
    let tl = chars_of(text_lower.as_str());
    let mut i: usize = 0;
    while i < words.len()
        invariant
            i <= words@.len(),
            tl@ == lowercase(text@),
            is_ascii_text(text@) ==> lowercase(text@) == ascii_lowered(text@),
            forall|j: int| 0 <= j < i ==> !contains(lowercase(text@), lowercase(#[trigger] words@[j]@)),
            forall|j: int|
                0 <= j < i ==> is_ascii_text(#[trigger] words@[j]@) ==> lowercase(words@[j]@)
                    == ascii_lowered(words@[j]@),
        decreases words.len() - i,
    {
        let word_lower = lowercase_string(words[i].as_str());
        let wl = chars_of(word_lower.as_str());
        if contains_exec(tl.as_slice(), wl.as_slice()) {
            proof {
                if is_ascii_text(text@) && is_ascii_text(words@[i as int]@) {
                    assert(contains(ascii_lowered(text@), ascii_lowered(words@[i as int]@)));
                }
            }
            return true;
        }
        i = i + 1;
    }
    proof {
        if is_ascii_text(text@) && (forall|k: int| 0 <= k < words@.len() ==> is_ascii_text(#[trigger] words@[k]@)) {
            assert forall|k: int| 0 <= k < words@.len() implies !contains(
                ascii_lowered(text@),
                ascii_lowered(#[trigger] words@[k]@),
            ) by {
                assert(!contains(lowercase(text@), lowercase(words@[k]@)));
            }
        }
    }
    false
}

/// The extended grapheme clusters of a text, in order, as
/// `UnicodeSegmentation::graphemes(s, true)` yields them.
pub uninterp spec fn extended_graphemes(s: Seq<char>) -> Seq<Seq<char>>;

/// Calls `UnicodeSegmentation::graphemes(s, true)` and copies out the clusters.
/// The contract names the result and does not restate the segmentation rules.
#[verifier::external_body]
fn graphemes_of(s: &str) -> (res: Vec<String>)
    ensures
        res@.map_values(|g: String| g@) == extended_graphemes(s@),
{
    s.graphemes(true).map(|g| g.to_string()).collect()
}

/// Whether a text is one emoji of the emoji table, as `emojis::get` finds it.
pub uninterp spec fn is_emoji(g: Seq<char>) -> bool;

/// Calls `emojis::get(g)` and tells whether it found an emoji. The contract
/// names the result and does not restate the table.
#[verifier::external_body]
fn emoji_known(g: &str) -> (res: bool)
    ensures
        res == is_emoji(g@),
{
    emojis::get(g).is_some()
}

/// How many of the clusters are emojis.
pub open spec fn emoji_count(gs: Seq<Seq<char>>) -> nat
    decreases gs.len(),
{
    if gs.len() == 0 {
        0
    } else {
        emoji_count(gs.drop_last()) + if is_emoji(gs.last()) {
            1nat
        } else {
            0nat
        }
    }
}

proof fn lemma_emoji_count_bound(gs: Seq<Seq<char>>)
    ensures
        emoji_count(gs) <= gs.len(),
    decreases gs.len(),
{
    if gs.len() > 0 {
        lemma_emoji_count_bound(gs.drop_last());
    }
}

/// How many grapheme clusters of `message` are emojis.
pub fn count_emojis(message: &str) -> (res: usize)
    ensures
        res == emoji_count(extended_graphemes(message@)),
{
    let gs = graphemes_of(message);
    let ghost view = gs@.map_values(|g: String| g@);
    let mut n: usize = 0;
    let mut i: usize = 0;
    while i < gs.len()
        invariant
            i <= gs@.len(),
            view == gs@.map_values(|g: String| g@),
            n == emoji_count(view.take(i as int)),
        decreases gs.len() - i,
    {
        proof {
            assert(view.take(i + 1).drop_last() =~= view.take(i as int));
            assert(view.take(i + 1).last() == gs@[i as int]@);
            lemma_emoji_count_bound(view.take(i as int));
        }
        if emoji_known(gs[i].as_str()) {
            n = n + 1;
        }
        i = i + 1;
    }
    proof {
        assert(view.take(gs@.len() as int) =~= view);
    }
    n
}

/// The names of a message's sender.
pub struct SenderName {
    pub username: Option<String>,
    pub first_name: String,
    pub last_name: Option<String>,
}

/// The name the bot uses for a sender: the username, else the trimmed first
/// and last names, else `mommy's_anon`.
pub open spec fn display_name(sender: Option<&SenderName>) -> Seq<char> {
    match sender {
        None => "mommy's_anon"@,
        Some(u) => match u.username {
            Some(n) => n@,
            None => {
                let first = trim(u.first_name@);
                let last = match u.last_name {
                    Some(l) => trim(l@),
                    None => Seq::empty(),
                };
                if first.len() > 0 && last.len() > 0 {
                    first + " "@ + last
                } else if first.len() > 0 {
                    first
                } else if last.len() > 0 {
                    last
                } else {
                    "mommy's_anon"@
                }
            },
        },
    }
}

/// The name the bot uses for the sender of a message.
pub fn get_username(sender: Option<&SenderName>) -> (res: String)
    ensures
        res@ == display_name(sender),
{
    match sender {
        None => copy_str("mommy's_anon"),
        Some(u) => match &u.username {
            Some(n) => n.clone(),
            None => {
                let fc = chars_of(u.first_name.as_str());
                let first = trim_chars(fc.as_slice());
                let last = match &u.last_name {
                    Some(l) => {
                        let lc = chars_of(l.as_str());
                        trim_chars(lc.as_slice())
                    },
                    None => Vec::new(),
                };
                if first.len() > 0 && last.len() > 0 {
                    let mut out = first;
                    let sp = chars_of(" ");
                    append_chars(&mut out, &sp);
                    append_chars(&mut out, &last);
                    string_from_chars(&out)
                } else if first.len() > 0 {
                    string_from_chars(&first)
                } else if last.len() > 0 {
                    string_from_chars(&last)
                } else {
                    copy_str("mommy's_anon")
                }
            },
        },
    }
}

/// A chat's title, or `No Title Chat`.
pub fn get_chat_title(title: Option<&str>) -> (res: String)
    ensures
        res@ == match title {
            Some(t) => t@,
            None => "No Title Chat"@,
        },
{
    match title {
        Some(t) => copy_str(t),
        None => copy_str("No Title Chat"),
    }
}

/// A chat's username, or `_`.
pub fn get_chat_username(username: Option<&str>) -> (res: String)
    ensures
        res@ == match username {
            Some(u) => u@,
            None => "_"@,
        },
{
    match username {
        Some(u) => copy_str(u),
        None => copy_str("_"),
    }
}

/// Whether a message was posted by the channel linked to the group: it is
/// sent on behalf of a chat (`sender_chat_id`) and that chat is the group's
/// linked channel (`None`: the group has none, or it could not be read).
pub fn is_from_linked_channel(sender_chat_id: Option<i64>, linked_channel_id: Option<i64>) -> (res: bool)
    ensures
        res == (sender_chat_id is Some && linked_channel_id is Some && sender_chat_id == linked_channel_id),
{
    match (sender_chat_id, linked_channel_id) {
        (Some(s), Some(l)) => s == l,
        _ => false,
    }
}

/// The topic a warning is posted to: the message's topic in a forum chat,
/// none elsewhere.
pub fn warning_thread(is_forum: bool, thread_id: Option<i32>) -> (res: Option<i32>)
    ensures
        res == if is_forum {
            thread_id
        } else {
            None
        },
{
    if is_forum {
        thread_id
    } else {
        None
    }
}

} // verus!
