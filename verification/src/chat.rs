//! Chat messages and the JSON text in which they travel between the server
//! and its clients.
use vstd::prelude::*;
use crate::user::User;

verus! {

/// Who wrote a chat message.
pub enum ChatSender {
    /// The server itself, announcing arrivals and departures.
    System,
    /// A participant.
    User(User),
}

/// One message of the group chat.
pub struct Chat {
    pub from: ChatSender,
    pub message: String,
}

/// The lower-case hexadecimal digit for `n < 16`.
pub open spec fn hex_digit(n: u32) -> char {
    if n == 0 { '0' }
    else if n == 1 { '1' }
    else if n == 2 { '2' }
    else if n == 3 { '3' }
    else if n == 4 { '4' }
    else if n == 5 { '5' }
    else if n == 6 { '6' }
    else if n == 7 { '7' }
    else if n == 8 { '8' }
    else if n == 9 { '9' }
    else if n == 10 { 'a' }
    else if n == 11 { 'b' }
    else if n == 12 { 'c' }
    else if n == 13 { 'd' }
    else if n == 14 { 'e' }
    else { 'f' }
}

/// How `serde_json` writes one character inside a JSON string: quote and
/// backslash are escaped with a backslash, the five control characters with
/// a short escape have it, the other control characters below U+0020 become
/// `\u00XX`, and every other character stands as it is.
pub open spec fn json_escaped_char(c: char) -> Seq<char> {
    let u = c as u32;
    if c == '"' {
        seq!['\\', '"']
    } else if c == '\\' {
        seq!['\\', '\\']
    } else if u == 0x08 {
        seq!['\\', 'b']
    } else if c == '\t' {
        seq!['\\', 't']
    } else if c == '\n' {
        seq!['\\', 'n']
    } else if u == 0x0c {
        seq!['\\', 'f']
    } else if c == '\r' {
        seq!['\\', 'r']
    } else if u < 0x20 {
        seq!['\\', 'u', '0', '0', hex_digit(u / 16), hex_digit(u % 16)]
    } else {
        seq![c]
    }
}

/// The characters of `s`, each written as inside a JSON string.
pub open spec fn json_escaped(s: Seq<char>) -> Seq<char>
    decreases s.len(),
{
    if s.len() == 0 {
        Seq::empty()
    } else {
        json_escaped_char(s[0]) + json_escaped(s.drop_first())
    }
}

/// The JSON string literal that `serde_json` writes for the text `s`:
/// the escaped text between double quotes.
pub open spec fn json_string_literal(s: Seq<char>) -> Seq<char> {
    seq!['"'] + json_escaped(s) + seq!['"']
}

/// Calls `serde_json::to_string` on a `str`, which writes the string between
/// quotes with the escapes of its table (`ESCAPE` and `write_char_escape` in
/// `ser.rs`), as `json_string_literal` states. Serialising a string into an
/// in-memory buffer does not fail (the writer is a `Vec<u8>`), so the
/// `Result` is unwrapped.
#[verifier::external_body]
fn json_quote(s: &str) -> (quoted: String)
    ensures
        quoted@ == json_string_literal(s@),
{
    serde_json::to_string(s).unwrap()
}

/// The JSON value of a sender: the variant name for `System`, an object
/// keyed by the variant name for a user.
pub open spec fn sender_json(from: ChatSender) -> Seq<char> {
    match from {
        ChatSender::System => "\"System\""@,
        ChatSender::User(user) => "{\"User\":{\"name\":"@ + json_string_literal(user.name@) + "}}"@,
    }
}

/// The JSON object of a chat: its sender under `from`, then its text under
/// `message`, without white space.
pub open spec fn chat_json(from: ChatSender, message: Seq<char>) -> Seq<char> {
    "{\"from\":"@ + sender_json(from) + ",\"message\":"@ + json_string_literal(message) + "}"@
}

impl Chat {
    /// A message of the server.
    pub fn from_system(message: &str) -> (chat: Chat)
        ensures
            chat.from is System,
            chat.message@ == message@,
    {
        Chat { from: ChatSender::System, message: message.to_owned() }
    }

    /// A message written by `user`.
    pub fn from_user(message: &str, user: &User) -> (chat: Chat)
        ensures
            chat.from matches ChatSender::User(u) && u.name@ == user.name@,
            chat.message@ == message@,
    {
        Chat { from: ChatSender::User(user.duplicate()), message: message.to_owned() }
    }

    /// The chat as JSON text.
    pub fn to_string(&self) -> (json: String)
        ensures
            json@ == chat_json(self.from, self.message@),
    {
        let mut json = String::from_str("{\"from\":");
        match &self.from {
            ChatSender::System => {
                json.append("\"System\"");
            },
            ChatSender::User(user) => {
                json.append("{\"User\":{\"name\":");
                let name = json_quote(user.name.as_str());
                json.append(name.as_str());
                json.append("}}");
            },
        }
        json.append(",\"message\":");
        let text = json_quote(self.message.as_str());
        json.append(text.as_str());
        json.append("}");
        json
    }
}

proof fn lemma_hex_digit_injective(x: u32, y: u32)
    requires
        x < 16,
        y < 16,
        hex_digit(x) == hex_digit(y),
    ensures
        x == y,
{
}

/// The escape of a character is one character or begins with a backslash;
/// a backslash escape is two characters long, or six when it is `\u`.
proof fn lemma_escaped_char_shape(c: char)
    ensures
        json_escaped_char(c).len() >= 1,
        json_escaped_char(c)[0] != '"',
        json_escaped_char(c)[0] != '\\' ==> json_escaped_char(c) == seq![c],
        json_escaped_char(c)[0] == '\\' ==> json_escaped_char(c).len() >= 2,
        json_escaped_char(c)[0] == '\\' ==> (json_escaped_char(c)[1] == 'u'
            <==> json_escaped_char(c).len() == 6),
        json_escaped_char(c)[0] == '\\' && json_escaped_char(c)[1] != 'u'
            ==> json_escaped_char(c).len() == 2,
{
}

/// Different characters have different escapes.
proof fn lemma_escaped_char_injective(c: char, d: char)
    requires
        json_escaped_char(c) == json_escaped_char(d),
    ensures
        c == d,
{
    let e = json_escaped_char(c);
    lemma_escaped_char_shape(c);
    lemma_escaped_char_shape(d);
    if e[0] != '\\' {
        assert(seq![c][0] == seq![d][0]);
    } else if e[1] == 'u' {
        let u = c as u32;
        let v = d as u32;
        assert(e[4] == hex_digit(u / 16) && e[4] == hex_digit(v / 16));
        assert(e[5] == hex_digit(u % 16) && e[5] == hex_digit(v % 16));
        lemma_hex_digit_injective(u / 16, v / 16);
        lemma_hex_digit_injective(u % 16, v % 16);
        assert(u == v);
    }
}

proof fn lemma_escaped_unfold(s: Seq<char>)
    requires
        s.len() > 0,
    ensures
        json_escaped(s) == json_escaped_char(s[0]) + json_escaped(s.drop_first()),
{
}

/// An escaped text followed by a quote can be read back: the quote that ends
/// it is the first unescaped one, so the text and what follows are both
/// determined.
proof fn lemma_escaped_then_quote(a: Seq<char>, b: Seq<char>, r1: Seq<char>, r2: Seq<char>)
    requires
        json_escaped(a) + seq!['"'] + r1 == json_escaped(b) + seq!['"'] + r2,
    ensures
        a == b,
        r1 == r2,
    decreases a.len(),
{
    let x = json_escaped(a) + seq!['"'] + r1;
    if a.len() == 0 || b.len() == 0 {
        if a.len() > 0 {
            lemma_escaped_unfold(a);
            lemma_escaped_char_shape(a[0]);
            let ea = json_escaped_char(a[0]);
            assert(x =~= ea + (json_escaped(a.drop_first()) + seq!['"'] + r1));
            assert(x[0] == ea[0]);
            assert(json_escaped(b) =~= Seq::<char>::empty());
            assert(x[0] == '"');
        }
        if b.len() > 0 {
            lemma_escaped_unfold(b);
            lemma_escaped_char_shape(b[0]);
            let eb = json_escaped_char(b[0]);
            assert(x =~= eb + (json_escaped(b.drop_first()) + seq!['"'] + r2));
            assert(x[0] == eb[0]);
            assert(json_escaped(a) =~= Seq::<char>::empty());
            assert(x[0] == '"');
        }
        assert(json_escaped(a) =~= Seq::<char>::empty());
        assert(json_escaped(b) =~= Seq::<char>::empty());
        assert(r1 =~= x.skip(1));
        assert(r2 =~= (json_escaped(b) + seq!['"'] + r2).skip(1));
        assert(a =~= b);
    } else {
        lemma_escaped_unfold(a);
        lemma_escaped_unfold(b);
        lemma_escaped_char_shape(a[0]);
        lemma_escaped_char_shape(b[0]);
        let ea = json_escaped_char(a[0]);
        let eb = json_escaped_char(b[0]);
        let ta = json_escaped(a.drop_first()) + seq!['"'] + r1;
        let tb = json_escaped(b.drop_first()) + seq!['"'] + r2;
        assert(x =~= ea + ta);
        assert(x =~= eb + tb);
        assert(x[0] == ea[0]);
        assert(x[0] == eb[0]);
        if ea[0] == '\\' {
            assert(x[1] == ea[1]);
            assert(x[1] == eb[1]);
        }
        assert(ea.len() == eb.len());
        assert(ea =~= x.take(ea.len() as int));
        assert(eb =~= x.take(eb.len() as int));
        lemma_escaped_char_injective(a[0], b[0]);
        assert(ta =~= x.skip(ea.len() as int));
        assert(tb =~= x.skip(eb.len() as int));
        lemma_escaped_then_quote(a.drop_first(), b.drop_first(), r1, r2);
        assert(a =~= seq![a[0]] + a.drop_first());
        assert(b =~= seq![b[0]] + b.drop_first());
    }
}

proof fn lemma_strip_prefix(p: Seq<char>, s1: Seq<char>, s2: Seq<char>)
    requires
        p + s1 == p + s2,
    ensures
        s1 == s2,
{
    assert(s1 =~= (p + s1).skip(p.len() as int));
    assert(s2 =~= (p + s2).skip(p.len() as int));
}

/// The JSON text of a chat can be read back: two chats with the same JSON
/// have the same sender (kind and name) and the same whole message text.
pub proof fn law_chat_json_decodes(f1: ChatSender, m1: Seq<char>, f2: ChatSender, m2: Seq<char>)
    requires
        chat_json(f1, m1) == chat_json(f2, m2),
    ensures
        m1 == m2,
        f1 is System <==> f2 is System,
        f1 matches ChatSender::User(u1) ==> (f2 matches ChatSender::User(u2) && u1.name@
            == u2.name@),
{
    reveal_strlit("{\"from\":");
    reveal_strlit("\"System\"");
    reveal_strlit("{\"User\":{\"name\":");
    reveal_strlit("}}");
    reveal_strlit(",\"message\":");
    reveal_strlit("}");
    let open_obj = "{\"from\":"@;
    let system = "\"System\""@;
    let user_open = "{\"User\":{\"name\":"@;
    let user_close = "}}"@;
    let message_key = ",\"message\":"@;
    let close = "}"@;
    let x = chat_json(f1, m1);
    let q = seq!['"'];
    let tail1 = json_escaped(m1) + q + close;
    let tail2 = json_escaped(m2) + q + close;
    match f1 {
        ChatSender::System => {
            assert(x =~= (open_obj + system + message_key + q) + tail1);
            assert(x[8] == '"');
            match f2 {
                ChatSender::System => {
                    assert(x =~= (open_obj + system + message_key + q) + tail2);
                    lemma_strip_prefix(open_obj + system + message_key + q, tail1, tail2);
                    lemma_escaped_then_quote(m1, m2, close, close);
                },
                ChatSender::User(u2) => {
                    assert(x =~= open_obj + user_open + (json_string_literal(u2.name@)
                        + user_close + message_key + json_string_literal(m2) + close));
                    assert(x[8] == '{');
                },
            }
        },
        ChatSender::User(u1) => {
            let rest1 = user_close + message_key + q + tail1;
            assert(x =~= (open_obj + user_open + q) + (json_escaped(u1.name@) + q + rest1));
            assert(x[8] == '{');
            match f2 {
                ChatSender::System => {
                    assert(x =~= (open_obj + system + message_key + q) + tail2);
                    assert(x[8] == '"');
                },
                ChatSender::User(u2) => {
                    let rest2 = user_close + message_key + q + tail2;
                    assert(x =~= (open_obj + user_open + q) + (json_escaped(u2.name@) + q + rest2));
                    lemma_strip_prefix(
                        open_obj + user_open + q,
                        json_escaped(u1.name@) + q + rest1,
                        json_escaped(u2.name@) + q + rest2,
                    );
                    lemma_escaped_then_quote(u1.name@, u2.name@, rest1, rest2);
                    assert(rest1 =~= (user_close + message_key + q) + tail1);
                    assert(rest2 =~= (user_close + message_key + q) + tail2);
                    lemma_strip_prefix(user_close + message_key + q, tail1, tail2);
                    lemma_escaped_then_quote(m1, m2, close, close);
                },
            }
        },
    }
}

/// The message of a chat is kept whole: chats that differ in their text, by
/// any character and at any length, have different JSON.
pub proof fn law_chat_json_keeps_whole_message(from: ChatSender, m1: Seq<char>, m2: Seq<char>)
    requires
        m1 != m2,
    ensures
        chat_json(from, m1) != chat_json(from, m2),
{
    if chat_json(from, m1) == chat_json(from, m2) {
        law_chat_json_decodes(from, m1, from, m2);
    }
}

} // verus!
