//! The message mirrored onto the external bus: always addressed to the one
//! fixed channel, with an id of its own.

use vstd::prelude::*;

verus! {

/// The bus payload: the relayed text and the session it was sent to.
pub struct Payload {
    pub fen: String,
    pub game_id: usize,
}

/// One message for the external bus.
pub struct Message {
    pub id: String,
    pub channel: String,
    pub payload: Payload,
}

/// The channel that every bus message is published on.
pub open spec fn bus_channel() -> Seq<char> {
    "games"@
}

/// Whether `c` is a lowercase hexadecimal digit.
pub open spec fn is_lower_hex(c: char) -> bool {
    ('0' <= c && c <= '9') || ('a' <= c && c <= 'f')
}

/// Whether the 32 digits `d` of a uuid are those of a random (version 4,
/// RFC 4122 variant) uuid: version digit `4`, variant digit one of `8`,
/// `9`, `a`, `b`.
pub open spec fn is_v4_digits(d: Seq<char>) -> bool {
    &&& d.len() == 32
    &&& forall|i: int| 0 <= i < 32 ==> is_lower_hex(#[trigger] d[i])
    &&& d[12] == '4'
    &&& (d[16] == '8' || d[16] == '9' || d[16] == 'a' || d[16] == 'b')
}

/// Whether `s` is the simple text of a random uuid: its 32 lowercase digits.
pub open spec fn is_simple_v4(s: Seq<char>) -> bool {
    is_v4_digits(s)
}

/// Whether `s` is the hyphenated text of a random uuid: 8-4-4-4-12
/// lowercase digits.
pub open spec fn is_hyphenated_v4(s: Seq<char>) -> bool {
    &&& s.len() == 36
    &&& s[8] == '-' && s[13] == '-' && s[18] == '-' && s[23] == '-'
    &&& is_v4_digits(s.subrange(0, 8) + s.subrange(9, 13) + s.subrange(14, 18) + s.subrange(19, 23) + s.subrange(24, 36))
}

/// Relies on `uuid::Uuid::new_v4` and its `Display`, which writes the
/// hyphenated lowercase form: a random version 4 uuid.
#[verifier::external_body]
fn new_message_id() -> (r: String)
    ensures
        is_hyphenated_v4(r@),
{
    uuid::Uuid::new_v4().to_string()
}

/// The lowercase hexadecimal digit of `n`, below 16.
pub open spec fn hex_digit(n: u32) -> char {
    "0123456789abcdef"@[n as int]
}

/// How serde_json writes the character `c` inside a JSON string: quote and
/// backslash behind a backslash, the usual short escapes for backspace,
/// tab, line feed, form feed and carriage return, other control characters
/// as `\u00XX`, everything else as it is.
pub open spec fn escape_char(c: char) -> Seq<char> {
    let n = c as u32;
    if c == '"' {
        seq!['\\', '"']
    } else if c == '\\' {
        seq!['\\', '\\']
    } else if n == 8 {
        seq!['\\', 'b']
    } else if n == 9 {
        seq!['\\', 't']
    } else if n == 10 {
        seq!['\\', 'n']
    } else if n == 12 {
        seq!['\\', 'f']
    } else if n == 13 {
        seq!['\\', 'r']
    } else if n < 32 {
        seq!['\\', 'u', '0', '0', hex_digit(n / 16), hex_digit(n % 16)]
    } else {
        seq![c]
    }
}

/// The escaped characters of `s`.
pub open spec fn escaped(s: Seq<char>) -> Seq<char>
    decreases s.len(),
{
    if s.len() == 0 {
        Seq::empty()
    } else {
        escaped(s.drop_last()) + escape_char(s.last())
    }
}

/// The JSON text of the string `s`: quoted and escaped.
pub open spec fn json_str(s: Seq<char>) -> Seq<char> {
    seq!['"'] + escaped(s) + seq!['"']
}

/// The decimal digits of `n`, without leading zeros.
pub open spec fn decimal(n: nat) -> Seq<char>
    decreases n,
{
    if n < 10 {
        seq!["0123456789"@[n as int]]
    } else {
        decimal(n / 10) + seq!["0123456789"@[(n % 10) as int]]
    }
}

/// The JSON text of the number `n`.
pub open spec fn json_num(n: usize) -> Seq<char> {
    decimal(n as nat)
}

/// Relies on `serde_json::to_string` on a `str`, which writes the quoted
/// string with the escapes of its `ESCAPE` table, into a `Vec` that cannot
/// fail.
#[verifier::external_body]
fn json_string(s: &str) -> (r: String)
    ensures
        r@ == json_str(s@),
{
    match serde_json::to_string(s) {
        Ok(t) => t,
        Err(_) => String::new(),
    }
}

/// Relies on `serde_json::to_string` on a `usize`, which writes its decimal
/// digits and cannot fail for that type.
#[verifier::external_body]
fn json_number(n: usize) -> (r: String)
    ensures
        r@ == json_num(n),
{
    match serde_json::to_string(&n) {
        Ok(t) => t,
        Err(_) => String::new(),
    }
}

/// The bus message text around already encoded members, in this order:
/// `{"id":..,"channel":..,"payload":{"fen":..,"game_id":..}}`.
pub open spec fn json_frame(id: Seq<char>, channel: Seq<char>, fen: Seq<char>, game_id: Seq<char>) -> Seq<char> {
    "{\"id\":"@ + id + ",\"channel\":"@ + channel + ",\"payload\":{\"fen\":"@ + fen
        + ",\"game_id\":"@ + game_id + "}}"@
}

/// The wire text of a bus message with the given id, channel and payload.
pub open spec fn message_json(id: Seq<char>, channel: Seq<char>, fen: Seq<char>, game_id: usize) -> Seq<char> {
    json_frame(json_str(id), json_str(channel), json_str(fen), json_num(game_id))
}

/// Frames the encoded members of a bus message into its wire text.
pub fn frame_json(id: &str, channel: &str, fen: &str, game_id: &str) -> (r: String)
    ensures
        r@ == json_frame(id@, channel@, fen@, game_id@),
{
    let mut r = "{\"id\":".to_owned();
    r.append(id);
    r.append(",\"channel\":");
    r.append(channel);
    r.append(",\"payload\":{\"fen\":");
    r.append(fen);
    r.append(",\"game_id\":");
    r.append(game_id);
    r.append("}}");
    r
}

impl Message {
    /// A bus message carrying `payload` on the fixed channel, under a fresh
    /// random id.
    pub fn new(payload: Payload) -> (r: Message)
        ensures
            r.channel@ == bus_channel(),
            r.payload == payload,
            is_hyphenated_v4(r.id@),
    {
        Message { id: Message::generate_id(), channel: "games".to_owned(), payload }
    }

    /// The JSON text published on the bus for this message.
    pub fn to_json(&self) -> (r: String)
        ensures
            r@ == message_json(self.id@, self.channel@, self.payload.fen@, self.payload.game_id),
    {
        let id = json_string(self.id.as_str());
        let channel = json_string(self.channel.as_str());
        let fen = json_string(self.payload.fen.as_str());
        let game_id = json_number(self.payload.game_id);
        frame_json(id.as_str(), channel.as_str(), fen.as_str(), game_id.as_str())
    }

    /// A fresh random message id.
    fn generate_id() -> (r: String)
        ensures
            is_hyphenated_v4(r@),
    {
        new_message_id()
    }
}

} // verus!
