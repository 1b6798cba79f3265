//! The operator's side: lines typed at the server, and the chat they become.

use crate::hub::Hub;
use crate::names::NameMap;
use crate::protocol::{Message, MessageView};
use crate::text::{copy_text, find_white, join, same_text, trim, unsigned_text};
use vstd::prelude::*;

verus! {

/// Whom the operator's messages come from.
pub const SERVER: &'static str = "SERVER";

/// A chat text for everybody who is connected.
#[derive(Debug, Clone)]
pub struct ChatBroadcast {
    pub from: String,
    pub text: String,
}

/// What a line of the operator asks for.
#[derive(Debug)]
pub enum AdminAction {
    /// Nothing: the line is blank.
    Nothing,
    /// Show who is connected.
    List(Vec<String>),
    /// Show how a message to one user is written.
    Usage,
    /// Say that the message has no text.
    EmptyText,
    /// Say that a user is not connected.
    NotConnected(String),
    /// Send a message to the user on a connection.
    Deliver { connection: u64, user: String, message: Message },
    /// Send a text to everybody; so many are connected.
    Broadcast { chat: ChatBroadcast, connected: usize },
}

/// What a line says, by itself.
pub enum Line {
    Blank,
    List,
    NoText,
    EmptyText,
    To { user: Seq<char>, text: Seq<char> },
    ToAll { text: Seq<char> },
}

/// How a line is read: `/list`; `@user text` for one user, where the name ends
/// at the first white space; and any other text for everybody.
pub open spec fn read_line(line: Seq<char>) -> Line {
    let s = crate::text::trimmed(line);
    if s.len() == 0 {
        Line::Blank
    } else if s == "/list"@ {
        Line::List
    } else if s[0] == '@' {
        let rest = s.skip(1);
        let i = crate::text::first_white(rest) as int;
        if i == rest.len() {
            Line::NoText
        } else {
            let text = crate::text::trimmed(rest.skip(i + 1));
            if text.len() == 0 {
                Line::EmptyText
            } else {
                Line::To { user: rest.take(i), text }
            }
        }
    } else {
        Line::ToAll { text: s }
    }
}

/// Each user who is connected, once.
pub open spec fn lists(names: Seq<String>, online: Map<Seq<char>, u64>) -> bool {
    &&& forall|i: int|
        0 <= i < names.len() ==> online.dom().contains(#[trigger] names[i]@)
    &&& forall|i: int, j: int|
        0 <= i < j < names.len() ==> #[trigger] names[i]@ != #[trigger] names[j]@
    &&& forall|k: Seq<char>| #[trigger]
        online.dom().contains(k) ==> exists|i: int|
            0 <= i < names.len() && #[trigger] names[i]@ == k
}

/// What a line asks for, with `online` connected.
pub open spec fn asks(line: Seq<char>, online: Map<Seq<char>, u64>, a: AdminAction) -> bool {
    match read_line(line) {
        Line::Blank => a is Nothing,
        Line::List => a matches AdminAction::List(names) && lists(names@, online),
        Line::NoText => a is Usage,
        Line::EmptyText => a is EmptyText,
        Line::To { user, text } => if online.dom().contains(user) {
            a matches AdminAction::Deliver { connection, user: u, message } && connection
                == online[user] && u@ == user && message@ == (MessageView::ChatFromServer {
                from: Some(SERVER@),
                text,
            })
        } else {
            a matches AdminAction::NotConnected(u) && u@ == user
        },
        Line::ToAll { text } => a matches AdminAction::Broadcast { chat, connected } && chat.from@
            == SERVER@ && chat.text@ == text && connected == online.dom().len(),
    }
}

/// Reads a line of the operator.
pub fn admin_line(hub: &Hub, line: &str) -> (a: AdminAction)
    requires
        hub.wf(),
    ensures
        asks(line@, hub@.online, a),
{
    let s = trim(line);
    let n: usize = s.unicode_len();
    if n == 0 {
        return AdminAction::Nothing;
    }
    if same_text(s, "/list") {
        return AdminAction::List(hub.online.names());
    }
    if s.get_char(0) == '@' {
        let rest = s.substring_char(1, n);
        assert(rest@ =~= s@.skip(1));
        return match find_white(rest) {
            None => AdminAction::Usage,
            Some(i) => {
                let user = rest.substring_char(0, i);
                assert(user@ =~= rest@.take(i as int));
                let after = rest.substring_char(i + 1, n - 1);
                assert(after@ =~= rest@.skip(i + 1));
                let text = trim(after);
                if text.unicode_len() == 0 {
                    AdminAction::EmptyText
                } else {
                    message_to(&hub.online, user, text)
                }
            },
        };
    }
    AdminAction::Broadcast {
        chat: ChatBroadcast { from: copy_text(SERVER), text: copy_text(s) },
        connected: hub.online.names().len(),
    }
}

fn message_to(online: &NameMap<u64>, user: &str, text: &str) -> (a: AdminAction)
    requires
        online.wf(),
    ensures
        if online@.dom().contains(user@) {
            a matches AdminAction::Deliver { connection, user: u, message } && connection
                == online@[user@] && u@ == user@ && message@ == (MessageView::ChatFromServer {
                from: Some(SERVER@),
                text: text@,
            })
        } else {
            a matches AdminAction::NotConnected(u) && u@ == user@
        },
{
    match online.get(user) {
        Some(connection) => AdminAction::Deliver {
            connection: *connection,
            user: copy_text(user),
            message: Message::ChatFromServer {
                from: Some(copy_text(SERVER)),
                text: copy_text(text),
            },
        },
        None => AdminAction::NotConnected(copy_text(user)),
    }
}

/// What the operator is shown at once: nothing for a blank line, a list of
/// names or a delivery.
pub open spec fn shown(a: AdminAction) -> Option<Seq<char>> {
    match a {
        AdminAction::Usage => Some("usa: @user testo"@),
        AdminAction::EmptyText => Some("messaggio vuoto"@),
        AdminAction::NotConnected(user) => Some("utente '"@ + user@ + "' non connesso"@),
        AdminAction::List(names) => if names@.len() == 0 {
            Some("(nessun utente connesso)"@)
        } else {
            None
        },
        AdminAction::Broadcast { chat, connected } => Some(
            "→ broadcast inviato ("@ + crate::text::decimal(connected as nat)
                + " client connessi)"@,
        ),
        _ => None,
    }
}

/// Renders what the operator is shown at once.
pub fn announce(a: &AdminAction) -> (t: Option<String>)
    ensures
        crate::text::text_view(t) == shown(*a),
{
    match a {
        AdminAction::Usage => Some(copy_text("usa: @user testo")),
        AdminAction::EmptyText => Some(copy_text("messaggio vuoto")),
        AdminAction::NotConnected(user) => {
            let mut t = join("utente '", user.as_str());
            t.append("' non connesso");
            Some(t)
        },
        AdminAction::List(names) => if names.len() == 0 {
            Some(copy_text("(nessun utente connesso)"))
        } else {
            None
        },
        AdminAction::Broadcast { chat: _, connected } => {
            let mut t = join("→ broadcast inviato (", unsigned_text(*connected as u64).as_str());
            t.append(" client connessi)");
            Some(t)
        },
        _ => None,
    }
}

/// What came of a message to one user.
#[derive(Debug)]
pub enum Delivery {
    Sent,
    /// It could not be written down.
    NotEncoded(String),
    /// It could not be sent.
    NotSent(String),
}

/// What the operator is shown of a message to `user`.
pub open spec fn notice(user: Seq<char>, d: Delivery) -> Seq<char> {
    match d {
        Delivery::Sent => "→ DM a '"@ + user + "' inviato"@,
        Delivery::NotEncoded(e) => "encode fallito: "@ + e@,
        Delivery::NotSent(e) => "invio DM a '"@ + user + "' fallito: "@ + e@,
    }
}

/// Renders what the operator is shown of a message to a user.
pub fn delivery_notice(user: &str, d: &Delivery) -> (t: String)
    ensures
        t@ == notice(user@, *d),
{
    match d {
        Delivery::Sent => {
            let mut t = join("→ DM a '", user);
            t.append("' inviato");
            t
        },
        Delivery::NotEncoded(e) => join("encode fallito: ", e.as_str()),
        Delivery::NotSent(e) => {
            let mut t = join("invio DM a '", user);
            t.append("' fallito: ");
            t.append(e.as_str());
            t
        },
    }
}

/// What a connection gets of a chat text for everybody: nothing while nobody is
/// logged in on it, nor when the text is its user's own.
pub fn relay(user: &Option<String>, chat: &ChatBroadcast) -> (m: Option<Message>)
    ensures
        match m {
            Some(message) => {
                &&& user matches Some(me) && me@ != chat.from@
                &&& message@ == (MessageView::ChatFromServer {
                    from: Some(chat.from@),
                    text: chat.text@,
                })
            },
            None => user is None || (user matches Some(me) && me@ == chat.from@),
        },
{
    match user {
        None => None,
        Some(me) => if same_text(me.as_str(), chat.from.as_str()) {
            None
        } else {
            Some(
                Message::ChatFromServer {
                    from: Some(copy_text(chat.from.as_str())),
                    text: copy_text(chat.text.as_str()),
                },
            )
        },
    }
}

/// `s` has no white space at its ends.
pub open spec fn bare(s: Seq<char>) -> bool {
    s.len() == 0 || (!crate::text::is_white(s[0]) && !crate::text::is_white(s.last()))
}

proof fn lemma_bare(s: Seq<char>)
    requires
        bare(s),
    ensures
        crate::text::trimmed(s) == s,
{
    let (a, b) = crate::text::law_trimmed(s);
    if s.len() > 0 {
        assert(a == 0 && b == s.len());
    }
    assert(s.subrange(0, s.len() as int) =~= s);
}

/// White space around a line means nothing.
pub proof fn law_line_is_read_without_its_margins(line: Seq<char>)
    ensures
        read_line(line) == read_line(crate::text::trimmed(line)),
        (forall|i: int| 0 <= i < line.len() ==> crate::text::is_white(#[trigger] line[i]))
            ==> read_line(line) is Blank,
{
    let (a, b) = crate::text::law_trimmed(line);
    let s = crate::text::trimmed(line);
    assert(bare(s));
    lemma_bare(s);
    if forall|i: int| 0 <= i < line.len() ==> crate::text::is_white(#[trigger] line[i]) {
        if a < b {
            assert(crate::text::is_white(line[a]));
        }
    }
}

/// An at sign, a name without white space, one white space and a text are a
/// message of that text, without its margins, to the user of that name; with no
/// text, it is empty, and without the white space there is none.
pub proof fn law_message_to_one_user(user: Seq<char>, gap: char, text: Seq<char>)
    requires
        forall|i: int| 0 <= i < user.len() ==> !crate::text::is_white(#[trigger] user[i]),
        crate::text::is_white(gap),
        text.len() > 0,
        !crate::text::is_white(text.last()),
    ensures
        read_line(seq!['@'] + user + seq![gap] + text) == (Line::To {
            user,
            text: crate::text::trimmed(text),
        }),
        read_line(seq!['@'] + user) is NoText,
{
    let s = seq!['@'] + user + seq![gap] + text;
    reveal_strlit("/list");
    assert("/list"@[0] == '/');
    assert(s[0] == '@' && s.last() == text.last());
    lemma_bare(s);
    let rest = s.skip(1);
    assert(rest =~= user + seq![gap] + text);
    crate::text::law_first_white(rest);
    let i = crate::text::first_white(rest) as int;
    if i < user.len() {
        assert(rest[i] == user[i]);
    }
    assert(rest[user.len() as int] == gap);
    assert(i == user.len());
    assert(rest.take(i) =~= user);
    assert(rest.skip(i + 1) =~= text);
    let (a, b) = crate::text::law_trimmed(text);
    assert(b == text.len());
    if a == b {
        assert(crate::text::is_white(text[text.len() - 1]));
    }
    let alone = seq!['@'] + user;
    if user.len() > 0 {
        assert(alone.last() == user.last());
        assert(!crate::text::is_white(user[user.len() - 1]));
    }
    lemma_bare(alone);
    let name = alone.skip(1);
    assert(name =~= user);
    crate::text::law_first_white(name);
    if crate::text::first_white(name) < name.len() {
        assert(crate::text::is_white(user[crate::text::first_white(name) as int]));
    }
}

/// The word for the list asks for it; any other text that is bare and does not
/// begin with an at sign goes to everybody as it is.
pub proof fn law_message_to_everybody(text: Seq<char>)
    requires
        bare(text),
        text.len() > 0,
        text[0] != '@',
    ensures
        read_line("/list"@) is List,
        text != "/list"@ ==> read_line(text) == (Line::ToAll { text }),
{
    lemma_bare(text);
    reveal_strlit("/list");
    lemma_bare("/list"@);
}

/// What the operator is shown.
pub proof fn law_operator_is_shown(
    user: String,
    names: Vec<String>,
    chat: ChatBroadcast,
    connected: usize,
    e: String,
)
    ensures
        shown(AdminAction::Nothing) is None,
        shown(AdminAction::Usage) == Some("usa: @user testo"@),
        shown(AdminAction::EmptyText) == Some("messaggio vuoto"@),
        shown(AdminAction::NotConnected(user)) == Some("utente '"@ + user@ + "' non connesso"@),
        shown(AdminAction::Broadcast { chat, connected }) == Some(
            "→ broadcast inviato ("@ + crate::text::decimal(connected as nat)
                + " client connessi)"@,
        ),
        shown(AdminAction::List(names)) == (if names@.len() == 0 {
            Some("(nessun utente connesso)"@)
        } else {
            None
        }),
        notice(user@, Delivery::Sent) == "→ DM a '"@ + user@ + "' inviato"@,
        notice(user@, Delivery::NotEncoded(e)) == "encode fallito: "@ + e@,
        notice(user@, Delivery::NotSent(e)) == "invio DM a '"@ + user@ + "' fallito: "@ + e@,
{
}

/// What a line leads to: a message to one user goes to the connection that the
/// hub has for that user, in the server's name, or is told to reach nobody; one
/// to everybody goes out in the server's name, with the number of users
/// connected; and the list names each of them once.
pub proof fn law_line_is_carried_out(
    line: Seq<char>,
    online: Map<Seq<char>, u64>,
    a: AdminAction,
)
    requires
        asks(line, online, a),
    ensures
        read_line(line) is Blank ==> a is Nothing,
        read_line(line) is NoText ==> a is Usage,
        read_line(line) is EmptyText ==> a is EmptyText,
        read_line(line) matches Line::To { user, text } ==> if online.dom().contains(user) {
            a matches AdminAction::Deliver { connection, user: u, message } && connection
                == online[user] && u@ == user && message@ == (MessageView::ChatFromServer {
                from: Some("SERVER"@),
                text,
            })
        } else {
            a matches AdminAction::NotConnected(u) && u@ == user
        },
        read_line(line) matches Line::ToAll { text } ==> a matches AdminAction::Broadcast {
            chat,
            connected,
        } && chat.from@ == "SERVER"@ && chat.text@ == text && connected == online.dom().len(),
        read_line(line) is List ==> (a matches AdminAction::List(names) && {
            &&& forall|i: int|
                0 <= i < names@.len() ==> online.dom().contains(#[trigger] names@[i]@)
            &&& forall|i: int, j: int|
                0 <= i < j < names@.len() ==> #[trigger] names@[i]@ != #[trigger] names@[j]@
            &&& forall|k: Seq<char>| #[trigger]
                online.dom().contains(k) ==> exists|i: int|
                    0 <= i < names@.len() && #[trigger] names@[i]@ == k
        }),
{
}

}
