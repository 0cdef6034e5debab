//! What the board says to the playback bot, and what it makes of the bot's replies.

use vstd::prelude::*;

use crate::dumpster_base::DumpsterBase;
use crate::text::{all_digits, decimal_value, parse_decimal};

verus! {

/// A request to play the sound stored under `value`.
#[derive(Debug, PartialEq, Eq)]
pub struct PlayRequest {
    pub value: String,
}

/// A request to show the sound stored under `value` by the name `new_display_name`.
#[derive(Debug, PartialEq, Eq)]
pub struct ChangeDisplayName {
    pub value: String,
    pub new_display_name: String,
}

/// A request to drop the sound stored under `value`.
#[derive(Debug, PartialEq, Eq)]
pub struct RemoveItem {
    pub value: String,
}

/// The bot's queue: the keys of the sounds waiting to be played, in order.
#[derive(Debug, PartialEq, Eq)]
pub struct Queue {
    pub queue: Vec<String>,
}

/// A command for the playback bot.
#[derive(Debug, PartialEq, Eq)]
pub enum BotCommand {
    Play { value: String, file_name: String },
    /// Ask for the queue. The bot answers in two messages: first the byte
    /// length of its queue reply, then the queue reply itself, of that length.
    Queue,
    Skip,
    Stop,
    Banaj,
}

/// The fields of the object that carries `c` to the bot, in order: a name and a value each.
pub open spec fn command_fields(c: &BotCommand) -> Seq<(Seq<char>, Seq<char>)> {
    match c {
        BotCommand::Play { value, file_name } => seq![
            ("command"@, "play"@),
            ("value"@, value@),
            ("file_name"@, file_name@),
        ],
        BotCommand::Queue => seq![("command"@, "queue"@)],
        BotCommand::Skip => seq![("command"@, "skip"@)],
        BotCommand::Stop => seq![("command"@, "stop"@)],
        BotCommand::Banaj => seq![("command"@, "banaj"@)],
    }
}

/// The two strings of a field, as sequences.
pub open spec fn field_view(f: (String, String)) -> (Seq<char>, Seq<char>) {
    (f.0@, f.1@)
}

impl BotCommand {
    /// The fields of the object that carries the command to the bot.
    pub fn fields(&self) -> (r: Vec<(String, String)>)
        ensures
            r@.map_values(|f: (String, String)| field_view(f)) =~= command_fields(self),
    {
        let mut r: Vec<(String, String)> = Vec::new();
        match self {
            BotCommand::Play { value, file_name } => {
                r.push(("command".to_owned(), "play".to_owned()));
                r.push(("value".to_owned(), value.clone()));
                r.push(("file_name".to_owned(), file_name.clone()));
            },
            BotCommand::Queue => {
                r.push(("command".to_owned(), "queue".to_owned()));
            },
            BotCommand::Skip => {
                r.push(("command".to_owned(), "skip".to_owned()));
            },
            BotCommand::Stop => {
                r.push(("command".to_owned(), "stop".to_owned()));
            },
            BotCommand::Banaj => {
                r.push(("command".to_owned(), "banaj".to_owned()));
            },
        }
        r
    }
}

/// The command that plays the sound asked for: none when the store has no such
/// sound, else one that names the sound's key and its file.
pub fn play_command(db: &DumpsterBase, request: &PlayRequest) -> (r: Option<BotCommand>)
    ensures
        match r {
            None => !db@.contains_key(request.value@),
            Some(c) => db@.contains_key(request.value@) && (c matches BotCommand::Play {
                value,
                file_name,
            } && value@ == request.value@ && file_name@ == db@[request.value@].full_file_name),
        },
{
    match db.get(request.value.as_str()) {
        Some(entry) => Some(
            BotCommand::Play { value: request.value.clone(), file_name: entry.full_file_name.clone() },
        ),
        None => None,
    }
}

/// The queue part of an answer to the browser.
#[derive(Debug, PartialEq, Eq)]
pub enum QueueField {
    /// The answer has no queue.
    Absent,
    /// The display names of the queued sounds, in order.
    Names(Vec<String>),
    /// A message in place of the queue.
    Notice(String),
}

/// An answer to the browser: a status under the name `key`
/// ("success" or "error"), and perhaps a queue.
#[derive(Debug, PartialEq, Eq)]
pub struct BotResponse {
    pub key: String,
    pub status: String,
    pub queue: QueueField,
}

/// The queue part of an answer, as sequences.
pub enum QueueFieldView {
    Absent,
    Names(Seq<Seq<char>>),
    Notice(Seq<char>),
}

/// An answer to the browser, as sequences.
pub struct ResponseView {
    pub key: Seq<char>,
    pub status: Seq<char>,
    pub queue: QueueFieldView,
}

impl View for QueueField {
    type V = QueueFieldView;

    open spec fn view(&self) -> QueueFieldView {
        match self {
            QueueField::Absent => QueueFieldView::Absent,
            QueueField::Names(names) => QueueFieldView::Names(
                names@.map_values(|n: String| n@),
            ),
            QueueField::Notice(text) => QueueFieldView::Notice(text@),
        }
    }
}

impl View for BotResponse {
    type V = ResponseView;

    open spec fn view(&self) -> ResponseView {
        ResponseView { key: self.key@, status: self.status@, queue: self.queue@ }
    }
}

/// An answer that carries a status and no queue.
pub open spec fn status_view(key: Seq<char>, status: Seq<char>) -> ResponseView {
    ResponseView { key, status, queue: QueueFieldView::Absent }
}

/// What the board does with a reply of the bot.
#[derive(Debug, PartialEq, Eq)]
pub enum ReplyStep {
    /// Answer the browser.
    Respond(BotResponse),
    /// The reply lists the queue: its rest is the queue's JSON text.
    ListQueue(String),
}

/// What the board does with a reply of the bot, as sequences.
pub enum ReplyStepView {
    Respond(ResponseView),
    ListQueue(Seq<char>),
}

impl View for ReplyStep {
    type V = ReplyStepView;

    open spec fn view(&self) -> ReplyStepView {
        match self {
            ReplyStep::Respond(r) => ReplyStepView::Respond(r@),
            ReplyStep::ListQueue(text) => ReplyStepView::ListQueue(text@),
        }
    }
}

/// The meaning of a reply of the bot, by its first character: '0' playing,
/// '1' added to the queue, '2' the queue follows, '3' the bot could not join,
/// '4' skipped, '5' the queue is empty, '6' stopped, '7' nothing to stop;
/// anything else is a plain error.
pub open spec fn reply_step(message: Seq<char>) -> ReplyStepView {
    let c = message[0];
    if c == '0' {
        ReplyStepView::Respond(status_view("success"@, "playing"@))
    } else if c == '1' {
        ReplyStepView::Respond(status_view("success"@, "added"@))
    } else if c == '2' {
        ReplyStepView::ListQueue(message.drop_first())
    } else if c == '3' {
        ReplyStepView::Respond(status_view("error"@, "error joining"@))
    } else if c == '4' {
        ReplyStepView::Respond(status_view("success"@, "skip_success"@))
    } else if c == '5' {
        ReplyStepView::Respond(
            ResponseView {
                key: "success"@,
                status: "queue_success"@,
                queue: QueueFieldView::Notice("Queue is empty!"@),
            },
        )
    } else if c == '6' {
        ReplyStepView::Respond(status_view("success"@, "stop_success"@))
    } else if c == '7' {
        ReplyStepView::Respond(status_view("success"@, "stop_empty"@))
    } else {
        ReplyStepView::Respond(status_view("error"@, "error"@))
    }
}

/// The answer to a reply depends on its first character alone; only the queue
/// reply ('2') carries what follows it.
pub proof fn law_reply_by_first_character(m: Seq<char>, n: Seq<char>)
    requires
        m.len() > 0,
        n.len() > 0,
        m[0] == n[0],
        m[0] != '2',
    ensures
        reply_step(m) == reply_step(n),
{
}

/// A reply that starts with '1' means the sound was added to the queue, whatever
/// follows; the answer "playing" comes from a reply that starts with '0' and from
/// no other.
pub proof fn law_reply_added_and_playing(m: Seq<char>)
    requires
        m.len() > 0,
    ensures
        m[0] == '1' ==> reply_step(m) == ReplyStepView::Respond(
            ResponseView { key: "success"@, status: "added"@, queue: QueueFieldView::Absent },
        ),
        m[0] == '0' ==> reply_step(m) == ReplyStepView::Respond(
            ResponseView { key: "success"@, status: "playing"@, queue: QueueFieldView::Absent },
        ),
        (reply_step(m) matches ReplyStepView::Respond(r) && r.status == "playing"@) ==> m[0] == '0',
{
    reveal_strlit("playing");
    reveal_strlit("added");
    reveal_strlit("error joining");
    reveal_strlit("skip_success");
    reveal_strlit("queue_success");
    reveal_strlit("stop_success");
    reveal_strlit("stop_empty");
    reveal_strlit("error");
    assert("playing"@.len() == 7);
    assert("added"@.len() == 5);
    assert("error joining"@.len() == 13);
    assert("skip_success"@.len() == 12);
    assert("queue_success"@.len() == 13);
    assert("stop_success"@.len() == 12);
    assert("stop_empty"@.len() == 10);
    assert("error"@.len() == 5);
}

/// What each status character of the bot means to the browser: '0' playing,
/// '1' added, '3' the bot could not join, '4' skipped, '5' an empty queue,
/// '6' stopped, '7' nothing to stop, anything else but '2' an error.
pub proof fn law_reply_table(m: Seq<char>)
    requires
        m.len() > 0,
        m[0] != '2',
    ensures
        reply_step(m) == ReplyStepView::Respond(
            if m[0] == '0' {
                ResponseView { key: "success"@, status: "playing"@, queue: QueueFieldView::Absent }
            } else if m[0] == '1' {
                ResponseView { key: "success"@, status: "added"@, queue: QueueFieldView::Absent }
            } else if m[0] == '3' {
                ResponseView { key: "error"@, status: "error joining"@, queue: QueueFieldView::Absent }
            } else if m[0] == '4' {
                ResponseView { key: "success"@, status: "skip_success"@, queue: QueueFieldView::Absent }
            } else if m[0] == '5' {
                ResponseView {
                    key: "success"@,
                    status: "queue_success"@,
                    queue: QueueFieldView::Notice("Queue is empty!"@),
                }
            } else if m[0] == '6' {
                ResponseView { key: "success"@, status: "stop_success"@, queue: QueueFieldView::Absent }
            } else if m[0] == '7' {
                ResponseView { key: "success"@, status: "stop_empty"@, queue: QueueFieldView::Absent }
            } else {
                ResponseView { key: "error"@, status: "error"@, queue: QueueFieldView::Absent }
            },
        ),
{
}

/// The queue reply hands on everything after its '2'.
pub proof fn law_queue_reply_rest(m: Seq<char>)
    requires
        m.len() > 0,
        m[0] == '2',
    ensures
        reply_step(m) == ReplyStepView::ListQueue(m.subrange(1, m.len() as int)),
{
    assert(m.drop_first() =~= m.subrange(1, m.len() as int));
}

/// Replies that start with different status characters ('0' to '7') get
/// different answers.
pub proof fn law_reply_codes_distinct(m: Seq<char>, n: Seq<char>)
    requires
        m.len() > 0,
        n.len() > 0,
        '0' <= m[0] <= '7',
        '0' <= n[0] <= '7',
        m[0] != n[0],
    ensures
        reply_step(m) != reply_step(n),
{
    reveal_strlit("success");
    reveal_strlit("playing");
    reveal_strlit("added");
    reveal_strlit("error joining");
    reveal_strlit("skip_success");
    reveal_strlit("queue_success");
    reveal_strlit("stop_success");
    reveal_strlit("stop_empty");
    reveal_strlit("error");
    assert("playing"@.len() == 7);
    assert("added"@.len() == 5);
    assert("error joining"@.len() == 13);
    assert("skip_success"@.len() == 12);
    assert("queue_success"@.len() == 13);
    assert("stop_success"@.len() == 12);
    assert("stop_empty"@.len() == 10);
    assert("error"@.len() == 5);
    assert("success"@.len() == 7);
    assert("skip_success"@[1] != "stop_success"@[1]);
}

/// An answer with a status and no queue.
fn status_response(key: &str, status: &str) -> (r: BotResponse)
    ensures
        r@ == status_view(key@, status@),
{
    BotResponse { key: key.to_owned(), status: status.to_owned(), queue: QueueField::Absent }
}

/// The first of the two messages that answer the queue command: the byte length
/// of the queue reply that follows, in decimal digits and nothing else. None when
/// the message is not such a number.
pub fn queue_reply_length(message: &str) -> (r: Option<usize>)
    ensures
        match r {
            Some(n) => message@.len() > 0 && all_digits(message@) && n == decimal_value(message@),
            None => !(message@.len() > 0 && all_digits(message@) && decimal_value(message@)
                <= usize::MAX),
        },
{
    parse_decimal(message)
}

/// Reads a reply of the bot: the one message that answers a play, skip or stop
/// command, or the second message that answers the queue command (the reply
/// whose byte length the first one gave).
pub fn decode_reply(message: &str) -> (r: ReplyStep)
    requires
        message@.len() > 0,
    ensures
        r@ == reply_step(message@),
{
    let c = message.get_char(0);
    if c == '0' {
        ReplyStep::Respond(status_response("success", "playing"))
    } else if c == '1' {
        ReplyStep::Respond(status_response("success", "added"))
    } else if c == '2' {
        let n = message.unicode_len();
        let rest = message.substring_char(1, n);
        assert(rest@ =~= message@.drop_first());
        ReplyStep::ListQueue(rest.to_owned())
    } else if c == '3' {
        ReplyStep::Respond(status_response("error", "error joining"))
    } else if c == '4' {
        ReplyStep::Respond(status_response("success", "skip_success"))
    } else if c == '5' {
        ReplyStep::Respond(
            BotResponse {
                key: "success".to_owned(),
                status: "queue_success".to_owned(),
                queue: QueueField::Notice("Queue is empty!".to_owned()),
            },
        )
    } else if c == '6' {
        ReplyStep::Respond(status_response("success", "stop_success"))
    } else if c == '7' {
        ReplyStep::Respond(status_response("success", "stop_empty"))
    } else {
        ReplyStep::Respond(status_response("error", "error"))
    }
}

/// The display names of the queued sounds, in queue order.
pub open spec fn queue_display_names(db: Map<Seq<char>, crate::dumpster_base::EntryView>, queue: Seq<String>) -> Seq<Seq<char>> {
    queue.map_values(|v: String| db[v@].display_name)
}

/// The answer that lists the queue by the display names of its sounds; every
/// queued key must be in the store.
pub fn queue_response(db: &DumpsterBase, queue: &Queue) -> (r: BotResponse)
    requires
        forall|i: int| 0 <= i < queue.queue@.len() ==> db@.contains_key(#[trigger] queue.queue@[i]@),
    ensures
        r@ == (ResponseView {
            key: "success"@,
            status: "queue_success"@,
            queue: QueueFieldView::Names(queue_display_names(db@, queue.queue@)),
        }),
{
    let n = queue.queue.len();
    let mut names: Vec<String> = Vec::new();
    let mut i: usize = 0;
    while i < n
        invariant
            n == queue.queue@.len(),
            forall|i: int| 0 <= i < queue.queue@.len() ==> db@.contains_key(#[trigger] queue.queue@[i]@),
            i <= n,
            names@.len() == i,
            forall|j: int| #![trigger names@[j]] 0 <= j < i ==> names@[j]@ == db@[queue.queue@[j]@].display_name,
        decreases n - i,
    {
        let entry = db.get(queue.queue[i].as_str());
        match entry {
            Some(e) => {
                names.push(e.display_name.clone());
            },
            None => {
                assert(false);
            },
        }
        i = i + 1;
    }
    assert(names@.map_values(|n: String| n@) =~= queue_display_names(db@, queue.queue@));
    let r = BotResponse {
        key: "success".to_owned(),
        status: "queue_success".to_owned(),
        queue: QueueField::Names(names),
    };
    r
}

/// The answer to the bot's reply to a ban: '8' done, '9' nothing left to ban,
/// anything else a bad request (none).
pub fn banaj_response(first_byte: u8) -> (r: Option<BotResponse>)
    ensures
        first_byte == 56 ==> (r matches Some(resp) && resp@ == status_view("success"@, "Ok"@)),
        first_byte == 57 ==> (r matches Some(resp) && resp@ == status_view(
            "success"@,
            "Mortik je vec banati"@,
        )),
        first_byte != 56 && first_byte != 57 ==> r is None,
{
    if first_byte == 56 {
        Some(status_response("success", "Ok"))
    } else if first_byte == 57 {
        Some(status_response("success", "Mortik je vec banati"))
    } else {
        None
    }
}

/// How many times the board tries to reach the bot before it gives up.
pub const MAX_CONNECT_ATTEMPTS: u8 = 5;

/// The count of failed attempts to reach the bot.
pub struct ConnectAttempts {
    trys: u8,
}

impl ConnectAttempts {
    /// The number of failed attempts so far.
    pub closed spec fn failures(&self) -> nat {
        self.trys as nat
    }

    /// No attempt yet.
    pub fn new() -> (r: Self)
        ensures
            r.failures() == 0,
    {
        ConnectAttempts { trys: 0 }
    }

    /// Records a failed attempt; says whether to try again.
    pub fn failed(&mut self) -> (again: bool)
        requires
            old(self).failures() < MAX_CONNECT_ATTEMPTS,
        ensures
            final(self).failures() == old(self).failures() + 1,
            again == (final(self).failures() < MAX_CONNECT_ATTEMPTS),
    {
        self.trys = self.trys + 1;
        self.trys < MAX_CONNECT_ATTEMPTS
    }
}

} // verus!
