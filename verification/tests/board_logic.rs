use board::controls::{
    banaj_response, decode_reply, play_command, queue_reply_length, queue_response, BotCommand, BotResponse,
    ConnectAttempts, PlayRequest, Queue, QueueField, ReplyStep,
};
use board::dumpster_base::{entry_for_file, DumpsterBase, DumpsterBaseJson};
use board::index::dumpster_index;
use board::logged_guard::LoggedGuard;
use board::login::{login_attempt, login_page, GarbageLogin, Page};
use board::nekaj_za_znidarica::{banaj_allowed, banaj_matijosa_page, login_znidaric_page, LoginZnidaric};
use board::text::{contains_str, find_char, lex_le_str, parse_decimal, second_piece_of, stem_of};
use board::upload::{
    add_chunk, content_length_allowed, UploadEvent, UploadState, UploadStep, is_audio_type, next_file_name, sound_path,
    upload_file_name, MAX_FILE_LENGTH,
};
use board::websocket_voice_monitor::{action_for, heartbeat_expired, ConnectedMembers, WsAction, WsEvent};
use board::websocket_voice_monitor_server::VoiceMonitorServer;

fn entry(full: &str, stem: &str, display: &str) -> DumpsterBaseJson {
    DumpsterBaseJson {
        full_file_name: full.to_string(),
        without_extention: stem.to_string(),
        display_name: display.to_string(),
    }
}

fn status(key: &str, value: &str) -> BotResponse {
    BotResponse { key: key.to_string(), status: value.to_string(), queue: QueueField::Absent }
}

#[test]
fn text_helpers() {
    assert_eq!(find_char("abc.def", '.'), 3);
    assert_eq!(find_char("abc", '.'), 3);
    assert_eq!(stem_of("song.final.mp3"), "song");
    assert_eq!(stem_of("noext"), "noext");
    assert_eq!(second_piece_of("song.final.mp3"), "final");
    assert_eq!(second_piece_of("song.mp3"), "mp3");
    assert!(contains_str("http://host/loginZnidaric", "loginZnidaric"));
    assert!(!contains_str("http://host/login", "loginZnidaric"));
    assert!(contains_str("abc", ""));
    assert!(lex_le_str("Apple", "apple"));
    assert!(lex_le_str("ab", "abc"));
    assert!(!lex_le_str("b", "abc"));
    assert!(lex_le_str("same", "same"));
}

#[test]
fn file_entry_uses_first_piece() {
    assert_eq!(entry_for_file("horn.wav"), entry("horn.wav", "horn", "horn"));
    assert_eq!(entry_for_file("a.b.c"), entry("a.b.c", "a", "a"));
    assert_eq!(entry_for_file("plain"), entry("plain", "plain", "plain"));
}

#[test]
fn store_read_after_write() {
    let mut db = DumpsterBase::new();
    assert!(!db.contains_key("x.mp3"));
    assert_eq!(db.insert("x.mp3".to_string(), entry("x.mp3", "x", "X")), None);
    assert_eq!(db.get("x.mp3"), Some(&entry("x.mp3", "x", "X")));
    let prev = db.insert("x.mp3".to_string(), entry("x.mp3", "x", "Other"));
    assert_eq!(prev, Some(entry("x.mp3", "x", "X")));
    assert_eq!(db.get("x.mp3"), Some(&entry("x.mp3", "x", "Other")));
    assert_eq!(db.get("y.mp3"), None);
}

#[test]
fn store_remove_and_rename() {
    let mut db = DumpsterBase::new();
    db.add_file("a.mp3".to_string());
    db.add_file("b.ogg".to_string());
    db.set_display_name("a.mp3", "Alarm".to_string());
    assert_eq!(db.get("a.mp3"), Some(&entry("a.mp3", "a", "Alarm")));
    assert_eq!(db.get("b.ogg"), Some(&entry("b.ogg", "b", "b")));
    let removed = db.remove_entry("a.mp3");
    assert_eq!(removed, Some(("a.mp3".to_string(), entry("a.mp3", "a", "Alarm"))));
    assert!(!db.contains_key("a.mp3"));
    assert!(db.contains_key("b.ogg"));
    assert_eq!(db.remove_entry("a.mp3"), None);
}

#[test]
fn store_from_file_names_and_entries() {
    let names = vec!["one.mp3".to_string(), "two.wav".to_string(), "one.mp3".to_string()];
    let db = DumpsterBase::from_file_names(&names);
    let mut listed = db.entries();
    listed.sort_by(|a, b| a.0.cmp(&b.0));
    assert_eq!(
        listed,
        vec![
            ("one.mp3".to_string(), entry("one.mp3", "one", "one")),
            ("two.wav".to_string(), entry("two.wav", "two", "two")),
        ]
    );
}

#[test]
fn index_is_sorted_by_display_name() {
    let mut db = DumpsterBase::new();
    db.insert("1".to_string(), entry("1", "1", "zeta"));
    db.insert("2".to_string(), entry("2", "2", "alpha"));
    db.insert("3".to_string(), entry("3", "3", "Mid"));
    db.insert("4".to_string(), entry("4", "4", "alpha"));
    let sorted = dumpster_index(&db);
    let names: Vec<&str> = sorted.iter().map(|e| e.display_name.as_str()).collect();
    assert_eq!(names, vec!["Mid", "alpha", "alpha", "zeta"]);
    assert_eq!(sorted[1].full_file_name, "2");
    assert_eq!(sorted[2].full_file_name, "4");
    assert!(dumpster_index(&DumpsterBase::new()).is_empty());
}

#[test]
fn command_fields() {
    let play = BotCommand::Play { value: "k".to_string(), file_name: "k.mp3".to_string() };
    assert_eq!(
        play.fields(),
        vec![
            ("command".to_string(), "play".to_string()),
            ("value".to_string(), "k".to_string()),
            ("file_name".to_string(), "k.mp3".to_string()),
        ]
    );
    assert_eq!(BotCommand::Queue.fields(), vec![("command".to_string(), "queue".to_string())]);
    assert_eq!(BotCommand::Skip.fields(), vec![("command".to_string(), "skip".to_string())]);
    assert_eq!(BotCommand::Stop.fields(), vec![("command".to_string(), "stop".to_string())]);
    assert_eq!(BotCommand::Banaj.fields(), vec![("command".to_string(), "banaj".to_string())]);
}

#[test]
fn play_needs_a_stored_sound() {
    let mut db = DumpsterBase::new();
    db.insert("key".to_string(), entry("file.mp3", "file", "File"));
    let known = play_command(&db, &PlayRequest { value: "key".to_string() });
    assert_eq!(
        known,
        Some(BotCommand::Play { value: "key".to_string(), file_name: "file.mp3".to_string() })
    );
    assert_eq!(play_command(&db, &PlayRequest { value: "nope".to_string() }), None);
}

#[test]
fn replies_by_first_character() {
    assert_eq!(decode_reply("0"), ReplyStep::Respond(status("success", "playing")));
    assert_eq!(decode_reply("1rest"), ReplyStep::Respond(status("success", "added")));
    assert_eq!(
        decode_reply("2{\"queue\":[]}"),
        ReplyStep::ListQueue("{\"queue\":[]}".to_string())
    );
    assert_eq!(decode_reply("3"), ReplyStep::Respond(status("error", "error joining")));
    assert_eq!(decode_reply("4"), ReplyStep::Respond(status("success", "skip_success")));
    assert_eq!(
        decode_reply("5"),
        ReplyStep::Respond(BotResponse {
            key: "success".to_string(),
            status: "queue_success".to_string(),
            queue: QueueField::Notice("Queue is empty!".to_string()),
        })
    );
    assert_eq!(decode_reply("6"), ReplyStep::Respond(status("success", "stop_success")));
    assert_eq!(decode_reply("7"), ReplyStep::Respond(status("success", "stop_empty")));
    assert_eq!(decode_reply("8"), ReplyStep::Respond(status("error", "error")));
    assert_eq!(decode_reply("9"), ReplyStep::Respond(status("error", "error")));
    assert_eq!(decode_reply("x"), ReplyStep::Respond(status("error", "error")));
}

#[test]
fn queue_lists_display_names() {
    let mut db = DumpsterBase::new();
    db.insert("a".to_string(), entry("a.mp3", "a", "First"));
    db.insert("b".to_string(), entry("b.mp3", "b", "Second"));
    let q = Queue { queue: vec!["b".to_string(), "a".to_string(), "b".to_string()] };
    assert_eq!(
        queue_response(&db, &q),
        BotResponse {
            key: "success".to_string(),
            status: "queue_success".to_string(),
            queue: QueueField::Names(vec![
                "Second".to_string(),
                "First".to_string(),
                "Second".to_string()
            ]),
        }
    );
}

#[test]
fn banaj_replies() {
    assert_eq!(banaj_response(56), Some(status("success", "Ok")));
    assert_eq!(banaj_response(57), Some(status("success", "Mortik je vec banati")));
    assert_eq!(banaj_response(0), None);
}

#[test]
fn five_connection_attempts() {
    let mut attempts = ConnectAttempts::new();
    let mut tries = 1;
    while attempts.failed() {
        tries += 1;
    }
    assert_eq!(tries, 5);
}

#[test]
fn login_decisions() {
    let stored = GarbageLogin { user: "u".to_string(), pass: "p".to_string() };
    let good = GarbageLogin { user: "u".to_string(), pass: "p".to_string() };
    let bad = GarbageLogin { user: "u".to_string(), pass: "x".to_string() };
    assert_eq!(login_page(true), Page::Redirect("/".to_string()));
    assert_eq!(login_page(false), Page::Render { template: "login".to_string(), invalid: false });
    let ok = login_attempt(&good, &stored, false);
    assert_eq!(ok.remember, Some("epik gazda".to_string()));
    assert_eq!(ok.page, Page::Redirect("/".to_string()));
    let again = login_attempt(&bad, &stored, true);
    assert_eq!(again.remember, Some("epik gazda".to_string()));
    let rejected = login_attempt(&bad, &stored, false);
    assert_eq!(rejected.remember, None);
    assert_eq!(rejected.page, Page::Render { template: "login".to_string(), invalid: true });
}

#[test]
fn guard_routes() {
    let guarded = LoggedGuard.new_transform(7u32);
    assert_eq!(guarded.service, 7);
    assert_eq!(guarded.route(true), None);
    assert_eq!(guarded.route(false), Some(Page::Redirect("/login".to_string())));
}

#[test]
fn hidden_corner() {
    let stored = LoginZnidaric { user: "z".to_string(), pass: "w".to_string() };
    let good = LoginZnidaric { user: "z".to_string(), pass: "w".to_string() };
    let bad = LoginZnidaric { user: "y".to_string(), pass: "w".to_string() };
    assert_eq!(login_znidaric_page(&good, &stored), Page::Redirect("/banajMatijosa".to_string()));
    assert_eq!(
        login_znidaric_page(&bad, &stored),
        Page::Render { template: "loginZnidaric".to_string(), invalid: true }
    );
    assert_eq!(
        banaj_matijosa_page(Some("https://x/loginZnidaric")),
        Page::Render { template: "banajMatijosa".to_string(), invalid: false }
    );
    assert_eq!(banaj_matijosa_page(Some("https://x/")), Page::Redirect("/loginZnidaric".to_string()));
    assert_eq!(banaj_matijosa_page(None), Page::Redirect("/loginZnidaric".to_string()));
    assert!(banaj_allowed(Some("https://x/banajMatijosa")));
    assert!(!banaj_allowed(Some("https://x/loginZnidaric")));
    assert!(!banaj_allowed(None));
}

#[test]
fn upload_names() {
    assert_eq!(upload_file_name("../a/b:c.mp3"), "..abc.mp3");
    assert_eq!(upload_file_name("horn\u{0007}.wav"), "horn.wav");
    assert_eq!(upload_file_name("a\u{0085}b\u{00e9}.mp3"), "ab\u{00e9}.mp3");
    assert_eq!(upload_file_name("q?u*o\"te|<>.ogg"), "quote.ogg");
    assert_eq!(upload_file_name("/.."), "");
    assert_eq!(upload_file_name("a/.."), "a..");
    assert_eq!(upload_file_name(&"a".repeat(300)), "a".repeat(255));
    assert_eq!(upload_file_name(&"\u{00e9}".repeat(200)), "\u{00e9}".repeat(127));
    assert_eq!(upload_file_name("song.mp3"), "song.mp3");
    assert_eq!(next_file_name("a.mp3"), "a69.mp3");
    assert_eq!(next_file_name("a69.mp3"), "a6969.mp3");
    assert_eq!(next_file_name("a.b.c"), "a69.b");
    assert_eq!(sound_path("a.mp3"), "../sounds/a.mp3");
}

#[test]
fn upload_sizes() {
    assert!(content_length_allowed(MAX_FILE_LENGTH));
    assert!(!content_length_allowed(MAX_FILE_LENGTH + 1));
    assert_eq!(add_chunk(0, 10), Some(10));
    assert_eq!(add_chunk(MAX_FILE_LENGTH - 1, 1), Some(MAX_FILE_LENGTH));
    assert_eq!(add_chunk(MAX_FILE_LENGTH, 1), None);
    assert_eq!(add_chunk(usize::MAX, usize::MAX), None);
    assert!(is_audio_type("audio"));
    assert!(!is_audio_type("video"));
    assert!(!is_audio_type("Audio"));
}

#[test]
fn voice_monitor_socket() {
    assert!(!heartbeat_expired(10_000_000_000));
    assert!(heartbeat_expired(10_000_000_001));
    assert_eq!(action_for(&WsEvent::Ping), WsAction::RefreshAndPong);
    assert_eq!(action_for(&WsEvent::Pong), WsAction::Refresh);
    assert_eq!(action_for(&WsEvent::Text), WsAction::Ignore);
    assert_eq!(action_for(&WsEvent::Binary), WsAction::Ignore);
    assert_eq!(action_for(&WsEvent::Close), WsAction::CloseAndStop);
    assert_eq!(action_for(&WsEvent::Other), WsAction::Stop);
    let members = ConnectedMembers::default();
    assert_eq!(members, ConnectedMembers { members: None, avatars: None, channel: None });
}

#[test]
fn voice_monitor_sessions() {
    let mut server: VoiceMonitorServer<&str> = VoiceMonitorServer::new();
    assert!(server.session_ids().is_empty());
    let a = server.register("a");
    assert_eq!(server.recipient(a), Some(&"a"));
    let b = server.register("b");
    let mut ids = server.session_ids();
    ids.sort();
    let mut expected = vec![a, b];
    expected.sort();
    expected.dedup();
    assert_eq!(ids, expected);
    server.unregister(a);
    assert_eq!(server.recipient(a), None);
    if a != b {
        assert_eq!(server.recipient(b), Some(&"b"));
    }
}

#[test]
fn queue_length_message() {
    assert_eq!(queue_reply_length("27"), Some(27));
    assert_eq!(queue_reply_length("0"), Some(0));
    assert_eq!(queue_reply_length(""), None);
    assert_eq!(queue_reply_length("12a"), None);
    assert_eq!(queue_reply_length(" 12"), None);
    assert_eq!(queue_reply_length("99999999999999999999999999"), None);
    assert_eq!(parse_decimal(&usize::MAX.to_string()), Some(usize::MAX));
    assert_eq!(parse_decimal(&(usize::MAX as u128 + 1).to_string()), None);
    assert_eq!(parse_decimal("007"), Some(7));
}

#[test]
fn store_rebuilt_from_its_entries() {
    let mut db = DumpsterBase::new();
    db.add_file("a.mp3".to_string());
    db.add_file("b.ogg".to_string());
    db.set_display_name("b.ogg", "Bell".to_string());
    let rebuilt = DumpsterBase::from_entries(&db.entries());
    let mut before = db.entries();
    let mut after = rebuilt.entries();
    before.sort_by(|x, y| x.0.cmp(&y.0));
    after.sort_by(|x, y| x.0.cmp(&y.0));
    assert_eq!(before, after);
    let later_wins = DumpsterBase::from_entries(&vec![
        ("k".to_string(), entry("1", "1", "one")),
        ("k".to_string(), entry("2", "2", "two")),
    ]);
    assert_eq!(later_wins.get("k"), Some(&entry("2", "2", "two")));
    assert_eq!(later_wins.entries().len(), 1);
}

#[test]
fn upload_steps() {
    let s = UploadState::new();
    let s = match s.step(UploadEvent::Part { media_type: "audio".to_string() }) {
        UploadStep::Continue(s) => s,
        other => panic!("unexpected {:?}", other),
    };
    let s = match s.step(UploadEvent::Named("a.mp3".to_string())) {
        UploadStep::Continue(s) => s,
        other => panic!("unexpected {:?}", other),
    };
    assert_eq!(s, UploadState { received: 0, stored_name: "a.mp3".to_string() });
    let s = match s.step(UploadEvent::Chunk(MAX_FILE_LENGTH - 5)) {
        UploadStep::Continue(s) => s,
        other => panic!("unexpected {:?}", other),
    };
    assert_eq!(s.received, MAX_FILE_LENGTH - 5);
    let video = UploadState { received: 3, stored_name: "x".to_string() }
        .step(UploadEvent::Part { media_type: "video".to_string() });
    assert_eq!(video, UploadStep::Reject { remove_file: false });
    assert_eq!(s.step(UploadEvent::Chunk(6)), UploadStep::Reject { remove_file: true });
}
