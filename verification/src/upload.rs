//! The rules for sounds that browsers upload: what is accepted, and the name
//! and place a file gets.

use vstd::prelude::*;

use crate::text::{
    has_dot, lemma_index_of, lemma_index_of_unique, lemma_stem, second_piece,
    second_piece_of, stem, stem_of,
};

verus! {

/// The most bytes an upload may carry (10 MiB).
pub const MAX_FILE_LENGTH: usize = 10_485_760;

/// A character that a stored file name never holds: a path or shell character
/// (`/ ? < > \ : * | "`) or a control character (U+0000 to U+001F, U+0080 to U+009F).
pub open spec fn forbidden_in_file_name(c: char) -> bool {
    ||| c == '/'
    ||| c == '?'
    ||| c == '<'
    ||| c == '>'
    ||| c == '\\'
    ||| c == ':'
    ||| c == '*'
    ||| c == '|'
    ||| c == '"'
    ||| (c as u32) <= 0x1f
    ||| (0x80 <= (c as u32) && (c as u32) <= 0x9f)
}

/// The number of bytes that `c` takes in UTF-8.
pub open spec fn utf8_len(c: char) -> nat {
    if (c as u32) < 0x80 {
        1
    } else if (c as u32) < 0x800 {
        2
    } else if (c as u32) < 0x10000 {
        3
    } else {
        4
    }
}

/// The longest start of `s` whose UTF-8 form takes at most `budget` bytes.
pub open spec fn within_bytes(s: Seq<char>, budget: nat) -> Seq<char>
    decreases s.len(),
{
    if s.len() == 0 {
        s
    } else if utf8_len(s[0]) <= budget {
        seq![s[0]] + within_bytes(s.drop_first(), (budget - utf8_len(s[0])) as nat)
    } else {
        Seq::empty()
    }
}

/// `s` is one or more dots and nothing else.
pub open spec fn all_dots(s: Seq<char>) -> bool {
    s.len() > 0 && forall|i: int| 0 <= i < s.len() ==> s[i] == '.'
}

/// `name` without its forbidden characters, and empty if what is left is dots only.
pub open spec fn cleaned_name(name: Seq<char>) -> Seq<char> {
    let kept = name.filter(|c: char| !forbidden_in_file_name(c));
    if all_dots(kept) {
        Seq::empty()
    } else {
        kept
    }
}

/// `c` is the lower-case ASCII letter `lower` in either case.
pub open spec fn letter_is(c: char, lower: char) -> bool {
    c == lower || (c as u32) + 32 == (lower as u32)
}

/// `s` begins with the three letters `a`, `b`, `c` in any case.
pub open spec fn starts_with_letters(s: Seq<char>, a: char, b: char, c: char) -> bool {
    s.len() >= 3 && letter_is(s[0], a) && letter_is(s[1], b) && letter_is(s[2], c)
}

/// `s` is a Windows device name (con, prn, aux, nul, com0 to com9, lpt0 to lpt9,
/// in any case), alone or followed by '.' and anything.
pub open spec fn windows_reserved(s: Seq<char>) -> bool {
    let device3 = starts_with_letters(s, 'c', 'o', 'n') || starts_with_letters(s, 'p', 'r', 'n')
        || starts_with_letters(s, 'a', 'u', 'x') || starts_with_letters(s, 'n', 'u', 'l');
    let device4 = (starts_with_letters(s, 'c', 'o', 'm') || starts_with_letters(s, 'l', 'p', 't'))
        && s.len() >= 4 && '0' <= s[3] && s[3] <= '9';
    ||| device3 && (s.len() == 3 || s[3] == '.')
    ||| device4 && (s.len() == 4 || s[4] == '.')
}

/// `sanitize_filename::sanitize`. Its source removes every forbidden character,
/// replaces a name left with dots only by the empty name, and cuts the name to
/// its longest start that fits in 255 bytes. Built for Windows, it also gives the
/// empty name for a Windows device name; elsewhere it does not.
#[verifier::external_body]
fn sanitize(name: &str) -> (r: String)
    ensures
        r@ == within_bytes(cleaned_name(name@), 255) || (windows_reserved(cleaned_name(name@))
            && r@.len() == 0),
        forall|i: int| 0 <= i < r@.len() ==> !forbidden_in_file_name(#[trigger] r@[i]),
        r@.len() <= name@.len(),
{
    sanitize_filename::sanitize(name)
}

/// The name under which an uploaded file is kept: the name the browser gave,
/// cleaned of every character that could reach outside the sound folder, empty
/// if only dots are left (or, on Windows, a device name), and cut to 255 bytes.
pub fn upload_file_name(given: &str) -> (r: String)
    ensures
        r@ == within_bytes(cleaned_name(given@), 255) || (windows_reserved(cleaned_name(given@))
            && r@.len() == 0),
        forall|i: int| 0 <= i < r@.len() ==> !forbidden_in_file_name(#[trigger] r@[i]),
        r@.len() <= given@.len(),
{
    sanitize(given)
}

/// The name tried next when `name` is taken: "69" put after its first piece,
/// then '.' and its second piece ("a.mp3" becomes "a69.mp3").
pub open spec fn collision_name(name: Seq<char>) -> Seq<char> {
    stem(name) + "69."@ + second_piece(name)
}

/// The name tried next when `name` is taken; `name` must hold a '.'.
pub fn next_file_name(name: &str) -> (r: String)
    requires
        has_dot(name@),
    ensures
        r@ == collision_name(name@),
{
    let mut r = stem_of(name);
    let second = second_piece_of(name);
    r.append("69.");
    r.append(second.as_str());
    r
}

/// The folder that holds the sounds, as the start of a path.
pub open spec fn sound_folder() -> Seq<char> {
    "../sounds/"@
}

/// Where the sound file `name` is kept.
pub fn sound_path(name: &str) -> (r: String)
    ensures
        r@ == sound_folder() + name@,
{
    let mut r = "../sounds/".to_owned();
    r.append(name);
    r
}

/// Whether an upload that announces `content_length` bytes may start.
pub fn content_length_allowed(content_length: usize) -> (r: bool)
    ensures
        r == (content_length <= MAX_FILE_LENGTH),
{
    content_length <= MAX_FILE_LENGTH
}

/// Counts a chunk of `chunk` bytes into the `received` bytes of an upload: the
/// new count, or none once the upload would carry more than the most allowed.
pub fn add_chunk(received: usize, chunk: usize) -> (r: Option<usize>)
    ensures
        received + chunk <= MAX_FILE_LENGTH ==> r == Some((received + chunk) as usize),
        received + chunk > MAX_FILE_LENGTH ==> r is None,
{
    if received <= MAX_FILE_LENGTH && chunk <= MAX_FILE_LENGTH - received {
        Some(received + chunk)
    } else {
        None
    }
}

/// Whether a part of an upload with the top-level media type `media_type` is a
/// sound (its type is "audio").
pub fn is_audio_type(media_type: &str) -> (r: bool)
    ensures
        r == (media_type@ == "audio"@),
{
    media_type.to_owned() == "audio".to_owned()
}

/// The state of an upload while its parts come in: the bytes counted so far over
/// all parts, and the name of the last file started, which the store gets.
#[derive(Debug, PartialEq, Eq)]
pub struct UploadState {
    pub received: usize,
    pub stored_name: String,
}

/// What comes in during an upload.
#[derive(Debug, PartialEq, Eq)]
pub enum UploadEvent {
    /// A new part begins, with its top-level media type.
    Part { media_type: String },
    /// The part's file will be kept under `file_name`.
    Named(String),
    /// `len` more bytes of the part's file.
    Chunk(usize),
}

/// What the upload does after an event.
#[derive(Debug, PartialEq, Eq)]
pub enum UploadStep {
    /// Go on, in the new state.
    Continue(UploadState),
    /// Refuse the upload; `remove_file` says whether the file being written goes.
    Reject { remove_file: bool },
}

impl UploadState {
    /// Nothing received yet, and no file named.
    pub fn new() -> (r: Self)
        ensures
            r.received == 0,
            r.stored_name@ == Seq::<char>::empty(),
    {
        UploadState { received: 0, stored_name: String::new() }
    }

    /// The upload after `event`: a part that is not a sound refuses it; a named
    /// part becomes the one the store gets; a chunk is counted, and refuses the
    /// upload (removing the file being written) once the count passes the most
    /// allowed.
    pub fn step(self, event: UploadEvent) -> (r: UploadStep)
        ensures
            match event {
                UploadEvent::Part { media_type } => if media_type@ == "audio"@ {
                    r matches UploadStep::Continue(s) && s.received == self.received
                        && s.stored_name@ == self.stored_name@
                } else {
                    r == (UploadStep::Reject { remove_file: false })
                },
                UploadEvent::Named(name) => r matches UploadStep::Continue(s) && s.received
                    == self.received && s.stored_name@ == name@,
                UploadEvent::Chunk(len) => if self.received + len <= MAX_FILE_LENGTH {
                    r matches UploadStep::Continue(s) && s.received == self.received + len
                        && s.stored_name@ == self.stored_name@
                } else {
                    r == (UploadStep::Reject { remove_file: true })
                },
            },
    {
        match event {
            UploadEvent::Part { media_type } => {
                if is_audio_type(media_type.as_str()) {
                    UploadStep::Continue(self)
                } else {
                    UploadStep::Reject { remove_file: false }
                }
            },
            UploadEvent::Named(name) => UploadStep::Continue(
                UploadState { received: self.received, stored_name: name },
            ),
            UploadEvent::Chunk(len) => match add_chunk(self.received, len) {
                Some(total) => UploadStep::Continue(
                    UploadState { received: total, stored_name: self.stored_name },
                ),
                None => UploadStep::Reject { remove_file: true },
            },
        }
    }
}

/// The name tried after a collision is another name, and it holds a '.' again,
/// so that a further collision can be met the same way.
pub proof fn law_next_name_differs(name: Seq<char>)
    requires
        has_dot(name),
    ensures
        collision_name(name) != name,
        has_dot(collision_name(name)),
{
    reveal_strlit("69.");
    let n = collision_name(name);
    let k = stem(name).len() as int;
    lemma_stem(name);
    assert(n.len() == k + 3 + second_piece(name).len());
    lemma_index_of(name, '.');
    assert(n[k] == '6');
    assert(name[k] == '.');
    assert forall|j: int| 0 <= j < k + 2 implies n[j] != '.' by {
        if j < k {
            assert(n[j] == stem(name)[j]);
        }
    }
    assert(n[k + 2] == '.');
    lemma_index_of_unique(n, '.', (k + 2) as nat);
}

} // verus!
