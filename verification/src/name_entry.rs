//! Player name entry: typing, validation before submission, and the
//! server's answer.

use vstd::prelude::*;
use crate::text::{string_push, string_pop, utf8_len, lemma_encode_utf8_push, trim_spec, trim_white_space, lemma_trim_utf8_len};
use crate::game_state::GameState;

verus! {

broadcast use vstd::seq_lib::group_seq_properties;

/// The name being typed.
#[derive(Debug)]
pub struct PlayerNameInput {
    pub name: String,
    pub submitted: bool,
}

/// The error message shown under the name field.
#[derive(Debug)]
pub struct NameSubmissionFeedback {
    pub error_message: Option<String>,
}

/// The most bytes a typed name can reach.
pub const MAX_NAME_LEN: usize = 16;
/// The fewest bytes a submitted name may have.
pub const MIN_NAME_LEN: usize = 3;

/// A key that can type into the name field.
#[derive(Clone, Copy, Debug, PartialEq, Eq, Structural)]
pub enum NameKey {
    /// The letter key `index` places after A (0 for A, 25 for Z).
    Letter(u8),
    /// A digit key.
    Digit(u8),
    /// The minus key, which types nothing: names are alphanumeric.
    Minus,
    /// Any other key.
    Other,
}

/// The character a key types: lower-case letters and digits (names are
/// alphanumeric only).
pub open spec fn name_key_char_spec(k: NameKey) -> Option<char> {
    match k {
        NameKey::Letter(i) => if i < 26 { Some((97 + i) as char) } else { None },
        NameKey::Digit(d) => if d < 10 { Some((48 + d) as char) } else { None },
        NameKey::Minus => None,
        NameKey::Other => None,
    }
}

/// An ASCII letter or digit.
pub open spec fn is_ascii_alphanumeric(c: char) -> bool {
    ||| (48 <= (c as u32) && (c as u32) <= 57)
    ||| (65 <= (c as u32) && (c as u32) <= 90)
    ||| (97 <= (c as u32) && (c as u32) <= 122)
}

/// Every character of the name is an ASCII letter or digit.
pub open spec fn all_alphanumeric(name: Seq<char>) -> bool {
    forall|i: int| 0 <= i < name.len() ==> is_ascii_alphanumeric(#[trigger] name[i])
}

/// The character a key types into the name field, if any.
pub fn name_key_char(k: NameKey) -> (r: Option<char>)
    ensures
        r == name_key_char_spec(k),
{
    match k {
        NameKey::Letter(i) => if i < 26 { Some((97u8 + i) as char) } else { None },
        NameKey::Digit(d) => if d < 10 { Some((48u8 + d) as char) } else { None },
        NameKey::Minus => None,
        NameKey::Other => None,
    }
}

/// The name after typing `keys` in order: each typed character is appended
/// while the name is shorter than 16 bytes.
pub open spec fn typed_name(name: Seq<char>, keys: Seq<NameKey>) -> Seq<char>
    decreases keys.len(),
{
    if keys.len() == 0 {
        name
    } else {
        let t = typed_name(name, keys.drop_last());
        match name_key_char_spec(keys.last()) {
            Some(c) => if utf8_len(t) < MAX_NAME_LEN { t.push(c) } else { t },
            None => t,
        }
    }
}

/// The name after one frame of input: backspace first, then the typed keys.
pub open spec fn name_after_input(name: Seq<char>, backspace: bool, keys: Seq<NameKey>) -> Seq<char> {
    let n1 = if backspace && name.len() > 0 { name.drop_last() } else { name };
    typed_name(n1, keys)
}

/// The text the name field shows: the name and a cursor, or just the cursor.
pub open spec fn name_display_spec(name: Seq<char>) -> Seq<char> {
    if name.len() == 0 { "_"@ } else { name + "_"@ }
}

/// The name field's text.
pub fn name_display_text(name: &String) -> (r: String)
    ensures
        r@ == name_display_spec(name@),
{
    proof { reveal_strlit("_"); }
    if name.as_str().is_empty() {
        String::from_str("_")
    } else {
        let r = name.clone().concat("_");
        r
    }
}

/// Handles a frame of typing into the name field: backspace removes the last
/// character, then each typed character (a letter or digit) is appended
/// while the name is under 16 bytes. Returns the new field text; nothing
/// changes once the name was submitted. An alphanumeric name of at most 16
/// bytes stays so.
pub fn handle_text_input(name_input: &mut PlayerNameInput, backspace: bool, keys: &Vec<NameKey>) -> (display: Option<String>)
    requires
        utf8_len(old(name_input).name@) <= usize::MAX,
    ensures
        old(name_input).submitted ==> final(name_input).name@ == old(name_input).name@ && display is None,
        !old(name_input).submitted ==> {
            &&& final(name_input).name@ == name_after_input(old(name_input).name@, backspace, keys@)
            &&& display matches Some(d) && d@ == name_display_spec(final(name_input).name@)
        },
        final(name_input).submitted == old(name_input).submitted,
        all_alphanumeric(old(name_input).name@) ==> all_alphanumeric(final(name_input).name@),
        utf8_len(old(name_input).name@) <= MAX_NAME_LEN ==> utf8_len(final(name_input).name@) <= MAX_NAME_LEN,
{
    if name_input.submitted {
        return None;
    }
    proof {
        lemma_input_keeps_name_valid(name_input.name@, backspace, keys@);
    }
    if backspace {
        proof {
            if name_input.name@.len() > 0 {
                lemma_encode_utf8_push(name_input.name@.drop_last(), name_input.name@.last());
                assert(name_input.name@.drop_last().push(name_input.name@.last()) =~= name_input.name@);
            }
        }
        let _ = string_pop(&mut name_input.name);
    }
    let ghost n1 = name_input.name@;
    let mut i: usize = 0;
    while i < keys.len()
        invariant
            0 <= i <= keys.len(),
            !name_input.submitted,
            name_input.name@ == typed_name(n1, keys@.take(i as int)),
            utf8_len(name_input.name@) <= usize::MAX,
        decreases keys.len() - i,
    {
        proof {
            assert(keys@.take(i + 1).drop_last() =~= keys@.take(i as int));
            assert(keys@.take(i + 1).last() == keys@[i as int]);
        }
        if let Some(c) = name_key_char(keys[i]) {
            if name_input.name.as_str().len() < MAX_NAME_LEN {
                proof {
                    lemma_encode_utf8_push(name_input.name@, c);
                    assert(vstd::utf8::encode_scalar(c as u32).len() == 1);
                }
                string_push(&mut name_input.name, c);
            }
        }
        i += 1;
    }
    assert(keys@.take(keys.len() as int) =~= keys@);
    Some(name_display_text(&name_input.name))
}

/// Typing never grows a name beyond 16 bytes.
pub proof fn lemma_typed_name_bounded(name: Seq<char>, keys: Seq<NameKey>)
    requires
        utf8_len(name) <= MAX_NAME_LEN,
    ensures
        utf8_len(typed_name(name, keys)) <= MAX_NAME_LEN,
    decreases keys.len(),
{
    if keys.len() > 0 {
        lemma_typed_name_bounded(name, keys.drop_last());
        let t = typed_name(name, keys.drop_last());
        match name_key_char_spec(keys.last()) {
            Some(c) => {
                if utf8_len(t) < MAX_NAME_LEN {
                    lemma_encode_utf8_push(t, c);
                    assert((c as u32) < 0x80);
                    assert(vstd::utf8::encode_scalar(c as u32).len() == 1);
                }
            },
            None => {},
        }
    }
}

/// Typing keeps a name alphanumeric.
pub proof fn lemma_typed_name_alphanumeric(name: Seq<char>, keys: Seq<NameKey>)
    requires
        all_alphanumeric(name),
    ensures
        all_alphanumeric(typed_name(name, keys)),
    decreases keys.len(),
{
    if keys.len() > 0 {
        lemma_typed_name_alphanumeric(name, keys.drop_last());
        let t = typed_name(name, keys.drop_last());
        match name_key_char_spec(keys.last()) {
            Some(c) => {
                if utf8_len(t) < MAX_NAME_LEN {
                    assert(is_ascii_alphanumeric(c));
                    assert forall|i: int| 0 <= i < t.push(c).len() implies is_ascii_alphanumeric(#[trigger] t.push(c)[i]) by {
                        if i < t.len() {
                            assert(t.push(c)[i] == t[i]);
                        }
                    }
                }
            },
            None => {},
        }
    }
}

/// A frame of input keeps a name alphanumeric, and within 16 bytes.
pub proof fn lemma_input_keeps_name_valid(name: Seq<char>, backspace: bool, keys: Seq<NameKey>)
    ensures
        all_alphanumeric(name) ==> all_alphanumeric(name_after_input(name, backspace, keys)),
        utf8_len(name) <= MAX_NAME_LEN ==> utf8_len(name_after_input(name, backspace, keys)) <= MAX_NAME_LEN,
{
    let n1 = if backspace && name.len() > 0 { name.drop_last() } else { name };
    if backspace && name.len() > 0 {
        lemma_encode_utf8_push(name.drop_last(), name.last());
        assert(name.drop_last().push(name.last()) =~= name);
    }
    assert(all_alphanumeric(name) ==> all_alphanumeric(n1)) by {
        if all_alphanumeric(name) {
            assert forall|i: int| 0 <= i < n1.len() implies is_ascii_alphanumeric(#[trigger] n1[i]) by {
                assert(n1[i] == name[i]);
            }
        }
    }
    if all_alphanumeric(n1) {
        lemma_typed_name_alphanumeric(n1, keys);
    }
    if utf8_len(n1) <= MAX_NAME_LEN {
        lemma_typed_name_bounded(n1, keys);
    }
}

/// Letter key `i` types the `i`-th lower-case letter and digit key `d` the
/// digit `d`; typing a key appends its character while the name is under 16
/// bytes and leaves a full name as it is; other keys type nothing.
pub proof fn lemma_keys_type_letters_and_digits(name: Seq<char>, k: NameKey, i: u8, c: char)
    ensures
        k == NameKey::Letter(i) && i < 26 ==> name_key_char_spec(k) == Some((97 + i) as char) && 'a' <= (97 + i) as char <= 'z',
        k == NameKey::Digit(i) && i < 10 ==> name_key_char_spec(k) == Some((48 + i) as char) && '0' <= (48 + i) as char <= '9',
        (k == NameKey::Letter(i) && i >= 26) || (k == NameKey::Digit(i) && i >= 10) ==> name_key_char_spec(k) is None,
        k == NameKey::Minus || k == NameKey::Other ==> name_key_char_spec(k) is None,
        name_key_char_spec(k) == Some(c) && utf8_len(name) < MAX_NAME_LEN ==> typed_name(name, seq![k]) == name.push(c),
        name_key_char_spec(k) is Some && utf8_len(name) >= MAX_NAME_LEN ==> typed_name(name, seq![k]) == name,
        name_key_char_spec(k) is None ==> typed_name(name, seq![k]) == name,
{
    assert(seq![k].drop_last() =~= Seq::<NameKey>::empty());
    assert(typed_name(name, Seq::<NameKey>::empty()) == name);
    assert(seq![k].last() == k);
}

/// Why the server refused a name.
#[derive(Clone, Copy, Debug, PartialEq, Eq, Structural)]
pub enum NameRejectionReason {
    InvalidCharacters,
    TooShort,
    TooLong,
    Reserved,
    AlreadyOnline,
}

/// The server's answer to a submitted name.
#[derive(Clone, Copy, Debug, PartialEq, Eq, Structural)]
pub enum NameSubmissionResult {
    Accepted { profile_loaded: bool },
    Rejected { reason: NameRejectionReason },
}

/// The message shown when the typed name is too short to submit.
pub open spec fn too_short_message() -> Seq<char> {
    "Name must be at least 3 characters"@
}

/// The message shown when the typed name is too long to submit.
pub open spec fn too_long_message() -> Seq<char> {
    "Name must be at most 16 characters"@
}

/// What submitting `name` does: the error message it sets, or the name it
/// sends (`Ok`). `None` when nothing happens because no client is connected.
pub open spec fn submission_spec(name: Seq<char>, client_available: bool) -> Option<Result<Seq<char>, Seq<char>>> {
    let t = trim_spec(name);
    if utf8_len(t) < MIN_NAME_LEN {
        Some(Err(too_short_message()))
    } else if utf8_len(t) > MAX_NAME_LEN {
        Some(Err(too_long_message()))
    } else if !client_available {
        None
    } else {
        Some(Ok(t))
    }
}

/// Submits the typed name: the name is trimmed and must take 3 to 16 bytes;
/// otherwise the feedback shows why. A valid name is returned for sending
/// (when a client is connected), clears the error message and marks the
/// client as awaiting the server's answer. Nothing happens once the name was
/// submitted, nor while an answer is awaited: a name goes out once until
/// the server answers.
pub fn submit_name(name_input: &PlayerNameInput, awaiting_answer: &mut bool, feedback: &mut NameSubmissionFeedback, client_available: bool) -> (sent: Option<String>)
    requires
        utf8_len(name_input.name@) <= usize::MAX,
    ensures
        name_input.submitted || *old(awaiting_answer) ==> {
            &&& sent is None
            &&& final(feedback).error_message == old(feedback).error_message
            &&& *final(awaiting_answer) == *old(awaiting_answer)
        },
        !name_input.submitted && !*old(awaiting_answer) ==> match submission_spec(name_input.name@, client_available) {
            None => sent is None && final(feedback).error_message == old(feedback).error_message && !*final(awaiting_answer),
            Some(Err(msg)) => sent is None && (final(feedback).error_message matches Some(m) && m@ == msg) && !*final(awaiting_answer),
            Some(Ok(t)) => (sent matches Some(n) && n@ == t) && final(feedback).error_message is None && *final(awaiting_answer),
        },
{
    if name_input.submitted || *awaiting_answer {
        return None;
    }
    let name = trim_white_space(name_input.name.as_str());
    proof {
        lemma_trim_utf8_len(name_input.name@);
    }
    let len = name.as_str().len();
    if len < MIN_NAME_LEN {
        feedback.error_message = Some(String::from_str("Name must be at least 3 characters"));
        return None;
    }
    if len > MAX_NAME_LEN {
        feedback.error_message = Some(String::from_str("Name must be at most 16 characters"));
        return None;
    }
    if !client_available {
        return None;
    }
    *awaiting_answer = true;
    feedback.error_message = None;
    Some(name)
}

/// The message shown for a rejected name.
pub open spec fn rejection_message_spec(reason: NameRejectionReason) -> Seq<char> {
    match reason {
        NameRejectionReason::InvalidCharacters => "Name contains invalid characters"@,
        NameRejectionReason::TooShort => "Name is too short (min 3 characters)"@,
        NameRejectionReason::TooLong => "Name is too long (max 16 characters)"@,
        NameRejectionReason::Reserved => "This name is reserved"@,
        NameRejectionReason::AlreadyOnline => "This name is already in use"@,
    }
}

/// The message shown for a rejected name.
pub fn rejection_message(reason: NameRejectionReason) -> (m: String)
    ensures
        m@ == rejection_message_spec(reason),
{
    match reason {
        NameRejectionReason::InvalidCharacters => String::from_str("Name contains invalid characters"),
        NameRejectionReason::TooShort => String::from_str("Name is too short (min 3 characters)"),
        NameRejectionReason::TooLong => String::from_str("Name is too long (max 16 characters)"),
        NameRejectionReason::Reserved => String::from_str("This name is reserved"),
        NameRejectionReason::AlreadyOnline => String::from_str("This name is already in use"),
    }
}

/// Whether any answer accepted the name.
pub open spec fn any_accepted(results: Seq<NameSubmissionResult>) -> bool {
    exists|i: int| 0 <= i < results.len() && results[i] is Accepted
}

/// The reason of the last rejection among the answers, if any.
pub open spec fn last_rejection(results: Seq<NameSubmissionResult>) -> Option<NameRejectionReason>
    decreases results.len(),
{
    if results.len() == 0 {
        None
    } else {
        match results.last() {
            NameSubmissionResult::Rejected { reason } => Some(reason),
            NameSubmissionResult::Accepted { .. } => last_rejection(results.drop_last()),
        }
    }
}

/// Handles the server's answers to a submitted name, while one is awaited:
/// an acceptance moves the client to `Playing`; a rejection shows its
/// message. Any answer ends the wait, so the player may submit again.
/// Nothing happens while no answer is awaited.
pub fn handle_name_submission_result(results: &Vec<NameSubmissionResult>, awaiting_answer: &mut bool, feedback: &mut NameSubmissionFeedback) -> (next: Option<GameState>)
    ensures
        !*old(awaiting_answer) ==> {
            &&& next is None
            &&& final(feedback).error_message == old(feedback).error_message
            &&& !*final(awaiting_answer)
        },
        *old(awaiting_answer) ==> {
            &&& next == (if any_accepted(results@) { Some(GameState::Playing) } else { None::<GameState> })
            &&& match last_rejection(results@) {
                Some(r) => final(feedback).error_message matches Some(m) && m@ == rejection_message_spec(r),
                None => final(feedback).error_message == old(feedback).error_message,
            }
            &&& *final(awaiting_answer) == (results@.len() == 0)
        },
{
    if !*awaiting_answer {
        return None;
    }
    if results.len() > 0 {
        *awaiting_answer = false;
    }
    let mut next: Option<GameState> = None;
    let mut i: usize = 0;
    while i < results.len()
        invariant
            0 <= i <= results.len(),
            next == (if any_accepted(results@.take(i as int)) { Some(GameState::Playing) } else { None::<GameState> }),
            match last_rejection(results@.take(i as int)) {
                Some(r) => feedback.error_message matches Some(m) && m@ == rejection_message_spec(r),
                None => feedback.error_message == old(feedback).error_message,
            },
        decreases results.len() - i,
    {
        let ghost before = results@.take(i as int);
        let ghost after = results@.take(i + 1);
        proof {
            assert(after.drop_last() =~= before);
            assert(after.last() == results@[i as int]);
        }
        match results[i] {
            NameSubmissionResult::Accepted { .. } => {
                next = Some(GameState::Playing);
                assert(after[i as int] is Accepted);
            },
            NameSubmissionResult::Rejected { reason } => {
                feedback.error_message = Some(rejection_message(reason));
                proof {
                    if any_accepted(after) {
                        let w = choose|w: int| 0 <= w < after.len() && after[w] is Accepted;
                        assert(w < i);
                        assert(before[w] == after[w]);
                    }
                }
            },
        }
        proof {
            if any_accepted(before) {
                let w = choose|w: int| 0 <= w < before.len() && before[w] is Accepted;
                assert(after[w] == before[w]);
            }
        }
        i += 1;
    }
    assert(results@.take(results.len() as int) =~= results@);
    next
}


/// A name that is sent is trimmed and takes 3 to 16 bytes; a name too short
/// or too long is never sent, and is answered with its message.
pub proof fn lemma_sent_names_are_valid(name: Seq<char>, client_available: bool)
    ensures
        submission_spec(name, client_available) matches Some(Ok(t)) ==> {
            &&& t == trim_spec(name)
            &&& MIN_NAME_LEN <= utf8_len(t) <= MAX_NAME_LEN
        },
        utf8_len(trim_spec(name)) < MIN_NAME_LEN ==> submission_spec(name, client_available) == Some(Err::<Seq<char>, Seq<char>>(too_short_message())),
        utf8_len(trim_spec(name)) > MAX_NAME_LEN ==> submission_spec(name, client_available) == Some(Err::<Seq<char>, Seq<char>>(too_long_message())),
{
}

/// Names are trimmed and must take 3 to 16 bytes: a trimmed name of 3 to 16
/// bytes is sent as trimmed when a client is connected, a shorter one is
/// refused as too short and a longer one as too long, whether or not a
/// client is connected.
pub proof fn lemma_name_length_rule(name: Seq<char>, client_available: bool)
    ensures
        3 <= utf8_len(trim_spec(name)) <= 16 && client_available
            ==> submission_spec(name, client_available) == Some(Ok::<Seq<char>, Seq<char>>(trim_spec(name))),
        3 <= utf8_len(trim_spec(name)) <= 16 && !client_available ==> submission_spec(name, client_available) is None,
        utf8_len(trim_spec(name)) < 3 ==> submission_spec(name, client_available) == Some(Err::<Seq<char>, Seq<char>>("Name must be at least 3 characters"@)),
        utf8_len(trim_spec(name)) > 16 ==> submission_spec(name, client_available) == Some(Err::<Seq<char>, Seq<char>>("Name must be at most 16 characters"@)),
{
}

} // verus!
