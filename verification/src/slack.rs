//! The chat platform's side: request signatures, the form body of a slash
//! command, and the action keywords.

use vstd::prelude::*;
use vstd::string::*;
use vstd::utf8::encode_utf8;
use hmac::Mac;
use crate::text::{ascii_lowercased, decimal_u64, digit_char, folded, is_ascii_text};
use crate::text::{lowercase_text, parse_u64_text, same_text};
use crate::text::{trim_text, trimmed};
use crate::types::AttendanceAction;

verus! {

/// Largest tolerated distance, in seconds, between a request's timestamp and
/// the verifier's clock.
pub const MAX_TIMESTAMP_SKEW_SECS: u64 = 300;

/// Why a signature could not be checked at all. A request that fails the
/// check is no error: it is refused.
#[derive(Debug, Clone, Copy, PartialEq, Eq, Structural)]
pub enum SignatureError {
    /// The clock reads a time before the Unix epoch.
    Clock,
}

/// Whether a request stamped `stamp` is fresh at time `now`: the two differ
/// by at most the tolerated skew, whichever is later.
pub open spec fn within_skew(now: u64, stamp: u64) -> bool {
    if now >= stamp {
        now - stamp <= MAX_TIMESTAMP_SKEW_SECS
    } else {
        stamp - now <= MAX_TIMESTAMP_SKEW_SECS
    }
}

/// The HMAC-SHA256 tag of a message under a key.
pub uninterp spec fn hmac_sha256(key: Seq<u8>, message: Seq<u8>) -> Seq<u8>;

/// The lower-case hexadecimal digit of a value below sixteen.
pub open spec fn hex_digit(n: nat) -> char {
    if n < 10 {
        digit_char(n)
    } else if n == 10 {
        'a'
    } else if n == 11 {
        'b'
    } else if n == 12 {
        'c'
    } else if n == 13 {
        'd'
    } else if n == 14 {
        'e'
    } else {
        'f'
    }
}

/// Lower-case hexadecimal notation: two digits for each byte, in order.
pub open spec fn hex_lower(bytes: Seq<u8>) -> Seq<char>
    decreases bytes.len(),
{
    if bytes.len() == 0 {
        Seq::empty()
    } else {
        hex_lower(bytes.drop_last()).push(hex_digit((bytes.last() / 16) as nat)).push(
            hex_digit((bytes.last() % 16) as nat),
        )
    }
}

/// The text that is signed: version, timestamp and body, joined by colons.
pub open spec fn signing_base(timestamp: Seq<char>, body: Seq<char>) -> Seq<char> {
    "v0:"@ + timestamp + ":"@ + body
}

/// The signature header that goes with a tag.
pub open spec fn signature_text(tag: Seq<u8>) -> Seq<char> {
    "v0="@ + hex_lower(tag)
}

/// The verdict on a request at time `now`: whether it is authentic. A
/// timestamp that is no number fails; a stale one fails whatever the
/// signature; otherwise the signature must be, in full, the one computed
/// from the secret.
pub open spec fn verdict(
    secret: Seq<char>,
    body: Seq<char>,
    timestamp: Seq<char>,
    signature: Seq<char>,
    now: u64,
) -> bool {
    match decimal_u64(timestamp) {
        None => false,
        Some(stamp) => within_skew(now, stamp) && signature == signature_text(
            hmac_sha256(encode_utf8(secret), encode_utf8(signing_base(timestamp, body))),
        ),
    }
}

/// The bytes of a tag, where there is one.
pub open spec fn bytes_of(tag: Option<Vec<u8>>) -> Option<Seq<u8>> {
    match tag {
        Some(t) => Some(t@),
        None => None,
    }
}

/// Keys `Hmac<Sha256>` with `new_from_slice`, feeds it the message with
/// `update`, and takes the tag with `finalize`. Trusted: a key of any length
/// is taken, so there is always a tag, and it depends on key and message
/// alone.
#[verifier::external_body]
fn hmac_sha256_tag(key: &[u8], message: &[u8]) -> (tag: Option<Vec<u8>>)
    ensures
        bytes_of(tag) == Some(hmac_sha256(key@, message@)),
{
    match hmac::Hmac::<sha2::Sha256>::new_from_slice(key) {
        Ok(mut mac) => {
            mac.update(message);
            Some(mac.finalize().into_bytes().to_vec())
        },
        Err(_) => None,
    }
}

/// Calls `hex::encode`. Trusted: two lower-case hexadecimal digits per byte.
#[verifier::external_body]
fn hex_text(bytes: &[u8]) -> (r: String)
    ensures
        r@ == hex_lower(bytes@),
{
    hex::encode(bytes)
}

/// A reading of the system clock.
#[verifier::external_type_specification]
#[verifier::external_body]
pub struct ExSystemTime(std::time::SystemTime);

/// Calls `SystemTime::now`. Trusted, and nothing is claimed of the reading.
#[verifier::external_body]
fn clock_reading() -> (t: std::time::SystemTime) {
    std::time::SystemTime::now()
}

/// Calls `SystemTime::duration_since` with the Unix epoch; nothing where the
/// reading is earlier than that. Trusted, and nothing is claimed of the
/// duration.
#[verifier::external_body]
fn since_unix_epoch(t: &std::time::SystemTime) -> (d: Option<std::time::Duration>) {
    t.duration_since(std::time::UNIX_EPOCH).ok()
}

/// Calls `Duration::as_secs`. Trusted, and nothing is claimed of the number.
#[verifier::external_body]
fn whole_seconds(d: &std::time::Duration) -> (secs: u64) {
    d.as_secs()
}

/// The system clock in whole seconds since the Unix epoch; nothing where it
/// reads earlier than that.
fn unix_time_now() -> (now: Option<u64>) {
    let reading = clock_reading();
    match since_unix_epoch(&reading) {
        Some(d) => Some(whole_seconds(&d)),
        None => None,
    }
}

/// Whether two clock readings are within the tolerated skew of each other.
pub fn is_fresh(now: u64, stamp: u64) -> (fresh: bool)
    ensures
        fresh == within_skew(now, stamp),
{
    if now >= stamp {
        now - stamp <= MAX_TIMESTAMP_SKEW_SECS
    } else {
        stamp - now <= MAX_TIMESTAMP_SKEW_SECS
    }
}

/// Whether a signature header is, in full, the one that goes with a tag.
pub fn signature_matches(tag: &[u8], signature: &str) -> (same: bool)
    ensures
        same == (signature@ == signature_text(tag@)),
{
    let mut expected = String::from_str("v0=");
    expected.append(hex_text(tag).as_str());
    same_text(expected.as_str(), signature)
}

/// Checks a request's signature against the clock reading `now`. Whatever
/// is wrong with the request, the answer is `false`.
pub fn verify_signature_at(
    signing_secret: &str,
    body: &str,
    timestamp: &str,
    signature: &str,
    now: u64,
) -> (authentic: bool)
    ensures
        authentic == verdict(signing_secret@, body@, timestamp@, signature@, now),
{
    let stamp = match parse_u64_text(timestamp) {
        Some(s) => s,
        None => {
            return false;
        },
    };
    if !is_fresh(now, stamp) {
        return false;
    }
    let mut base = String::from_str("v0:");
    base.append(timestamp);
    base.append(":");
    base.append(body);
    assert(base@ == signing_base(timestamp@, body@));
    match hmac_sha256_tag(signing_secret.as_bytes(), base.as_str().as_bytes()) {
        Some(tag) => signature_matches(tag.as_slice(), signature),
        None => false,
    }
}

/// Checks a request's signature against the system clock. A timestamp that
/// is no number is refused before the clock is read; for any other, the only
/// error is a clock that cannot be read.
pub fn verify_slack_signature(
    signing_secret: &str,
    body: &str,
    timestamp: &str,
    signature: &str,
) -> (r: Result<bool, SignatureError>)
    ensures
        decimal_u64(timestamp@) is None ==> r == Ok::<bool, SignatureError>(false),
        decimal_u64(timestamp@) is Some ==> r == Err::<bool, SignatureError>(SignatureError::Clock)
            || exists|now: u64|
            r == Ok::<bool, SignatureError>(
                verdict(signing_secret@, body@, timestamp@, signature@, now),
            ),
{
    if parse_u64_text(timestamp).is_none() {
        return Ok(false);
    }
    match unix_time_now() {
        None => Err(SignatureError::Clock),
        Some(now) => Ok(verify_signature_at(signing_secret, body, timestamp, signature, now)),
    }
}

/// A fresh timestamp with the signature computed from the secret is accepted.
pub proof fn lemma_fresh_and_signed_is_accepted(
    secret: Seq<char>,
    body: Seq<char>,
    timestamp: Seq<char>,
    now: u64,
    stamp: u64,
)
    requires
        decimal_u64(timestamp) == Some(stamp),
        within_skew(now, stamp),
    ensures
        verdict(
            secret,
            body,
            timestamp,
            signature_text(
                hmac_sha256(encode_utf8(secret), encode_utf8(signing_base(timestamp, body))),
            ),
            now,
        ),
{
}

/// A timestamp outside the window is refused, whatever the signature.
pub proof fn lemma_stale_is_refused(
    secret: Seq<char>,
    body: Seq<char>,
    timestamp: Seq<char>,
    signature: Seq<char>,
    now: u64,
    stamp: u64,
)
    requires
        decimal_u64(timestamp) == Some(stamp),
        !within_skew(now, stamp),
    ensures
        !verdict(secret, body, timestamp, signature, now),
{
}

/// A timestamp that is no number is refused, whatever the signature and the
/// time.
pub proof fn lemma_unreadable_timestamp_is_refused(
    secret: Seq<char>,
    body: Seq<char>,
    timestamp: Seq<char>,
    signature: Seq<char>,
    now: u64,
)
    requires
        decimal_u64(timestamp) is None,
    ensures
        !verdict(secret, body, timestamp, signature, now),
{
}

/// The action that a keyword names; the keyword is taken as written.
pub open spec fn action_of_keyword(keyword: Seq<char>) -> Option<AttendanceAction> {
    if keyword == "in"@ {
        Some(AttendanceAction::In)
    } else if keyword == "break"@ {
        Some(AttendanceAction::Break)
    } else if keyword == "back"@ {
        Some(AttendanceAction::Back)
    } else if keyword == "out"@ {
        Some(AttendanceAction::Out)
    } else {
        None
    }
}

/// The keyword of an action.
pub open spec fn keyword_of(action: AttendanceAction) -> Seq<char> {
    match action {
        AttendanceAction::In => "in"@,
        AttendanceAction::Break => "break"@,
        AttendanceAction::Back => "back"@,
        AttendanceAction::Out => "out"@,
    }
}

/// What the user is told when the text names no action.
pub open spec fn unknown_action_message(text: Seq<char>) -> Seq<char> {
    "Unknown action: "@ + text + ". Use: in, break, back, or out"@
}

/// What parsing a command text yields: the action whose keyword the text is
/// once trimmed and lower-cased, or else the message that quotes the text.
pub open spec fn parsed_command(text: Seq<char>) -> Result<AttendanceAction, Seq<char>> {
    match action_of_keyword(folded(trimmed(text))) {
        Some(action) => Ok(action),
        None => Err(unknown_action_message(text)),
    }
}

/// A parse result with its error message as characters.
pub open spec fn parse_outcome(r: Result<AttendanceAction, String>) -> Result<
    AttendanceAction,
    Seq<char>,
> {
    match r {
        Ok(action) => Ok(action),
        Err(message) => Err(message@),
    }
}

/// The action named by a keyword already trimmed and lower-cased.
pub fn action_for_keyword(keyword: &str) -> (action: Option<AttendanceAction>)
    ensures
        action == action_of_keyword(keyword@),
{
    if same_text(keyword, "in") {
        Some(AttendanceAction::In)
    } else if same_text(keyword, "break") {
        Some(AttendanceAction::Break)
    } else if same_text(keyword, "back") {
        Some(AttendanceAction::Back)
    } else if same_text(keyword, "out") {
        Some(AttendanceAction::Out)
    } else {
        None
    }
}

/// Each of the four keywords names its own action.
pub proof fn lemma_keywords_name_their_actions(action: AttendanceAction)
    ensures
        action_of_keyword(keyword_of(action)) == Some(action),
{
    reveal_strlit("in");
    reveal_strlit("break");
    reveal_strlit("back");
    reveal_strlit("out");
    assert("in"@.len() == 2 && "out"@.len() == 3 && "back"@.len() == 4 && "break"@.len() == 5);
}

/// `part` occurs in `whole` as a run of consecutive characters.
pub open spec fn contains_text(whole: Seq<char>, part: Seq<char>) -> bool {
    exists|i: int|
        0 <= i && i + part.len() <= whole.len() && #[trigger] whole.subrange(i, i + part.len())
            == part
}

/// Any text whose trimmed, lower-cased form is a keyword parses to that
/// keyword's action; any other text yields an error that quotes it in full.
pub proof fn lemma_parse_by_keyword(text: Seq<char>, action: AttendanceAction)
    ensures
        folded(trimmed(text)) == keyword_of(action) ==> parsed_command(text) == Ok::<
            AttendanceAction,
            Seq<char>,
        >(action),
        action_of_keyword(folded(trimmed(text))) is None ==> parsed_command(text) is Err
            && contains_text(parsed_command(text)->Err_0, text),
{
    lemma_keywords_name_their_actions(action);
    if action_of_keyword(folded(trimmed(text))) is None {
        let message = parsed_command(text)->Err_0;
        let at = "Unknown action: "@.len() as int;
        assert(message.subrange(at, at + text.len()) =~= text);
    }
}

/// The keywords are read in any case: a text whose trimmed form is ASCII and
/// is a keyword but for the case of its letters parses to that keyword's
/// action.
pub proof fn lemma_keywords_in_any_case(text: Seq<char>, action: AttendanceAction)
    requires
        is_ascii_text(trimmed(text)),
        ascii_lowercased(trimmed(text)) == keyword_of(action),
    ensures
        parsed_command(text) == Ok::<AttendanceAction, Seq<char>>(action),
{
    lemma_keywords_name_their_actions(action);
}

/// Reads the free text of a command as an attendance action.
pub fn parse_command_text(text: &str) -> (r: Result<AttendanceAction, String>)
    ensures
        parse_outcome(r) == parsed_command(text@),
{
    let keyword = lowercase_text(trim_text(text));
    match action_for_keyword(keyword.as_str()) {
        Some(action) => Ok(action),
        None => {
            let mut message = String::from_str("Unknown action: ");
            message.append(text);
            message.append(". Use: in, break, back, or out");
            Err(message)
        },
    }
}

} // verus!
