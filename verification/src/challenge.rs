//! The challenge engine: a puzzle that a human must solve before an account
//! is created.
//!
//! The engine draws the puzzle and fixes when it lapses; the storage layer
//! keeps the record and names it with a correlation id. An answer is checked
//! against the stored record: a wrong answer leaves the record in place, so
//! the caller may try again until it lapses; a right answer uses it up.

use vstd::prelude::*;
use vstd::string::*;
use base64::Engine;
use crate::clock::{current_time, is_clock_reading};
use crate::errors::AuthError;

verus! {

/// Seconds for which a challenge can be answered.
pub const CHALLENGE_TTL: i64 = 300;

/// How a submitted answer is held against the expected one.
#[derive(Clone, Copy, Debug, PartialEq, Eq, Structural)]
pub enum AnswerMatching {
    /// Character for character; case matters.
    Exact,
    /// Character for character, after the letters `A`-`Z` are read as `a`-`z`.
    IgnoreAsciiCase,
}

/// The server-side state of one challenge.
#[derive(Debug)]
pub struct ChallengeRecord {
    /// The handle under which the storage layer keeps the record.
    pub correlation_id: u128,
    /// The text that solves the puzzle.
    pub expected_answer: String,
    /// The last instant at which an answer is accepted.
    pub expiry: i64,
}

/// The mathematical value of a `ChallengeRecord`.
pub struct ChallengeView {
    pub correlation_id: u128,
    pub expected_answer: Seq<char>,
    pub expiry: i64,
}

impl View for ChallengeRecord {
    type V = ChallengeView;

    open spec fn view(&self) -> ChallengeView {
        ChallengeView {
            correlation_id: self.correlation_id,
            expected_answer: self.expected_answer@,
            expiry: self.expiry,
        }
    }
}

impl ChallengeRecord {
    pub fn new(correlation_id: u128, expected_answer: String, expiry: i64) -> (record:
        ChallengeRecord)
        ensures
            record@ == (ChallengeView {
                correlation_id,
                expected_answer: expected_answer@,
                expiry,
            }),
    {
        ChallengeRecord { correlation_id, expected_answer, expiry }
    }
}

/// The right to create one account. It is handed out for a solved puzzle and
/// nowhere else, and it is given up at sign-up.
#[derive(Debug, PartialEq, Eq)]
pub struct ChallengePass {
    correlation_id: u128,
}

impl ChallengePass {
    /// The correlation id of the challenge that was solved.
    pub closed spec fn solved(self) -> u128 {
        self.correlation_id
    }

    /// The correlation id of the challenge that was solved: the record to
    /// remove from storage.
    pub fn correlation_id(&self) -> (id: u128)
        ensures
            id == self.solved(),
    {
        self.correlation_id
    }

    /// Gives the pass up, and names the challenge it was handed out for.
    pub fn redeem(self) -> (id: u128)
        ensures
            id == self.solved(),
    {
        self.correlation_id
    }
}

/// A letter `A`-`Z` read as `a`-`z`; every other character as itself.
pub open spec fn fold_case(c: char) -> char {
    if 'A' <= c <= 'Z' {
        (c as u8 + 32) as char
    } else {
        c
    }
}

/// Whether a submitted answer counts as the expected one.
pub open spec fn answers_match(
    expected: Seq<char>,
    submitted: Seq<char>,
    matching: AnswerMatching,
) -> bool {
    match matching {
        AnswerMatching::Exact => expected == submitted,
        AnswerMatching::IgnoreAsciiCase => expected.len() == submitted.len() && forall|i: int|
            0 <= i < expected.len() ==> fold_case(#[trigger] expected[i]) == fold_case(
                submitted[i],
            ),
    }
}

/// The verdict on a submitted answer at the instant `now`, given the record
/// found under the correlation id: no record, or one whose expiry lies before
/// `now`, `ChallengeNotFound`; a record with another answer,
/// `ChallengeAnswerMismatch`; else success, with the id of the solved challenge.
pub open spec fn spec_verify_answer(
    record: Option<ChallengeView>,
    submitted: Seq<char>,
    matching: AnswerMatching,
    now: int,
) -> Result<u128, AuthError> {
    match record {
        None => Err(AuthError::ChallengeNotFound),
        Some(challenge) => if challenge.expiry < now {
            Err(AuthError::ChallengeNotFound)
        } else if !answers_match(challenge.expected_answer, submitted, matching) {
            Err(AuthError::ChallengeAnswerMismatch)
        } else {
            Ok(challenge.correlation_id)
        },
    }
}

/// What an executable verdict says: the id of the solved challenge, or the
/// rejection.
pub open spec fn verdict_view(verdict: Result<ChallengePass, AuthError>) -> Result<
    u128,
    AuthError,
> {
    match verdict {
        Ok(pass) => Ok(pass.solved()),
        Err(e) => Err(e),
    }
}

/// The view of an optional record.
pub open spec fn record_view(record: Option<&ChallengeRecord>) -> Option<ChallengeView> {
    match record {
        Some(challenge) => Some(challenge@),
        None => None,
    }
}

fn fold(c: char) -> (folded: char)
    ensures
        folded == fold_case(c),
{
    if 'A' <= c && c <= 'Z' {
        (c as u8 + 32) as char
    } else {
        c
    }
}

/// Holds a submitted answer against the expected one.
pub fn check_answer(expected: &str, submitted: &str, matching: AnswerMatching) -> (same: bool)
    ensures
        same == answers_match(expected@, submitted@, matching),
{
    match matching {
        AnswerMatching::Exact => expected.to_owned() == submitted.to_owned(),
        AnswerMatching::IgnoreAsciiCase => {
            let n = expected.unicode_len();
            if submitted.unicode_len() != n {
                return false;
            }
            let mut i: usize = 0;
            while i < n
                invariant
                    i <= n,
                    n == expected@.len(),
                    n == submitted@.len(),
                    forall|j: int|
                        0 <= j < i ==> fold_case(#[trigger] expected@[j]) == fold_case(
                            submitted@[j],
                        ),
                decreases n - i,
            {
                if fold(expected.get_char(i)) != fold(submitted.get_char(i)) {
                    return false;
                }
                i += 1;
            }
            true
        },
    }
}

/// Checks a submitted answer as of the instant `now`.
///
/// The record is only read. On success the caller removes it from storage, so
/// that it cannot be answered a second time.
pub fn verify_answer_at(
    record: Option<&ChallengeRecord>,
    submitted: &str,
    matching: AnswerMatching,
    now: i64,
) -> (verdict: Result<ChallengePass, AuthError>)
    ensures
        verdict_view(verdict) == spec_verify_answer(
            record_view(record),
            submitted@,
            matching,
            now as int,
        ),
{
    match record {
        None => Err(AuthError::ChallengeNotFound),
        Some(challenge) => if challenge.expiry < now {
            Err(AuthError::ChallengeNotFound)
        } else if !check_answer(challenge.expected_answer.as_str(), submitted, matching) {
            Err(AuthError::ChallengeAnswerMismatch)
        } else {
            Ok(ChallengePass { correlation_id: challenge.correlation_id })
        },
    }
}

/// Checks a submitted answer as of the wall clock.
pub fn verify_answer(
    record: Option<&ChallengeRecord>,
    submitted: &str,
    matching: AnswerMatching,
) -> (verdict: Result<ChallengePass, AuthError>)
    ensures
        exists|now: i64|
            is_clock_reading(now) && verdict_view(verdict) == #[trigger] spec_verify_answer(
                record_view(record),
                submitted@,
                matching,
                now as int,
            ),
{
    let now = current_time();
    verify_answer_at(record, submitted, matching, now)
}

/// A challenge that has been drawn but not yet stored.
#[derive(Debug)]
pub struct ChallengeDraft {
    /// The text that solves the puzzle. It stays on the server.
    pub expected_answer: String,
    /// The puzzle as a PNG image, or `None` if it could not be rendered.
    pub image: Option<Vec<u8>>,
    /// The last instant at which an answer is accepted.
    pub expiry: i64,
}

/// The instants for which a challenge's expiry fits a 64-bit timestamp.
pub open spec fn can_challenge_at(now: i64) -> bool {
    now + CHALLENGE_TTL <= i64::MAX
}

/// When a challenge drawn at `now` lapses.
pub open spec fn challenge_expiry(now: i64) -> int {
    now + CHALLENGE_TTL
}

/// How hard a puzzle is made to read.
#[derive(Clone, Copy, Debug, PartialEq, Eq, Structural)]
pub enum PuzzleDifficulty {
    Easy,
    Medium,
    Hard,
}

/// What holds of the answer of every drawn puzzle: four to six characters.
pub open spec fn is_puzzle_answer(answer: Seq<char>) -> bool {
    4 <= answer.len() <= 6
}

/// Calls `captcha::gen` with the given difficulty and reads the puzzle's
/// characters (`chars_as_string`) and its image (`as_png`).
///
/// Trusted: the puzzle has four to six characters, as the documentation of
/// `gen` promises. Which characters is left to chance, and rendering may fail;
/// nothing is claimed of either.
#[verifier::external_body]
fn draw_puzzle(difficulty: PuzzleDifficulty) -> (puzzle: (String, Option<Vec<u8>>))
    ensures
        is_puzzle_answer(puzzle.0@),
{
    let puzzle = ::captcha::gen(
        match difficulty {
            PuzzleDifficulty::Easy => ::captcha::Difficulty::Easy,
            PuzzleDifficulty::Medium => ::captcha::Difficulty::Medium,
            PuzzleDifficulty::Hard => ::captcha::Difficulty::Hard,
        },
    );
    (puzzle.chars_as_string(), puzzle.as_png())
}

/// Makes the draft of a challenge drawn at the instant `now`: it lapses
/// `CHALLENGE_TTL` seconds later.
pub fn draft_challenge_at(expected_answer: String, image: Option<Vec<u8>>, now: i64) -> (draft:
    ChallengeDraft)
    requires
        can_challenge_at(now),
    ensures
        draft.expected_answer == expected_answer,
        draft.image == image,
        draft.expiry == challenge_expiry(now),
{
    ChallengeDraft { expected_answer, image, expiry: now + CHALLENGE_TTL }
}

/// Draws a puzzle of medium difficulty and makes the draft of its challenge
/// as of the wall clock: an answer of four to six characters, the image if it
/// could be rendered, and an expiry `CHALLENGE_TTL` seconds from now.
pub fn issue_challenge() -> (draft: ChallengeDraft)
    ensures
        is_puzzle_answer(draft.expected_answer@),
        exists|now: i64| is_clock_reading(now) && draft.expiry == #[trigger] challenge_expiry(now),
{
    let (expected_answer, image) = draw_puzzle(PuzzleDifficulty::Medium);
    let now = current_time();
    draft_challenge_at(expected_answer, image, now)
}

impl ChallengeDraft {
    /// The record that the storage layer keeps for this draft under
    /// `correlation_id`.
    pub fn record_under(&self, correlation_id: u128) -> (record: ChallengeRecord)
        ensures
            record@ == (ChallengeView {
                correlation_id,
                expected_answer: self.expected_answer@,
                expiry: self.expiry,
            }),
    {
        ChallengeRecord {
            correlation_id,
            expected_answer: self.expected_answer.clone(),
            expiry: self.expiry,
        }
    }
}

/// The standard base64 text, with padding, of a byte string, as the `base64`
/// crate writes it. Nothing is assumed about its value.
pub uninterp spec fn base64_standard(bytes: Seq<u8>) -> Seq<char>;

/// The lengths whose base64 text can be held in memory: four characters for
/// every three bytes begun, and no buffer larger than half the address space.
pub open spec fn fits_base64(len: nat) -> bool {
    (len / 3 + 1) * 4 <= usize::MAX / 2
}

/// Calls `base64::engine::general_purpose::STANDARD.encode(bytes)`.
///
/// Trusted: the text depends on the bytes alone, so it is given the name
/// `base64_standard`. The call panics where the length of the text overflows;
/// `requires` keeps such inputs out.
#[verifier::external_body]
fn base64_encode(bytes: &[u8]) -> (text: String)
    requires
        fits_base64(bytes@.len()),
    ensures
        text@ == base64_standard(bytes@),
{
    base64::engine::general_purpose::STANDARD.encode(bytes)
}

/// The data URI under which a PNG image is sent to the client.
pub open spec fn image_uri(png: Seq<u8>) -> Seq<char> {
    "data:image/png;base64,"@ + base64_standard(png)
}

/// Writes a PNG image as a data URI; `None` if the image is too large for
/// its text to be held in memory.
pub fn png_data_uri(png: &[u8]) -> (uri: Option<String>)
    ensures
        match uri {
            Some(text) => fits_base64(png@.len()) && text@ == image_uri(png@),
            None => !fits_base64(png@.len()),
        },
{
    if png.len() / 3 >= usize::MAX / 2 / 4 {
        return None;
    }
    let text = base64_encode(png);
    let uri = "data:image/png;base64,".to_owned().concat(text.as_str());
    Some(uri)
}

/// The records that the storage layer holds, by correlation id.
pub type ChallengeBook = Map<u128, ChallengeView>;

/// The record found under a correlation id.
pub open spec fn lookup(book: ChallengeBook, correlation_id: u128) -> Option<ChallengeView> {
    if book.dom().contains(correlation_id) {
        Some(book[correlation_id])
    } else {
        None
    }
}

/// What one submission does: the verdict on the answer, and the records that
/// remain. A rejected answer leaves every record in place; an accepted one
/// removes the record it was checked against.
pub open spec fn submit(
    book: ChallengeBook,
    correlation_id: u128,
    submitted: Seq<char>,
    matching: AnswerMatching,
    now: int,
) -> (Result<u128, AuthError>, ChallengeBook) {
    let verdict = spec_verify_answer(lookup(book, correlation_id), submitted, matching, now);
    if verdict is Ok {
        (verdict, book.remove(correlation_id))
    } else {
        (verdict, book)
    }
}

/// A wrong answer does not use the record up: a wrong submission followed by
/// a right one, both before the record lapses, succeeds on the second attempt.
pub proof fn lemma_retry_after_wrong_answer(
    book: ChallengeBook,
    correlation_id: u128,
    wrong: Seq<char>,
    right: Seq<char>,
    matching: AnswerMatching,
    first: int,
    second: int,
)
    requires
        book.dom().contains(correlation_id),
        first <= book[correlation_id].expiry,
        second <= book[correlation_id].expiry,
        !answers_match(book[correlation_id].expected_answer, wrong, matching),
        answers_match(book[correlation_id].expected_answer, right, matching),
    ensures
        submit(book, correlation_id, wrong, matching, first) == (
            Err::<u128, AuthError>(AuthError::ChallengeAnswerMismatch),
            book,
        ),
        submit(
            submit(book, correlation_id, wrong, matching, first).1,
            correlation_id,
            right,
            matching,
            second,
        ).0 is Ok,
{
}

/// A lapsed record counts as missing, even for the right answer.
pub proof fn lemma_lapsed_challenge_is_not_found(
    record: ChallengeView,
    submitted: Seq<char>,
    matching: AnswerMatching,
    now: int,
)
    requires
        record.expiry < now,
    ensures
        spec_verify_answer(Some(record), submitted, matching, now) == Err::<u128, AuthError>(
            AuthError::ChallengeNotFound,
        ),
        spec_verify_answer(Some(record), record.expected_answer, matching, now) == Err::<
            u128,
            AuthError,
        >(AuthError::ChallengeNotFound),
{
}

/// A record can be used once: after an accepted answer the same correlation
/// id is unknown, whatever is submitted next.
pub proof fn lemma_accepted_answer_uses_record_up(
    book: ChallengeBook,
    correlation_id: u128,
    submitted: Seq<char>,
    again: Seq<char>,
    matching: AnswerMatching,
    first: int,
    second: int,
)
    requires
        submit(book, correlation_id, submitted, matching, first).0 is Ok,
    ensures
        submit(
            submit(book, correlation_id, submitted, matching, first).1,
            correlation_id,
            again,
            matching,
            second,
        ).0 == Err::<u128, AuthError>(AuthError::ChallengeNotFound),
{
}

} // verus!
