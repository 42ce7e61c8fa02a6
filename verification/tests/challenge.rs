use xors_auth::challenge::{
    check_answer, draft_challenge_at, issue_challenge, png_data_uri, verify_answer,
    verify_answer_at, AnswerMatching, ChallengeRecord, CHALLENGE_TTL,
};
use xors_auth::clock::current_time;
use xors_auth::errors::AuthError;

fn record() -> ChallengeRecord {
    ChallengeRecord::new(77, "aB3dE".to_string(), 1000)
}

#[test]
fn a_challenge_can_be_answered_for_five_minutes() {
    assert_eq!(CHALLENGE_TTL, 300);
    let draft = draft_challenge_at("xyz".to_string(), Some(vec![1, 2, 3]), 1_700_000_000);
    assert_eq!(draft.expiry, 1_700_000_300);
    assert_eq!(draft.expected_answer, "xyz");
    assert_eq!(draft.image, Some(vec![1, 2, 3]));
    let unrendered = draft_challenge_at("xyz".to_string(), None, -300);
    assert_eq!(unrendered.expiry, 0);
    assert_eq!(unrendered.image, None);
}

#[test]
fn a_draft_is_stored_under_its_correlation_id() {
    let draft = draft_challenge_at("xyz".to_string(), None, 10);
    let stored = draft.record_under(5);
    assert_eq!(stored.correlation_id, 5);
    assert_eq!(stored.expected_answer, "xyz");
    assert_eq!(stored.expiry, 310);
}

#[test]
fn the_right_answer_is_accepted() {
    assert_eq!(verify_answer_at(Some(&record()), "aB3dE", AnswerMatching::Exact, 500).unwrap().correlation_id(), 77);
    assert_eq!(verify_answer_at(Some(&record()), "aB3dE", AnswerMatching::IgnoreAsciiCase, 500).unwrap().correlation_id(), 77);
}

#[test]
fn a_wrong_answer_is_a_mismatch() {
    for wrong in ["", "aB3d", "aB3dEf", "xxxxx", " aB3dE"] {
        for matching in [AnswerMatching::Exact, AnswerMatching::IgnoreAsciiCase] {
            assert_eq!(
                verify_answer_at(Some(&record()), wrong, matching, 500),
                Err(AuthError::ChallengeAnswerMismatch)
            );
        }
    }
}

#[test]
fn case_matters_under_exact_matching() {
    for answer in ["ab3de", "AB3DE", "Ab3De"] {
        assert_eq!(
            verify_answer_at(Some(&record()), answer, AnswerMatching::Exact, 500),
            Err(AuthError::ChallengeAnswerMismatch)
        );
    }
}

#[test]
fn case_of_ascii_letters_is_ignored_on_request() {
    for answer in ["ab3de", "AB3DE", "Ab3De"] {
        assert!(verify_answer_at(Some(&record()), answer, AnswerMatching::IgnoreAsciiCase, 500).is_ok());
    }
    assert!(check_answer("straße", "STRAßE", AnswerMatching::IgnoreAsciiCase));
    assert!(!check_answer("é", "É", AnswerMatching::IgnoreAsciiCase));
    assert!(!check_answer("a@", "a`", AnswerMatching::IgnoreAsciiCase));
    assert!(!check_answer("a[", "a{", AnswerMatching::IgnoreAsciiCase));
    assert!(check_answer("", "", AnswerMatching::IgnoreAsciiCase));
    assert!(check_answer("", "", AnswerMatching::Exact));
}

#[test]
fn an_unknown_correlation_id_is_not_found() {
    for matching in [AnswerMatching::Exact, AnswerMatching::IgnoreAsciiCase] {
        assert_eq!(verify_answer_at(None, "aB3dE", matching, 500), Err(AuthError::ChallengeNotFound));
    }
}

#[test]
fn an_expired_challenge_is_not_found_even_with_the_right_answer() {
    assert_eq!(
        verify_answer_at(Some(&record()), "aB3dE", AnswerMatching::Exact, 1001),
        Err(AuthError::ChallengeNotFound)
    );
    assert_eq!(
        verify_answer_at(Some(&record()), "wrong", AnswerMatching::Exact, 1001),
        Err(AuthError::ChallengeNotFound)
    );
    assert_eq!(
        verify_answer_at(Some(&record()), "aB3dE", AnswerMatching::Exact, i64::MAX),
        Err(AuthError::ChallengeNotFound)
    );
}

#[test]
fn a_challenge_can_still_be_answered_at_the_second_of_its_expiry() {
    assert!(verify_answer_at(Some(&record()), "aB3dE", AnswerMatching::Exact, 1000).is_ok());
}

#[test]
fn a_wrong_answer_leaves_the_record_for_a_second_attempt() {
    let stored = record();
    assert_eq!(
        verify_answer_at(Some(&stored), "nope", AnswerMatching::Exact, 900),
        Err(AuthError::ChallengeAnswerMismatch)
    );
    assert_eq!(stored.expected_answer, "aB3dE");
    assert_eq!(stored.expiry, 1000);
    let pass = verify_answer_at(Some(&stored), "aB3dE", AnswerMatching::Exact, 950).unwrap();
    assert_eq!(pass.correlation_id(), 77);
}

#[test]
fn answers_are_checked_by_the_wall_clock() {
    let live = ChallengeRecord::new(1, "abcd".to_string(), current_time() + CHALLENGE_TTL);
    assert_eq!(verify_answer(Some(&live), "abcd", AnswerMatching::Exact).unwrap().correlation_id(), 1);
    assert_eq!(
        verify_answer(Some(&live), "abce", AnswerMatching::Exact),
        Err(AuthError::ChallengeAnswerMismatch)
    );
    let lapsed = ChallengeRecord::new(1, "abcd".to_string(), current_time() - 1);
    assert_eq!(verify_answer(Some(&lapsed), "abcd", AnswerMatching::Exact), Err(AuthError::ChallengeNotFound));
    assert_eq!(verify_answer(None, "abcd", AnswerMatching::Exact), Err(AuthError::ChallengeNotFound));
}

#[test]
fn a_drawn_puzzle_has_an_answer_an_image_and_an_expiry() {
    let before = current_time();
    let draft = issue_challenge();
    let after = current_time();
    let length = draft.expected_answer.chars().count();
    assert!((4..=6).contains(&length), "{length}");
    assert!(before + CHALLENGE_TTL <= draft.expiry);
    assert!(draft.expiry <= after + CHALLENGE_TTL);
    let image = draft.image.clone().expect("the puzzle renders");
    assert_eq!(&image[..8], &[0x89, b'P', b'N', b'G', 0x0d, 0x0a, 0x1a, 0x0a]);
    assert!(verify_answer(Some(&draft.record_under(9)), &draft.expected_answer, AnswerMatching::Exact).is_ok());
}

#[test]
fn an_image_is_sent_as_a_base64_data_uri() {
    assert_eq!(png_data_uri(b"hello"), Some("data:image/png;base64,aGVsbG8=".to_string()));
    assert_eq!(png_data_uri(&[0x89, 0x50, 0x4e, 0x47]), Some("data:image/png;base64,iVBORw==".to_string()));
    assert_eq!(png_data_uri(&[]), Some("data:image/png;base64,".to_string()));
}

#[test]
fn every_drawn_puzzle_has_four_to_six_characters() {
    for _ in 0..12 {
        let length = issue_challenge().expected_answer.chars().count();
        assert!((4..=6).contains(&length), "{length}");
    }
}
