use pineapple::card::jump_cpg0016::{
    Attempt, DownloadError, JumpCpg0016Image, Selection, Status, Step, CPG0016_PATH,
    CPG0016_ROOT, MAX_RETRIES, PARTIAL_SUFFIX, REQUEST_TIMEOUT_SECS, RETRY_DELAY_SECS,
};

const PATH: &str = "s3://cellpainting-gallery/cpg0016-jump/source_4/images/2021_04_26_Batch1/images/BR00117035__2021-05-02T16_02_51-Measurement1/Images/";

fn card_image(plate: &str, filename: &str, path: &str) -> JumpCpg0016Image {
    JumpCpg0016Image::new(
        "source_4".to_string(),
        "2021_04_26_Batch1".to_string(),
        plate.to_string(),
        "3".to_string(),
        "A01".to_string(),
        "illum.npy".to_string(),
        filename.to_string(),
        path.to_string(),
        "KYRVNWMVYQXFEU-UHFFFAOYSA-N".to_string(),
    )
}

fn some(text: &str) -> Option<String> {
    Some(text.to_string())
}

fn nothing() -> Selection {
    Selection { source: None, batch: None, plate: None, site: None, well: None, compound: None }
}

#[test]
fn limits_have_their_fixed_values() {
    assert_eq!(MAX_RETRIES, 3);
    assert_eq!(RETRY_DELAY_SECS, 2);
    assert_eq!(REQUEST_TIMEOUT_SECS, 30);
    assert_eq!(CPG0016_ROOT, "cellpainting-gallery");
    assert_eq!(CPG0016_PATH, "cpg0016-jump");
}

#[test]
fn each_check_accepts_an_absent_constraint() {
    let image = card_image("BR00117035", "a.tif", PATH);
    assert!(image.check_source(None));
    assert!(image.check_batch(None));
    assert!(image.check_plate(None));
    assert!(image.check_site(None));
    assert!(image.check_well(None));
    assert!(image.check_compound(None));
}

#[test]
fn each_check_compares_its_own_field() {
    let image = card_image("BR00117035", "a.tif", PATH);
    assert!(image.check_source(some("source_4")));
    assert!(!image.check_source(some("source_5")));
    assert!(image.check_batch(some("2021_04_26_Batch1")));
    assert!(!image.check_batch(some("source_4")));
    assert!(image.check_plate(some("BR00117035")));
    assert!(!image.check_plate(some("BR00117036")));
    assert!(image.check_site(some("3")));
    assert!(!image.check_site(some("03")));
    assert!(image.check_well(some("A01")));
    assert!(!image.check_well(some("A02")));
    assert!(image.check_compound(some("KYRVNWMVYQXFEU-UHFFFAOYSA-N")));
    assert!(!image.check_compound(some("KYRVNWMVYQXFEU")));
}

#[test]
fn checks_are_case_sensitive_and_do_not_trim() {
    let image = card_image("BR00117035", "a.tif", PATH);
    assert!(!image.check_well(some("a01")));
    assert!(!image.check_well(some("A01 ")));
    assert!(!image.check_well(some("")));
    assert!(!image.check_plate(some("br00117035")));
}

#[test]
fn filter_without_constraints_matches() {
    let image = card_image("BR00117035", "a.tif", PATH);
    assert!(image.filter(None, None, None, None, None, None));
    assert!(image.matches(&nothing()));
}

#[test]
fn filter_needs_every_present_constraint_to_hold() {
    let image = card_image("BR00117035", "a.tif", PATH);
    assert!(image.filter(
        some("source_4"),
        some("2021_04_26_Batch1"),
        some("BR00117035"),
        some("3"),
        some("A01"),
        some("KYRVNWMVYQXFEU-UHFFFAOYSA-N"),
    ));
    assert!(!image.filter(some("source_4"), None, some("BR00117035"), None, some("B01"), None));
    assert!(!image.filter(None, None, None, None, None, some("other")));
    assert!(image.filter(None, some("2021_04_26_Batch1"), None, some("3"), None, None));
}

#[test]
fn filter_ignores_the_fields_that_are_not_selected_by() {
    let image = card_image("BR00117035", "a.tif", PATH);
    assert!(!image.check_source(some("illum.npy")));
    assert!(!image.filter(some("a.tif"), None, None, None, None, None));
}

#[test]
fn matches_agrees_with_filter() {
    let image = card_image("BR00117035", "a.tif", PATH);
    let hit = Selection { plate: some("BR00117035"), well: some("A01"), ..nothing() };
    let miss = Selection { plate: some("BR00117035"), well: some("A02"), ..nothing() };
    assert!(image.matches(&hit));
    assert!(!image.matches(&miss));
}

#[test]
fn object_url_replaces_the_bucket_prefix() {
    let image = card_image("BR00117035", "r01c01f01p01-ch1sk1fk1fl1.tiff", PATH);
    assert_eq!(
        image.object_url(),
        some("https://cellpainting-gallery.s3.amazonaws.com/cpg0016-jump/source_4/images/2021_04_26_Batch1/images/BR00117035__2021-05-02T16_02_51-Measurement1/Images/r01c01f01p01-ch1sk1fk1fl1.tiff")
    );
}

#[test]
fn object_url_of_the_bare_prefix_is_prefix_and_file() {
    let image = card_image("P", "a.tif", "s3://cellpainting-gallery/cpg0016-jump/");
    assert_eq!(
        image.object_url(),
        some("https://cellpainting-gallery.s3.amazonaws.com/cpg0016-jump/a.tif")
    );
}

#[test]
fn object_url_is_missing_for_a_foreign_path() {
    assert_eq!(card_image("P", "a.tif", "s3://other-bucket/cpg0016-jump/x/").object_url(), None);
    assert_eq!(card_image("P", "a.tif", "s3://cellpainting-gallery/cpg0016-jump").object_url(), None);
    assert_eq!(card_image("P", "a.tif", "").object_url(), None);
    assert_eq!(
        card_image("P", "a.tif", " s3://cellpainting-gallery/cpg0016-jump/x/").object_url(),
        None
    );
}

#[test]
fn object_url_handles_text_beyond_ascii() {
    let image = card_image("P", "b\u{e9}ta.tif", "s3://cellpainting-gallery/cpg0016-jump/\u{3b1}/");
    assert_eq!(
        image.object_url(),
        some("https://cellpainting-gallery.s3.amazonaws.com/cpg0016-jump/\u{3b1}/b\u{e9}ta.tif")
    );
}

#[test]
fn getters_hand_back_the_fields() {
    let image = card_image("P", "a.tif", PATH);
    assert_eq!(image.filename(), "a.tif");
    assert_eq!(image.path(), PATH);
}

#[test]
fn download_of_a_foreign_path_fails_at_once() {
    let image = card_image("P", "a.tif", "s3://elsewhere/x/");
    assert_eq!(image.download().err(), Some(DownloadError::ForeignPath));
}

#[test]
fn download_begins_without_attempts() {
    let image = card_image("P", "a.tif", "s3://cellpainting-gallery/cpg0016-jump/x/");
    let fetch = image.download().unwrap();
    assert_eq!(fetch.url(), "https://cellpainting-gallery.s3.amazonaws.com/cpg0016-jump/x/a.tif");
    assert_eq!(fetch.filename(), "a.tif");
    assert_eq!(fetch.attempts(), 0);
    assert_eq!(fetch.status(), Status::Pending);
}

#[test]
fn third_attempt_succeeds_after_two_transport_errors() {
    let image = card_image("P", "a.tif", PATH);
    let mut fetch = image.download().unwrap();
    assert_eq!(fetch.record(Attempt::Unreachable), Step::RetryAfter(2));
    assert_eq!(fetch.attempts(), 1);
    assert_eq!(fetch.record(Attempt::Unreachable), Step::RetryAfter(2));
    assert_eq!(fetch.attempts(), 2);
    assert_eq!(fetch.record(Attempt::Stored), Step::Finished);
    assert_eq!(fetch.attempts(), 3);
    assert_eq!(fetch.status(), Status::Done);
}

#[test]
fn first_attempt_can_succeed() {
    let mut fetch = card_image("P", "a.tif", PATH).download().unwrap();
    assert_eq!(fetch.record(Attempt::Stored), Step::Finished);
    assert_eq!(fetch.attempts(), 1);
    assert_eq!(fetch.status(), Status::Done);
}

#[test]
fn three_failures_exhaust_the_attempts() {
    let mut fetch = card_image("P", "a.tif", PATH).download().unwrap();
    assert_eq!(fetch.record(Attempt::Refused), Step::RetryAfter(2));
    assert_eq!(fetch.record(Attempt::Unreachable), Step::RetryAfter(2));
    assert_eq!(fetch.record(Attempt::Refused), Step::GiveUp(DownloadError::Exhausted));
    assert_eq!(fetch.attempts(), 3);
    assert_eq!(fetch.status(), Status::Failed(DownloadError::Exhausted));
}

#[test]
fn a_broken_answer_is_tried_again() {
    let mut fetch = card_image("P", "a.tif", PATH).download().unwrap();
    assert_eq!(fetch.record(Attempt::Broken), Step::RetryAfter(2));
    assert_eq!(fetch.attempts(), 1);
    assert_eq!(fetch.status(), Status::Pending);
    assert_eq!(fetch.record(Attempt::Stored), Step::Finished);
    assert_eq!(fetch.attempts(), 2);
    assert_eq!(fetch.status(), Status::Done);
}

#[test]
fn a_success_whose_body_breaks_off_is_followed_by_a_second_request() {
    let mut fetch = card_image("P", "a.tif", PATH).download().unwrap();
    assert_eq!(fetch.record(Attempt::of(Some(200), false)), Step::RetryAfter(2));
    assert_eq!(fetch.record(Attempt::of(Some(200), true)), Step::Finished);
    assert_eq!(fetch.attempts(), 2);
    assert_eq!(fetch.status(), Status::Done);
}

#[test]
fn a_refusal_that_cannot_be_read_is_tried_again() {
    let mut fetch = card_image("P", "a.tif", PATH).download().unwrap();
    assert_eq!(fetch.record(Attempt::of(Some(500), false)), Step::RetryAfter(2));
    assert_eq!(fetch.record(Attempt::of(Some(503), true)), Step::RetryAfter(2));
    assert_eq!(fetch.record(Attempt::of(Some(200), true)), Step::Finished);
    assert_eq!(fetch.attempts(), 3);
}

#[test]
fn three_broken_answers_exhaust_the_attempts() {
    let mut fetch = card_image("P", "a.tif", PATH).download().unwrap();
    assert_eq!(fetch.record(Attempt::Broken), Step::RetryAfter(2));
    assert_eq!(fetch.record(Attempt::Broken), Step::RetryAfter(2));
    assert_eq!(fetch.record(Attempt::Broken), Step::GiveUp(DownloadError::Exhausted));
    assert_eq!(fetch.attempts(), 3);
    assert_eq!(fetch.status(), Status::Failed(DownloadError::Exhausted));
}

#[test]
fn failures_of_every_kind_count_alike() {
    let kinds = [Attempt::Refused, Attempt::Unreachable, Attempt::Broken];
    for a in kinds {
        for b in kinds {
            let mut to_success = card_image("P", "a.tif", PATH).download().unwrap();
            assert_eq!(to_success.record(a), Step::RetryAfter(2));
            assert_eq!(to_success.record(b), Step::RetryAfter(2));
            assert_eq!(to_success.record(Attempt::Stored), Step::Finished);
            assert_eq!(to_success.attempts(), 3);
            for c in kinds {
                let mut to_failure = card_image("P", "a.tif", PATH).download().unwrap();
                to_failure.record(a);
                to_failure.record(b);
                assert_eq!(to_failure.record(c), Step::GiveUp(DownloadError::Exhausted));
                assert_eq!(to_failure.attempts(), 3);
            }
        }
    }
}

#[test]
fn a_finished_download_takes_no_further_attempt() {
    let mut done = card_image("P", "a.tif", PATH).download().unwrap();
    done.record(Attempt::Stored);
    assert_eq!(done.record(Attempt::Unreachable), Step::Finished);
    assert_eq!(done.attempts(), 1);
    assert_eq!(done.status(), Status::Done);

    let mut failed = card_image("P", "a.tif", PATH).download().unwrap();
    failed.record(Attempt::Broken);
    failed.record(Attempt::Refused);
    failed.record(Attempt::Unreachable);
    assert_eq!(failed.record(Attempt::Stored), Step::GiveUp(DownloadError::Exhausted));
    assert_eq!(failed.attempts(), 3);
    assert_eq!(failed.status(), Status::Failed(DownloadError::Exhausted));
    assert_eq!(failed.url(), "https://cellpainting-gallery.s3.amazonaws.com/cpg0016-jump/source_4/images/2021_04_26_Batch1/images/BR00117035__2021-05-02T16_02_51-Measurement1/Images/a.tif");
}

#[test]
fn a_file_is_written_under_a_partial_name_first() {
    let fetch = card_image("P", "r01c01.tiff", PATH).download().unwrap();
    assert_eq!(PARTIAL_SUFFIX, ".part");
    assert_eq!(fetch.partial_filename(), "r01c01.tiff.part");
    assert_eq!(fetch.filename(), "r01c01.tiff");
}

#[test]
fn attempts_never_pass_the_maximum() {
    let all = [Attempt::Stored, Attempt::Refused, Attempt::Unreachable, Attempt::Broken];
    for a in all {
        for b in all {
            for c in all {
                for d in all {
                    let mut fetch = card_image("P", "a.tif", PATH).download().unwrap();
                    for attempt in [a, b, c, d] {
                        fetch.record(attempt);
                        assert!(fetch.attempts() <= MAX_RETRIES);
                        if fetch.status() == Status::Pending {
                            assert!(fetch.attempts() < MAX_RETRIES);
                        }
                    }
                    assert!(fetch.status() != Status::Pending);
                }
            }
        }
    }
}

#[test]
fn a_status_from_200_to_299_is_success() {
    assert!(!Attempt::is_success(199));
    assert!(Attempt::is_success(200));
    assert!(Attempt::is_success(204));
    assert!(Attempt::is_success(299));
    assert!(!Attempt::is_success(300));
    assert!(!Attempt::is_success(404));
    assert!(!Attempt::is_success(0));
}

#[test]
fn an_attempt_is_judged_by_status_and_completion() {
    assert_eq!(Attempt::of(Some(200), true), Attempt::Stored);
    assert_eq!(Attempt::of(Some(299), true), Attempt::Stored);
    assert_eq!(Attempt::of(Some(200), false), Attempt::Broken);
    assert_eq!(Attempt::of(Some(404), true), Attempt::Refused);
    assert_eq!(Attempt::of(Some(503), true), Attempt::Refused);
    assert_eq!(Attempt::of(Some(300), true), Attempt::Refused);
    assert_eq!(Attempt::of(Some(199), true), Attempt::Refused);
    assert_eq!(Attempt::of(Some(500), false), Attempt::Broken);
    assert_eq!(Attempt::of(None, false), Attempt::Unreachable);
    assert_eq!(Attempt::of(None, true), Attempt::Unreachable);
}

#[test]
fn each_download_error_has_its_message() {
    assert_eq!(DownloadError::Exhausted.message(), "Failed to download file after multiple retries.");
    assert_eq!(DownloadError::ForeignPath.message(), "Image path is outside the cpg0016 bucket.");
}
