use immich_uploader::dedup::{accepted_indices, check_items, file_index, select_accepted, CheckResult};
use immich_uploader::digest::{digest_hex, Candidate};
use immich_uploader::pipeline::{bulk_check_outcome, upload_outcome, PassError};
use immich_uploader::upload::count_uploaded;

fn verdict(id: &str, action: &str) -> CheckResult {
    CheckResult { id: id.to_string(), action: action.to_string(), reason: None }
}

fn three_candidates() -> Vec<Candidate> {
    vec![
        Candidate::new("/p/a.jpg".to_string(), b"alpha".to_vec()),
        Candidate::new("/p/b.png".to_string(), b"beta".to_vec()),
        Candidate::new("/p/c.gif".to_string(), b"gamma".to_vec()),
    ]
}

#[test]
fn digest_is_sha1_in_lowercase_hex() {
    assert_eq!(digest_hex(b"abc"), "a9993e364706816aba3e25717850c26c9cd0d89d");
    assert_eq!(digest_hex(b""), "da39a3ee5e6b4b0d3255bfef95601890afd80709");
}

#[test]
fn candidate_carries_digest_and_content() {
    let c = Candidate::new("/x/y.jpg".to_string(), b"abc".to_vec());
    assert_eq!(c.digest, "a9993e364706816aba3e25717850c26c9cd0d89d");
    assert_eq!(c.data, b"abc".to_vec());
    assert_eq!(c.path, "/x/y.jpg");
}

#[test]
fn check_items_use_positional_ids() {
    let cands = three_candidates();
    let items = check_items(&cands);
    assert_eq!(items.len(), 3);
    assert_eq!(items[0].id, "file_0");
    assert_eq!(items[2].id, "file_2");
    assert_eq!(items[1].checksum, cands[1].digest);
}

#[test]
fn file_index_reads_positions() {
    assert_eq!(file_index("file_0"), Some(0));
    assert_eq!(file_index("file_12"), Some(12));
    assert_eq!(file_index("file_+3"), Some(3));
    assert_eq!(file_index("file_"), None);
    assert_eq!(file_index("file_x1"), None);
    assert_eq!(file_index("fil_1"), None);
    assert_eq!(file_index("FILE_1"), None);
}

#[test]
fn out_of_range_and_unparsable_ids_are_ignored() {
    let results = vec![
        verdict("file_999", "accept"),
        verdict("file_abc", "accept"),
        verdict("file_1", "accept"),
    ];
    assert_eq!(accepted_indices(3, &results), vec![1]);
}

#[test]
fn only_accept_verdicts_select() {
    let results = vec![
        verdict("file_2", "accept"),
        verdict("file_0", "reject"),
        verdict("file_1", "ACCEPT"),
        verdict("file_2", "accept"),
    ];
    assert_eq!(accepted_indices(3, &results), vec![2]);
    assert_eq!(accepted_indices(3, &vec![]), Vec::<usize>::new());
}

#[test]
fn selection_keeps_candidate_order() {
    let cands = three_candidates();
    let results = vec![verdict("file_2", "accept"), verdict("file_0", "accept")];
    let sel = select_accepted(&cands, &results);
    assert_eq!(sel.len(), 2);
    assert_eq!(sel[0].path, "/p/a.jpg");
    assert_eq!(sel[1].path, "/p/c.gif");
    assert_eq!(sel[1].data, b"gamma".to_vec());
}

#[test]
fn second_pass_uploads_nothing_known() {
    let cands = three_candidates();
    let results = vec![
        verdict("file_0", "reject"),
        verdict("file_1", "reject"),
        verdict("file_2", "reject"),
    ];
    let sel = select_accepted(&cands, &results);
    assert_eq!(sel.len(), 0);
    assert_eq!(count_uploaded(&vec![]), 0);
}

#[test]
fn end_to_end_two_known_one_new() {
    let cands = three_candidates();
    let items = check_items(&cands);
    let results = vec![
        verdict(&items[0].id, "keep"),
        verdict(&items[1].id, "accept"),
        verdict(&items[2].id, "keep"),
    ];
    let sel = match bulk_check_outcome(&cands, 200, String::new(), Ok(results)) {
        Ok(s) => s,
        Err(_) => panic!("the check succeeded"),
    };
    assert_eq!(sel.len(), 1);
    assert_eq!(sel[0].path, "/p/b.png");
    let mut outcomes = Vec::new();
    let mut errors = 0;
    for _ in &sel {
        match upload_outcome(201, String::new()) {
            Ok(b) => outcomes.push(b),
            Err(_) => errors += 1,
        }
    }
    assert_eq!(count_uploaded(&outcomes), 1);
    assert_eq!(errors, 0);
}

#[test]
fn check_errors() {
    let cands = three_candidates();
    match bulk_check_outcome(&cands, 500, "boom".to_string(), Ok(vec![])) {
        Err(PassError::CheckRequest { status, body }) => {
            assert_eq!(status, 500);
            assert_eq!(body, "boom");
        }
        _ => panic!("expected a request error"),
    }
    match bulk_check_outcome(&cands, 200, "not json".to_string(), Err("expected value".to_string())) {
        Err(PassError::CheckParse(m)) => assert_eq!(m, "expected value"),
        _ => panic!("expected a parse error"),
    }
}

#[test]
fn upload_errors() {
    assert!(matches!(upload_outcome(200, String::new()), Ok(true)));
    assert!(matches!(upload_outcome(299, String::new()), Ok(true)));
    match upload_outcome(413, "too large".to_string()) {
        Err(PassError::Upload { status, body }) => {
            assert_eq!(status, 413);
            assert_eq!(body, "too large");
        }
        _ => panic!("expected an upload error"),
    }
    assert!(matches!(upload_outcome(199, String::new()), Err(PassError::Upload { .. })));
}

#[test]
fn count_of_uploads() {
    assert_eq!(count_uploaded(&vec![true, false, true]), 2);
}
