use beat_sharer::batch::{run_batch, Batch};
use beat_sharer::error::APIErr;

fn ids(names: &[&str]) -> Vec<String> {
    names.iter().map(|n| n.to_string()).collect()
}

#[test]
fn all_successes_complete() {
    let info = run_batch(ids(&["a", "b", "c"]), vec![None, None, None], 1);
    assert_eq!(info.downloaded, 3);
    assert!(info.failed_downloads.is_empty());
    assert!(info.ongoing_downloads.is_empty());
    assert!(!info.downloading);
}

#[test]
fn missing_song_is_recorded_once() {
    let info = run_batch(ids(&["x"]), vec![Some(APIErr::SongNotFound)], 1);
    assert_eq!(info.downloaded, 0);
    assert_eq!(
        info.failed_downloads,
        vec![(String::from("x"), APIErr::SongNotFound)]
    );
    assert!(!info.downloading);
}

#[test]
fn bad_archive_is_recorded_once() {
    let info = run_batch(ids(&["y"]), vec![Some(APIErr::UnzipFailed)], 1);
    assert_eq!(info.downloaded, 0);
    assert_eq!(
        info.failed_downloads,
        vec![(String::from("y"), APIErr::UnzipFailed)]
    );
    assert!(!info.downloading);
}

#[test]
fn mixed_outcomes_add_up() {
    let info = run_batch(
        ids(&["a", "b", "c", "d"]),
        vec![None, Some(APIErr::ReqwestFailed), None, Some(APIErr::UnzipFailed)],
        3,
    );
    assert_eq!(info.downloaded, 2);
    assert_eq!(info.failed_downloads.len(), 2);
    assert_eq!(info.downloaded + info.failed_downloads.len(), 4);
}

#[test]
fn cap_bounds_in_flight_at_every_step() {
    let mut b = Batch::start(ids(&["p", "q", "r", "s"]), 2);
    let mut flying: Vec<String> = Vec::new();
    let mut done = 0;
    loop {
        assert!(b.in_flight_count() <= 2);
        if let Some(id) = b.try_dispatch() {
            flying.push(id);
            assert!(b.in_flight_count() <= 2);
        } else if let Some(id) = flying.pop() {
            b.on_completion(&id, Ok(()));
            done += 1;
        } else {
            break;
        }
    }
    assert_eq!(done, 4);
    assert!(b.is_done());
    assert_eq!(b.downloaded_count(), 4);
    b.finish();
}

#[test]
fn raising_cap_allows_more_dispatch() {
    let mut b = Batch::start(ids(&["a", "b"]), 1);
    let first = b.try_dispatch();
    assert!(first.is_some());
    // At the cap: nothing more may be dispatched.
    assert!(b.try_dispatch().is_none());
    assert_eq!(b.in_flight_count(), 1);
    // Raising the cap enables the next dispatch without touching the
    // task already in flight.
    b.set_cap(2);
    assert_eq!(b.in_flight_count(), 1);
    let second = b.try_dispatch();
    assert!(second.is_some());
    assert_eq!(b.in_flight_count(), 2);
    b.on_completion(&first.unwrap(), Ok(()));
    b.on_completion(&second.unwrap(), Ok(()));
    assert!(b.is_done());
    b.finish();
}

#[test]
fn lowering_cap_never_preempts() {
    let mut b = Batch::start(ids(&["a", "b", "c"]), 2);
    let first = b.try_dispatch().unwrap();
    let second = b.try_dispatch().unwrap();
    b.set_cap(1);
    // Both tasks stay in flight; only new dispatch is held back.
    assert_eq!(b.in_flight_count(), 2);
    assert!(b.try_dispatch().is_none());
    b.on_completion(&first, Ok(()));
    b.on_completion(&second, Ok(()));
    let third = b.try_dispatch().unwrap();
    b.on_completion(&third, Ok(()));
    assert!(b.is_done());
    b.finish();
}

#[test]
fn duplicate_identifiers_each_attempted() {
    let info = run_batch(ids(&["a", "a"]), vec![None, None], 1);
    assert_eq!(info.downloaded, 2);
    assert!(info.failed_downloads.is_empty());
}

#[test]
fn every_error_kind_is_recorded_with_its_identifier() {
    let info = run_batch(
        ids(&["a", "b", "c", "d", "e"]),
        vec![
            Some(APIErr::IndexNotFound),
            Some(APIErr::ReqwestFailed),
            Some(APIErr::SongNotFound),
            Some(APIErr::FileCreationFailed),
            Some(APIErr::InvalidText),
        ],
        2,
    );
    assert_eq!(info.downloaded, 0);
    assert_eq!(info.failed_downloads.len(), 5);
    for (id, err) in [
        ("a", APIErr::IndexNotFound),
        ("b", APIErr::ReqwestFailed),
        ("c", APIErr::SongNotFound),
        ("d", APIErr::FileCreationFailed),
        ("e", APIErr::InvalidText),
    ] {
        assert!(info.failed_downloads.contains(&(id.to_string(), err)));
    }
}

#[test]
fn empty_batch_terminates_immediately() {
    let info = run_batch(Vec::new(), Vec::new(), 4);
    assert_eq!(info.downloaded, 0);
    assert!(info.failed_downloads.is_empty());
    assert!(!info.downloading);
}
