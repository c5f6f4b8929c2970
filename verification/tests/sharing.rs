use beat_sharer::archive::unzip_song;
use beat_sharer::error::APIErr;
use beat_sharer::orchestrator::download;
use beat_sharer::shared::SharedInfo;
use beat_sharer::song::SongInfo;

#[test]
fn updater_feeds_observer() {
    let (updater, observer) = SharedInfo::create(2);
    assert!(!observer.downloading());
    updater.set_downloading(true);
    assert!(observer.downloading());

    updater.add_ongoing_download(String::from("a"));
    assert_eq!(observer.ongoing_downloads(), vec![String::from("a")]);

    updater.handle_result(String::from("a"), Ok(()));
    assert_eq!(observer.get_downloaded(), 1);
    assert!(observer.ongoing_downloads().is_empty());

    updater.add_ongoing_download(String::from("b"));
    updater.handle_result(String::from("b"), Err(APIErr::ReqwestFailed));
    assert_eq!(observer.get_downloaded(), 1);
    assert_eq!(
        observer.failed_downloads(),
        vec![(String::from("b"), APIErr::ReqwestFailed)]
    );

    updater.set_downloading(false);
    assert!(!observer.downloading());
}

#[test]
fn cap_moves_through_observer() {
    let (updater, observer) = SharedInfo::create(2);
    assert_eq!(updater.get_max_concurrent_downloads(), 2);
    observer.set_max_concurrent_downloads(5);
    assert_eq!(updater.get_max_concurrent_downloads(), 5);
}

#[test]
fn atomic_dispatch_respects_cap() {
    let (updater, _observer) = SharedInfo::create(1);
    assert!(updater.try_add_ongoing(&String::from("a")));
    // At the cap: the same atomic check-and-add refuses the next one.
    assert!(!updater.try_add_ongoing(&String::from("b")));
    updater.handle_result(String::from("a"), Ok(()));
    assert!(updater.try_add_ongoing(&String::from("b")));
}

#[test]
fn removal_takes_one_occurrence() {
    let (updater, observer) = SharedInfo::create(4);
    updater.add_ongoing_download(String::from("a"));
    updater.add_ongoing_download(String::from("b"));
    updater.add_ongoing_download(String::from("a"));
    updater.remove_ongoing_download(String::from("a"));
    let left = observer.ongoing_downloads();
    assert_eq!(left.len(), 2);
    assert!(left.contains(&String::from("b")));
    assert!(left.contains(&String::from("a")));
}

#[test]
fn download_filters_local_and_drains() {
    let (mut orch, observer) = download(
        vec![String::from("a"), String::from("b")],
        vec![String::from("b")],
        String::from("levels"),
        1,
    );
    assert!(observer.downloading());
    assert_eq!(orch.pending_count(), 1);
    assert_eq!(orch.dir(), "levels");

    let id = orch.try_dispatch().unwrap();
    assert_eq!(id, "a");
    assert_eq!(observer.ongoing_downloads(), vec![String::from("a")]);
    assert_eq!(orch.pending_count(), 0);
    assert!(orch.try_dispatch().is_none());

    orch.on_completion(id, Err(APIErr::ReqwestFailed));
    assert!(observer.ongoing_downloads().is_empty());
    assert_eq!(
        observer.failed_downloads(),
        vec![(String::from("a"), APIErr::ReqwestFailed)]
    );
    orch.finish();
    assert!(!observer.downloading());
}

#[test]
fn orchestrator_honours_live_cap() {
    let (mut orch, observer) = download(
        vec![String::from("p"), String::from("q"), String::from("r")],
        Vec::new(),
        String::from("levels"),
        1,
    );
    let first = orch.try_dispatch().unwrap();
    // At the cap: pending work stays queued.
    assert!(orch.try_dispatch().is_none());
    assert_eq!(orch.pending_count(), 2);
    // Raising the cap while items remain pending enables the next
    // dispatch at once.
    observer.set_max_concurrent_downloads(2);
    let second = orch.try_dispatch().unwrap();
    assert_eq!(observer.ongoing_downloads().len(), 2);
    orch.on_completion(first, Ok(()));
    orch.on_completion(second, Ok(()));
    let third = orch.try_dispatch().unwrap();
    orch.on_completion(third, Ok(()));
    assert_eq!(observer.get_downloaded(), 3);
    orch.finish();
    assert!(!observer.downloading());
}

#[test]
fn malformed_archive_is_unzip_failed() {
    let info = SongInfo {
        id: String::from("1e3f"),
        name: String::from("Tune"),
        author: String::from("Mapper"),
        download_url: String::from("https://cdn.x/a.zip"),
    };
    let garbage = vec![0u8, 1, 2, 3, 4, 5, 6, 7];
    let r = unzip_song(&info, garbage, "levels");
    assert_eq!(r, Err(APIErr::UnzipFailed));
}
