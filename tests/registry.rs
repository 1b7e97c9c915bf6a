use channel_surfer::registry::{split_finished, DownloadRegistry, DownloadTask, StartError};
use std::time::Duration;

fn poll_until_reported(
    rt: &tokio::runtime::Runtime,
    registry: &mut DownloadRegistry<u32>,
) -> Vec<String> {
    for _ in 0..2000 {
        let done = registry.check_downloads();
        if !done.is_empty() {
            return done.into_iter().map(|t| t.identifier).collect();
        }
        rt.block_on(async { tokio::time::sleep(Duration::from_millis(2)).await });
    }
    panic!("the task never finished");
}

#[test]
fn finished_download_is_reported_once() {
    let rt = tokio::runtime::Runtime::new().unwrap();
    let mut registry: DownloadRegistry<u32> = DownloadRegistry::new();
    let (tx, rx) = std::sync::mpsc::channel::<()>();
    let quick = rt.spawn(async { 1u32 });
    let slow = rt.spawn_blocking(move || {
        let _ = rx.recv();
        2u32
    });
    assert!(registry.add_download("quick".to_string(), quick).is_ok());
    assert!(registry.add_download("slow".to_string(), slow).is_ok());
    assert_eq!(registry.active_download_count(), 2);

    let reported = poll_until_reported(&rt, &mut registry);
    assert_eq!(reported, vec!["quick".to_string()]);
    assert_eq!(registry.active_download_count(), 1);
    assert!(registry.check_downloads().is_empty());
    assert_eq!(registry.active_identifiers(), vec!["slow".to_string()]);
    assert!(registry.has_active_downloads());

    tx.send(()).unwrap();
    let reported = poll_until_reported(&rt, &mut registry);
    assert_eq!(reported, vec!["slow".to_string()]);
    assert_eq!(registry.active_download_count(), 0);
    assert!(!registry.has_active_downloads());
    assert!(registry.check_downloads().is_empty());
}

#[test]
fn duplicate_download_is_refused() {
    let rt = tokio::runtime::Runtime::new().unwrap();
    let mut registry: DownloadRegistry<u32> = DownloadRegistry::new();
    assert!(registry.add_download("a".to_string(), rt.spawn(async { 1u32 })).is_ok());
    let second = registry.add_download("a".to_string(), rt.spawn(async { 2u32 }));
    let handle = match second {
        Err(StartError::AlreadyRunning(h)) => h,
        _ => panic!("a second download of the same item is refused"),
    };
    assert_eq!(rt.block_on(handle).unwrap(), 2);
    assert_eq!(registry.active_download_count(), 1);
    assert!(registry.is_active("a"));
    assert!(!registry.is_active("b"));
}

#[test]
fn full_registry_refuses_until_a_slot_frees() {
    let rt = tokio::runtime::Runtime::new().unwrap();
    let mut registry: DownloadRegistry<u32> = DownloadRegistry::with_limit(1);
    assert!(registry.add_download("a".to_string(), rt.spawn(async { 1u32 })).is_ok());
    match registry.add_download("b".to_string(), rt.spawn(async { 2u32 })) {
        Err(StartError::Full(h)) => assert_eq!(rt.block_on(h).unwrap(), 2),
        _ => panic!("a full registry admits no other download"),
    }
    assert_eq!(registry.active_identifiers(), vec!["a".to_string()]);
    assert_eq!(poll_until_reported(&rt, &mut registry), vec!["a".to_string()]);
    assert!(registry.add_download("b".to_string(), rt.spawn(async { 3u32 })).is_ok());
    assert_eq!(registry.active_download_count(), 1);
}

#[test]
fn split_by_finished_flags() {
    let rt = tokio::runtime::Runtime::new().unwrap();
    let tasks: Vec<DownloadTask<u32>> = ["a", "b", "c", "d"]
        .iter()
        .enumerate()
        .map(|(i, id)| DownloadTask {
            identifier: id.to_string(),
            handle: rt.spawn(async move { i as u32 }),
        })
        .collect();
    let (kept, done) = split_finished(tasks, &vec![false, true, false, true]);
    let ids = |v: &Vec<DownloadTask<u32>>| v.iter().map(|t| t.identifier.clone()).collect::<Vec<_>>();
    assert_eq!(ids(&kept), vec!["a".to_string(), "c".to_string()]);
    assert_eq!(ids(&done), vec!["b".to_string(), "d".to_string()]);
    assert_eq!(rt.block_on(async { done.into_iter().next().unwrap().handle.await.unwrap() }), 1);

    let (kept, done) = split_finished(kept, &vec![false, false]);
    assert_eq!(ids(&kept), vec!["a".to_string(), "c".to_string()]);
    assert!(done.is_empty());
    let (kept, done) = split_finished(Vec::<DownloadTask<u32>>::new(), &vec![]);
    assert!(kept.is_empty() && done.is_empty());
}
