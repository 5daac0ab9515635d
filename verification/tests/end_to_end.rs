use modsync::download::{DownloadError, DownloadTask, Event, Step};
use modsync::manifest::{read_manifest, FetchError, Reply};
use modsync::pool::{Pool, MAX_IN_FLIGHT};
use modsync::reconcile::reconcile;
use modsync::scan::{scan_mods_dir, DirEntry, Listing, ScanError};

fn entry(name: &str, is_dir: bool) -> DirEntry {
    DirEntry { name: name.as_bytes().to_vec(), is_dir }
}

fn served(name: &str) -> Option<usize> {
    match name {
        "c.jar" => Some(3),
        "e.jar" => None,
        _ => Some(1),
    }
}

fn perform(task: &DownloadTask, step: Step, pieces_left: &mut usize, disk: &mut Vec<String>) -> Event {
    match step {
        Step::Request => match served(task.file_name()) {
            Some(pieces) => {
                *pieces_left = pieces;
                Event::Replied(200)
            },
            None => Event::Replied(404),
        },
        Step::CreateTemp => {
            disk.push(task.temp_file_name());
            Event::Stored
        },
        Step::ReadChunk => {
            if *pieces_left == 0 {
                Event::EndOfBody
            } else {
                *pieces_left -= 1;
                Event::Chunk
            }
        },
        Step::WriteChunk | Step::Flush => Event::Stored,
        Step::Rename => {
            let temp = task.temp_file_name();
            disk.retain(|name| *name != temp);
            disk.push(task.file_name().to_string());
            Event::Stored
        },
    }
}

#[test]
fn run_reports_its_counts_and_attempts_each_missing_file_once() {
    let listing = Listing::Entries(vec![
        entry("mods", true),
        entry("a.jar", false),
        entry("b.jar", false),
        entry("notes.txt", false),
    ]);
    let reply = Reply::Answer {
        status: 200,
        body: br#"{"mods": ["a.jar", "fabric-installer-1.1.0.exe", "c.jar", "b.jar", "e.jar"]}"#
            .to_vec(),
    };
    let local = scan_mods_dir(&listing).unwrap();
    let remote = read_manifest(&reply).unwrap();
    let outcome = reconcile(&local, &remote);
    assert_eq!(outcome.matched, 2);
    assert_eq!(local.len(), 2);
    assert_eq!(outcome.missing.len(), 2);
    assert_eq!(outcome.missing, vec!["c.jar".to_string(), "e.jar".to_string()]);

    let mut disk = vec!["a.jar".to_string(), "b.jar".to_string(), "notes.txt".to_string()];
    let mut pool = Pool::new(outcome.missing, MAX_IN_FLIGHT);
    let mut attempts = Vec::new();
    let mut results = Vec::new();
    while !pool.is_finished() {
        let mut running = Vec::new();
        while let Some(name) = pool.start_next() {
            attempts.push(name.clone());
            running.push(DownloadTask::new(name));
        }
        assert!(running.len() <= MAX_IN_FLIGHT);
        for mut task in running {
            let mut pieces_left = 0;
            while let Some(step) = task.pending() {
                let event = perform(&task, step, &mut pieces_left, &mut disk);
                task.handle(event);
            }
            results.push((task.file_name().to_string(), task.outcome().unwrap()));
            assert!(pool.end_one());
        }
    }
    assert_eq!(attempts, vec!["c.jar".to_string(), "e.jar".to_string()]);
    assert_eq!(
        results,
        vec![
            ("c.jar".to_string(), Ok(())),
            ("e.jar".to_string(), Err(DownloadError::Network)),
        ]
    );
    disk.sort();
    assert_eq!(
        disk,
        vec!["a.jar".to_string(), "b.jar".to_string(), "c.jar".to_string(), "notes.txt".to_string()]
    );
}

#[test]
fn run_without_the_directory_ends_before_anything_else() {
    assert_eq!(scan_mods_dir(&Listing::Missing).unwrap_err(), ScanError::NotFound);
}

#[test]
fn run_without_a_manifest_ends_before_any_download() {
    let local = scan_mods_dir(&Listing::Entries(vec![entry("a.jar", false)])).unwrap();
    assert_eq!(local.len(), 1);
    assert_eq!(read_manifest(&Reply::Unreachable), Err(FetchError::Network));
    let reply = Reply::Answer { status: 200, body: b"<html>".to_vec() };
    assert_eq!(read_manifest(&reply), Err(FetchError::Decode));
}

#[test]
fn second_run_after_the_downloads_asks_for_nothing() {
    let remote = vec!["a.jar".to_string(), "c.jar".to_string()];
    let first = scan_mods_dir(&Listing::Entries(vec![entry("a.jar", false)])).unwrap();
    assert_eq!(reconcile(&first, &remote).missing, vec!["c.jar".to_string()]);
    let second = scan_mods_dir(&Listing::Entries(vec![
        entry("a.jar", false),
        entry("c.jar", false),
        entry("d.jar.part", false),
    ]))
    .unwrap();
    let outcome = reconcile(&second, &remote);
    assert!(outcome.missing.is_empty());
    assert_eq!(outcome.matched, 2);
}
