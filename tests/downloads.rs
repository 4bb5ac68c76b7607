use anchor_launcher::downloader::{
    get_cancel_key, retry_delay_ms, task_step, DownloadError, DownloadState, FileStatus, InstallError, TaskAction,
    TaskEvent, TaskState,
};
use anchor_launcher::manifest::{DownloadInfo, Library, LibraryDownloads};
use anchor_launcher::queue::{
    asset_object_task, custom_file_destination, fabric_library_task, installer_url, libraries_tasks, library_tasks,
    loader_list_url, QueueError,
};
use anchor_launcher::rules::{Os, Rule, RuleAction, RuleContext};

fn host() -> RuleContext {
    RuleContext { os: "linux".to_string(), arch: "x64".to_string(), features: vec![] }
}

fn info(url: &str, path: Option<&str>) -> DownloadInfo {
    DownloadInfo { sha1: None, size: None, url: url.to_string(), path: path.map(|p| p.to_string()) }
}

#[test]
fn existing_destination_is_cached_without_request() {
    let (state, action) = task_step(TaskState::Queued, TaskEvent::Admitted { destination_exists: true, cancel_requested: false });
    assert!(matches!(state, TaskState::Cached));
    assert!(matches!(action, TaskAction::ReportCached));
    assert_eq!(FileStatus::Cached.as_str(), "cached");
    assert_eq!(FileStatus::Downloading.as_str(), "downloading");
    assert_eq!(FileStatus::Done.as_str(), "done");
    let (state, action) = task_step(state, TaskEvent::WaitElapsed);
    assert!(matches!(state, TaskState::Cached));
    assert!(matches!(action, TaskAction::Ignore));
}

#[test]
fn two_failures_then_success_waits_1500_ms() {
    let mut state = TaskState::Queued;
    let mut waited: u64 = 0;
    let events = vec![
        TaskEvent::Admitted { destination_exists: false, cancel_requested: false },
        TaskEvent::AttemptFinished(Err(DownloadError::HttpStatus(503))),
        TaskEvent::WaitElapsed,
        TaskEvent::AttemptFinished(Err(DownloadError::NetworkError("reset".to_string()))),
        TaskEvent::WaitElapsed,
        TaskEvent::AttemptFinished(Ok(())),
    ];
    let mut requests = 0;
    for e in events {
        let (s, a) = task_step(state, e);
        match a {
            TaskAction::Sleep { millis } => waited += millis,
            TaskAction::SendRequest { .. } => requests += 1,
            _ => {}
        }
        state = s;
    }
    assert!(waited >= 1500);
    assert_eq!(waited, 1500);
    assert_eq!(requests, 3);
    assert!(matches!(state, TaskState::Succeeded { attempts: 3 }));
}

#[test]
fn third_failure_is_final() {
    let mut state = TaskState::Attempting { attempt: 3 };
    let (s, a) = task_step(state, TaskEvent::AttemptFinished(Err(DownloadError::IoError("disk".to_string()))));
    state = s;
    assert!(matches!(state, TaskState::Failed { attempts: 3, .. }));
    assert!(matches!(a, TaskAction::ReportFailed(DownloadError::IoError(_))));
}

#[test]
fn retry_delays_double() {
    assert_eq!(retry_delay_ms(1), 500);
    assert_eq!(retry_delay_ms(2), 1000);
}

#[test]
fn cancelled_before_start_makes_no_request() {
    let (state, action) = task_step(TaskState::Queued, TaskEvent::Admitted { destination_exists: false, cancel_requested: true });
    assert!(matches!(state, TaskState::Cancelled));
    assert!(matches!(action, TaskAction::Abort));
    let (state, action) = task_step(TaskState::Attempting { attempt: 1 }, TaskEvent::AttemptFinished(Err(DownloadError::Cancelled)));
    assert!(matches!(state, TaskState::Cancelled));
    assert!(matches!(action, TaskAction::Abort));
}

#[test]
fn cancel_flag_is_cleared_after_operation() {
    let mut s = DownloadState::new();
    let key = get_cancel_key("1.20.1", &Some("task-7".to_string()));
    assert_eq!(key, "task-7");
    assert!(!s.get_cancel_flag(&key));
    s.cancel(&key);
    assert!(s.is_cancelled(&key));
    assert!(!s.is_cancelled("1.20.1"));
    assert!(matches!(s.finish_operation(&key), Err(DownloadError::Cancelled)));
    assert!(!s.get_cancel_flag(&key));
    assert!(s.finish_operation(&key).is_ok());
}

#[test]
fn cancel_key_defaults_to_version() {
    assert_eq!(get_cancel_key("1.20.1", &None), "1.20.1");
}

#[test]
fn second_install_of_same_version_is_refused() {
    let mut s = DownloadState::new();
    assert!(s.begin_install("1.20.1").is_ok());
    assert_eq!(s.begin_install("1.20.1"), Err(InstallError::AlreadyInstalling));
    assert!(s.begin_install("1.19.4").is_ok());
    s.finish_install("1.20.1");
    assert!(s.begin_install("1.20.1").is_ok());
}

#[test]
fn modern_library_gives_artifact_and_native() {
    let l = Library {
        downloads: Some(LibraryDownloads {
            artifact: Some(info("https://x/a.jar", Some("org/a/1/a-1.jar"))),
            classifiers: Some(vec![
                ("natives-windows".to_string(), info("https://x/w.jar", Some("org/a/1/a-1-natives-windows.jar"))),
                ("natives-linux".to_string(), info("https://x/l.jar", Some("org/a/1/a-1-natives-linux.jar"))),
            ]),
        }),
        name: "org:a:1".to_string(),
        natives: None,
        rules: None,
        url: None,
    };
    let tasks = library_tasks(&l, "/g", &host()).ok().unwrap();
    let pairs: Vec<(String, String)> = tasks.iter().map(|t| (t.url.clone(), t.destination.clone())).collect();
    assert_eq!(pairs, vec![
        ("https://x/a.jar".to_string(), "/g/libraries/org/a/1/a-1.jar".to_string()),
        ("https://x/l.jar".to_string(), "/g/libraries/org/a/1/a-1-natives-linux.jar".to_string()),
    ]);
    assert!(tasks.iter().all(|t| t.bearer_token.is_none()));
}

#[test]
fn legacy_library_uses_maven_layout() {
    let l = Library { downloads: None, name: "net.fabricmc:fabric-loader:0.15.0".to_string(), natives: None, rules: None, url: Some("https://maven.example/".to_string()) };
    let tasks = library_tasks(&l, "/g", &host()).ok().unwrap();
    assert_eq!(tasks.len(), 1);
    assert_eq!(tasks[0].url, "https://maven.example/net/fabricmc/fabric-loader/0.15.0/fabric-loader-0.15.0.jar");
    assert_eq!(tasks[0].destination, "/g/libraries/net/fabricmc/fabric-loader/0.15.0/fabric-loader-0.15.0.jar");
    let l2 = Library { downloads: None, name: "org.ow2:asm:9.6".to_string(), natives: None, rules: None, url: None };
    let t2 = library_tasks(&l2, "/g", &host()).ok().unwrap();
    assert_eq!(t2[0].url, "https://libraries.minecraft.net/org/ow2/asm/9.6/asm-9.6.jar");
}

#[test]
fn excluded_library_gives_nothing() {
    let l = Library {
        downloads: None,
        name: "org:a:1".to_string(),
        natives: None,
        rules: Some(vec![Rule { action: RuleAction::Allow, os: Some(Os { name: Some("osx".to_string()), arch: None }), features: vec![] }]),
        url: None,
    };
    assert_eq!(library_tasks(&l, "/g", &host()).ok().unwrap().len(), 0);
}

#[test]
fn artifact_without_path_is_an_error() {
    let l = Library {
        downloads: Some(LibraryDownloads { artifact: Some(info("https://x/a.jar", None)), classifiers: None }),
        name: "org:a:1".to_string(),
        natives: None,
        rules: None,
        url: None,
    };
    assert!(matches!(library_tasks(&l, "/g", &host()), Err(QueueError::LibraryPathMissing)));
    let n = Library {
        downloads: Some(LibraryDownloads { artifact: None, classifiers: Some(vec![("natives-linux".to_string(), info("https://x/n.jar", None))]) }),
        name: "org:a:1".to_string(),
        natives: None,
        rules: None,
        url: None,
    };
    assert!(matches!(libraries_tasks(&vec![n], "/g", &host()), Err(QueueError::NativePathMissing)));
}

#[test]
fn asset_objects_live_under_hash_prefix() {
    let t = asset_object_task("ab12cd", "/g").unwrap();
    assert_eq!(t.url, "https://resources.download.minecraft.net/ab/ab12cd");
    assert_eq!(t.destination, "/g/assets/objects/ab/ab12cd");
    assert!(asset_object_task("a", "/g").is_none());
}

#[test]
fn fabric_libraries_default_to_loader_maven() {
    let t = fabric_library_task("net.fabricmc:intermediary:1.20.1", &None, "/g").unwrap();
    assert_eq!(t.url, "https://maven.fabricmc.net/net/fabricmc/intermediary/1.20.1/intermediary-1.20.1.jar");
    assert!(fabric_library_task("broken", &None, "/g").is_none());
}

#[test]
fn custom_files_are_routed() {
    assert_eq!(custom_file_destination("/g", "pack", "client_config.json"), "/g/versions/pack/client_config.json");
    assert_eq!(custom_file_destination("/g", "pack", "whatever.json"), "/g/versions/pack/pack.json");
    assert_eq!(custom_file_destination("/g", "pack", "mods\\a.jar"), "/g/mods\\a.jar");
    assert_eq!(custom_file_destination("/g", "pack", "config/x.json"), "/g/config/x.json");
}

#[test]
fn loader_urls() {
    assert_eq!(loader_list_url("1.20.1", "forge").unwrap(), "https://bmclapi2.bangbang93.com/forge/minecraft/1.20.1");
    assert!(loader_list_url("1.20.1", "quilt").is_none());
    assert_eq!(
        installer_url("neoforge", "1.20.1", "20.1.5"),
        "https://bmclapi2.bangbang93.com/neoforge/version/20.1.5/download/installer.jar"
    );
    assert_eq!(
        installer_url("forge", "1.20.1", "47.2.0"),
        "https://bmclapi2.bangbang93.com/forge/download?mcversion=1.20.1&version=47.2.0&category=installer&format=jar"
    );
}
