use anchor_launcher::auth::{auth_request, authenticate_url};
use anchor_launcher::config::{should_isolate, AppConfig, IsolationMode};
use anchor_launcher::launcher::VersionRuntimeInfo;
use anchor_launcher::manifest::ManifestLayer;
use anchor_launcher::modpack::{
    curseforge_loader_id, find_installed_loader_version, identify_legacy_version, legacy_plan, pack_parent, ImportError,
    legacy_entry_destination, pack_dependencies, pack_file_tasks, pack_manifest, pack_override_destination,
    pack_requirements, parse_pack_format, EntryTarget, ManifestProbe, ModrinthFile, ModrinthIndex, PackFormat,
};
use anchor_launcher::modrinth::{release_versions, search_facets, GameVersionTag};
use anchor_launcher::resolver::{resolve, InstalledVersions};
use anchor_launcher::server_ping::{frame_packet, handshake_packet, read_var_int, write_string, write_var_int, VarIntError};
use anchor_launcher::system_info::memory_info_from_raw;
use anchor_launcher::version_path::{get_config_dir, get_game_root, get_game_working_dir, get_mods_dir, get_resourcepacks_dir, get_saves_dir, get_shaderpacks_dir};
use anchor_launcher::queue::{installer_arguments, installer_file_name, installer_home_variable, loader_plan, LoaderPlan};
use anchor_launcher::launcher::{java_runtime_dir_name, java_runtime_url};
use anchor_launcher::launcher::{agent_next, AgentEvent, AgentStep, choose_java, find_client_for_server, JavaChoice};
use anchor_launcher::queue::{custom_file_task, CustomFile};
use anchor_launcher::downloader::DownloadLog;
use anchor_launcher::modpack::{archive_entry_name, packaged_version_entry};

fn strings(v: &[&str]) -> Vec<String> {
    v.iter().map(|s| s.to_string()).collect()
}

#[test]
fn pack_format_names_in_any_case() {
    assert_eq!(parse_pack_format(Some("MRPack".to_string())), PackFormat::Modrinth);
    assert_eq!(parse_pack_format(Some("Modrinth".to_string())), PackFormat::Modrinth);
    assert_eq!(parse_pack_format(Some("CF".to_string())), PackFormat::Curseforge);
    assert_eq!(parse_pack_format(None), PackFormat::Curseforge);
    assert_eq!(PackFormat::Modrinth.extension(), "mrpack");
}

#[test]
fn declarative_pack_files_and_requirements() {
    let index = ModrinthIndex {
        name: "Pack".to_string(),
        files: vec![
            ModrinthFile { path: "mods/a.jar".to_string(), downloads: strings(&["https://cdn/a.jar", "https://mirror/a.jar"]) },
            ModrinthFile { path: "mods/b.jar".to_string(), downloads: vec![] },
        ],
        dependencies: vec![("minecraft".to_string(), "1.20.1".to_string()), ("forge".to_string(), "47.2.0".to_string()), ("neoforge".to_string(), "20.1.5".to_string())],
    };
    let tasks = pack_file_tasks(&index, "/g/versions/Pack");
    assert_eq!(tasks.len(), 1);
    assert_eq!(tasks[0].url, "https://cdn/a.jar");
    assert_eq!(tasks[0].destination, "/g/versions/Pack/mods/a.jar");
    let req = pack_requirements(&index.dependencies);
    assert_eq!(req.minecraft.as_deref(), Some("1.20.1"));
    assert_eq!(req.loader, Some(("neoforge".to_string(), "20.1.5".to_string())));
}

#[test]
fn overrides_are_rooted_at_target() {
    assert_eq!(pack_override_destination("overrides/config/a.toml", "/t").as_deref(), Some("/t/config/a.toml"));
    assert!(pack_override_destination("overrides/", "/t").is_none());
    assert!(pack_override_destination("modrinth.index.json", "/t").is_none());
}

#[test]
fn legacy_entries_are_routed() {
    let m = Some("MyPack/MyPack.json".to_string());
    let w = |p: &str| match legacy_entry_destination("/g", "Renamed", true, true, &m, p) {
        EntryTarget::Skip => None,
        EntryTarget::Write(x) => Some(x),
    };
    assert_eq!(w("MyPack/MyPack.json").as_deref(), Some("/g/versions/Renamed/Renamed.json"));
    assert_eq!(w("MyPack/MyPack.jar").as_deref(), Some("/g/versions/Renamed/Renamed.jar"));
    assert_eq!(w("overrides/mods/a.jar").as_deref(), Some("/g/versions/Renamed/mods/a.jar"));
    assert_eq!(w("libraries/x/y.jar").as_deref(), Some("/g/libraries/x/y.jar"));
    assert_eq!(w("server-overrides/s.txt"), None);
    match legacy_entry_destination("/g", "unknown", false, true, &None, "mods/a.jar") {
        EntryTarget::Write(x) => assert_eq!(x, "/g/mods/a.jar"),
        EntryTarget::Skip => panic!("expected a write"),
    }
}

fn probe(path: &str, id: Option<&str>, inherits: bool) -> ManifestProbe {
    ManifestProbe { path: path.to_string(), id: id.map(|s| s.to_string()), has_libraries: false, has_inherits_from: inherits, has_type: false, has_main_class: false }
}

#[test]
fn legacy_identity_scan() {
    let probes = vec![
        ManifestProbe { path: "client_config.json".to_string(), id: Some("x".to_string()), has_libraries: true, has_inherits_from: false, has_type: false, has_main_class: false },
        probe("other.json", Some("y"), false),
        probe("v/v.json", Some("v"), true),
        probe("copy/v.json", Some("v"), true),
    ];
    let id = identify_legacy_version(&probes, &None).ok().unwrap();
    assert_eq!(id.id, "v");
    assert_eq!(id.manifest_index, Some(2));
    let renamed = identify_legacy_version(&probes, &Some("New".to_string())).ok().unwrap();
    assert_eq!(renamed.id, "New");
    assert_eq!(renamed.manifest_index, Some(2));
}

#[test]
fn ambiguous_legacy_identity_is_refused() {
    let two = vec![probe("a/a.json", Some("a"), true), probe("b/b.json", Some("b"), true)];
    assert!(matches!(identify_legacy_version(&two, &None), Err(ImportError::AmbiguousVersionIdentity)));
    assert!(matches!(identify_legacy_version(&two, &Some("n".to_string())), Err(ImportError::AmbiguousVersionIdentity)));
    let none = vec![probe("mods/x.json", Some("x"), false)];
    assert!(matches!(identify_legacy_version(&none, &None), Err(ImportError::AmbiguousVersionIdentity)));
    let named = identify_legacy_version(&none, &Some("n".to_string())).ok().unwrap();
    assert_eq!(named.id, "n");
    assert_eq!(named.manifest_index, None);
}

#[test]
fn import_plans() {
    let req = pack_requirements(&vec![("minecraft".to_string(), "1.20.1".to_string()), ("fabric-loader".to_string(), "0.15.0".to_string())]);
    let (parent, kind) = pack_parent(&req, &Some("fabric-loader-0.15.0-1.20.1".to_string()));
    assert_eq!(parent.as_deref(), Some("fabric-loader-0.15.0-1.20.1"));
    assert_eq!(kind.as_deref(), Some("fabric"));
    let (parent, kind) = pack_parent(&req, &None);
    assert_eq!(parent.as_deref(), Some("1.20.1"));
    assert!(kind.is_none());
    let plan = legacy_plan("/g", "v", &None, &Some("1.20".to_string()), &Some("https://c/v.jar".to_string()), false);
    assert_eq!(plan.base_version.as_deref(), Some("1.20"));
    assert_eq!(plan.client_jar.unwrap().destination, "/g/versions/v/v.jar");
    let plan = legacy_plan("/g", "v", &Some("1.19".to_string()), &Some("1.20".to_string()), &Some("u".to_string()), true);
    assert_eq!(plan.base_version.as_deref(), Some("1.19"));
    assert!(plan.client_jar.is_none());
}

#[test]
fn export_dependencies_and_loader_ids() {
    let info = VersionRuntimeInfo { mc_version: Some("1.20.1".to_string()), loader_type: Some("fabric".to_string()), loader_version: Some("0.15.0".to_string()) };
    assert_eq!(pack_dependencies(&info), vec![
        ("minecraft".to_string(), "1.20.1".to_string()),
        ("fabric-loader".to_string(), "0.15.0".to_string()),
    ]);
    assert_eq!(curseforge_loader_id(&info).as_deref(), Some("fabric-0.15.0"));
    let vanilla = VersionRuntimeInfo { mc_version: Some("1.20.1".to_string()), loader_type: Some("vanilla".to_string()), loader_version: None };
    assert_eq!(pack_dependencies(&vanilla).len(), 1);
    assert!(curseforge_loader_id(&vanilla).is_none());
}

#[test]
fn installer_result_prefers_newest_match() {
    let c = vec![
        ("1.20.1-forge-47.2.0".to_string(), 10u64),
        ("neoforge-20.1.5".to_string(), 30u64),
        ("forge-1.20.1-47.2.0".to_string(), 20u64),
        ("1.20.1".to_string(), 40u64),
    ];
    assert_eq!(find_installed_loader_version(&c, "forge", "1.20.1", "47.2.0").as_deref(), Some("forge-1.20.1-47.2.0"));
    assert!(find_installed_loader_version(&c, "fabric", "1.20.1", "47.2.0").is_none());
}

fn layer(id: &str, parent: Option<&str>, main: Option<&str>, libs: &[&str]) -> ManifestLayer {
    ManifestLayer {
        id: id.to_string(),
        version_type: None,
        main_class: main.map(|s| s.to_string()),
        inherits_from: parent.map(|s| s.to_string()),
        asset_index_id: None,
        libraries: libs
            .iter()
            .map(|n| anchor_launcher::manifest::Library { downloads: None, name: n.to_string(), natives: None, rules: None, url: None })
            .collect(),
        arguments: None,
        minecraft_arguments: None,
    }
}

#[test]
fn pack_round_trip_keeps_libraries_and_entry_point() {
    let loader = "fabric-loader-0.15.0-1.20.1";
    let base = || layer("1.20.1", None, Some("net.minecraft.client.main.Main"), &["v:a:1"]);
    let fabric = || layer(loader, Some("1.20.1"), Some("net.fabricmc.loader.impl.launch.knot.KnotClient"), &["f:a:1"]);
    let original = layer("Pack", Some(loader), Some("net.fabricmc.loader.impl.launch.knot.KnotClient"), &[]);
    let info = anchor_launcher::launcher::runtime_info_from_ids(&original.inherits_from, &Some(original.id.clone()), &None);
    let deps = pack_dependencies(&info);
    let req = pack_requirements(&deps);
    let kind = req.loader.as_ref().map(|l| l.0.clone());
    let imported = pack_manifest("Pack Copy", loader, &kind);
    let before = resolve(InstalledVersions { manifests: vec![base(), fabric(), original], jars: vec!["1.20.1".to_string()] }, "Pack").ok().unwrap();
    let after = resolve(InstalledVersions { manifests: vec![base(), fabric(), imported], jars: vec!["1.20.1".to_string()] }, "Pack Copy").ok().unwrap();
    let libs = |g: &anchor_launcher::resolver::ResolvedGraph| -> Vec<String> {
        g.layers.iter().flat_map(|l| l.libraries.iter().map(|x| x.name.clone())).collect()
    };
    assert_eq!(libs(&before), libs(&after));
    assert_eq!(before.main_class, after.main_class);
}

#[test]
fn var_ints_round_trip() {
    let mut b = Vec::new();
    write_var_int(&mut b, 300);
    assert_eq!(b, vec![0xAC, 0x02]);
    assert_eq!(read_var_int(&b), Ok((300, 2)));
    let mut z = Vec::new();
    write_var_int(&mut z, 0);
    assert_eq!(z, vec![0]);
    assert_eq!(read_var_int(&vec![0x80, 0x80]), Err(VarIntError::Incomplete));
    assert_eq!(read_var_int(&vec![0xFF, 0xFF, 0xFF, 0xFF, 0xFF, 0x01]), Err(VarIntError::TooBig));
    assert_eq!(read_var_int(&vec![0xFF, 0xFF, 0xFF, 0xFF, 0x0F]), Ok((u32::MAX, 5)));
}

#[test]
fn strings_and_packets() {
    let mut b = Vec::new();
    write_string(&mut b, "hé");
    assert_eq!(b, vec![3, b'h', 0xC3, 0xA9]);
    let h = handshake_packet("a", 25565);
    assert_eq!(h, vec![0x00, 47, 1, b'a', 0x63, 0xDD, 1]);
    assert_eq!(frame_packet(&vec![0x00]), vec![1, 0]);
}

#[test]
fn isolation_policies() {
    assert!(should_isolate(&IsolationMode::All, false, "release"));
    assert!(should_isolate(&IsolationMode::Snapshot, false, "snapshot"));
    assert!(!should_isolate(&IsolationMode::Snapshot, true, "release"));
    assert!(should_isolate(&IsolationMode::ModdedAndSnapshot, true, "release"));
    assert!(!should_isolate(&IsolationMode::Disabled, true, "snapshot"));
    assert_eq!(AppConfig::default().isolation_mode, IsolationMode::Modded);
}

#[test]
fn memory_units() {
    let m = memory_info_from_raw(16_000_000_000, 8_000_000_000);
    assert_eq!(m.total_mb, 16_000_000_000 / 1_048_576);
    assert_eq!(m.available_mb, 8_000_000_000 / 1_048_576);
    let k = memory_info_from_raw(16_000_000, 2048);
    assert_eq!(k.total_mb, 15625);
    assert_eq!(k.available_mb, 2);
}

#[test]
fn paths_and_roots() {
    assert_eq!(get_game_root(strings(&["d"]), Some(strings(&["home", "game", "versions"]))), strings(&["home", "game"]));
    assert_eq!(get_game_root(strings(&["d"]), Some(strings(&["home", "game", "versions", "1.20.1"]))), strings(&["home", "game"]));
    assert_eq!(get_game_root(strings(&["d"]), None), strings(&["d"]));
    assert_eq!(get_game_working_dir("/g", "v", true), "/g/versions/v");
    assert_eq!(get_mods_dir("/g", "v", false), "/g/mods");
    assert_eq!(get_config_dir("/g", "v", true), "/g/versions/v/config");
    assert_eq!(get_saves_dir("/g", "v", true), "/g/versions/v/saves");
    assert_eq!(get_resourcepacks_dir("/g", "v", false), "/g/resourcepacks");
    assert_eq!(get_shaderpacks_dir("/g", "v", false), "/g/shaderpacks");
}

#[test]
fn search_queries() {
    assert_eq!(
        search_facets("mod", &Some("1.20.1".to_string()), &Some("".to_string())),
        "[[\"project_type:mod\"],[\"versions:1.20.1\"]]"
    );
    let tags = vec![
        GameVersionTag { version: "1.20.1".to_string(), version_type: "release".to_string(), date: String::new(), major: false },
        GameVersionTag { version: "23w31a".to_string(), version_type: "snapshot".to_string(), date: String::new(), major: false },
    ];
    assert_eq!(release_versions(&tags), strings(&["1.20.1"]));
}

#[test]
fn login_request() {
    assert_eq!(authenticate_url("https://auth.example//"), "https://auth.example/authserver/authenticate");
    let r = auth_request("u", "p");
    assert_eq!(r.agent.name, "Minecraft");
    assert!(r.request_user && r.client_token.is_none());
}

#[test]
fn install_dispatch_and_installer_command() {
    assert_eq!(loader_plan("fabric"), Some(LoaderPlan::LibraryLoader));
    assert_eq!(loader_plan("neoforge"), Some(LoaderPlan::SelfInstalling));
    assert_eq!(loader_plan("vanilla"), Some(LoaderPlan::Vanilla));
    assert_eq!(loader_plan("quilt"), None);
    assert_eq!(installer_arguments("/tmp/i.jar", "/g"), strings(&["-jar", "/tmp/i.jar", "--installClient", "/g"]));
    assert_eq!(installer_file_name("forge", "47.2.0"), "forge-47.2.0-installer.jar");
    assert_eq!(installer_home_variable("windows"), "APPDATA");
    assert_eq!(installer_home_variable("linux"), "HOME");
}

#[test]
fn java_runtime_locations() {
    assert_eq!(java_runtime_url(17).as_deref(), Some("https://api.adoptium.net/v3/binary/latest/17/ga/windows/x64/jdk/hotspot/normal/eclipse"));
    assert!(java_runtime_url(16).is_none());
    assert_eq!(java_runtime_dir_name(21), "java-21");
}

#[test]
fn client_lookup_for_server() {
    let configs = vec![("a".to_string(), Some(1)), ("b".to_string(), None), ("c".to_string(), Some(7))];
    assert_eq!(find_client_for_server(&configs, 7, &Some("named".to_string())).as_deref(), Some("c"));
    assert_eq!(find_client_for_server(&configs, 9, &Some("named".to_string())).as_deref(), Some("named"));
    assert_eq!(find_client_for_server(&configs, 9, &None), None);
}

#[test]
fn archive_entry_names() {
    assert_eq!(archive_entry_name("overrides/mods/", "sub\\a.jar"), "overrides/mods/sub/a.jar");
    assert_eq!(packaged_version_entry("v", "v.json"), "versions/v/v.json");
}

#[test]
fn java_runtime_choice() {
    assert_eq!(choose_java(17, Some(21), true, Some(21)), JavaChoice::User);
    assert_eq!(choose_java(17, Some(8), true, Some(21)), JavaChoice::Managed);
    assert_eq!(choose_java(17, None, false, Some(17)), JavaChoice::System);
    assert_eq!(choose_java(21, None, false, Some(17)), JavaChoice::Download);
    assert_eq!(choose_java(16, None, false, None), JavaChoice::LastResort);
}

#[test]
fn custom_file_keeps_token() {
    let f = CustomFile { url: "https://x/c.json".to_string(), path: "client_config.json".to_string(), size: 3, hash: "h".to_string(), token: Some("tok-1".to_string()) };
    let t = custom_file_task("/g", "pack", f);
    assert_eq!(t.destination, "/g/versions/pack/client_config.json");
    assert_eq!(t.bearer_token.as_deref(), Some("tok-1"));
    let l = DownloadLog::new(&Some("t".to_string()), "hello".to_string(), "warn");
    assert_eq!(l.level, "warn");
    assert_eq!(l.task_id.as_deref(), Some("t"));
}

#[test]
fn agent_mirrors_first_success_wins() {
    assert!(matches!(agent_next(0, 3, AgentEvent::Saved), AgentStep::Done));
    assert!(matches!(agent_next(0, 3, AgentEvent::Failed("x".to_string())), AgentStep::TryMirror(1)));
    match agent_next(2, 3, AgentEvent::Failed("last".to_string())) {
        AgentStep::Unavailable(e) => assert_eq!(e, "last"),
        _ => panic!("expected Unavailable"),
    }
}
