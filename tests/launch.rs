use anchor_launcher::arguments::{build_launch_arguments, substitute_jvm, GameValues, LaunchPaths, LaunchSettings};
use anchor_launcher::launcher::{
    agent_argument, build_classpath, extracts_entry, game_values, is_modded, java_major_from_output,
    native_candidates, required_java_version, runtime_info_from_ids, select_native_archives, MinecraftAccount,
    VersionDetails,
};
use anchor_launcher::manifest::{Argument, Arguments, DownloadInfo, Library, LibraryDownloads, ManifestLayer};
use anchor_launcher::rules::{Os, Rule, RuleAction, RuleContext};
use anchor_launcher::text::{split_whitespace, trim};

fn host() -> RuleContext {
    RuleContext { os: "linux".to_string(), arch: "x64".to_string(), features: vec![] }
}

fn base_layer(jvm: Option<Vec<Argument>>, game: Option<Vec<Argument>>, legacy: Option<&str>) -> ManifestLayer {
    ManifestLayer {
        id: "1.20.1".to_string(),
        version_type: Some("release".to_string()),
        main_class: Some("net.minecraft.client.main.Main".to_string()),
        inherits_from: None,
        asset_index_id: Some("5".to_string()),
        libraries: vec![],
        arguments: if jvm.is_some() || game.is_some() { Some(Arguments { game, jvm }) } else { None },
        minecraft_arguments: legacy.map(|s| s.to_string()),
    }
}

fn values() -> GameValues {
    game_values(&None, "1.20.1", "/g", "/g/assets", "5")
}

fn settings() -> LaunchSettings {
    LaunchSettings {
        agent_argument: None,
        jvm_args: None,
        min_memory: None,
        max_memory: None,
        width: None,
        height: None,
        server_ip: None,
        server_port: None,
    }
}

fn paths() -> LaunchPaths {
    LaunchPaths { natives_dir: "/g/versions/1.20.1/natives".to_string(), library_dir: "/g/libraries".to_string(), classpath_separator: ":".to_string() }
}

#[test]
fn java_release_by_game_version() {
    assert_eq!(required_java_version("1.21.1"), 21);
    assert_eq!(required_java_version("1.20.5"), 21);
    assert_eq!(required_java_version("1.20.1"), 17);
    assert_eq!(required_java_version("1.18.2"), 17);
    assert_eq!(required_java_version("1.17.1"), 16);
    assert_eq!(required_java_version("1.12.2"), 8);
}

#[test]
fn java_version_output_is_read() {
    assert_eq!(java_major_from_output("openjdk version \"21.0.1\" 2023-10-17\nOpenJDK Runtime"), Some(21));
    assert_eq!(java_major_from_output("java version \"1.8.0_392\"\r\nJava(TM) SE"), Some(8));
    assert_eq!(java_major_from_output("no java here"), None);
}

#[test]
fn modded_detection() {
    assert!(is_modded("modpack", ""));
    assert!(is_modded("release", "net.fabricmc.loader.impl.launch.knot.KnotClient"));
    assert!(!is_modded("release", "net.minecraft.client.main.Main"));
    assert!(!is_modded("release", ""));
    let d = VersionDetails::describe(&None, "", "/g/versions/x", "/g");
    assert_eq!(d.version_type, "release");
    assert!(!d.is_modded);
}

#[test]
fn legacy_launch_without_jvm_arguments() {
    let layers = vec![base_layer(None, None, Some("--username ${auth_player_name}  --version ${version_name}"))];
    let mut s = settings();
    s.min_memory = Some(512);
    s.max_memory = Some(2048);
    s.jvm_args = Some(vec!["-XX:+UseG1GC".to_string()]);
    let cp = vec!["/g/libraries/a.jar".to_string(), "/g/versions/1.20.1/1.20.1.jar".to_string()];
    let args = build_launch_arguments(&layers, "net.minecraft.client.main.Main", "1.20.1", &host(), &s, &paths(), &cp, "/g/versions/1.20.1/1.20.1.jar", &values());
    assert_eq!(args, vec![
        "-Xms512M", "-Xmx2048M", "-XX:+UseG1GC",
        "-Djava.library.path=/g/versions/1.20.1/natives", "-cp", "/g/libraries/a.jar:/g/versions/1.20.1/1.20.1.jar",
        "net.minecraft.client.main.Main",
        "--username", "Player", "--version", "1.20.1",
    ]);
}

#[test]
fn modern_arguments_are_gated_and_filled() {
    let jvm = vec![
        Argument::Conditional {
            rules: Some(vec![Rule { action: RuleAction::Allow, os: Some(Os { name: Some("osx".to_string()), arch: None }), features: vec![] }]),
            values: vec!["-XstartOnFirstThread".to_string()],
        },
        Argument::Literal("-Djava.library.path=${natives_directory}".to_string()),
        Argument::Literal("-cp".to_string()),
        Argument::Literal("${classpath}".to_string()),
        Argument::Literal("-DFabricMcEmu= net.minecraft.client.main.Main ".to_string()),
    ];
    let game = vec![
        Argument::Literal("--gameDir".to_string()),
        Argument::Literal("${game_directory}".to_string()),
        Argument::Conditional {
            rules: Some(vec![Rule { action: RuleAction::Allow, os: None, features: vec![("has_custom_resolution".to_string(), true)] }]),
            values: vec!["--width".to_string(), "${resolution_width}".to_string(), "--height".to_string(), "${resolution_height}".to_string()],
        },
    ];
    let layers = vec![base_layer(Some(jvm), Some(game), None)];
    let mut s = settings();
    s.width = Some(1280);
    s.server_ip = Some("mc.example".to_string());
    s.server_port = Some(25565);
    let mut ctx = host();
    ctx.features.push(("has_custom_resolution".to_string(), true));
    let cp = vec!["/g/versions/1.20.1/1.20.1.jar".to_string()];
    let args = build_launch_arguments(&layers, "M", "1.20.1", &ctx, &s, &paths(), &cp, "/g/versions/1.20.1/1.20.1.jar", &values());
    assert_eq!(args, vec![
        "-Djava.library.path=/g/versions/1.20.1/natives", "-cp", "/g/versions/1.20.1/1.20.1.jar",
        "-DFabricMcEmu=net.minecraft.client.main.Main",
        "M",
        "--gameDir", "/g", "--width", "1280", "--height",
        "--server", "mc.example", "--port", "25565",
    ]);
}

#[test]
fn empty_game_arguments_use_fallback() {
    let layers = vec![base_layer(None, None, None)];
    let acc = Some(MinecraftAccount { username: "Steve".to_string(), uuid: "u-1".to_string(), access_token: "t-1".to_string(), user_type: "msa".to_string() });
    let g = game_values(&acc, "1.20.1", "/g", "/g/assets", "5");
    let mut s = settings();
    s.agent_argument = Some(agent_argument("/g/authlib-injector.jar", "https://auth.example"));
    let cp = vec!["/g/versions/1.20.1/1.20.1.jar".to_string()];
    let args = build_launch_arguments(&layers, "M", "1.20.1", &host(), &s, &paths(), &cp, "/g/versions/1.20.1/1.20.1.jar", &g);
    assert_eq!(args[0], "-javaagent:/g/authlib-injector.jar=https://auth.example");
    let tail: Vec<&str> = args[5..].iter().map(|s| s.as_str()).collect();
    assert_eq!(tail, vec![
        "--version", "1.20.1", "--gameDir", "/g", "--assetsDir", "/g/assets", "--assetIndex", "5",
        "--username", "Steve", "--accessToken", "t-1", "--uuid", "u-1", "--userType", "msa",
    ]);
}

#[test]
fn module_launch_drops_client_jar_from_classpath() {
    let jvm = vec![Argument::Literal("-p".to_string()), Argument::Literal("${classpath}".to_string())];
    let layers = vec![base_layer(Some(jvm), Some(vec![Argument::Literal("--demo".to_string())]), None)];
    let cp = vec!["/l/a.jar".to_string(), "/jar".to_string()];
    let mut p = paths();
    p.classpath_separator = ";".to_string();
    let args = build_launch_arguments(&layers, "M", "1.20.1", &host(), &settings(), &p, &cp, "/jar", &values());
    assert_eq!(args, vec!["-p", "/l/a.jar", "M", "--demo"]);
}

#[test]
fn jvm_placeholders_are_filled() {
    let r = substitute_jvm("${launcher_name}-${launcher_version}-${classpath_separator}-${version_type}", "/n", "/l", "cp", ";", "v");
    assert_eq!(r, "AnchorMCLuncher-1.0-;-release");
}

#[test]
fn classpath_keeps_present_entries_then_jar() {
    let c = vec!["/a".to_string(), "/b".to_string(), "/c".to_string()];
    let r = build_classpath(&c, &vec![true, false, true], "/jar");
    assert_eq!(r, vec!["/a", "/c", "/jar"]);
}

#[test]
fn natives_prefer_the_natives_map() {
    let lib = Library {
        downloads: Some(LibraryDownloads {
            artifact: None,
            classifiers: Some(vec![
                ("natives-linux".to_string(), DownloadInfo { sha1: None, size: None, url: "u".to_string(), path: Some("org/l/1/l-1-natives-linux.jar".to_string()) }),
                ("natives-linux-x86".to_string(), DownloadInfo { sha1: None, size: None, url: "u".to_string(), path: Some("org/l/1/l-1-natives-linux-x86.jar".to_string()) }),
            ]),
        }),
        name: "org:l:1".to_string(),
        natives: Some(vec![("linux".to_string(), "natives-linux".to_string())]),
        rules: None,
        url: None,
    };
    let c = native_candidates(&lib, "/lib", &host());
    assert_eq!(c.primary, vec!["/lib/org/l/1/l-1-natives-linux.jar", "/lib/org/l/1/l-1-natives-linux.jar"]);
    assert_eq!(c.scan, vec!["/lib/org/l/1/l-1-natives-linux.jar"]);
    let chosen = select_native_archives(&c, &vec![false, true], &vec![true]);
    assert_eq!(chosen, vec!["/lib/org/l/1/l-1-natives-linux.jar"]);
    let scanned = select_native_archives(&c, &vec![false, false], &vec![true]);
    assert_eq!(scanned, vec!["/lib/org/l/1/l-1-natives-linux.jar"]);
    assert!(!extracts_entry("META-INF/MANIFEST.MF"));
    assert!(extracts_entry("liblwjgl.so"));
}

#[test]
fn runtime_from_loader_ids() {
    let r = runtime_info_from_ids(&Some("fabric-loader-0.15.0-1.20.1".to_string()), &Some("pack".to_string()), &None);
    assert_eq!(r.loader_type.as_deref(), Some("fabric"));
    assert_eq!(r.loader_version.as_deref(), Some("0.15.0"));
    assert_eq!(r.mc_version.as_deref(), Some("1.20.1"));
    let f = runtime_info_from_ids(&None, &Some("forge-1.20.1-47.2.0".to_string()), &None);
    assert_eq!(f.mc_version.as_deref(), Some("1.20.1"));
    assert_eq!(f.loader_version.as_deref(), Some("47.2.0"));
    let v = runtime_info_from_ids(&None, &Some("1.20.1".to_string()), &None);
    assert_eq!(v.loader_type.as_deref(), Some("vanilla"));
    let p = runtime_info_from_ids(&Some("custom".to_string()), &Some("pack".to_string()), &Some("1.19.2".to_string()));
    assert_eq!(p.mc_version.as_deref(), Some("1.19.2"));
    assert!(p.loader_type.is_none());
}

#[test]
fn whitespace_helpers_use_unicode_spaces() {
    assert_eq!(trim("\u{3000} a b \t"), "a b");
    assert_eq!(split_whitespace(" a\u{2003}b  c "), vec!["a", "b", "c"]);
}

#[test]
fn declared_server_and_port_are_not_repeated() {
    let game = vec![
        Argument::Literal("--server".to_string()),
        Argument::Literal("a".to_string()),
        Argument::Literal("--port".to_string()),
        Argument::Literal("1".to_string()),
    ];
    let layers = vec![base_layer(Some(vec![]), Some(game), None)];
    let mut s = settings();
    s.server_ip = Some("b".to_string());
    s.server_port = Some(2);
    let cp = vec!["/jar".to_string()];
    let args = build_launch_arguments(&layers, "M", "1.20.1", &host(), &s, &paths(), &cp, "/jar", &values());
    assert_eq!(args, vec!["M", "--server", "a", "--port", "1"]);
}

#[test]
fn declared_but_empty_jvm_list_has_no_legacy_fallback() {
    let jvm = vec![Argument::Conditional {
        rules: Some(vec![Rule { action: RuleAction::Allow, os: Some(Os { name: Some("osx".to_string()), arch: None }), features: vec![] }]),
        values: vec!["-XstartOnFirstThread".to_string()],
    }];
    let layers = vec![base_layer(Some(jvm), Some(vec![Argument::Literal("--demo".to_string())]), None)];
    let cp = vec!["/jar".to_string()];
    let args = build_launch_arguments(&layers, "M", "1.20.1", &host(), &settings(), &paths(), &cp, "/jar", &values());
    assert_eq!(args, vec!["M", "--demo"]);
}

#[test]
fn entry_point_of_newest_declaring_layer() {
    let mut child = base_layer(None, None, None);
    child.main_class = Some(String::new());
    let layers = vec![base_layer(None, None, None), child];
    assert_eq!(anchor_launcher::resolver::chain_entry_point(&layers).as_deref(), Some("net.minecraft.client.main.Main"));
    assert!(anchor_launcher::text::space_char('\u{2009}'));
    assert!(!anchor_launcher::text::space_char('x'));
}
