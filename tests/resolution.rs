use anchor_launcher::manifest::{Argument, Arguments, Library, ManifestLayer};
use anchor_launcher::resolver::{resolve, InstalledVersions, ResolveError};
use anchor_launcher::rules::{check_rules, Os, Rule, RuleAction, RuleContext};

fn lib(name: &str) -> Library {
    Library { downloads: None, name: name.to_string(), natives: None, rules: None, url: None }
}

fn layer(id: &str, parent: Option<&str>, main: Option<&str>, libs: &[&str]) -> ManifestLayer {
    ManifestLayer {
        id: id.to_string(),
        version_type: Some("release".to_string()),
        main_class: main.map(|s| s.to_string()),
        inherits_from: parent.map(|s| s.to_string()),
        asset_index_id: None,
        libraries: libs.iter().map(|n| lib(n)).collect(),
        arguments: None,
        minecraft_arguments: None,
    }
}

fn host(os: &str) -> RuleContext {
    RuleContext { os: os.to_string(), arch: "x64".to_string(), features: vec![] }
}

fn os_rule(action: RuleAction, os: &str) -> Rule {
    Rule { action, os: Some(Os { name: Some(os.to_string()), arch: None }), features: vec![] }
}

#[test]
fn standalone_manifest_resolves_to_itself() {
    let store = InstalledVersions {
        manifests: vec![layer("1.20.1", None, Some("net.minecraft.client.main.Main"), &["a:b:1", "c:d:2"])],
        jars: vec!["1.20.1".to_string()],
    };
    let g = resolve(store, "1.20.1").ok().unwrap();
    assert_eq!(g.layers.len(), 1);
    assert_eq!(g.base_id, "1.20.1");
    assert_eq!(g.base_jar_path("/game"), "/game/versions/1.20.1/1.20.1.jar");
    let names: Vec<&str> = g.layers[0].libraries.iter().map(|l| l.name.as_str()).collect();
    assert_eq!(names, vec!["a:b:1", "c:d:2"]);
    assert_eq!(g.main_class, "net.minecraft.client.main.Main");
}

#[test]
fn three_layer_chain_merges_oldest_first() {
    let store = InstalledVersions {
        manifests: vec![
            layer("pack", Some("fabric-loader-0.15.0-1.20.1"), None, &["p:one:1"]),
            layer("fabric-loader-0.15.0-1.20.1", Some("1.20.1"), Some("net.fabricmc.loader.impl.launch.knot.KnotClient"), &["f:one:1", "f:two:1"]),
            layer("1.20.1", None, Some("net.minecraft.client.main.Main"), &["v:one:1", "v:two:1", "v:three:1"]),
        ],
        jars: vec!["1.20.1".to_string()],
    };
    let g = resolve(store, "pack").ok().unwrap();
    let ids: Vec<&str> = g.layers.iter().map(|l| l.id.as_str()).collect();
    assert_eq!(ids, vec!["1.20.1", "fabric-loader-0.15.0-1.20.1", "pack"]);
    let merged: Vec<&str> = g.layers.iter().flat_map(|l| l.libraries.iter().map(|x| x.name.as_str())).collect();
    assert_eq!(merged.len(), 3 + 2 + 1);
    assert_eq!(merged, vec!["v:one:1", "v:two:1", "v:three:1", "f:one:1", "f:two:1", "p:one:1"]);
    assert_eq!(g.base_id, "1.20.1");
    assert_eq!(g.main_class, "net.fabricmc.loader.impl.launch.knot.KnotClient");
}

#[test]
fn missing_manifest_is_not_installed() {
    let store = InstalledVersions { manifests: vec![], jars: vec![] };
    match resolve(store, "1.20.1") {
        Err(ResolveError::NotInstalled(id)) => assert_eq!(id, "1.20.1"),
        _ => panic!("expected NotInstalled"),
    }
}

#[test]
fn missing_parent_is_named() {
    let store = InstalledVersions {
        manifests: vec![layer("pack", Some("loader"), Some("M"), &[])],
        jars: vec![],
    };
    match resolve(store, "pack") {
        Err(ResolveError::MissingParent(id)) => assert_eq!(id, "loader"),
        _ => panic!("expected MissingParent"),
    }
}

#[test]
fn missing_base_jar_is_missing_artifact() {
    let store = InstalledVersions {
        manifests: vec![layer("pack", Some("1.20.1"), None, &[]), layer("1.20.1", None, Some("M"), &[])],
        jars: vec![],
    };
    match resolve(store, "pack") {
        Err(ResolveError::MissingArtifact(id)) => assert_eq!(id, "1.20.1"),
        _ => panic!("expected MissingArtifact"),
    }
}

#[test]
fn chain_without_main_class_has_no_entry_point() {
    let store = InstalledVersions {
        manifests: vec![layer("pack", Some("1.20.1"), Some(""), &[]), layer("1.20.1", None, None, &[])],
        jars: vec!["1.20.1".to_string()],
    };
    assert!(matches!(resolve(store, "pack"), Err(ResolveError::MissingEntryPoint)));
}

#[test]
fn asset_index_comes_from_newest_declaring_layer() {
    let mut base = layer("1.20.1", None, Some("M"), &[]);
    base.asset_index_id = Some("5".to_string());
    let store = InstalledVersions {
        manifests: vec![layer("pack", Some("1.20.1"), None, &[]), base],
        jars: vec!["1.20.1".to_string()],
    };
    let g = resolve(store, "pack").ok().unwrap();
    assert_eq!(g.asset_index_id, "5");
}

#[test]
fn last_matching_rule_wins_on_windows() {
    let rules = Some(vec![os_rule(RuleAction::Allow, "linux"), os_rule(RuleAction::Disallow, "windows")]);
    assert!(!check_rules(&rules, &host("windows")));
    let reversed = Some(vec![os_rule(RuleAction::Disallow, "windows"), os_rule(RuleAction::Allow, "linux")]);
    assert!(check_rules(&reversed, &host("linux")));
}

#[test]
fn reversed_rules_evaluated_on_windows() {
    let rules = Some(vec![os_rule(RuleAction::Disallow, "windows"), os_rule(RuleAction::Allow, "linux")]);
    assert!(!check_rules(&rules, &host("windows")));
    let rules = Some(vec![
        Rule { action: RuleAction::Allow, os: None, features: vec![] },
        os_rule(RuleAction::Disallow, "osx"),
    ]);
    assert!(check_rules(&rules, &host("windows")));
    assert!(!check_rules(&rules, &host("osx")));
}

#[test]
fn absent_and_empty_rule_lists() {
    assert!(check_rules(&None, &host("linux")));
    assert!(!check_rules(&Some(vec![]), &host("linux")));
}

#[test]
fn feature_rules_need_every_flag() {
    let rule = Rule {
        action: RuleAction::Allow,
        os: None,
        features: vec![("has_custom_resolution".to_string(), true)],
    };
    let mut ctx = host("linux");
    assert!(!check_rules(&Some(vec![rule.clone()]), &ctx));
    ctx.features.push(("has_custom_resolution".to_string(), true));
    assert!(check_rules(&Some(vec![rule]), &ctx));
}

#[test]
fn conditional_argument_types_build() {
    let args = Arguments {
        game: Some(vec![Argument::Literal("--demo".to_string())]),
        jvm: None,
    };
    assert!(args.jvm.is_none());
}
