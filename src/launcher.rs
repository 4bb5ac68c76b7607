//! Assembly of the game's process invocation from a resolved graph.
use vstd::prelude::*;
use crate::arguments::{extend_strings, GameValues};
use crate::manifest::{Library, ManifestLayer};
use crate::maven::{classified_jar_path, classified_path, is_coordinate, keyed_jar_path, keyed_path};
use crate::queue::classifier_lookup;
use crate::rules::{check_rules, gate_allows, RuleContext};
use crate::text::{cat, chars_of, contains, is_prefix, is_suffix, parse_u32, parsed_u32, replace_all, replaced, split_char, split_on, starts_with, str_contains, str_eq, views};

verus! {

/// The account the game runs as.
#[derive(Clone, Debug)]
pub struct MinecraftAccount {
    pub username: String,
    pub uuid: String,
    pub access_token: String,
    pub user_type: String,
}

/// What the launcher reports of an installed version.
#[derive(Clone, Debug)]
pub struct VersionDetails {
    pub is_modded: bool,
    pub version_type: String,
    pub version_path: String,
    pub mc_path: String,
}

/// The game and loader a version runs on, as far as its ids tell.
#[derive(Clone, Debug)]
pub struct VersionRuntimeInfo {
    pub mc_version: Option<String>,
    pub loader_type: Option<String>,
    pub loader_version: Option<String>,
}

/// The Java feature release a game version needs.
pub open spec fn java_needed(id: Seq<char>) -> u32 {
    if is_prefix("1.21"@, id) || is_prefix("1.20.5"@, id) || is_prefix("1.20.6"@, id) {
        21
    } else if is_prefix("1.18"@, id) || is_prefix("1.19"@, id) || is_prefix("1.20"@, id) {
        17
    } else if is_prefix("1.17"@, id) {
        16
    } else {
        8
    }
}

/// The Java feature release a game version needs: 21 from 1.20.5 on, 17 from
/// 1.18, 16 for 1.17, 8 before.
pub fn required_java_version(version_id: &str) -> (r: u32)
    ensures
        r == java_needed(version_id@),
{
    if starts_with(version_id, "1.21") || starts_with(version_id, "1.20.5") || starts_with(version_id, "1.20.6") {
        21
    } else if starts_with(version_id, "1.18") || starts_with(version_id, "1.19") || starts_with(version_id, "1.20") {
        17
    } else if starts_with(version_id, "1.17") {
        16
    } else {
        8
    }
}

/// Whether a managed runtime can be fetched for a Java release.
pub fn java_downloadable(required: u32) -> (r: bool)
    ensures
        r == (required == 8 || required == 17 || required == 21),
{
    required == 8 || required == 17 || required == 21
}

/// The major release a version string such as `21.0.1` or `1.8.0_392` names:
/// its first number, or the second when the first is 1. `None` when the line
/// does not settle it (a missing part); `Some(None)` when it settles on nothing.
pub open spec fn major_of_version(v: Seq<char>) -> Option<Option<u32>> {
    let parts = split_on(v, '.');
    match parsed_u32(parts[0]) {
        None => None,
        Some(first) => if first == 1 {
            if parts.len() > 1 {
                Some(parsed_u32(parts[1]))
            } else {
                None
            }
        } else {
            Some(Some(first))
        },
    }
}

/// What one line of `java -version` output settles: lines that mention
/// `version` and quote a version string decide; others do not.
pub open spec fn major_of_line(line: Seq<char>) -> Option<Option<u32>> {
    if contains(line, "version"@) && split_on(line, '"').len() >= 2 {
        major_of_version(split_on(line, '"')[1])
    } else {
        None
    }
}

/// A line without the carriage return that may end it.
pub open spec fn strip_cr(line: Seq<char>) -> Seq<char> {
    if line.len() > 0 && line.last() == '\r' {
        line.drop_last()
    } else {
        line
    }
}

/// The major release that the first deciding line of the output names.
pub open spec fn major_of_output(lines: Seq<Seq<char>>) -> Option<u32>
    decreases lines.len(),
{
    if lines.len() == 0 {
        None
    } else {
        match major_of_line(strip_cr(lines[0])) {
            Some(v) => v,
            None => major_of_output(lines.subrange(1, lines.len() as int)),
        }
    }
}

fn line_major(line: &str) -> (r: Option<Option<u32>>)
    ensures
        r == major_of_line(line@),
{
    if !str_contains(line, "version") {
        return None;
    }
    let parts = split_char(line, '"');
    assert(views(parts@).len() == parts@.len());
    if parts.len() < 2 {
        return None;
    }
    assert(views(parts@)[1] == parts@[1]@);
    let vparts = split_char(parts[1].as_str(), '.');
    assert(views(vparts@).len() == vparts@.len());
    proof {
        crate::text::lemma_split_len(parts@[1]@, '.');
    }
    assert(views(vparts@)[0] == vparts@[0]@);
    match parse_u32(vparts[0].as_str()) {
        None => None,
        Some(first) => {
            if first == 1 {
                if vparts.len() > 1 {
                    assert(views(vparts@)[1] == vparts@[1]@);
                    Some(parse_u32(vparts[1].as_str()))
                } else {
                    None
                }
            } else {
                Some(Some(first))
            }
        },
    }
}

fn without_cr(line: &str) -> (r: String)
    ensures
        r@ == strip_cr(line@),
{
    let cs = chars_of(line);
    if cs.len() > 0 && cs[cs.len() - 1] == '\r' {
        let mut v: Vec<char> = Vec::new();
        let mut i: usize = 0;
        let n = cs.len() - 1;
        while i < n
            invariant
                n + 1 == cs@.len(),
                i <= n,
                cs@ == line@,
                v@ == line@.subrange(0, i as int),
            decreases cs@.len() - i,
        {
            v.push(cs[i]);
            assert(v@ =~= line@.subrange(0, i + 1));
            i += 1;
        }
        assert(v@ =~= line@.drop_last());
        crate::text::string_of(v.as_slice())
    } else {
        line.to_owned()
    }
}

/// Reads the Java major release from the error stream of `java -version`.
pub fn java_major_from_output(output: &str) -> (r: Option<u32>)
    ensures
        r == major_of_output(split_on(output@, '\n')),
{
    let lines = split_char(output, '\n');
    let ghost ls = split_on(output@, '\n');
    assert(views(lines@) == ls);
    let mut i: usize = 0;
    assert(ls.subrange(0, ls.len() as int) =~= ls);
    assert(ls.len() == lines@.len());
    while i < lines.len()
        invariant
            i <= lines@.len(),
            views(lines@) == ls,
            ls == split_on(output@, '\n'),
            ls.len() == lines@.len(),
            major_of_output(ls) == major_of_output(ls.subrange(i as int, ls.len() as int)),
        decreases lines@.len() - i,
    {
        let ghost rest = ls.subrange(i as int, ls.len() as int);
        assert(rest[0] == lines@[i as int]@);
        let line = without_cr(lines[i].as_str());
        match line_major(line.as_str()) {
            Some(v) => {
                assert(major_of_line(strip_cr(rest[0])) == Some(v));
                assert(rest.len() > 0);
                assert(major_of_output(rest) == v);
                return v;
            },
            None => {},
        }
        assert(rest.subrange(1, rest.len() as int) =~= ls.subrange(i + 1, ls.len() as int));
        i += 1;
    }
    assert(ls.subrange(i as int, ls.len() as int).len() == 0);
    None
}

/// Which Java runtime a launch uses.
#[derive(Clone, Copy, Debug, PartialEq, Eq, Structural)]
pub enum JavaChoice {
    /// The runtime the caller named.
    User,
    /// The launcher's managed runtime of the needed release.
    Managed,
    /// The `java` on the search path.
    System,
    /// A managed runtime is to be fetched.
    Download,
    /// `java` on the search path, if it runs at all, whatever its release.
    LastResort,
}

/// The runtime a launch uses: the caller's when it is recent enough, else the
/// managed one when present, else the system one when recent enough, else a
/// fetched one for the releases that can be fetched, else whatever `java` runs.
pub open spec fn java_choice(required: u32, user_major: Option<u32>, managed: bool, system_major: Option<u32>) -> JavaChoice {
    if user_major.is_some() && user_major.unwrap() >= required {
        JavaChoice::User
    } else if managed {
        JavaChoice::Managed
    } else if system_major.is_some() && system_major.unwrap() >= required {
        JavaChoice::System
    } else if required == 8 || required == 17 || required == 21 {
        JavaChoice::Download
    } else {
        JavaChoice::LastResort
    }
}

/// Chooses the Java runtime of a launch from the release it needs, the release
/// of the caller's runtime (when one was named and answered), whether the
/// managed runtime is present, and the release of the system runtime.
pub fn choose_java(required: u32, user_major: Option<u32>, managed: bool, system_major: Option<u32>) -> (r: JavaChoice)
    ensures
        r == java_choice(required, user_major, managed, system_major),
{
    match user_major {
        Some(v) => if v >= required {
            return JavaChoice::User;
        },
        None => {},
    }
    if managed {
        return JavaChoice::Managed;
    }
    match system_major {
        Some(v) => if v >= required {
            return JavaChoice::System;
        },
        None => {},
    }
    if java_downloadable(required) {
        JavaChoice::Download
    } else {
        JavaChoice::LastResort
    }
}

/// Whether a version counts as modded: a modpack, or one whose entry point is
/// not the vanilla client's.
pub open spec fn modded(version_type: Seq<char>, main_class: Seq<char>) -> bool {
    version_type == "modpack"@ || (main_class.len() > 0 && main_class != "net.minecraft.client.main.Main"@)
}

/// Whether a version counts as modded.
pub fn is_modded(version_type: &str, main_class: &str) -> (r: bool)
    ensures
        r == modded(version_type@, main_class@),
{
    crate::text::str_eq(version_type, "modpack") || (!main_class.is_empty() && !crate::text::str_eq(
        main_class,
        "net.minecraft.client.main.Main",
    ))
}

/// A library's entry under the library directory, when its rules allow it on
/// the host and its name is a coordinate.
pub open spec fn library_entry(lib: Library, libdir: Seq<char>, ctx: RuleContext) -> Seq<Seq<char>> {
    if gate_allows(lib.rules, ctx) && is_coordinate(lib.name@) {
        seq![libdir + "/"@ + classified_jar_path(lib.name@)]
    } else {
        Seq::empty()
    }
}

/// The entries of a list of libraries, in order.
pub open spec fn library_entries(libs: Seq<Library>, libdir: Seq<char>, ctx: RuleContext) -> Seq<Seq<char>>
    decreases libs.len(),
{
    if libs.len() == 0 {
        Seq::empty()
    } else {
        library_entries(libs.drop_last(), libdir, ctx) + library_entry(libs.last(), libdir, ctx)
    }
}

/// The classpath candidates of all layers, oldest layer first.
pub open spec fn chain_entries(layers: Seq<ManifestLayer>, libdir: Seq<char>, ctx: RuleContext) -> Seq<Seq<char>>
    decreases layers.len(),
{
    if layers.len() == 0 {
        Seq::empty()
    } else {
        chain_entries(layers.drop_last(), libdir, ctx) + library_entries(layers.last().libraries@, libdir, ctx)
    }
}

fn library_entries_of(libs: &Vec<Library>, libdir: &str, ctx: &RuleContext) -> (r: Vec<String>)
    ensures
        views(r@) == library_entries(libs@, libdir@, *ctx),
{
    let mut out: Vec<String> = Vec::new();
    let mut i: usize = 0;
    assert(libs@.subrange(0, 0) =~= Seq::<Library>::empty());
    assert(views(out@) =~= Seq::<Seq<char>>::empty());
    while i < libs.len()
        invariant
            i <= libs@.len(),
            views(out@) == library_entries(libs@.subrange(0, i as int), libdir@, *ctx),
        decreases libs@.len() - i,
    {
        let ghost next = libs@.subrange(0, i + 1);
        assert(next.drop_last() =~= libs@.subrange(0, i as int));
        assert(next.last() == libs@[i as int]);
        let ghost before = out@;
        if check_rules(&libs[i].rules, ctx) {
            match classified_path(libs[i].name.as_str()) {
                Some(p) => {
                    let a = cat(libdir, "/");
                    let e = cat(a.as_str(), p.as_str());
                    out.push(e);
                    assert(views(out@) =~= views(before) + seq![e@]);
                },
                None => {
                    assert(views(out@) =~= views(before) + Seq::<Seq<char>>::empty());
                },
            }
        } else {
            assert(views(out@) =~= views(before) + Seq::<Seq<char>>::empty());
        }
        i += 1;
    }
    assert(libs@.subrange(0, i as int) =~= libs@);
    out
}

/// The classpath candidates of the resolved layers: each allowed library's jar
/// under the library directory, oldest layer first.
pub fn classpath_candidates(layers: &Vec<ManifestLayer>, libdir: &str, ctx: &RuleContext) -> (r: Vec<String>)
    ensures
        views(r@) == chain_entries(layers@, libdir@, *ctx),
{
    let mut out: Vec<String> = Vec::new();
    let mut i: usize = 0;
    assert(layers@.subrange(0, 0) =~= Seq::<ManifestLayer>::empty());
    assert(views(out@) =~= Seq::<Seq<char>>::empty());
    while i < layers.len()
        invariant
            i <= layers@.len(),
            views(out@) == chain_entries(layers@.subrange(0, i as int), libdir@, *ctx),
        decreases layers@.len() - i,
    {
        let ghost next = layers@.subrange(0, i + 1);
        assert(next.drop_last() =~= layers@.subrange(0, i as int));
        assert(next.last() == layers@[i as int]);
        let more = library_entries_of(&layers[i].libraries, libdir, ctx);
        extend_strings(&mut out, more);
        i += 1;
    }
    assert(layers@.subrange(0, i as int) =~= layers@);
    out
}

/// The candidates whose flag is set, in order.
pub open spec fn kept(c: Seq<Seq<char>>, present: Seq<bool>) -> Seq<Seq<char>>
    decreases c.len(),
{
    if c.len() == 0 {
        Seq::empty()
    } else if present[c.len() - 1] {
        kept(c.drop_last(), present).push(c.last())
    } else {
        kept(c.drop_last(), present)
    }
}

/// The classpath: the candidates that are present on disk, then the client jar.
pub fn build_classpath(candidates: &Vec<String>, present: &Vec<bool>, jar: &str) -> (r: Vec<String>)
    requires
        present@.len() == candidates@.len(),
    ensures
        views(r@) == kept(views(candidates@), present@).push(jar@),
{
    let mut out: Vec<String> = Vec::new();
    let mut i: usize = 0;
    let ghost vc = views(candidates@);
    assert(vc.subrange(0, 0) =~= Seq::<Seq<char>>::empty());
    assert(views(out@) =~= Seq::<Seq<char>>::empty());
    while i < candidates.len()
        invariant
            i <= candidates@.len(),
            present@.len() == candidates@.len(),
            vc == views(candidates@),
            views(out@) == kept(vc.subrange(0, i as int), present@),
        decreases candidates@.len() - i,
    {
        let ghost next = vc.subrange(0, i + 1);
        assert(next.drop_last() =~= vc.subrange(0, i as int));
        assert(next.last() == candidates@[i as int]@);
        if present[i] {
            let ghost before = out@;
            let c = candidates[i].clone();
            out.push(c);
            assert(views(out@) =~= views(before).push(c@));
        }
        i += 1;
    }
    assert(vc.subrange(0, i as int) =~= vc);
    let ghost before = out@;
    out.push(jar.to_owned());
    assert(views(out@) =~= views(before).push(jar@));
    out
}

/// The placeholder values of the game arguments; without an account, an offline
/// player with zero ids.
pub fn game_values(
    account: &Option<MinecraftAccount>,
    version: &str,
    game_dir: &str,
    assets_root: &str,
    asset_index: &str,
) -> (g: GameValues)
    ensures
        g.version@ == version@,
        g.game_dir@ == game_dir@,
        g.assets_root@ == assets_root@,
        g.asset_index@ == asset_index@,
        account matches Some(a) ==> g.player@ == a.username@ && g.uuid@ == a.uuid@ && g.access_token@
            == a.access_token@ && g.user_type@ == a.user_type@,
        account is None ==> g.player@ == "Player"@ && g.uuid@ == "00000000-0000-0000-0000-000000000000"@
            && g.access_token@ == "00000000-0000-0000-0000-000000000000"@ && g.user_type@ == "mojang"@,
{
    let (player, uuid, access_token, user_type) = match account {
        Some(a) => (a.username.clone(), a.uuid.clone(), a.access_token.clone(), a.user_type.clone()),
        None => (
            "Player".to_owned(),
            "00000000-0000-0000-0000-000000000000".to_owned(),
            "00000000-0000-0000-0000-000000000000".to_owned(),
            "mojang".to_owned(),
        ),
    };
    GameValues {
        player,
        version: version.to_owned(),
        game_dir: game_dir.to_owned(),
        assets_root: assets_root.to_owned(),
        asset_index: asset_index.to_owned(),
        uuid,
        access_token,
        user_type,
    }
}

/// The argument that loads the authentication agent jar for a server.
pub fn agent_argument(agent_jar: &str, server_url: &str) -> (r: String)
    ensures
        r@ == "-javaagent:"@ + agent_jar@ + "="@ + server_url@,
{
    let a = cat("-javaagent:", agent_jar);
    let b = cat(a.as_str(), "=");
    cat(b.as_str(), server_url)
}

/// The metadata urls of the agent's mirrors, in the order they are tried.
pub fn agent_mirror_urls() -> (r: Vec<String>)
    ensures
        views(r@) == seq![
            "https://bmclapi2.bangbang93.com/mirrors/authlib-injector/artifact/latest.json"@,
            "https://openbmclapi.bangbang93.com/mirrors/authlib-injector/artifact/latest.json"@,
            "https://authlib-injector.yushi.moe/artifact/latest.json"@,
        ],
{
    let mut r: Vec<String> = Vec::new();
    r.push("https://bmclapi2.bangbang93.com/mirrors/authlib-injector/artifact/latest.json".to_owned());
    r.push("https://openbmclapi.bangbang93.com/mirrors/authlib-injector/artifact/latest.json".to_owned());
    r.push("https://authlib-injector.yushi.moe/artifact/latest.json".to_owned());
    assert(views(r@) =~= seq![
        "https://bmclapi2.bangbang93.com/mirrors/authlib-injector/artifact/latest.json"@,
        "https://openbmclapi.bangbang93.com/mirrors/authlib-injector/artifact/latest.json"@,
        "https://authlib-injector.yushi.moe/artifact/latest.json"@,
    ]);
    r
}

/// How one attempt at a mirror of the authentication agent ended.
pub enum AgentEvent {
    /// The metadata or the artifact could not be had; why.
    Failed(String),
    /// The artifact was fetched and saved.
    Saved,
}

/// What follows an attempt at a mirror.
pub enum AgentStep {
    /// Try the mirror at this position of the list.
    TryMirror(usize),
    /// The agent is in place.
    Done,
    /// Every mirror failed; the last failure.
    Unavailable(String),
}

/// Mirrors are tried in order and the first that serves the agent wins; after
/// the last one fails the agent is unavailable.
pub fn agent_next(tried: usize, mirrors: usize, event: AgentEvent) -> (r: AgentStep)
    requires
        tried < mirrors,
    ensures
        event is Saved ==> r is Done,
        event matches AgentEvent::Failed(e) ==> (if tried + 1 < mirrors {
            r == AgentStep::TryMirror((tried + 1) as usize)
        } else {
            r == AgentStep::Unavailable(e)
        }),
{
    match event {
        AgentEvent::Saved => AgentStep::Done,
        AgentEvent::Failed(e) => if tried + 1 < mirrors {
            AgentStep::TryMirror(tried + 1)
        } else {
            AgentStep::Unavailable(e)
        },
    }
}

/// Why a launch could not be prepared.
#[derive(Clone, Debug)]
pub enum LaunchError {
    MissingEntryPoint,
    /// No mirror served the authentication agent; the last mirror's failure.
    AgentUnavailable(String),
    JavaRuntimeUnavailable(u32),
    ExtractionError(String),
}

/// Whether an archive entry is extracted into the natives directory: entries
/// under the archive's metadata directory are not.
pub fn extracts_entry(name: &str) -> (r: bool)
    ensures
        r == !contains(name@, "META-INF"@),
{
    !str_contains(name, "META-INF")
}

/// The value of key `k` in a list of string pairs: its first entry.
pub open spec fn pair_lookup(m: Seq<(String, String)>, k: Seq<char>) -> Option<Seq<char>>
    decreases m.len(),
{
    if m.len() == 0 {
        None
    } else if m[0].0@ == k {
        Some(m[0].1@)
    } else {
        pair_lookup(m.subrange(1, m.len() as int), k)
    }
}

/// What `${arch}` stands for in a native classifier on the host.
pub open spec fn arch_bits(ctx: RuleContext) -> Seq<char> {
    if ctx.arch@ == "x86"@ { "x86"@ } else { "64"@ }
}

/// The native classifier a library names for the host's OS, with `${arch}` filled in.
pub open spec fn native_classifier(lib: Library, ctx: RuleContext) -> Option<Seq<char>> {
    match lib.natives {
        Some(m) => match pair_lookup(m@, ctx.os@) {
            Some(c) => Some(replaced(c, "${arch}"@, arch_bits(ctx))),
            None => None,
        },
        None => None,
    }
}

/// The archives the natives map points at, best first: the declared classifier
/// download, then the conventional classifier jar.
pub open spec fn primary_natives(lib: Library, libdir: Seq<char>, ctx: RuleContext) -> Seq<Seq<char>> {
    match native_classifier(lib, ctx) {
        None => Seq::empty(),
        Some(key) => {
            let declared = match lib.downloads {
                Some(d) => match d.classifiers {
                    Some(cs) => match classifier_lookup(cs@, key) {
                        Some(info) => match info.path {
                            Some(p) => seq![libdir + "/"@ + p@],
                            None => Seq::empty(),
                        },
                        None => Seq::empty(),
                    },
                    None => Seq::empty(),
                },
                None => Seq::empty(),
            };
            let conventional = if is_coordinate(lib.name@) {
                seq![libdir + "/"@ + keyed_jar_path(lib.name@, key)]
            } else {
                Seq::empty()
            };
            declared + conventional
        },
    }
}

/// Whether a classifier key names natives for the host's OS.
pub open spec fn os_native_key(key: Seq<char>, ctx: RuleContext) -> bool {
    if ctx.os@ == "windows"@ {
        contains(key, "natives-windows"@)
    } else if ctx.os@ == "osx"@ {
        contains(key, "natives-macos"@) || contains(key, "natives-osx"@)
    } else {
        contains(key, "natives-linux"@)
    }
}

/// Whether a classifier key is for 32-bit x86 while the host is 64-bit.
pub open spec fn arch_excluded(key: Seq<char>, ctx: RuleContext) -> bool {
    ctx.arch@ == "x64"@ && contains(key, "x86"@) && !contains(key, "x86_64"@)
}

/// The native archives found by scanning the declared classifiers, in order.
pub open spec fn scanned(cs: Seq<(String, crate::manifest::DownloadInfo)>, libdir: Seq<char>, ctx: RuleContext) -> Seq<Seq<char>>
    decreases cs.len(),
{
    if cs.len() == 0 {
        Seq::empty()
    } else {
        let prev = scanned(cs.drop_last(), libdir, ctx);
        let e = cs.last();
        if os_native_key(e.0@, ctx) && !arch_excluded(e.0@, ctx) && e.1.path.is_some() {
            prev.push(libdir + "/"@ + e.1.path.unwrap()@)
        } else {
            prev
        }
    }
}

/// Where a library's native archives may be, found two independent ways.
pub struct NativeCandidates {
    /// From the natives map, best first; at most the first present one is used.
    pub primary: Vec<String>,
    /// From scanning the classifiers; used, every present one, when no primary is present.
    pub scan: Vec<String>,
}

fn pair_find(m: &Vec<(String, String)>, k: &str) -> (r: Option<String>)
    ensures
        r.is_some() == pair_lookup(m@, k@).is_some(),
        r matches Some(v) ==> pair_lookup(m@, k@) == Some(v@),
{
    let mut i: usize = 0;
    assert(m@.subrange(0, m@.len() as int) =~= m@);
    while i < m.len()
        invariant
            i <= m@.len(),
            pair_lookup(m@, k@) == pair_lookup(m@.subrange(i as int, m@.len() as int), k@),
        decreases m@.len() - i,
    {
        let ghost rest = m@.subrange(i as int, m@.len() as int);
        assert(rest[0] == m@[i as int]);
        if str_eq(m[i].0.as_str(), k) {
            return Some(m[i].1.clone());
        }
        assert(rest.subrange(1, rest.len() as int) =~= m@.subrange(i + 1, m@.len() as int));
        i += 1;
    }
    None
}

fn scan_classifiers(cs: &Vec<(String, crate::manifest::DownloadInfo)>, libdir: &str, ctx: &RuleContext) -> (r: Vec<String>)
    ensures
        views(r@) == scanned(cs@, libdir@, *ctx),
{
    proof {
        reveal_strlit("windows");
        reveal_strlit("osx");
        reveal_strlit("x64");
    }
    let windows = str_eq(ctx.os.as_str(), "windows");
    let osx = str_eq(ctx.os.as_str(), "osx");
    let x64 = str_eq(ctx.arch.as_str(), "x64");
    let mut out: Vec<String> = Vec::new();
    let mut i: usize = 0;
    assert(cs@.subrange(0, 0).len() == 0);
    assert(views(out@) =~= Seq::<Seq<char>>::empty());
    while i < cs.len()
        invariant
            i <= cs@.len(),
            windows == (ctx.os@ == "windows"@),
            osx == (ctx.os@ == "osx"@),
            x64 == (ctx.arch@ == "x64"@),
            views(out@) == scanned(cs@.subrange(0, i as int), libdir@, *ctx),
        decreases cs@.len() - i,
    {
        let ghost next = cs@.subrange(0, i + 1);
        assert(next.drop_last() =~= cs@.subrange(0, i as int));
        assert(next.last() == cs@[i as int]);
        let key = cs[i].0.as_str();
        let os_ok = if windows {
            str_contains(key, "natives-windows")
        } else if osx {
            str_contains(key, "natives-macos") || str_contains(key, "natives-osx")
        } else {
            str_contains(key, "natives-linux")
        };
        let skip = x64 && str_contains(key, "x86") && !str_contains(key, "x86_64");
        if os_ok && !skip {
            match &cs[i].1.path {
                Some(p) => {
                    let ghost before = out@;
                    let a = cat(libdir, "/");
                    let e = cat(a.as_str(), p.as_str());
                    out.push(e);
                    assert(views(out@) =~= views(before).push(e@));
                },
                None => {},
            }
        }
        i += 1;
    }
    assert(cs@.subrange(0, i as int) =~= cs@);
    out
}

/// Where a library's native archives may be on the host; none when its rules
/// exclude the host.
pub fn native_candidates(lib: &Library, libdir: &str, ctx: &RuleContext) -> (r: NativeCandidates)
    ensures
        gate_allows(lib.rules, *ctx) ==> views(r.primary@) == primary_natives(*lib, libdir@, *ctx),
        gate_allows(lib.rules, *ctx) ==> views(r.scan@) == (match lib.downloads {
            Some(d) => match d.classifiers {
                Some(cs) => scanned(cs@, libdir@, *ctx),
                None => Seq::empty(),
            },
            None => Seq::empty(),
        }),
        !gate_allows(lib.rules, *ctx) ==> r.primary@.len() == 0 && r.scan@.len() == 0,
{
    let mut primary: Vec<String> = Vec::new();
    let mut scan: Vec<String> = Vec::new();
    if !check_rules(&lib.rules, ctx) {
        return NativeCandidates { primary, scan };
    }
    proof {
        reveal_strlit("x86");
        reveal_strlit("${arch}");
    }
    let classifier = match &lib.natives {
        Some(m) => match pair_find(m, ctx.os.as_str()) {
            Some(c) => {
                let bits = if str_eq(ctx.arch.as_str(), "x86") { "x86" } else { "64" };
                Some(replace_all(c.as_str(), "${arch}", bits))
            },
            None => None,
        },
        None => None,
    };
    assert(classifier.is_some() == native_classifier(*lib, *ctx).is_some());
    match &classifier {
        None => {
            assert(views(primary@) =~= primary_natives(*lib, libdir@, *ctx));
        },
        Some(key) => {
            assert(native_classifier(*lib, *ctx) == Some(key@));
            match &lib.downloads {
                Some(d) => match &d.classifiers {
                    Some(cs) => match crate::queue::find_classifier_index(cs, key.as_str()) {
                        Some(i) => match &cs[i].1.path {
                            Some(p) => {
                                let a = cat(libdir, "/");
                                primary.push(cat(a.as_str(), p.as_str()));
                            },
                            None => {},
                        },
                        None => {},
                    },
                    None => {},
                },
                None => {},
            }
            let ghost declared = views(primary@);
            match keyed_path(lib.name.as_str(), key.as_str()) {
                Some(p) => {
                    let a = cat(libdir, "/");
                    primary.push(cat(a.as_str(), p.as_str()));
                },
                None => {},
            }
            assert(views(primary@) =~= primary_natives(*lib, libdir@, *ctx));
        },
    }
    match &lib.downloads {
        Some(d) => match &d.classifiers {
            Some(cs) => {
                scan = scan_classifiers(cs, libdir, ctx);
            },
            None => {
                assert(views(scan@) =~= Seq::<Seq<char>>::empty());
            },
        },
        None => {
            assert(views(scan@) =~= Seq::<Seq<char>>::empty());
        },
    }
    NativeCandidates { primary, scan }
}

/// The index of the first flag that is set, if any.
pub open spec fn first_set(present: Seq<bool>) -> int {
    if exists|i: int| 0 <= i < present.len() && present[i] && forall|j: int| 0 <= j < i ==> !present[j] {
        choose|i: int| 0 <= i < present.len() && present[i] && forall|j: int| 0 <= j < i ==> !present[j]
    } else {
        -1
    }
}

/// The archives to extract: the first present primary candidate if there is
/// one, else every present scanned candidate.
pub fn select_native_archives(c: &NativeCandidates, primary_present: &Vec<bool>, scan_present: &Vec<bool>) -> (r: Vec<String>)
    requires
        primary_present@.len() == c.primary@.len(),
        scan_present@.len() == c.scan@.len(),
    ensures
        first_set(primary_present@) >= 0 ==> views(r@) == seq![c.primary@[first_set(primary_present@)]@],
        first_set(primary_present@) < 0 ==> views(r@) == kept(views(c.scan@), scan_present@),
{
    let mut i: usize = 0;
    while i < c.primary.len()
        invariant
            i <= c.primary@.len(),
            primary_present@.len() == c.primary@.len(),
            forall|j: int| 0 <= j < i ==> !primary_present@[j],
        decreases c.primary@.len() - i,
    {
        if primary_present[i] {
            let ghost k = first_set(primary_present@);
            assert(0 <= i < primary_present@.len() && primary_present@[i as int] && forall|j: int|
                0 <= j < i ==> !primary_present@[j]);
            assert(k == i) by {
                if k < i {
                    assert(!primary_present@[k]);
                } else if k > i {
                    assert(!primary_present@[i as int]);
                }
            }
            let mut r: Vec<String> = Vec::new();
            r.push(c.primary[i].clone());
            assert(views(r@) =~= seq![c.primary@[i as int]@]);
            return r;
        }
        i += 1;
    }
    assert(first_set(primary_present@) == -1) by {
        if exists|k: int| 0 <= k < primary_present@.len() && primary_present@[k] && forall|j: int| 0 <= j < k ==> !primary_present@[j] {
            let k = choose|k: int| 0 <= k < primary_present@.len() && primary_present@[k] && forall|j: int| 0 <= j < k ==> !primary_present@[j];
            assert(!primary_present@[k]);
        }
    }
    let v = build_classpath(&c.scan, scan_present, "");
    let mut v = v;
    let ghost before = v@;
    v.pop();
    assert(views(v@) =~= views(before).drop_last());
    v
}

/// Whether a file in a rendering-library directory is a native jar for the host,
/// for the last-resort scan.
pub fn fallback_native_jar(file_name: &str, ctx: &RuleContext) -> (r: bool)
    ensures
        r == (contains(file_name@, "natives-"@ + ctx.os@) && is_suffix(".jar"@, file_name@)),
{
    let key = cat("natives-", ctx.os.as_str());
    str_contains(file_name, key.as_str()) && crate::text::ends_with(file_name, ".jar")
}

/// The rendering-library modules whose natives the last-resort scan looks for.
pub fn fallback_native_modules() -> (r: Vec<String>)
    ensures
        views(r@) == seq!["lwjgl"@, "lwjgl-glfw"@, "lwjgl-opengl"@, "lwjgl-openal"@, "lwjgl-stb"@,
            "lwjgl-tinyfd"@, "lwjgl-freetype"@, "lwjgl-jemalloc"@],
{
    let mut r: Vec<String> = Vec::new();
    r.push("lwjgl".to_owned());
    r.push("lwjgl-glfw".to_owned());
    r.push("lwjgl-opengl".to_owned());
    r.push("lwjgl-openal".to_owned());
    r.push("lwjgl-stb".to_owned());
    r.push("lwjgl-tinyfd".to_owned());
    r.push("lwjgl-freetype".to_owned());
    r.push("lwjgl-jemalloc".to_owned());
    assert(views(r@) =~= seq!["lwjgl"@, "lwjgl-glfw"@, "lwjgl-opengl"@, "lwjgl-openal"@, "lwjgl-stb"@,
        "lwjgl-tinyfd"@, "lwjgl-freetype"@, "lwjgl-jemalloc"@]);
    r
}

/// `s` with every leading repetition of `p` removed.
pub open spec fn strip_all(s: Seq<char>, p: Seq<char>) -> Seq<char>
    decreases s.len(),
{
    if p.len() > 0 && is_prefix(p, s) {
        strip_all(s.subrange(p.len() as int, s.len() as int), p)
    } else {
        s
    }
}

/// The two sides of the first `-`, if there is one.
pub open spec fn split_dash(s: Seq<char>) -> Option<(Seq<char>, Seq<char>)> {
    let i = crate::text::first_index(s, '-');
    if i >= 0 {
        Some((s.subrange(0, i), s.subrange(i + 1, s.len() as int)))
    } else {
        None
    }
}

/// What one candidate id tells of the runtime, as (game version, loader kind,
/// loader version); `None` when it tells nothing and the next id is looked at.
pub open spec fn id_runtime(id: Seq<char>) -> Option<(Option<Seq<char>>, Seq<char>, Option<Seq<char>>)> {
    if is_prefix("fabric-loader-"@, id) {
        match split_dash(strip_all(id, "fabric-loader-"@)) {
            Some((lv, mv)) => Some((Some(mv), "fabric"@, Some(lv))),
            None => Some((None, "fabric"@, None)),
        }
    } else if is_prefix("forge-"@, id) {
        match split_dash(strip_all(id, "forge-"@)) {
            Some((mv, lv)) => Some((Some(mv), "forge"@, Some(lv))),
            None => Some((None, "forge"@, None)),
        }
    } else if is_prefix("neoforge-"@, id) {
        match split_dash(strip_all(id, "neoforge-"@)) {
            Some((mv, lv)) => Some((Some(mv), "neoforge"@, Some(lv))),
            None => Some((None, "neoforge"@, None)),
        }
    } else if id.len() > 0 && '0' <= id[0] <= '9' {
        Some((Some(id), "vanilla"@, None))
    } else {
        None
    }
}

/// What the first telling id says, if any does.
pub open spec fn ids_runtime(ids: Seq<Seq<char>>) -> Option<(Option<Seq<char>>, Seq<char>, Option<Seq<char>>)>
    decreases ids.len(),
{
    if ids.len() == 0 {
        None
    } else if id_runtime(ids[0]).is_some() {
        id_runtime(ids[0])
    } else {
        ids_runtime(ids.subrange(1, ids.len() as int))
    }
}

fn strip_repeated(s: &str, p: &str) -> (r: String)
    ensures
        r@ == strip_all(s@, p@),
{
    let cs = chars_of(s);
    let ps = chars_of(p);
    if ps.len() == 0 {
        return s.to_owned();
    }
    let mut i: usize = 0;
    assert(s@.subrange(0, s@.len() as int) =~= s@);
    loop
        invariant
            cs@ == s@,
            ps@ == p@,
            ps@.len() > 0,
            i <= cs@.len(),
            strip_all(s@, p@) == strip_all(s@.subrange(i as int, s@.len() as int), p@),
        ensures
            !crate::text::occurs_at(s@, p@, i as int),
        decreases cs@.len() - i,
    {
        if !crate::text::matches_at(&cs, &ps, i) {
            break;
        }
        let n = cs.len();
        assert(i + ps@.len() <= n);
        let ghost rest = s@.subrange(i as int, s@.len() as int);
        assert(rest.subrange(0, p@.len() as int) =~= s@.subrange(i as int, i + p@.len()));
        assert(rest.subrange(p@.len() as int, rest.len() as int) =~= s@.subrange(i + p@.len(), s@.len() as int));
        i = i + ps.len();
    }
    let ghost rest = s@.subrange(i as int, s@.len() as int);
    assert(!is_prefix(p@, rest)) by {
        assert(!crate::text::occurs_at(s@, p@, i as int));
        if is_prefix(p@, rest) {
            assert(rest.subrange(0, p@.len() as int) =~= s@.subrange(i as int, i + p@.len()));
        }
    }
    crate::text::slice_string(&cs, i, cs.len())
}

fn dash_split(s: &str) -> (r: Option<(String, String)>)
    ensures
        r.is_some() == split_dash(s@).is_some(),
        r matches Some((a, b)) ==> split_dash(s@) == Some((a@, b@)),
{
    let cs = chars_of(s);
    match crate::text::index_of(&cs, '-') {
        None => None,
        Some(i) => {
            let n = cs.len();
            assert(i < n);
            Some((crate::text::slice_string(&cs, 0, i), crate::text::slice_string(&cs, i + 1, cs.len())))
        },
    }
}

fn id_info(id: &str) -> (r: Option<(Option<String>, String, Option<String>)>)
    ensures
        r.is_some() == id_runtime(id@).is_some(),
        r matches Some((m, k, l)) ==> id_runtime(id@) == Some((crate::arguments::opt_view(m), k@, crate::arguments::opt_view(l))),
{
    if starts_with(id, "fabric-loader-") {
        let t = strip_repeated(id, "fabric-loader-");
        match dash_split(t.as_str()) {
            Some((lv, mv)) => Some((Some(mv), "fabric".to_owned(), Some(lv))),
            None => Some((None, "fabric".to_owned(), None)),
        }
    } else if starts_with(id, "forge-") {
        let t = strip_repeated(id, "forge-");
        match dash_split(t.as_str()) {
            Some((mv, lv)) => Some((Some(mv), "forge".to_owned(), Some(lv))),
            None => Some((None, "forge".to_owned(), None)),
        }
    } else if starts_with(id, "neoforge-") {
        let t = strip_repeated(id, "neoforge-");
        match dash_split(t.as_str()) {
            Some((mv, lv)) => Some((Some(mv), "neoforge".to_owned(), Some(lv))),
            None => Some((None, "neoforge".to_owned(), None)),
        }
    } else {
        let cs = chars_of(id);
        if cs.len() > 0 && '0' <= cs[0] && cs[0] <= '9' {
            Some((Some(id.to_owned()), "vanilla".to_owned(), None))
        } else {
            None
        }
    }
}

/// The game version, loader kind and loader version of an installed version,
/// read from its `inherits_from` and then its own id; when they leave the game
/// version unknown, the version its parent inherits from.
pub open spec fn runtime_of(
    inherits_from: Option<Seq<char>>,
    id: Option<Seq<char>>,
    parent_inherits: Option<Seq<char>>,
) -> (Option<Seq<char>>, Option<Seq<char>>, Option<Seq<char>>) {
    let ids = match inherits_from {
        Some(p) => seq![p],
        None => Seq::empty(),
    } + match id {
        Some(i) => seq![i],
        None => Seq::empty(),
    };
    let found = ids_runtime(ids);
    let (mc, kind, lv) = match found {
        Some((m, k, l)) => (m, Some(k), l),
        None => (None, None, None),
    };
    let mc2 = if mc.is_none() && inherits_from.is_some() { parent_inherits } else { mc };
    (mc2, kind, lv)
}

/// Reads the runtime of an installed version from its ids; `parent_inherits` is
/// what the parent's manifest inherits from, when the parent is installed.
pub fn runtime_info_from_ids(
    inherits_from: &Option<String>,
    id: &Option<String>,
    parent_inherits: &Option<String>,
) -> (r: VersionRuntimeInfo)
    ensures
        (crate::arguments::opt_view(r.mc_version), crate::arguments::opt_view(r.loader_type), crate::arguments::opt_view(r.loader_version))
            == runtime_of(crate::arguments::opt_view(*inherits_from), crate::arguments::opt_view(*id), crate::arguments::opt_view(*parent_inherits)),
{
    let mut ids: Vec<String> = Vec::new();
    match inherits_from {
        Some(p) => ids.push(p.clone()),
        None => {},
    }
    match id {
        Some(i) => ids.push(i.clone()),
        None => {},
    }
    let ghost want = (match crate::arguments::opt_view(*inherits_from) {
        Some(p) => seq![p],
        None => Seq::empty(),
    } + match crate::arguments::opt_view(*id) {
        Some(i) => seq![i],
        None => Seq::empty(),
    });
    assert(views(ids@) =~= want);
    let mut found: Option<(Option<String>, String, Option<String>)> = None;
    let mut k: usize = 0;
    assert(want.subrange(0, want.len() as int) =~= want);
    while k < ids.len() && found.is_none()
        invariant
            k <= ids@.len(),
            views(ids@) == want,
            found.is_none() ==> ids_runtime(want) == ids_runtime(want.subrange(k as int, want.len() as int)),
            found matches Some((m, k2, l)) ==> ids_runtime(want) == Some(
                (crate::arguments::opt_view(m), k2@, crate::arguments::opt_view(l)),
            ),
        decreases ids@.len() - k,
    {
        let ghost rest = want.subrange(k as int, want.len() as int);
        assert(rest[0] == ids@[k as int]@);
        let f = id_info(ids[k].as_str());
        if f.is_some() {
            found = f;
        } else {
            assert(rest.subrange(1, rest.len() as int) =~= want.subrange(k + 1, want.len() as int));
        }
        k += 1;
    }
    if found.is_none() {
        assert(want.subrange(k as int, want.len() as int).len() == 0);
    }
    let (mc, kind, lv) = match found {
        Some((m, k2, l)) => (m, Some(k2), l),
        None => (None, None, None),
    };
    let mc_version = if mc.is_none() && inherits_from.is_some() {
        crate::manifest::copy_opt(parent_inherits)
    } else {
        mc
    };
    VersionRuntimeInfo { mc_version, loader_type: kind, loader_version: lv }
}

impl VersionDetails {
    /// What the launcher reports of a version: its type (`release` when it
    /// declares none), whether it is modded, and its directories.
    pub fn describe(version_type: &Option<String>, main_class: &str, version_path: &str, mc_path: &str) -> (r: Self)
        ensures
            r.version_type@ == (match version_type {
                Some(t) => t@,
                None => "release"@,
            }),
            r.is_modded == modded(r.version_type@, main_class@),
            r.version_path@ == version_path@,
            r.mc_path@ == mc_path@,
    {
        let t = match version_type {
            Some(t) => t.clone(),
            None => "release".to_owned(),
        };
        let m = is_modded(t.as_str(), main_class);
        VersionDetails { is_modded: m, version_type: t, version_path: version_path.to_owned(), mc_path: mc_path.to_owned() }
    }
}

/// Where a managed Java runtime of a release is downloaded from, for the
/// releases that can be fetched.
pub fn java_runtime_url(required: u32) -> (r: Option<String>)
    ensures
        r.is_some() == (required == 8 || required == 17 || required == 21),
        r matches Some(u) ==> u@ == "https://api.adoptium.net/v3/binary/latest/"@ + crate::text::decimal(required as nat)
            + "/ga/windows/x64/jdk/hotspot/normal/eclipse"@,
{
    if required == 8 || required == 17 || required == 21 {
        let d = crate::text::decimal_string(required as u64);
        let a = cat("https://api.adoptium.net/v3/binary/latest/", d.as_str());
        Some(cat(a.as_str(), "/ga/windows/x64/jdk/hotspot/normal/eclipse"))
    } else {
        None
    }
}

/// The directory name of a managed Java runtime.
pub fn java_runtime_dir_name(required: u32) -> (r: String)
    ensures
        r@ == "java-"@ + crate::text::decimal(required as nat),
{
    let d = crate::text::decimal_string(required as u64);
    cat("java-", d.as_str())
}

/// Whether a path inside an override tree is copied into the game directory:
/// everything but the server-only subtree.
pub fn applies_override(first_component: &str) -> (r: bool)
    ensures
        r == (first_component@ != "server-overrides"@),
{
    !str_eq(first_component, "server-overrides")
}

/// The override trees copied into a game directory before launch, in order.
pub fn override_roots() -> (r: Vec<String>)
    ensures
        views(r@) == seq!["overrides"@, "client-overrides"@],
{
    let mut r: Vec<String> = Vec::new();
    r.push("overrides".to_owned());
    r.push("client-overrides".to_owned());
    assert(views(r@) =~= seq!["overrides"@, "client-overrides"@]);
    r
}

/// The version whose client configuration names the server, else the version
/// named like the server when it is installed.
pub open spec fn client_for_server(configs: Seq<(String, Option<i32>)>, server_id: i32, named: Option<Seq<char>>) -> Option<Seq<char>>
    decreases configs.len(),
{
    if configs.len() == 0 {
        named
    } else if configs[0].1 == Some(server_id) {
        Some(configs[0].0@)
    } else {
        client_for_server(configs.subrange(1, configs.len() as int), server_id, named)
    }
}

/// Finds the installed client for a server from the versions' configured server
/// ids (in directory order) and, failing that, the installed version named like it.
pub fn find_client_for_server(configs: &Vec<(String, Option<i32>)>, server_id: i32, named: &Option<String>) -> (r: Option<String>)
    ensures
        crate::arguments::opt_view(r) == client_for_server(configs@, server_id, crate::arguments::opt_view(*named)),
{
    let mut i: usize = 0;
    assert(configs@.subrange(0, configs@.len() as int) =~= configs@);
    while i < configs.len()
        invariant
            i <= configs@.len(),
            client_for_server(configs@, server_id, crate::arguments::opt_view(*named))
                == client_for_server(configs@.subrange(i as int, configs@.len() as int), server_id, crate::arguments::opt_view(*named)),
        decreases configs@.len() - i,
    {
        let ghost rest = configs@.subrange(i as int, configs@.len() as int);
        assert(rest[0] == configs@[i as int]);
        if configs[i].1 == Some(server_id) {
            return Some(configs[i].0.clone());
        }
        assert(rest.subrange(1, rest.len() as int) =~= configs@.subrange(i + 1, configs@.len() as int));
        i += 1;
    }
    assert(configs@.subrange(i as int, configs@.len() as int).len() == 0);
    crate::manifest::copy_opt(named)
}

} // verus!
