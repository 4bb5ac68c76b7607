//! Importing and exporting modpack archives: the decisions, not the archive I/O.
use vstd::prelude::*;
use crate::manifest::{declared, ManifestLayer};
use crate::queue::DownloadTask;
use crate::resolver::{entry_point, first_with_id, lemma_first_with_id, lineage, merged_libraries};
use vstd::string::StrSliceExecFns;
use crate::text::{cat, chars_of, contains, is_prefix, lower_of, lowercase, replace_all, replaced, slice_string, starts_with, str_contains, str_eq, ends_with, is_suffix};

verus! {

/// The two pack formats: a declarative index, or an archive laid out like a game root.
#[derive(Clone, Copy, Debug, PartialEq, Eq, Structural)]
pub enum PackFormat {
    Modrinth,
    Curseforge,
}

/// The format a lower-cased format name selects; unknown names select the archive format.
pub open spec fn format_named(lowered: Seq<char>) -> PackFormat {
    if lowered == "modrinth"@ || lowered == "mrpack"@ {
        PackFormat::Modrinth
    } else {
        PackFormat::Curseforge
    }
}

/// The format a lower-cased format name selects.
pub fn pack_format_from_lowered(lowered: &str) -> (r: PackFormat)
    ensures
        r == format_named(lowered@),
{
    if str_eq(lowered, "modrinth") || str_eq(lowered, "mrpack") {
        PackFormat::Modrinth
    } else {
        PackFormat::Curseforge
    }
}

/// The format a caller names, in any case; the archive format when none is named.
pub fn parse_pack_format(value: Option<String>) -> (r: PackFormat)
    ensures
        r == format_named(lower_of(match value {
            Some(v) => v@,
            None => "curseforge"@,
        })),
{
    let name = match value {
        Some(v) => v,
        None => "curseforge".to_owned(),
    };
    let lowered = lowercase(name.as_str());
    pack_format_from_lowered(lowered.as_str())
}

impl PackFormat {
    /// The file extension of an archive in this format.
    pub fn extension(&self) -> (r: &'static str)
        ensures
            *self == PackFormat::Modrinth ==> r@ == "mrpack"@,
            *self == PackFormat::Curseforge ==> r@ == "zip"@,
    {
        match self {
            PackFormat::Modrinth => "mrpack",
            PackFormat::Curseforge => "zip",
        }
    }
}

/// One file a declarative pack lists, with its mirrors.
pub struct ModrinthFile {
    pub path: String,
    pub downloads: Vec<String>,
}

/// A declarative pack index.
pub struct ModrinthIndex {
    pub name: String,
    pub files: Vec<ModrinthFile>,
    /// Game and loader versions by dependency name.
    pub dependencies: Vec<(String, String)>,
}

/// The tasks of a pack's files: each file with a mirror, from its first mirror,
/// into its path under the target root.
pub open spec fn pack_file_plan(files: Seq<ModrinthFile>, target: Seq<char>) -> Seq<(Seq<char>, Seq<char>)>
    decreases files.len(),
{
    if files.len() == 0 {
        Seq::empty()
    } else {
        let prev = pack_file_plan(files.drop_last(), target);
        let f = files.last();
        if f.downloads@.len() > 0 {
            prev.push((f.downloads@[0]@, target + "/"@ + f.path@))
        } else {
            prev
        }
    }
}

/// The download tasks of a declarative pack's files.
pub fn pack_file_tasks(index: &ModrinthIndex, target: &str) -> (r: Vec<DownloadTask>)
    ensures
        crate::queue::pairs(r@) == pack_file_plan(index.files@, target@),
        crate::queue::untokened(r@),
{
    let mut out: Vec<DownloadTask> = Vec::new();
    let mut i: usize = 0;
    assert(index.files@.subrange(0, 0).len() == 0);
    assert(crate::queue::pairs(out@) =~= Seq::<(Seq<char>, Seq<char>)>::empty());
    while i < index.files.len()
        invariant
            i <= index.files@.len(),
            crate::queue::pairs(out@) == pack_file_plan(index.files@.subrange(0, i as int), target@),
            crate::queue::untokened(out@),
        decreases index.files@.len() - i,
    {
        let ghost next = index.files@.subrange(0, i + 1);
        assert(next.drop_last() =~= index.files@.subrange(0, i as int));
        assert(next.last() == index.files@[i as int]);
        let f = &index.files[i];
        if f.downloads.len() > 0 {
            let ghost before = out@;
            let a = cat(target, "/");
            let t = DownloadTask { url: f.downloads[0].clone(), destination: cat(a.as_str(), f.path.as_str()), bearer_token: None };
            out.push(t);
            assert(crate::queue::pairs(out@) =~= crate::queue::pairs(before).push((t.url@, t.destination@)));
            assert forall|k: int| 0 <= k < out@.len() implies (#[trigger] out@[k]).bearer_token.is_none() by {
                if k < before.len() {
                    assert(out@[k] == before[k]);
                }
            }
        }
        i += 1;
    }
    assert(index.files@.subrange(0, i as int) =~= index.files@);
    out
}

/// The value of dependency `k`: its first entry.
pub open spec fn dependency(deps: Seq<(String, String)>, k: Seq<char>) -> Option<Seq<char>>
    decreases deps.len(),
{
    if deps.len() == 0 {
        None
    } else if deps[0].0@ == k {
        Some(deps[0].1@)
    } else {
        dependency(deps.subrange(1, deps.len() as int), k)
    }
}

fn find_dependency(deps: &Vec<(String, String)>, k: &str) -> (r: Option<String>)
    ensures
        r.is_some() == dependency(deps@, k@).is_some(),
        r matches Some(v) ==> dependency(deps@, k@) == Some(v@),
{
    let mut i: usize = 0;
    assert(deps@.subrange(0, deps@.len() as int) =~= deps@);
    while i < deps.len()
        invariant
            i <= deps@.len(),
            dependency(deps@, k@) == dependency(deps@.subrange(i as int, deps@.len() as int), k@),
        decreases deps@.len() - i,
    {
        let ghost rest = deps@.subrange(i as int, deps@.len() as int);
        assert(rest[0] == deps@[i as int]);
        if str_eq(deps[i].0.as_str(), k) {
            return Some(deps[i].1.clone());
        }
        assert(rest.subrange(1, rest.len() as int) =~= deps@.subrange(i + 1, deps@.len() as int));
        i += 1;
    }
    None
}

/// What a declarative pack needs installed: a game version and, with it, at
/// most one loader (kind and version).
pub struct PackRequirements {
    pub minecraft: Option<String>,
    pub loader: Option<(String, String)>,
}

/// The loader a pack needs: the loader named first among `fabric-loader`,
/// `neoforge` and `forge`, and only when it names a game version.
pub open spec fn required_loader(deps: Seq<(String, String)>) -> Option<(Seq<char>, Seq<char>)> {
    if dependency(deps, "minecraft"@).is_none() {
        None
    } else if dependency(deps, "fabric-loader"@).is_some() {
        Some(("fabric"@, dependency(deps, "fabric-loader"@).unwrap()))
    } else if dependency(deps, "neoforge"@).is_some() {
        Some(("neoforge"@, dependency(deps, "neoforge"@).unwrap()))
    } else if dependency(deps, "forge"@).is_some() {
        Some(("forge"@, dependency(deps, "forge"@).unwrap()))
    } else {
        None
    }
}

/// Reads what a declarative pack needs from its dependency map.
pub fn pack_requirements(deps: &Vec<(String, String)>) -> (r: PackRequirements)
    ensures
        r.minecraft.is_some() == dependency(deps@, "minecraft"@).is_some(),
        r.minecraft matches Some(m) ==> dependency(deps@, "minecraft"@) == Some(m@),
        r.loader.is_some() == required_loader(deps@).is_some(),
        r.loader matches Some(l) ==> required_loader(deps@) == Some((l.0@, l.1@)),
{
    let minecraft = find_dependency(deps, "minecraft");
    let loader = if minecraft.is_none() {
        None
    } else {
        match find_dependency(deps, "fabric-loader") {
            Some(v) => Some(("fabric".to_owned(), v)),
            None => match find_dependency(deps, "neoforge") {
                Some(v) => Some(("neoforge".to_owned(), v)),
                None => match find_dependency(deps, "forge") {
                    Some(v) => Some(("forge".to_owned(), v)),
                    None => None,
                },
            },
        }
    };
    PackRequirements { minecraft, loader }
}

/// The entry point that an imported pack's manifest names for its loader.
pub open spec fn pack_main_class(loader_kind: Option<Seq<char>>) -> Option<Seq<char>> {
    if loader_kind == Some("fabric"@) {
        Some("net.fabricmc.loader.impl.launch.knot.KnotClient"@)
    } else {
        None
    }
}

/// Whether a manifest is the one an import writes for a pack: it has the new id,
/// inherits from the installed loader (or game) version, is typed `modpack`,
/// declares no libraries, and names an entry point only for the fabric loader.
pub open spec fn is_pack_manifest(m: ManifestLayer, id: Seq<char>, parent: Seq<char>, loader_kind: Option<Seq<char>>) -> bool {
    &&& m.id@ == id
    &&& m.inherits_from.is_some() && m.inherits_from.unwrap()@ == parent
    &&& m.version_type.is_some() && m.version_type.unwrap()@ == "modpack"@
    &&& m.libraries@.len() == 0
    &&& m.main_class.is_some() == pack_main_class(loader_kind).is_some()
    &&& m.main_class matches Some(c) ==> Some(c@) == pack_main_class(loader_kind)
    &&& m.asset_index_id.is_none()
    &&& m.arguments.is_none()
    &&& m.minecraft_arguments.is_none()
}

/// The manifest an import writes for a pack.
pub fn pack_manifest(id: &str, parent: &str, loader_kind: &Option<String>) -> (m: ManifestLayer)
    ensures
        is_pack_manifest(m, id@, parent@, match loader_kind {
            Some(k) => Some(k@),
            None => None,
        }),
{
    let fabric = match loader_kind {
        Some(k) => str_eq(k.as_str(), "fabric"),
        None => false,
    };
    let main_class = if fabric {
        Some("net.fabricmc.loader.impl.launch.knot.KnotClient".to_owned())
    } else {
        None
    };
    ManifestLayer {
        id: id.to_owned(),
        version_type: Some("modpack".to_owned()),
        main_class,
        inherits_from: Some(parent.to_owned()),
        asset_index_id: None,
        libraries: Vec::new(),
        arguments: None,
        minecraft_arguments: None,
    }
}

/// Round trip: a version exported to a declarative pack and imported again under
/// a new name resolves to the same libraries and the same entry point. The
/// import's manifest declares no libraries and inherits from the loader version
/// the exported version inherits from, so this holds for an exported version that declares no
/// libraries of its own and names the same entry point the import writes.
pub proof fn lemma_pack_round_trip(
    store: Seq<ManifestLayer>,
    exported: ManifestLayer,
    imported: ManifestLayer,
    new_id: Seq<char>,
    loader_kind: Option<Seq<char>>,
)
    requires
        exported.inherits_from.is_some(),
        is_pack_manifest(imported, new_id, exported.inherits_from.unwrap()@, loader_kind),
        exported.libraries@.len() == 0,
        declared(exported.main_class) == declared(imported.main_class),
        declared(exported.main_class) ==> exported.main_class.unwrap()@ == imported.main_class.unwrap()@,
        first_with_id(store, exported.id@) == -1,
        first_with_id(store, new_id) == -1,
    ensures
        merged_libraries(lineage(store.push(imported), new_id).0)
            == merged_libraries(lineage(store.push(exported), exported.id@).0),
        entry_point(lineage(store.push(imported), new_id).0)
            == entry_point(lineage(store.push(exported), exported.id@).0),
        lineage(store.push(imported), new_id).1 == lineage(store.push(exported), exported.id@).1,
{
    let p = exported.inherits_from.unwrap()@;
    let si = store.push(imported);
    let so = store.push(exported);
    lemma_first_with_id(store, new_id);
    lemma_first_with_id(store, exported.id@);
    assert(si.drop_last() =~= store);
    assert(so.drop_last() =~= store);
    assert(first_with_id(si, new_id) == store.len());
    assert(first_with_id(so, exported.id@) == store.len());
    assert(si.remove(store.len() as int) =~= store);
    assert(so.remove(store.len() as int) =~= store);
    let rest = lineage(store, p);
    assert(lineage(si, new_id).0 == rest.0.push(imported));
    assert(lineage(so, exported.id@).0 == rest.0.push(exported));
    assert(rest.0.push(imported).drop_last() =~= rest.0);
    assert(rest.0.push(exported).drop_last() =~= rest.0);
    assert(merged_libraries(rest.0.push(imported)) =~= merged_libraries(rest.0) + imported.libraries@);
    assert(merged_libraries(rest.0.push(exported)) =~= merged_libraries(rest.0) + exported.libraries@);
    assert(imported.libraries@ =~= exported.libraries@);
}

/// The part of `s` after prefix `p`.
pub open spec fn after_prefix(s: Seq<char>, p: Seq<char>) -> Seq<char> {
    s.subrange(p.len() as int, s.len() as int)
}

fn strip_prefix(s: &str, p: &str) -> (r: Option<String>)
    ensures
        r.is_some() == is_prefix(p@, s@),
        r matches Some(x) ==> x@ == after_prefix(s@, p@),
{
    if !starts_with(s, p) {
        return None;
    }
    let cs = chars_of(s);
    let n = p.unicode_len();
    Some(slice_string(&cs, n, cs.len()))
}

/// Where an entry of a declarative pack's archive goes: entries under
/// `overrides/` go to the same relative path under the target root; others stay.
pub open spec fn pack_override_path(entry: Seq<char>, target: Seq<char>) -> Option<Seq<char>> {
    if is_prefix("overrides/"@, entry) && after_prefix(entry, "overrides/"@).len() > 0 {
        Some(target + "/"@ + after_prefix(entry, "overrides/"@))
    } else {
        None
    }
}

/// Where an entry of a declarative pack's archive is extracted, if it is.
pub fn pack_override_destination(entry: &str, target: &str) -> (r: Option<String>)
    ensures
        r.is_some() == pack_override_path(entry@, target@).is_some(),
        r matches Some(x) ==> pack_override_path(entry@, target@) == Some(x@),
{
    match strip_prefix(entry, "overrides/") {
        None => None,
        Some(rel) => {
            if rel.as_str().is_empty() {
                None
            } else {
                let a = cat(target, "/");
                Some(cat(a.as_str(), rel.as_str()))
            }
        },
    }
}

/// What becomes of one entry of a legacy archive.
pub enum EntryTarget {
    /// Not extracted.
    Skip,
    /// Written to this path.
    Write(String),
}

/// Whether an id names a version (not empty, not the placeholder `unknown`).
pub open spec fn known_id(id: Seq<char>) -> bool {
    id.len() > 0 && id != "unknown"@
}

/// The path of an entry relative to its override tree, when it is in one.
pub open spec fn override_relative(path: Seq<char>) -> Option<Seq<char>> {
    if is_prefix("overrides/"@, path) {
        if after_prefix(path, "overrides/"@).len() > 0 { Some(after_prefix(path, "overrides/"@)) } else { None }
    } else if is_prefix("client-overrides/"@, path) {
        if after_prefix(path, "client-overrides/"@).len() > 0 { Some(after_prefix(path, "client-overrides/"@)) } else { None }
    } else {
        None
    }
}

/// Where an entry of a legacy archive goes. Server overrides are skipped. The
/// manifest that identifies the version goes to the version's manifest path,
/// and, when the version is renamed, the jar beside it to the version's jar
/// path. Otherwise an entry (relative to its override tree, if in one) goes under
/// the version's directory when isolated, except shared assets and libraries,
/// and under the game root when not.
pub open spec fn legacy_entry_target(
    root: Seq<char>,
    id: Seq<char>,
    renamed: bool,
    isolated: bool,
    manifest_entry: Option<Seq<char>>,
    path: Seq<char>,
) -> Option<Seq<char>> {
    if !is_prefix("overrides/"@, path) && !is_prefix("client-overrides/"@, path) && is_prefix("server-overrides/"@, path) {
        None
    } else {
        let rel = override_relative(path);
        let effective = match rel {
            Some(r) => r,
            None => path,
        };
        let known = known_id(id);
        if rel.is_none() && known && manifest_entry == Some(path) {
            Some(root + "/versions/"@ + id + "/"@ + id + ".json"@)
        } else if rel.is_none() && known && renamed && is_suffix(".jar"@, path) && manifest_entry.is_some()
            && replaced(manifest_entry.unwrap(), ".json"@, ".jar"@) == path {
            Some(root + "/versions/"@ + id + "/"@ + id + ".jar"@)
        } else if isolated && known {
            if is_prefix("assets/"@, path) || is_prefix("libraries/"@, path) {
                Some(root + "/"@ + effective)
            } else {
                Some(root + "/versions/"@ + id + "/"@ + effective)
            }
        } else {
            Some(root + "/"@ + effective)
        }
    }
}

fn relative_in_overrides(path: &str) -> (r: Option<String>)
    ensures
        r.is_some() == override_relative(path@).is_some(),
        r matches Some(x) ==> override_relative(path@) == Some(x@),
{
    proof {
        reveal_strlit("overrides/");
        reveal_strlit("client-overrides/");
    }
    match strip_prefix(path, "overrides/") {
        Some(rel) => if rel.as_str().is_empty() { None } else { Some(rel) },
        None => match strip_prefix(path, "client-overrides/") {
            Some(rel) => if rel.as_str().is_empty() { None } else { Some(rel) },
            None => None,
        },
    }
}

fn join3(a: &str, b: &str, c: &str) -> (r: String)
    ensures
        r@ == a@ + b@ + c@,
{
    let x = cat(a, b);
    cat(x.as_str(), c)
}

/// Decides where an entry of a legacy archive is written, as `legacy_entry_target` says.
pub fn legacy_entry_destination(
    root: &str,
    id: &str,
    renamed: bool,
    isolated: bool,
    manifest_entry: &Option<String>,
    path: &str,
) -> (r: EntryTarget)
    ensures
        ({
            let m = match manifest_entry {
                Some(x) => Some(x@),
                None => None,
            };
            match r {
                EntryTarget::Skip => legacy_entry_target(root@, id@, renamed, isolated, m, path@).is_none(),
                EntryTarget::Write(p) => legacy_entry_target(root@, id@, renamed, isolated, m, path@) == Some(p@),
            }
        }),
{
    proof {
        reveal_strlit(".json");
    }
    if !starts_with(path, "overrides/") && !starts_with(path, "client-overrides/") && starts_with(path, "server-overrides/") {
        return EntryTarget::Skip;
    }
    let rel = relative_in_overrides(path);
    let effective = match &rel {
        Some(r) => r.clone(),
        None => path.to_owned(),
    };
    let known = !id.is_empty() && !str_eq(id, "unknown");
    let is_manifest = match manifest_entry {
        Some(m) => str_eq(m.as_str(), path),
        None => false,
    };
    let versions_dir = join3(root, "/versions/", id);
    if rel.is_none() && known && is_manifest {
        let a = join3(versions_dir.as_str(), "/", id);
        let p = cat(a.as_str(), ".json");
        assert(p@ =~= root@ + "/versions/"@ + id@ + "/"@ + id@ + ".json"@);
        return EntryTarget::Write(p);
    }
    let jar_beside = match manifest_entry {
        Some(m) => {
            let j = replace_all(m.as_str(), ".json", ".jar");
            str_eq(j.as_str(), path)
        },
        None => false,
    };
    if rel.is_none() && known && renamed && ends_with(path, ".jar") && jar_beside {
        let a = join3(versions_dir.as_str(), "/", id);
        let p = cat(a.as_str(), ".jar");
        assert(p@ =~= root@ + "/versions/"@ + id@ + "/"@ + id@ + ".jar"@);
        return EntryTarget::Write(p);
    }
    if isolated && known {
        if starts_with(path, "assets/") || starts_with(path, "libraries/") {
            EntryTarget::Write(join3(root, "/", effective.as_str()))
        } else {
            let p = join3(versions_dir.as_str(), "/", effective.as_str());
            assert(p@ =~= root@ + "/versions/"@ + id@ + "/"@ + effective@);
            EntryTarget::Write(p)
        }
    } else {
        EntryTarget::Write(join3(root, "/", effective.as_str()))
    }
}

/// What a scan of a legacy archive learned of one JSON entry.
pub struct ManifestProbe {
    /// The entry's path in the archive.
    pub path: String,
    /// The entry's `id`, when it parsed and has one.
    pub id: Option<String>,
    pub has_libraries: bool,
    pub has_inherits_from: bool,
    pub has_type: bool,
    pub has_main_class: bool,
}

/// Whether a probed entry looks like a version manifest: a JSON entry other than
/// a client configuration, with an id and one of the manifest fields.
pub open spec fn looks_like_manifest(p: ManifestProbe) -> bool {
    &&& is_suffix(".json"@, p.path@)
    &&& !contains(p.path@, "client_config.json"@)
    &&& p.id.is_some()
    &&& (p.has_libraries || p.has_inherits_from || p.has_type || p.has_main_class)
}

fn looks_like(p: &ManifestProbe) -> (r: bool)
    ensures
        r == looks_like_manifest(*p),
{
    ends_with(p.path.as_str(), ".json") && !str_contains(p.path.as_str(), "client_config.json") && p.id.is_some()
        && (p.has_libraries || p.has_inherits_from || p.has_type || p.has_main_class)
}

/// Why an import failed.
#[derive(Clone, Copy, Debug, PartialEq, Eq, Structural)]
pub enum ImportError {
    /// A legacy archive names several different versions, or none and no name was given.
    AmbiguousVersionIdentity,
}

/// Whether some probed entry looks like a version manifest.
pub open spec fn any_manifest(p: Seq<ManifestProbe>) -> bool {
    exists|i: int| 0 <= i < p.len() && looks_like_manifest(#[trigger] p[i])
}

/// Whether two entries that look like version manifests name different versions.
pub open spec fn manifest_ids_conflict(p: Seq<ManifestProbe>) -> bool {
    exists|i: int, j: int|
        0 <= i < p.len() && 0 <= j < p.len() && looks_like_manifest(#[trigger] p[i]) && looks_like_manifest(#[trigger] p[j])
            && p[i].id.unwrap()@ != p[j].id.unwrap()@
}

/// The identity of an imported legacy version.
pub struct LegacyIdentity {
    /// The version id the import installs under.
    pub id: String,
    /// The archive entry that is the version's manifest, if one is.
    pub manifest_index: Option<usize>,
}

/// Decides the identity of a legacy import from the probed entries and the
/// caller's name. It is ambiguous, and the import fails, when entries that look
/// like version manifests name different versions, or when none does and no
/// name was given. Otherwise the manifest is the first such entry, and the id
/// is the caller's name, else the manifest's id.
pub fn identify_legacy_version(probes: &Vec<ManifestProbe>, custom_name: &Option<String>) -> (r: Result<LegacyIdentity, ImportError>)
    ensures
        r is Err <==> (manifest_ids_conflict(probes@) || (!any_manifest(probes@) && custom_name.is_none())),
        r is Err ==> r == Err::<LegacyIdentity, ImportError>(ImportError::AmbiguousVersionIdentity),
        r matches Ok(v) ==> {
            &&& v.manifest_index.is_some() == any_manifest(probes@)
            &&& (v.manifest_index matches Some(i) ==> i < probes@.len() && looks_like_manifest(probes@[i as int])
                && forall|j: int| 0 <= j < i ==> !looks_like_manifest(#[trigger] probes@[j]))
            &&& v.id@ == (match custom_name {
                Some(c) => c@,
                None => probes@[v.manifest_index.unwrap() as int].id.unwrap()@,
            })
        },
{
    let mut first: Option<usize> = None;
    let mut i: usize = 0;
    while i < probes.len() && first.is_none()
        invariant
            i <= probes@.len(),
            first.is_none() ==> forall|j: int| 0 <= j < i ==> !looks_like_manifest(#[trigger] probes@[j]),
            first matches Some(f) ==> f < probes@.len() && looks_like_manifest(probes@[f as int])
                && forall|j: int| 0 <= j < f ==> !looks_like_manifest(#[trigger] probes@[j]),
        decreases probes@.len() - i,
    {
        if looks_like(&probes[i]) {
            first = Some(i);
        }
        i += 1;
    }
    match first {
        None => {
            assert(!any_manifest(probes@));
            assert(!manifest_ids_conflict(probes@));
            match custom_name {
                Some(c) => Ok(LegacyIdentity { id: c.clone(), manifest_index: None }),
                None => Err(ImportError::AmbiguousVersionIdentity),
            }
        },
        Some(f) => {
            let fid = match &probes[f].id {
                Some(x) => x.clone(),
                None => String::new(),
            };
            assert(fid@ == probes@[f as int].id.unwrap()@);
            let mut k: usize = 0;
            while k < probes.len()
                invariant
                    k <= probes@.len(),
                    f < probes@.len(),
                    looks_like_manifest(probes@[f as int]),
                    fid@ == probes@[f as int].id.unwrap()@,
                    forall|j: int| 0 <= j < k && looks_like_manifest(#[trigger] probes@[j]) ==> probes@[j].id.unwrap()@ == fid@,
                decreases probes@.len() - k,
            {
                if looks_like(&probes[k]) {
                    let same = match &probes[k].id {
                        Some(x) => x.eq(&fid),
                        None => false,
                    };
                    if !same {
                        assert(looks_like_manifest(probes@[k as int]) && looks_like_manifest(probes@[f as int])
                            && probes@[k as int].id.unwrap()@ != probes@[f as int].id.unwrap()@);
                        return Err(ImportError::AmbiguousVersionIdentity);
                    }
                }
                k += 1;
            }
            assert(!manifest_ids_conflict(probes@)) by {
                if manifest_ids_conflict(probes@) {
                    let (a, b) = choose|a: int, b: int|
                        0 <= a < probes@.len() && 0 <= b < probes@.len() && looks_like_manifest(#[trigger] probes@[a])
                            && looks_like_manifest(#[trigger] probes@[b]) && probes@[a].id.unwrap()@ != probes@[b].id.unwrap()@;
                    assert(probes@[a].id.unwrap()@ == fid@);
                    assert(probes@[b].id.unwrap()@ == fid@);
                }
            }
            assert(looks_like_manifest(probes@[f as int]));
            let id = match custom_name {
                Some(c) => c.clone(),
                None => fid,
            };
            Ok(LegacyIdentity { id, manifest_index: Some(f) })
        },
    }
}

/// The dependency key a loader kind has in a declarative index.
pub open spec fn loader_dependency_key(kind: Seq<char>) -> Seq<char> {
    if kind == "fabric"@ {
        "fabric-loader"@
    } else if kind == "quilt"@ {
        "quilt-loader"@
    } else if kind == "forge"@ {
        "forge"@
    } else if kind == "neoforge"@ {
        "neoforge"@
    } else {
        Seq::empty()
    }
}

fn dependency_key(kind: &str) -> (r: String)
    ensures
        r@ == loader_dependency_key(kind@),
{
    if str_eq(kind, "fabric") {
        "fabric-loader".to_owned()
    } else if str_eq(kind, "quilt") {
        "quilt-loader".to_owned()
    } else if str_eq(kind, "forge") {
        "forge".to_owned()
    } else if str_eq(kind, "neoforge") {
        "neoforge".to_owned()
    } else {
        String::new()
    }
}

/// The dependency map an export writes: the game version when known, then the
/// loader's key with its version (empty when unknown) for the known loader kinds.
pub open spec fn export_dependencies(
    mc: Option<Seq<char>>,
    kind: Option<Seq<char>>,
    version: Option<Seq<char>>,
) -> Seq<(Seq<char>, Seq<char>)> {
    let a = match mc {
        Some(m) => seq![("minecraft"@, m)],
        None => Seq::empty(),
    };
    match kind {
        Some(k) => if loader_dependency_key(k).len() > 0 {
            a.push((loader_dependency_key(k), match version {
                Some(v) => v,
                None => Seq::empty(),
            }))
        } else {
            a
        },
        None => a,
    }
}

/// The pairs' characters.
pub open spec fn pair_views(v: Seq<(String, String)>) -> Seq<(Seq<char>, Seq<char>)> {
    v.map_values(|p: (String, String)| (p.0@, p.1@))
}

/// Builds the dependency map of an exported declarative index.
pub fn pack_dependencies(info: &crate::launcher::VersionRuntimeInfo) -> (r: Vec<(String, String)>)
    ensures
        pair_views(r@) == export_dependencies(
            crate::arguments::opt_view(info.mc_version),
            crate::arguments::opt_view(info.loader_type),
            crate::arguments::opt_view(info.loader_version),
        ),
{
    let mut r: Vec<(String, String)> = Vec::new();
    match &info.mc_version {
        Some(m) => r.push(("minecraft".to_owned(), m.clone())),
        None => {},
    }
    let ghost a = pair_views(r@);
    match &info.loader_type {
        Some(k) => {
            let key = dependency_key(k.as_str());
            if !key.as_str().is_empty() {
                let v = match &info.loader_version {
                    Some(v) => v.clone(),
                    None => String::new(),
                };
                r.push((key, v));
                assert(pair_views(r@) =~= a.push((key@, v@)));
            }
        },
        None => {},
    }
    assert(pair_views(r@) =~= export_dependencies(
        crate::arguments::opt_view(info.mc_version),
        crate::arguments::opt_view(info.loader_type),
        crate::arguments::opt_view(info.loader_version),
    ));
    r
}

/// The mod-loader id an exported archive manifest names: the kind's prefix and
/// the version, when both are known and the kind is one of the known loaders.
pub open spec fn archive_loader_id(kind: Option<Seq<char>>, version: Option<Seq<char>>) -> Option<Seq<char>> {
    match (kind, version) {
        (Some(k), Some(v)) => if k == "fabric"@ || k == "quilt"@ || k == "forge"@ || k == "neoforge"@ {
            Some(k + "-"@ + v)
        } else {
            None
        },
        _ => None,
    }
}

/// The mod-loader id of an exported archive manifest.
pub fn curseforge_loader_id(info: &crate::launcher::VersionRuntimeInfo) -> (r: Option<String>)
    ensures
        r.is_some() == archive_loader_id(crate::arguments::opt_view(info.loader_type), crate::arguments::opt_view(info.loader_version)).is_some(),
        r matches Some(x) ==> archive_loader_id(
            crate::arguments::opt_view(info.loader_type),
            crate::arguments::opt_view(info.loader_version),
        ) == Some(x@),
{
    match (&info.loader_type, &info.loader_version) {
        (Some(k), Some(v)) => {
            if str_eq(k.as_str(), "fabric") || str_eq(k.as_str(), "quilt") || str_eq(k.as_str(), "forge") || str_eq(k.as_str(), "neoforge") {
                Some(join3(k.as_str(), "-", v.as_str()))
            } else {
                None
            }
        },
        _ => None,
    }
}

/// Whether an installed version id is what an installer of `kind` wrote for the
/// given game and loader versions.
pub open spec fn installer_result_matches(id: Seq<char>, kind: Seq<char>, mc: Seq<char>, loader: Seq<char>) -> bool {
    let type_match = if kind == "forge"@ {
        contains(id, "forge"@)
    } else if kind == "neoforge"@ {
        contains(id, "neoforge"@)
    } else {
        false
    };
    type_match && contains(id, mc) && contains(id, loader)
}

/// Among the matching candidates, the index of the most recently modified one;
/// the earliest of equally recent ones; -1 when none matches.
pub open spec fn newest_match(c: Seq<(String, u64)>, kind: Seq<char>, mc: Seq<char>, loader: Seq<char>) -> int
    decreases c.len(),
{
    if c.len() == 0 {
        -1
    } else {
        let prev = newest_match(c.drop_last(), kind, mc, loader);
        let last = c.len() - 1;
        if installer_result_matches(c[last].0@, kind, mc, loader) && (prev < 0 || c[last].1 > c[prev].1) {
            last
        } else {
            prev
        }
    }
}

proof fn lemma_newest_match_range(c: Seq<(String, u64)>, kind: Seq<char>, mc: Seq<char>, loader: Seq<char>)
    ensures
        -1 <= newest_match(c, kind, mc, loader) < c.len(),
    decreases c.len(),
{
    if c.len() > 0 {
        lemma_newest_match_range(c.drop_last(), kind, mc, loader);
    }
}

/// Finds the version an installer produced among the installed versions (id and
/// modification time), preferring the most recently modified match.
pub fn find_installed_loader_version(candidates: &Vec<(String, u64)>, kind: &str, mc: &str, loader: &str) -> (r: Option<String>)
    ensures
        r.is_some() == (newest_match(candidates@, kind@, mc@, loader@) >= 0),
        r matches Some(id) ==> id@ == candidates@[newest_match(candidates@, kind@, mc@, loader@)].0@,
{
    let mut best: Option<usize> = None;
    let mut i: usize = 0;
    assert(candidates@.subrange(0, 0).len() == 0);
    while i < candidates.len()
        invariant
            i <= candidates@.len(),
            best.is_none() == (newest_match(candidates@.subrange(0, i as int), kind@, mc@, loader@) < 0),
            best matches Some(b) ==> b as int == newest_match(candidates@.subrange(0, i as int), kind@, mc@, loader@) && b < i,
        decreases candidates@.len() - i,
    {
        let ghost pre = candidates@.subrange(0, i as int);
        let ghost next = candidates@.subrange(0, i + 1);
        assert(next.drop_last() =~= pre);
        assert(next[i as int] == candidates@[i as int]);
        proof {
            lemma_newest_match_range(pre, kind@, mc@, loader@);
        }
        let id = candidates[i].0.as_str();
        let type_match = if str_eq(kind, "forge") {
            str_contains(id, "forge")
        } else if str_eq(kind, "neoforge") {
            str_contains(id, "neoforge")
        } else {
            false
        };
        if type_match && str_contains(id, mc) && str_contains(id, loader) {
            match best {
                None => {
                    best = Some(i);
                },
                Some(b) => {
                    assert(next[b as int] == candidates@[b as int]);
                    if candidates[i].1 > candidates[b].1 {
                        best = Some(i);
                    }
                },
            }
        } else {
            match best {
                Some(b) => {
                    assert(next[b as int] == candidates@[b as int]);
                },
                None => {},
            }
        }
        i += 1;
    }
    assert(candidates@.subrange(0, i as int) =~= candidates@);
    match best {
        None => None,
        Some(b) => Some(candidates[b].0.clone()),
    }
}

/// The name of a file in an archive: the prefix without trailing `/`, then the
/// relative path with `\` turned into `/`.
pub fn archive_entry_name(prefix: &str, relative: &str) -> (r: String)
    ensures
        r@ == crate::auth::trim_end_char(prefix@, '/') + "/"@ + crate::text::swap_char(relative@, '\\', '/'),
{
    let cs = chars_of(prefix);
    let mut n: usize = cs.len();
    assert(prefix@.subrange(0, n as int) =~= prefix@);
    while n > 0 && cs[n - 1] == '/'
        invariant
            n <= cs@.len(),
            cs@ == prefix@,
            crate::auth::trim_end_char(prefix@, '/') == crate::auth::trim_end_char(prefix@.subrange(0, n as int), '/'),
        decreases n,
    {
        assert(prefix@.subrange(0, n as int).drop_last() =~= prefix@.subrange(0, n - 1));
        n -= 1;
    }
    let base = slice_string(&cs, 0, n);
    let rel = crate::text::replace_char(relative, '\\', '/');
    join3(base.as_str(), "/", rel.as_str())
}

/// The name of a version's own file in a packaged archive.
pub fn packaged_version_entry(version_id: &str, file_name: &str) -> (r: String)
    ensures
        r@ == "versions/"@ + version_id@ + "/"@ + file_name@,
{
    let a = join3("versions/", version_id, "/");
    cat(a.as_str(), file_name)
}

/// The version an imported declarative pack inherits from, and the loader kind
/// its manifest is written for: the installed loader version when a loader was
/// installed (with the pack's loader kind), else the game version alone.
pub fn pack_parent(req: &PackRequirements, loader_result: &Option<String>) -> (r: (Option<String>, Option<String>))
    ensures
        crate::arguments::opt_view(r.0) == (match loader_result {
            Some(l) => Some(l@),
            None => crate::arguments::opt_view(req.minecraft),
        }),
        crate::arguments::opt_view(r.1) == (match (loader_result, req.loader) {
            (Some(_), Some(l)) => Some(l.0@),
            _ => None,
        }),
{
    let parent = match loader_result {
        Some(l) => Some(l.clone()),
        None => crate::manifest::copy_opt(&req.minecraft),
    };
    let kind = match (loader_result, &req.loader) {
        (Some(_), Some(l)) => Some(l.0.clone()),
        _ => None,
    };
    (parent, kind)
}

/// What an imported legacy version still needs fetched.
pub struct LegacyPlan {
    /// The base version whose files are fetched: the one the manifest inherits
    /// from, else the one its asset index is named after.
    pub base_version: Option<String>,
    /// The client jar, when the manifest names one and it is not on disk.
    pub client_jar: Option<DownloadTask>,
}

/// Plans the dependencies of an imported legacy version from its manifest.
pub fn legacy_plan(
    root: &str,
    id: &str,
    inherits_from: &Option<String>,
    assets: &Option<String>,
    client_url: &Option<String>,
    jar_exists: bool,
) -> (r: LegacyPlan)
    ensures
        crate::arguments::opt_view(r.base_version) == (match inherits_from {
            Some(p) => Some(p@),
            None => crate::arguments::opt_view(*assets),
        }),
        r.client_jar.is_some() == (client_url.is_some() && !jar_exists),
        r.client_jar matches Some(t) ==> t.url@ == client_url.unwrap()@ && t.destination@
            == crate::resolver::version_file(root@, id@, ".jar"@) && t.bearer_token.is_none(),
{
    let base_version = match inherits_from {
        Some(p) => Some(p.clone()),
        None => crate::manifest::copy_opt(assets),
    };
    let client_jar = match client_url {
        Some(u) => if jar_exists {
            None
        } else {
            Some(DownloadTask { url: u.clone(), destination: crate::queue::version_path(root, id, ".jar"), bearer_token: None })
        },
        None => None,
    };
    LegacyPlan { base_version, client_jar }
}

} // verus!
