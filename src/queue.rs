//! Building the download queue of an install from manifests.
use vstd::prelude::*;
use crate::manifest::{DownloadInfo, Library, VersionDetails};
use crate::maven::{is_coordinate, jar_path, maven_jar_path};
use crate::resolver::version_file;
use crate::rules::{check_rules, gate_allows, RuleContext};
use crate::text::{cat, contains, ends_with, replace_char, str_contains, str_eq, swap_char, is_suffix};

verus! {

/// One queue element: fetch `url` into `destination`, with a bearer token if given.
pub struct DownloadTask {
    pub url: String,
    pub destination: String,
    pub bearer_token: Option<String>,
}

/// A file of a custom file list: where it comes from, where it goes under the
/// game root, its size and hash, and a bearer token for its server.
#[derive(Clone, Debug)]
pub struct CustomFile {
    pub url: String,
    pub path: String,
    pub size: u64,
    pub hash: String,
    pub token: Option<String>,
}

/// The download task of a custom file: its url and token, into the destination
/// that `custom_destination` gives.
pub fn custom_file_task(root: &str, version_id: &str, file: CustomFile) -> (t: DownloadTask)
    ensures
        t.url == file.url,
        t.destination@ == custom_destination(root@, version_id@, file.path@),
        t.bearer_token == file.token,
{
    let destination = custom_file_destination(root, version_id, file.path.as_str());
    DownloadTask { url: file.url, destination, bearer_token: file.token }
}

/// Why a queue could not be built from a manifest.
#[derive(Clone, Copy, Debug, PartialEq, Eq, Structural)]
pub enum QueueError {
    /// A library's artifact names no path.
    LibraryPathMissing,
    /// A library's native classifier names no path.
    NativePathMissing,
}

/// The url and destination of each task.
pub open spec fn pairs(ts: Seq<DownloadTask>) -> Seq<(Seq<char>, Seq<char>)> {
    ts.map_values(|t: DownloadTask| (t.url@, t.destination@))
}

/// A successful plan of exactly these tasks.
pub open spec fn planned(ts: Seq<DownloadTask>) -> Result<Seq<(Seq<char>, Seq<char>)>, QueueError> {
    Ok(pairs(ts))
}

/// Whether no task carries a token.
pub open spec fn untokened(ts: Seq<DownloadTask>) -> bool {
    forall|i: int| 0 <= i < ts.len() ==> (#[trigger] ts[i]).bearer_token.is_none()
}

/// The library root under a game root.
pub open spec fn library_root(root: Seq<char>) -> Seq<char> {
    root + "/libraries/"@
}

/// The repository a legacy library comes from.
pub open spec fn repository_of(url: Option<String>, fallback: Seq<char>) -> Seq<char> {
    match url {
        Some(u) => u@,
        None => fallback,
    }
}

/// The classifier key of the host's native archives.
pub open spec fn native_key(ctx: RuleContext) -> Seq<char> {
    "natives-"@ + ctx.os@
}

/// The first entry for `key` among the classifiers.
pub open spec fn classifier_lookup(cs: Seq<(String, DownloadInfo)>, key: Seq<char>) -> Option<DownloadInfo>
    decreases cs.len(),
{
    if cs.len() == 0 {
        None
    } else if cs[0].0@ == key {
        Some(cs[0].1)
    } else {
        classifier_lookup(cs.subrange(1, cs.len() as int), key)
    }
}

/// The task of an artifact that must name its path.
pub open spec fn artifact_plan(a: Option<DownloadInfo>, root: Seq<char>, e: QueueError) -> Result<Seq<(Seq<char>, Seq<char>)>, QueueError> {
    match a {
        None => Ok(Seq::empty()),
        Some(info) => match info.path {
            None => Err(e),
            Some(p) => Ok(seq![(info.url@, library_root(root) + p@)]),
        },
    }
}

/// The tasks of one library: none when its rules exclude the host; its artifact
/// and the host's native classifier when it declares downloads; else the jar at
/// its conventional maven path in its repository.
pub open spec fn library_plan(lib: Library, root: Seq<char>, ctx: RuleContext) -> Result<Seq<(Seq<char>, Seq<char>)>, QueueError> {
    if !gate_allows(lib.rules, ctx) {
        Ok(Seq::empty())
    } else {
        match lib.downloads {
            Some(d) => {
                let art = artifact_plan(d.artifact, root, QueueError::LibraryPathMissing);
                let natives = match d.classifiers {
                    None => Ok(Seq::empty()),
                    Some(cs) => artifact_plan(classifier_lookup(cs@, native_key(ctx)), root, QueueError::NativePathMissing),
                };
                match art {
                    Err(e) => Err(e),
                    Ok(a) => match natives {
                        Err(e) => Err(e),
                        Ok(n) => Ok(a + n),
                    },
                }
            },
            None => if is_coordinate(lib.name@) {
                Ok(seq![(
                    repository_of(lib.url, "https://libraries.minecraft.net/"@) + jar_path(lib.name@),
                    library_root(root) + jar_path(lib.name@),
                )])
            } else {
                Ok(Seq::empty())
            },
        }
    }
}

/// The tasks of a list of libraries in order; the first error stops it.
pub open spec fn libraries_plan(libs: Seq<Library>, root: Seq<char>, ctx: RuleContext) -> Result<Seq<(Seq<char>, Seq<char>)>, QueueError>
    decreases libs.len(),
{
    if libs.len() == 0 {
        Ok(Seq::empty())
    } else {
        match libraries_plan(libs.drop_last(), root, ctx) {
            Err(e) => Err(e),
            Ok(ts) => match library_plan(libs.last(), root, ctx) {
                Err(e) => Err(e),
                Ok(more) => Ok(ts + more),
            },
        }
    }
}

fn task(url: String, destination: String) -> (t: DownloadTask)
    ensures
        t.url == url,
        t.destination == destination,
        t.bearer_token.is_none(),
{
    DownloadTask { url, destination, bearer_token: None }
}

fn under_libraries(root: &str, p: &str) -> (r: String)
    ensures
        r@ == library_root(root@) + p@,
{
    let a = cat(root, "/libraries/");
    cat(a.as_str(), p)
}

pub(crate) fn find_classifier_index(cs: &Vec<(String, DownloadInfo)>, key: &str) -> (r: Option<usize>)
    ensures
        r.is_none() == classifier_lookup(cs@, key@).is_none(),
        r matches Some(i) ==> i < cs@.len() && classifier_lookup(cs@, key@) == Some(cs@[i as int].1),
{
    let mut i: usize = 0;
    assert(cs@.subrange(0, cs@.len() as int) =~= cs@);
    while i < cs.len()
        invariant
            i <= cs@.len(),
            classifier_lookup(cs@, key@) == classifier_lookup(cs@.subrange(i as int, cs@.len() as int), key@),
        decreases cs@.len() - i,
    {
        let ghost rest = cs@.subrange(i as int, cs@.len() as int);
        assert(rest[0] == cs@[i as int]);
        if str_eq(cs[i].0.as_str(), key) {
            return Some(i);
        }
        assert(rest.subrange(1, rest.len() as int) =~= cs@.subrange(i + 1, cs@.len() as int));
        i += 1;
    }
    None
}

fn artifact_tasks(a: &Option<DownloadInfo>, root: &str, e: QueueError) -> (r: Result<Vec<DownloadTask>, QueueError>)
    ensures
        r.is_err() == artifact_plan(*a, root@, e).is_err(),
        r matches Err(x) ==> x == e,
        r matches Ok(v) ==> planned(v@) == artifact_plan(*a, root@, e) && untokened(v@),
{
    match a {
        None => {
            let v: Vec<DownloadTask> = Vec::new();
            assert(pairs(v@) =~= Seq::<(Seq<char>, Seq<char>)>::empty());
            Ok(v)
        },
        Some(info) => match &info.path {
            None => Err(e),
            Some(p) => {
                let mut v: Vec<DownloadTask> = Vec::new();
                v.push(task(info.url.clone(), under_libraries(root, p.as_str())));
                assert(pairs(v@) =~= seq![(info.url@, library_root(root@) + p@)]);
                Ok(v)
            },
        },
    }
}

/// The download tasks of one library for the host, as `library_plan` describes.
pub fn library_tasks(lib: &Library, root: &str, ctx: &RuleContext) -> (r: Result<Vec<DownloadTask>, QueueError>)
    ensures
        r.is_err() == library_plan(*lib, root@, *ctx).is_err(),
        r matches Err(e) ==> Err::<Seq<(Seq<char>, Seq<char>)>, QueueError>(e) == library_plan(*lib, root@, *ctx),
        r matches Ok(v) ==> planned(v@) == library_plan(*lib, root@, *ctx) && untokened(v@),
{
    if !check_rules(&lib.rules, ctx) {
        let v: Vec<DownloadTask> = Vec::new();
        assert(pairs(v@) =~= Seq::<(Seq<char>, Seq<char>)>::empty());
        return Ok(v);
    }
    match &lib.downloads {
        Some(d) => {
            let mut v = match artifact_tasks(&d.artifact, root, QueueError::LibraryPathMissing) {
                Err(e) => return Err(e),
                Ok(v) => v,
            };
            let n = match &d.classifiers {
                None => {
                    let n: Vec<DownloadTask> = Vec::new();
                    assert(pairs(n@) =~= Seq::<(Seq<char>, Seq<char>)>::empty());
                    n
                },
                Some(cs) => {
                    let key = cat("natives-", ctx.os.as_str());
                    match find_classifier_index(cs, key.as_str()) {
                        None => {
                            let n: Vec<DownloadTask> = Vec::new();
                            assert(pairs(n@) =~= Seq::<(Seq<char>, Seq<char>)>::empty());
                            n
                        },
                        Some(i) => {
                            let found = Some(copy_info(&cs[i].1));
                            match artifact_tasks(&found, root, QueueError::NativePathMissing) {
                                Err(e) => return Err(e),
                                Ok(n) => n,
                            }
                        },
                    }
                },
            };
            let ghost a = v@;
            let ghost nv = n@;
            let mut n = n;
            v.append(&mut n);
            assert(v@ == a + nv);
            assert(pairs(v@) =~= pairs(a) + pairs(nv));
            assert(untokened(v@)) by {
                assert forall|i: int| 0 <= i < v@.len() implies (#[trigger] v@[i]).bearer_token.is_none() by {
                    if i < a.len() {
                        assert(v@[i] == a[i]);
                    } else {
                        assert(v@[i] == nv[i - a.len()]);
                    }
                }
            }
            Ok(v)
        },
        None => {
            let mut v: Vec<DownloadTask> = Vec::new();
            match maven_jar_path(lib.name.as_str()) {
                None => {},
                Some(p) => {
                    let base = match &lib.url {
                        Some(u) => u.clone(),
                        None => "https://libraries.minecraft.net/".to_owned(),
                    };
                    let url = cat(base.as_str(), p.as_str());
                    v.push(task(url, under_libraries(root, p.as_str())));
                },
            }
            assert(pairs(v@) =~= library_plan(*lib, root@, *ctx).unwrap());
            Ok(v)
        },
    }
}

/// A copy of a download description.
pub fn copy_info(d: &DownloadInfo) -> (r: DownloadInfo)
    ensures
        r == *d,
{
    DownloadInfo {
        sha1: crate::manifest::copy_opt(&d.sha1),
        size: d.size,
        url: d.url.clone(),
        path: crate::manifest::copy_opt(&d.path),
    }
}

/// The download tasks of a list of libraries in order, as `libraries_plan` describes.
pub fn libraries_tasks(libs: &Vec<Library>, root: &str, ctx: &RuleContext) -> (r: Result<Vec<DownloadTask>, QueueError>)
    ensures
        r.is_err() == libraries_plan(libs@, root@, *ctx).is_err(),
        r matches Err(e) ==> Err::<Seq<(Seq<char>, Seq<char>)>, QueueError>(e) == libraries_plan(libs@, root@, *ctx),
        r matches Ok(v) ==> planned(v@) == libraries_plan(libs@, root@, *ctx) && untokened(v@),
{
    let mut out: Vec<DownloadTask> = Vec::new();
    let mut i: usize = 0;
    assert(pairs(out@) =~= Seq::<(Seq<char>, Seq<char>)>::empty());
    assert(libs@.subrange(0, 0) =~= Seq::<Library>::empty());
    while i < libs.len()
        invariant
            i <= libs@.len(),
            planned(out@) == libraries_plan(libs@.subrange(0, i as int), root@, *ctx),
            untokened(out@),
        decreases libs@.len() - i,
    {
        let ghost next = libs@.subrange(0, i + 1);
        assert(next.drop_last() =~= libs@.subrange(0, i as int));
        assert(next.last() == libs@[i as int]);
        match library_tasks(&libs[i], root, ctx) {
            Err(e) => {
                proof {
                    lemma_plan_error_sticks(libs@, i as int + 1, root@, *ctx);
                }
                return Err(e);
            },
            Ok(more) => {
                let ghost a = out@;
                let ghost m = more@;
                let mut more = more;
                out.append(&mut more);
                assert(out@ == a + m);
                assert(pairs(out@) =~= pairs(a) + pairs(m));
                assert forall|k: int| 0 <= k < out@.len() implies (#[trigger] out@[k]).bearer_token.is_none() by {
                    if k < a.len() {
                        assert(out@[k] == a[k]);
                    } else {
                        assert(out@[k] == m[k - a.len()]);
                    }
                }
            },
        }
        i += 1;
    }
    assert(libs@.subrange(0, libs@.len() as int) =~= libs@);
    Ok(out)
}

proof fn lemma_plan_error_sticks(libs: Seq<Library>, n: int, root: Seq<char>, ctx: RuleContext)
    requires
        0 < n <= libs.len(),
        libraries_plan(libs.subrange(0, n), root, ctx).is_err(),
    ensures
        libraries_plan(libs, root, ctx) == libraries_plan(libs.subrange(0, n), root, ctx),
    decreases libs.len() - n,
{
    if n < libs.len() {
        let next = libs.subrange(0, n + 1);
        assert(next.drop_last() =~= libs.subrange(0, n));
        lemma_plan_error_sticks(libs, n + 1, root, ctx);
    } else {
        assert(libs.subrange(0, n) =~= libs);
    }
}

/// The task that fetches a base version's client jar into its version directory.
pub fn client_jar_task(details: &VersionDetails, root: &str) -> (t: DownloadTask)
    ensures
        t.url@ == details.downloads.client.url@,
        t.destination@ == version_file(root@, details.id@, ".jar"@),
        t.bearer_token.is_none(),
{
    task(details.downloads.client.url.clone(), version_path(root, details.id.as_str(), ".jar"))
}

/// `root/versions/id/id` followed by `ext`.
pub fn version_path(root: &str, id: &str, ext: &str) -> (r: String)
    ensures
        r@ == version_file(root@, id@, ext@),
{
    let a = cat(root, "/versions/");
    let b = cat(a.as_str(), id);
    let c = cat(b.as_str(), "/");
    let d = cat(c.as_str(), id);
    let e = cat(d.as_str(), ext);
    assert(e@ =~= version_file(root@, id@, ext@));
    e
}

/// Where an asset index is stored.
pub open spec fn asset_index_file(root: Seq<char>, id: Seq<char>) -> Seq<char> {
    root + "/assets/indexes/"@ + id + ".json"@
}

/// The path of an asset index under a game root.
pub fn asset_index_path(root: &str, id: &str) -> (r: String)
    ensures
        r@ == asset_index_file(root@, id@),
{
    let a = cat(root, "/assets/indexes/");
    let b = cat(a.as_str(), id);
    let c = cat(b.as_str(), ".json");
    assert(c@ =~= asset_index_file(root@, id@));
    c
}

/// The task of an asset object: it lives under the first two characters of its
/// hash, both on the asset server and on disk. A hash shorter than that names
/// no object.
pub fn asset_object_task(hash: &str, root: &str) -> (r: Option<DownloadTask>)
    ensures
        r.is_some() == (hash@.len() >= 2),
        r matches Some(t) ==> {
            let head = hash@.subrange(0, 2);
            &&& t.url@ == "https://resources.download.minecraft.net/"@ + head + "/"@ + hash@
            &&& t.destination@ == root@ + "/assets/objects/"@ + head + "/"@ + hash@
            &&& t.bearer_token.is_none()
        },
{
    let cs = crate::text::chars_of(hash);
    if cs.len() < 2 {
        return None;
    }
    let mut h: Vec<char> = Vec::new();
    h.push(cs[0]);
    h.push(cs[1]);
    assert(h@ =~= hash@.subrange(0, 2));
    let head = crate::text::string_of(h.as_slice());
    let u1 = cat("https://resources.download.minecraft.net/", head.as_str());
    let u2 = cat(u1.as_str(), "/");
    let url = cat(u2.as_str(), hash);
    let d1 = cat(root, "/assets/objects/");
    let d2 = cat(d1.as_str(), head.as_str());
    let d3 = cat(d2.as_str(), "/");
    let dest = cat(d3.as_str(), hash);
    assert(url@ =~= "https://resources.download.minecraft.net/"@ + hash@.subrange(0, 2) + "/"@ + hash@);
    assert(dest@ =~= root@ + "/assets/objects/"@ + hash@.subrange(0, 2) + "/"@ + hash@);
    Some(task(url, dest))
}

/// The task of a loader library given by coordinate and optional repository; the
/// loader's own maven repository when none is given. `None` for a malformed coordinate.
pub fn fabric_library_task(name: &str, url: &Option<String>, root: &str) -> (r: Option<DownloadTask>)
    ensures
        r.is_some() == is_coordinate(name@),
        r matches Some(t) ==> {
            &&& t.url@ == repository_of(*url, "https://maven.fabricmc.net/"@) + jar_path(name@)
            &&& t.destination@ == library_root(root@) + jar_path(name@)
            &&& t.bearer_token.is_none()
        },
{
    match maven_jar_path(name) {
        None => None,
        Some(p) => {
            let base = match url {
                Some(u) => u.clone(),
                None => "https://maven.fabricmc.net/".to_owned(),
            };
            Some(task(cat(base.as_str(), p.as_str()), under_libraries(root, p.as_str())))
        },
    }
}

/// Where a file of a custom file list goes: a client configuration into the
/// version directory, a bare `.json` file as the version's manifest, anything
/// else at its path under the game root.
pub open spec fn custom_destination(root: Seq<char>, version_id: Seq<char>, path: Seq<char>) -> Seq<char> {
    let p = swap_char(path, '\\', '/');
    if p == "client_config.json"@ {
        root + "/versions/"@ + version_id + "/client_config.json"@
    } else if is_suffix(".json"@, p) && !contains(p, "/"@) {
        version_file(root, version_id, ".json"@)
    } else {
        root + "/"@ + path
    }
}

/// The destination of one file of a custom file list.
pub fn custom_file_destination(root: &str, version_id: &str, path: &str) -> (r: String)
    ensures
        r@ == custom_destination(root@, version_id@, path@),
{
    let p = replace_char(path, '\\', '/');
    if str_eq(p.as_str(), "client_config.json") {
        let a = cat(root, "/versions/");
        let b = cat(a.as_str(), version_id);
        let c = cat(b.as_str(), "/client_config.json");
        assert(c@ =~= root@ + "/versions/"@ + version_id@ + "/client_config.json"@);
        c
    } else if ends_with(p.as_str(), ".json") && !str_contains(p.as_str(), "/") {
        version_path(root, version_id, ".json")
    } else {
        let a = cat(root, "/");
        cat(a.as_str(), path)
    }
}

/// The url listing the loader versions for a game version, for the loader kinds
/// that have one.
pub fn loader_list_url(game_version: &str, loader_type: &str) -> (r: Option<String>)
    ensures
        loader_type@ == "fabric"@ ==> r is Some && r.unwrap()@
            == "https://bmclapi2.bangbang93.com/fabric-meta/v2/versions/loader/"@ + game_version@,
        loader_type@ == "forge"@ ==> r is Some && r.unwrap()@ == "https://bmclapi2.bangbang93.com/forge/minecraft/"@
            + game_version@,
        loader_type@ == "neoforge"@ ==> r is Some && r.unwrap()@ == "https://bmclapi2.bangbang93.com/neoforge/list/"@
            + game_version@,
        loader_type@ != "fabric"@ && loader_type@ != "forge"@ && loader_type@ != "neoforge"@ ==> r.is_none(),
{
    proof {
        reveal_strlit("fabric");
        reveal_strlit("forge");
        reveal_strlit("neoforge");
        assert("forge"@[1] != "fabric"@[1]);
        assert("neoforge"@[0] != "fabric"@[0]);
        assert("neoforge"@[0] != "forge"@[0]);
    }
    if str_eq(loader_type, "fabric") {
        Some(cat("https://bmclapi2.bangbang93.com/fabric-meta/v2/versions/loader/", game_version))
    } else if str_eq(loader_type, "forge") {
        Some(cat("https://bmclapi2.bangbang93.com/forge/minecraft/", game_version))
    } else if str_eq(loader_type, "neoforge") {
        Some(cat("https://bmclapi2.bangbang93.com/neoforge/list/", game_version))
    } else {
        None
    }
}

/// The url of a self-installing loader's installer jar.
pub fn installer_url(loader_type: &str, game_version: &str, loader_version: &str) -> (r: String)
    ensures
        loader_type@ == "forge"@ ==> r@ == "https://bmclapi2.bangbang93.com/forge/download?mcversion="@
            + game_version@ + "&version="@ + loader_version@ + "&category=installer&format=jar"@,
        loader_type@ != "forge"@ ==> r@ == "https://bmclapi2.bangbang93.com/neoforge/version/"@ + loader_version@
            + "/download/installer.jar"@,
{
    if str_eq(loader_type, "forge") {
        let a = cat("https://bmclapi2.bangbang93.com/forge/download?mcversion=", game_version);
        let b = cat(a.as_str(), "&version=");
        let c = cat(b.as_str(), loader_version);
        cat(c.as_str(), "&category=installer&format=jar")
    } else {
        let a = cat("https://bmclapi2.bangbang93.com/neoforge/version/", loader_version);
        cat(a.as_str(), "/download/installer.jar")
    }
}

/// The url of the loader profile manifest for a game and loader version.
pub fn fabric_profile_url(game_version: &str, loader_version: &str) -> (r: String)
    ensures
        r@ == "https://meta.fabricmc.net/v2/versions/loader/"@ + game_version@ + "/"@ + loader_version@
            + "/profile/json"@,
{
    let a = cat("https://meta.fabricmc.net/v2/versions/loader/", game_version);
    let b = cat(a.as_str(), "/");
    let c = cat(b.as_str(), loader_version);
    cat(c.as_str(), "/profile/json")
}

/// What an install does besides the base version.
#[derive(Clone, Copy, Debug, PartialEq, Eq, Structural)]
pub enum LoaderPlan {
    /// The base version alone.
    Vanilla,
    /// The loader's profile and libraries join the download queue.
    LibraryLoader,
    /// The loader's installer runs after the queue is fetched.
    SelfInstalling,
}

/// The loader kinds an install supports, and how each is installed.
pub open spec fn loader_plan_of(kind: Seq<char>) -> Option<LoaderPlan> {
    if kind == "vanilla"@ {
        Some(LoaderPlan::Vanilla)
    } else if kind == "fabric"@ {
        Some(LoaderPlan::LibraryLoader)
    } else if kind == "forge"@ || kind == "neoforge"@ {
        Some(LoaderPlan::SelfInstalling)
    } else {
        None
    }
}

/// How a loader kind is installed; `None` for kinds an install does not support.
pub fn loader_plan(kind: &str) -> (r: Option<LoaderPlan>)
    ensures
        r == loader_plan_of(kind@),
{
    if str_eq(kind, "vanilla") {
        Some(LoaderPlan::Vanilla)
    } else if str_eq(kind, "fabric") {
        Some(LoaderPlan::LibraryLoader)
    } else if str_eq(kind, "forge") || str_eq(kind, "neoforge") {
        Some(LoaderPlan::SelfInstalling)
    } else {
        None
    }
}

/// The arguments that run an installer jar against a game directory.
pub fn installer_arguments(installer: &str, game_dir: &str) -> (r: Vec<String>)
    ensures
        crate::text::views(r@) == seq!["-jar"@, installer@, "--installClient"@, game_dir@],
{
    let mut r: Vec<String> = Vec::new();
    r.push("-jar".to_owned());
    r.push(installer.to_owned());
    r.push("--installClient".to_owned());
    r.push(game_dir.to_owned());
    assert(crate::text::views(r@) =~= seq!["-jar"@, installer@, "--installClient"@, game_dir@]);
    r
}

/// The file name an installer jar is saved under.
pub fn installer_file_name(kind: &str, loader_version: &str) -> (r: String)
    ensures
        r@ == kind@ + "-"@ + loader_version@ + "-installer.jar"@,
{
    let a = cat(kind, "-");
    let b = cat(a.as_str(), loader_version);
    cat(b.as_str(), "-installer.jar")
}

/// The environment variable that points an installer at the game directory's
/// parent: the application-data variable on Windows, the home directory elsewhere.
pub fn installer_home_variable(os: &str) -> (r: &'static str)
    ensures
        os@ == "windows"@ ==> r@ == "APPDATA"@,
        os@ != "windows"@ ==> r@ == "HOME"@,
{
    if str_eq(os, "windows") { "APPDATA" } else { "HOME" }
}

/// The placeholder launcher profile some installers require.
pub fn placeholder_profiles() -> (r: String)
    ensures
        r@ == "{\"profiles\":{}}"@,
{
    "{\"profiles\":{}}".to_owned()
}

} // verus!
