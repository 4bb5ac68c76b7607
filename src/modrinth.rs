//! Queries against the mod-search service.
use vstd::prelude::*;
use crate::text::{cat, join, joined, str_eq, views};

verus! {

/// One page of search hits.
#[derive(Clone, Debug)]
pub struct SearchResult {
    pub hits: Vec<ProjectHit>,
    pub offset: u32,
    pub limit: u32,
    pub total_hits: u32,
}

/// One search hit.
#[derive(Clone, Debug)]
pub struct ProjectHit {
    pub project_id: String,
    pub project_type: String,
    pub title: String,
    pub description: String,
    pub icon_url: Option<String>,
    pub author: String,
    pub follows: u32,
    pub downloads: u32,
}

/// One published version of a project.
#[derive(Clone, Debug)]
pub struct ProjectVersion {
    pub id: String,
    pub project_id: String,
    pub name: String,
    pub version_number: String,
    pub game_versions: Vec<String>,
    pub loaders: Vec<String>,
    pub files: Vec<VersionFile>,
    pub dependencies: Option<Vec<VersionDependency>>,
}

/// A dependency of a project version: required, optional, incompatible or embedded.
#[derive(Clone, Debug)]
pub struct VersionDependency {
    pub version_id: Option<String>,
    pub project_id: Option<String>,
    pub file_name: Option<String>,
    pub dependency_type: String,
}

/// A file of a project version.
#[derive(Clone, Debug)]
pub struct VersionFile {
    pub url: String,
    pub filename: String,
    pub primary: bool,
}

/// A project's page.
#[derive(Clone, Debug)]
pub struct Project {
    pub id: String,
    pub slug: String,
    pub project_type: String,
    pub team: String,
    pub title: String,
    pub description: String,
    pub body: String,
    pub body_url: Option<String>,
    pub published: String,
    pub updated: String,
    pub approved: Option<String>,
    pub status: String,
    pub client_side: String,
    pub server_side: String,
    pub downloads: u32,
    pub followers: u32,
    pub categories: Vec<String>,
    pub versions: Vec<String>,
    pub icon_url: Option<String>,
    pub issues_url: Option<String>,
    pub source_url: Option<String>,
    pub wiki_url: Option<String>,
    pub discord_url: Option<String>,
    pub donation_urls: Option<Vec<DonationUrl>>,
    pub gallery: Option<Vec<GalleryImage>>,
}

/// A donation link of a project.
#[derive(Clone, Debug)]
pub struct DonationUrl {
    pub id: String,
    pub platform: String,
    pub url: String,
}

/// A gallery image of a project.
#[derive(Clone, Debug)]
pub struct GalleryImage {
    pub url: String,
    pub featured: bool,
    pub title: Option<String>,
    pub description: Option<String>,
    pub created: String,
}

/// A game version known to the service.
#[derive(Clone, Debug)]
pub struct GameVersionTag {
    pub version: String,
    pub version_type: String,
    pub date: String,
    pub major: bool,
}

/// The search facets: the project type, then the game version and the loader
/// when given and not empty, each a one-element group.
pub open spec fn facet_groups(project_type: Seq<char>, version: Option<Seq<char>>, loader: Option<Seq<char>>) -> Seq<Seq<char>> {
    let a = seq!["[\"project_type:"@ + project_type + "\"]"@];
    let b = match version {
        Some(v) => if v.len() > 0 { a.push("[\"versions:"@ + v + "\"]"@) } else { a },
        None => a,
    };
    match loader {
        Some(l) => if l.len() > 0 { b.push("[\"categories:"@ + l + "\"]"@) } else { b },
        None => b,
    }
}

fn group(prefix: &str, value: &str) -> (r: String)
    ensures
        r@ == prefix@ + value@ + "\"]"@,
{
    let a = cat(prefix, value);
    cat(a.as_str(), "\"]")
}

/// The facet filter of a search, as the service expects it.
pub fn search_facets(project_type: &str, game_version: &Option<String>, loader: &Option<String>) -> (r: String)
    ensures
        r@ == "["@ + joined(facet_groups(
            project_type@,
            crate::arguments::opt_view(*game_version),
            crate::arguments::opt_view(*loader),
        ), ","@) + "]"@,
{
    let mut groups: Vec<String> = Vec::new();
    groups.push(group("[\"project_type:", project_type));
    match game_version {
        Some(v) => if !v.as_str().is_empty() {
            groups.push(group("[\"versions:", v.as_str()));
        },
        None => {},
    }
    match loader {
        Some(l) => if !l.as_str().is_empty() {
            groups.push(group("[\"categories:", l.as_str()));
        },
        None => {},
    }
    assert(views(groups@) =~= facet_groups(
        project_type@,
        crate::arguments::opt_view(*game_version),
        crate::arguments::opt_view(*loader),
    ));
    let inner = join(&groups, ",");
    let a = cat("[", inner.as_str());
    cat(a.as_str(), "]")
}

/// The release versions among the tags, in order.
pub open spec fn releases(tags: Seq<GameVersionTag>) -> Seq<Seq<char>>
    decreases tags.len(),
{
    if tags.len() == 0 {
        Seq::empty()
    } else if tags.last().version_type@ == "release"@ {
        releases(tags.drop_last()).push(tags.last().version@)
    } else {
        releases(tags.drop_last())
    }
}

/// Keeps the release versions of the service's game-version list.
pub fn release_versions(tags: &Vec<GameVersionTag>) -> (r: Vec<String>)
    ensures
        views(r@) == releases(tags@),
{
    let mut out: Vec<String> = Vec::new();
    let mut i: usize = 0;
    assert(tags@.subrange(0, 0).len() == 0);
    assert(views(out@) =~= Seq::<Seq<char>>::empty());
    while i < tags.len()
        invariant
            i <= tags@.len(),
            views(out@) == releases(tags@.subrange(0, i as int)),
        decreases tags@.len() - i,
    {
        let ghost next = tags@.subrange(0, i + 1);
        assert(next.drop_last() =~= tags@.subrange(0, i as int));
        assert(next.last() == tags@[i as int]);
        if str_eq(tags[i].version_type.as_str(), "release") {
            let ghost before = out@;
            let v = tags[i].version.clone();
            out.push(v);
            assert(views(out@) =~= views(before).push(v@));
        }
        i += 1;
    }
    assert(tags@.subrange(0, i as int) =~= tags@);
    out
}

/// Where a downloaded mod goes: the version's own mods directory when isolated,
/// else the shared one.
pub fn mod_target_dir(root: &str, version_id: &str, isolated: bool) -> (r: String)
    ensures
        r@ == crate::version_path::working_dir(root@, version_id@, isolated) + "/"@ + "mods"@,
{
    let w = crate::version_path::get_game_working_dir(root, version_id, isolated);
    let a = cat(w.as_str(), "/");
    cat(a.as_str(), "mods")
}

/// The service's address of a project.
pub fn project_url(project_id: &str) -> (r: String)
    ensures
        r@ == "https://api.modrinth.com/v2/project/"@ + project_id@,
{
    cat("https://api.modrinth.com/v2/project/", project_id)
}

/// The service's address of a project's versions.
pub fn project_versions_url(project_id: &str) -> (r: String)
    ensures
        r@ == "https://api.modrinth.com/v2/project/"@ + project_id@ + "/version"@,
{
    let a = project_url(project_id);
    cat(a.as_str(), "/version")
}

/// The sort order of a search: the caller's, else relevance.
pub fn sort_index(index: &Option<String>) -> (r: String)
    ensures
        r@ == (match index {
            Some(i) => i@,
            None => "relevance"@,
        }),
{
    match index {
        Some(i) => i.clone(),
        None => "relevance".to_owned(),
    }
}

} // verus!
