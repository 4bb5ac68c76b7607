//! The layout of the game root and of a version's directories.
use vstd::prelude::*;
use crate::text::{cat, str_eq, views};

verus! {

/// The game root a chosen directory stands for: a `versions` directory or a
/// version directory inside one stands for the root above it.
pub open spec fn game_root_of(c: Seq<Seq<char>>) -> Seq<Seq<char>> {
    if c.len() >= 1 && c.last() == "versions"@ {
        c.drop_last()
    } else if c.len() >= 2 && c[c.len() - 2] == "versions"@ {
        c.subrange(0, c.len() - 2)
    } else {
        c
    }
}

/// The game root as path components: the chosen directory normalised, or the
/// default root when none was chosen.
pub fn get_game_root(default_root: Vec<String>, custom: Option<Vec<String>>) -> (r: Vec<String>)
    ensures
        custom is None ==> views(r@) == views(default_root@),
        custom matches Some(c) ==> views(r@) == game_root_of(views(c@)),
{
    match custom {
        None => default_root,
        Some(c) => {
            let n = c.len();
            let ghost vc = views(c@);
            if n >= 1 && str_eq(c[n - 1].as_str(), "versions") {
                let mut c = c;
                c.pop();
                assert(views(c@) =~= vc.drop_last());
                c
            } else if n >= 2 && str_eq(c[n - 2].as_str(), "versions") {
                let mut c = c;
                c.pop();
                c.pop();
                assert(views(c@) =~= vc.subrange(0, n - 2));
                c
            } else {
                c
            }
        },
    }
}

/// A version's directory.
pub open spec fn version_dir(root: Seq<char>, id: Seq<char>) -> Seq<char> {
    root + "/versions/"@ + id
}

/// A version's directory under the game root.
pub fn get_version_dir(root: &str, version_id: &str) -> (r: String)
    ensures
        r@ == version_dir(root@, version_id@),
{
    let a = cat(root, "/versions/");
    cat(a.as_str(), version_id)
}

/// The directory that holds a version's mods, configuration and saves: its own
/// directory when isolated, else the game root.
pub open spec fn working_dir(root: Seq<char>, id: Seq<char>, isolated: bool) -> Seq<char> {
    if isolated { version_dir(root, id) } else { root }
}

/// The working directory of a version.
pub fn get_game_working_dir(root: &str, version_id: &str, isolated: bool) -> (r: String)
    ensures
        r@ == working_dir(root@, version_id@, isolated),
{
    if isolated {
        get_version_dir(root, version_id)
    } else {
        root.to_owned()
    }
}

fn sub_dir(root: &str, version_id: &str, isolated: bool, name: &str) -> (r: String)
    ensures
        r@ == working_dir(root@, version_id@, isolated) + "/"@ + name@,
{
    let w = get_game_working_dir(root, version_id, isolated);
    let a = cat(w.as_str(), "/");
    cat(a.as_str(), name)
}

/// The mods directory of a version.
pub fn get_mods_dir(root: &str, version_id: &str, isolated: bool) -> (r: String)
    ensures
        r@ == working_dir(root@, version_id@, isolated) + "/mods"@,
{
    let r = sub_dir(root, version_id, isolated, "mods");
    assert(r@ =~= working_dir(root@, version_id@, isolated) + "/mods"@) by {
        reveal_strlit("/mods");
        reveal_strlit("/");
        reveal_strlit("mods");
    }
    r
}

/// The configuration directory of a version.
pub fn get_config_dir(root: &str, version_id: &str, isolated: bool) -> (r: String)
    ensures
        r@ == working_dir(root@, version_id@, isolated) + "/"@ + "config"@,
{
    sub_dir(root, version_id, isolated, "config")
}

/// The saves directory of a version.
pub fn get_saves_dir(root: &str, version_id: &str, isolated: bool) -> (r: String)
    ensures
        r@ == working_dir(root@, version_id@, isolated) + "/"@ + "saves"@,
{
    sub_dir(root, version_id, isolated, "saves")
}

/// The resource-pack directory of a version.
pub fn get_resourcepacks_dir(root: &str, version_id: &str, isolated: bool) -> (r: String)
    ensures
        r@ == working_dir(root@, version_id@, isolated) + "/"@ + "resourcepacks"@,
{
    sub_dir(root, version_id, isolated, "resourcepacks")
}

/// The shader-pack directory of a version.
pub fn get_shaderpacks_dir(root: &str, version_id: &str, isolated: bool) -> (r: String)
    ensures
        r@ == working_dir(root@, version_id@, isolated) + "/"@ + "shaderpacks"@,
{
    sub_dir(root, version_id, isolated, "shaderpacks")
}

} // verus!
