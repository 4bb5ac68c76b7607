//! Maven coordinates and the library paths derived from them.
use vstd::prelude::*;
use crate::text::{cat, replace_char, split_char, split_on, swap_char, views};

verus! {

/// The parts of a coordinate `group:artifact:version[:classifier]`, with the
/// group's dots turned into path separators; absent when there are fewer than
/// three parts.
pub struct Coordinate {
    pub group_path: String,
    pub artifact: String,
    pub version: String,
    pub classifier: Option<String>,
}

/// The parts of `name` split at `:`.
pub open spec fn coord_parts(name: Seq<char>) -> Seq<Seq<char>> {
    split_on(name, ':')
}

/// Whether `name` has at least group, artifact and version.
pub open spec fn is_coordinate(name: Seq<char>) -> bool {
    coord_parts(name).len() >= 3
}

/// The group of a coordinate as a directory path.
pub open spec fn group_dir(name: Seq<char>) -> Seq<char> {
    swap_char(coord_parts(name)[0], '.', '/')
}

/// The directory of a coordinate under the library root: `group/artifact/version`.
pub open spec fn coord_dir(name: Seq<char>) -> Seq<char> {
    group_dir(name) + "/"@ + coord_parts(name)[1] + "/"@ + coord_parts(name)[2]
}

/// The conventional path of a coordinate's main jar: `group/artifact/version/artifact-version.jar`.
pub open spec fn jar_path(name: Seq<char>) -> Seq<char> {
    coord_dir(name) + "/"@ + coord_parts(name)[1] + "-"@ + coord_parts(name)[2] + ".jar"@
}

/// The path of the jar a coordinate names, its classifier included when it has one.
pub open spec fn classified_jar_path(name: Seq<char>) -> Seq<char> {
    if coord_parts(name).len() > 3 {
        coord_dir(name) + "/"@ + coord_parts(name)[1] + "-"@ + coord_parts(name)[2] + "-"@
            + coord_parts(name)[3] + ".jar"@
    } else {
        jar_path(name)
    }
}

/// The path of a classifier-specific jar of a coordinate: `.../artifact-version-key.jar`.
pub open spec fn keyed_jar_path(name: Seq<char>, key: Seq<char>) -> Seq<char> {
    coord_dir(name) + "/"@ + coord_parts(name)[1] + "-"@ + coord_parts(name)[2] + "-"@ + key + ".jar"@
}

impl Coordinate {
    /// Splits a maven coordinate; `None` when it has fewer than three parts.
    pub fn parse(name: &str) -> (r: Option<Coordinate>)
        ensures
            r.is_some() == is_coordinate(name@),
            r matches Some(c) ==> {
                &&& c.group_path@ == group_dir(name@)
                &&& c.artifact@ == coord_parts(name@)[1]
                &&& c.version@ == coord_parts(name@)[2]
                &&& c.classifier.is_some() == (coord_parts(name@).len() > 3)
                &&& c.classifier matches Some(k) ==> k@ == coord_parts(name@)[3]
            },
    {
        let parts = split_char(name, ':');
        assert(views(parts@).len() == parts@.len());
        if parts.len() < 3 {
            return None;
        }
        assert(views(parts@)[0] == parts@[0]@);
        assert(views(parts@)[1] == parts@[1]@);
        assert(views(parts@)[2] == parts@[2]@);
        let group_path = replace_char(parts[0].as_str(), '.', '/');
        let classifier = if parts.len() > 3 {
            assert(views(parts@)[3] == parts@[3]@);
            Some(parts[3].clone())
        } else {
            None
        };
        Some(Coordinate { group_path, artifact: parts[1].clone(), version: parts[2].clone(), classifier })
    }

    /// `group/artifact/version`.
    pub fn dir(&self) -> (r: String)
        ensures
            r@ == self.group_path@ + "/"@ + self.artifact@ + "/"@ + self.version@,
    {
        let a = cat(self.group_path.as_str(), "/");
        let b = cat(a.as_str(), self.artifact.as_str());
        let c = cat(b.as_str(), "/");
        cat(c.as_str(), self.version.as_str())
    }

    /// `group/artifact/version/artifact-version` followed by `suffix`.
    pub fn file_with(&self, suffix: &str) -> (r: String)
        ensures
            r@ == self.group_path@ + "/"@ + self.artifact@ + "/"@ + self.version@ + "/"@ + self.artifact@
                + "-"@ + self.version@ + suffix@,
    {
        let d = self.dir();
        let a = cat(d.as_str(), "/");
        let b = cat(a.as_str(), self.artifact.as_str());
        let c = cat(b.as_str(), "-");
        let e = cat(c.as_str(), self.version.as_str());
        cat(e.as_str(), suffix)
    }
}

/// The conventional jar path of a coordinate, if `name` is one.
pub fn maven_jar_path(name: &str) -> (r: Option<String>)
    ensures
        r.is_some() == is_coordinate(name@),
        r matches Some(p) ==> p@ == jar_path(name@),
{
    match Coordinate::parse(name) {
        None => None,
        Some(c) => {
            let p = c.file_with(".jar");
            assert(p@ =~= jar_path(name@));
            Some(p)
        },
    }
}

/// The path of the jar a coordinate names, classifier included, if `name` is one.
pub fn classified_path(name: &str) -> (r: Option<String>)
    ensures
        r.is_some() == is_coordinate(name@),
        r matches Some(p) ==> p@ == classified_jar_path(name@),
{
    match Coordinate::parse(name) {
        None => None,
        Some(c) => {
            match &c.classifier {
                Some(k) => {
                    let a = cat("-", k.as_str());
                    let b = cat(a.as_str(), ".jar");
                    let p = c.file_with(b.as_str());
                    assert(p@ =~= classified_jar_path(name@));
                    Some(p)
                },
                None => {
                    let p = c.file_with(".jar");
                    assert(p@ =~= classified_jar_path(name@));
                    Some(p)
                },
            }
        },
    }
}

/// The path of a classifier-specific jar of a coordinate, if `name` is one.
pub fn keyed_path(name: &str, key: &str) -> (r: Option<String>)
    ensures
        r.is_some() == is_coordinate(name@),
        r matches Some(p) ==> p@ == keyed_jar_path(name@, key@),
{
    match Coordinate::parse(name) {
        None => None,
        Some(c) => {
            let a = cat("-", key);
            let b = cat(a.as_str(), ".jar");
            let p = c.file_with(b.as_str());
            assert(p@ =~= keyed_jar_path(name@, key@));
            Some(p)
        },
    }
}

} // verus!
