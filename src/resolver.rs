//! Resolution of a version id into its inheritance chain of manifests.
use vstd::prelude::*;
use crate::manifest::{copy_opt, declared, is_declared, Library, ManifestLayer};
use crate::text::cat;

verus! {

/// The manifests and client jars that are present under a game root.
pub struct InstalledVersions {
    /// One manifest per installed version.
    pub manifests: Vec<ManifestLayer>,
    /// The ids of the versions whose client jar is on disk.
    pub jars: Vec<String>,
}

/// Why a version could not be resolved.
#[derive(Clone, Debug)]
pub enum ResolveError {
    /// The requested version has no manifest.
    NotInstalled(String),
    /// A manifest inherits from a version that has no manifest.
    MissingParent(String),
    /// The base version's client jar is absent.
    MissingArtifact(String),
    /// No layer of the chain names an entry point.
    MissingEntryPoint,
}

/// A resolved version: its layers, oldest ancestor first, and what they decide together.
pub struct ResolvedGraph {
    pub layers: Vec<ManifestLayer>,
    /// The id of the oldest ancestor, which owns the client jar.
    pub base_id: String,
    pub main_class: String,
    /// The asset index id, empty when no layer names one.
    pub asset_index_id: String,
}

/// The index of the first manifest with id `id`, or -1.
pub open spec fn first_with_id(s: Seq<ManifestLayer>, id: Seq<char>) -> int
    decreases s.len(),
{
    if s.len() == 0 {
        -1
    } else if s.last().id@ == id && first_with_id(s.drop_last(), id) == -1 {
        s.len() - 1
    } else {
        first_with_id(s.drop_last(), id)
    }
}

pub proof fn lemma_first_with_id(s: Seq<ManifestLayer>, id: Seq<char>)
    ensures
        -1 <= first_with_id(s, id) < s.len(),
        first_with_id(s, id) >= 0 ==> s[first_with_id(s, id)].id@ == id,
        first_with_id(s, id) >= 0 ==> forall|j: int| 0 <= j < first_with_id(s, id) ==> s[j].id@ != id,
        first_with_id(s, id) == -1 ==> forall|j: int| 0 <= j < s.len() ==> s[j].id@ != id,
    decreases s.len(),
{
    if s.len() > 0 {
        let t = s.drop_last();
        lemma_first_with_id(t, id);
        assert forall|j: int| 0 <= j < t.len() implies t[j] == s[j] by {}
        if first_with_id(s, id) == -1 {
            assert forall|j: int| 0 <= j < s.len() implies s[j].id@ != id by {
                if j < t.len() {
                    assert(t[j] == s[j]);
                }
            }
        }
    }
}

/// The chain of manifests reached from `id` by following `inherits_from`, oldest
/// first, each looked up among the manifests not yet taken; and the id that could
/// not be found, if the walk stopped at one.
pub open spec fn lineage(store: Seq<ManifestLayer>, id: Seq<char>) -> (Seq<ManifestLayer>, Option<Seq<char>>)
    decreases store.len(),
{
    let i = first_with_id(store, id);
    if 0 <= i < store.len() {
        let m = store[i];
        match m.inherits_from {
            None => (seq![m], None),
            Some(p) => {
                let rest = lineage(store.remove(i), p@);
                (rest.0.push(m), rest.1)
            },
        }
    } else {
        (Seq::empty(), Some(id))
    }
}

/// The entry point: the first declared main class from the newest layer down.
pub open spec fn entry_point(layers: Seq<ManifestLayer>) -> Option<Seq<char>>
    decreases layers.len(),
{
    if layers.len() == 0 {
        None
    } else if declared(layers.last().main_class) {
        Some(layers.last().main_class.unwrap()@)
    } else {
        entry_point(layers.drop_last())
    }
}

/// The asset index id: the first declared one from the newest layer down, or empty.
pub open spec fn asset_index_of(layers: Seq<ManifestLayer>) -> Seq<char>
    decreases layers.len(),
{
    if layers.len() == 0 {
        Seq::empty()
    } else if declared(layers.last().asset_index_id) {
        layers.last().asset_index_id.unwrap()@
    } else {
        asset_index_of(layers.drop_last())
    }
}

/// All libraries of the layers, oldest layer first, each layer in its own order.
pub open spec fn merged_libraries(layers: Seq<ManifestLayer>) -> Seq<Library>
    decreases layers.len(),
{
    if layers.len() == 0 {
        Seq::empty()
    } else {
        merged_libraries(layers.drop_last()) + layers.last().libraries@
    }
}

/// Whether the jar of version `id` is on disk.
pub open spec fn has_jar(jars: Seq<String>, id: Seq<char>) -> bool {
    exists|i: int| 0 <= i < jars.len() && jars[i]@ == id
}

/// The path of a file named after a version inside that version's directory.
pub open spec fn version_file(root: Seq<char>, id: Seq<char>, ext: Seq<char>) -> Seq<char> {
    root + "/versions/"@ + id + "/"@ + id + ext
}

/// The error a resolution ends in, described by its kind (0 not installed,
/// 1 missing parent, 2 missing artifact, 3 missing entry point) and the id it names.
pub open spec fn resolve_failure(store: Seq<ManifestLayer>, jars: Seq<String>, id: Seq<char>) -> Option<(int, Seq<char>)> {
    let chain = lineage(store, id).0;
    let missing = lineage(store, id).1;
    if chain.len() == 0 {
        Some((0, id))
    } else if missing.is_some() {
        Some((1, missing.unwrap()))
    } else if !has_jar(jars, chain[0].id@) {
        Some((2, chain[0].id@))
    } else if entry_point(chain).is_none() {
        Some((3, Seq::empty()))
    } else {
        None
    }
}

/// The kind and id of an error, as `resolve_failure` describes them.
pub open spec fn failure_of(e: ResolveError) -> (int, Seq<char>) {
    match e {
        ResolveError::NotInstalled(s) => (0, s@),
        ResolveError::MissingParent(s) => (1, s@),
        ResolveError::MissingArtifact(s) => (2, s@),
        ResolveError::MissingEntryPoint => (3, Seq::empty()),
    }
}

fn find_manifest(s: &Vec<ManifestLayer>, id: &String) -> (r: Option<usize>)
    ensures
        r.is_none() == (first_with_id(s@, id@) == -1),
        r.is_some() ==> r.unwrap() as int == first_with_id(s@, id@),
{
    proof {
        lemma_first_with_id(s@, id@);
    }
    let mut i: usize = 0;
    while i < s.len()
        invariant
            i <= s@.len(),
            -1 <= first_with_id(s@, id@) < s@.len(),
            first_with_id(s@, id@) >= 0 ==> s@[first_with_id(s@, id@)].id@ == id@,
            first_with_id(s@, id@) >= 0 ==> forall|j: int| 0 <= j < first_with_id(s@, id@) ==> s@[j].id@ != id@,
            first_with_id(s@, id@) == -1 ==> forall|j: int| 0 <= j < s@.len() ==> s@[j].id@ != id@,
            forall|j: int| 0 <= j < i ==> s@[j].id@ != id@,
        decreases s@.len() - i,
    {
        if s[i].id.eq(id) {
            return Some(i);
        }
        i += 1;
    }
    None
}

fn jar_present(jars: &Vec<String>, id: &String) -> (r: bool)
    ensures
        r == has_jar(jars@, id@),
{
    let mut i: usize = 0;
    while i < jars.len()
        invariant
            i <= jars@.len(),
            forall|j: int| 0 <= j < i ==> jars@[j]@ != id@,
        decreases jars@.len() - i,
    {
        if jars[i].eq(id) {
            return true;
        }
        i += 1;
    }
    false
}

/// The entry point of layers given oldest first: the main class the newest
/// declaring layer names.
pub fn chain_entry_point(layers: &Vec<ManifestLayer>) -> (r: Option<String>)
    ensures
        r.is_some() == entry_point(layers@).is_some(),
        r matches Some(c) ==> entry_point(layers@) == Some(c@),
{
    let mut k: usize = layers.len();
    assert(layers@.subrange(0, k as int) =~= layers@);
    while k > 0
        invariant
            k <= layers@.len(),
            entry_point(layers@) == entry_point(layers@.subrange(0, k as int)),
        decreases k,
    {
        let ghost pre = layers@.subrange(0, k as int);
        assert(pre.drop_last() =~= layers@.subrange(0, k - 1));
        assert(pre.last() == layers@[k - 1]);
        if is_declared(&layers[k - 1].main_class) {
            return copy_opt(&layers[k - 1].main_class);
        }
        k -= 1;
    }
    assert(layers@.subrange(0, 0) =~= Seq::<ManifestLayer>::empty());
    None
}

impl ResolvedGraph {
    /// The path of the client jar, owned by the oldest layer.
    pub fn base_jar_path(&self, root: &str) -> (r: String)
        ensures
            r@ == version_file(root@, self.base_id@, ".jar"@),
    {
        let a = cat(root, "/versions/");
        let b = cat(a.as_str(), self.base_id.as_str());
        let c = cat(b.as_str(), "/");
        let d = cat(c.as_str(), self.base_id.as_str());
        let e = cat(d.as_str(), ".jar");
        assert(e@ =~= version_file(root@, self.base_id@, ".jar"@));
        e
    }
}

/// Resolves `id` against the installed manifests: walks `inherits_from` to the
/// base version, requires the base's client jar and an entry point, and returns
/// the layers oldest first with the entry point and asset index that the newest
/// declaring layer gives.
pub fn resolve(store: InstalledVersions, id: &str) -> (r: Result<ResolvedGraph, ResolveError>)
    ensures
        r.is_err() == resolve_failure(store.manifests@, store.jars@, id@).is_some(),
        r matches Err(e) ==> failure_of(e) == resolve_failure(store.manifests@, store.jars@, id@).unwrap(),
        r matches Ok(g) ==> {
            let chain = lineage(store.manifests@, id@).0;
            &&& g.layers@ == chain
            &&& g.base_id@ == chain[0].id@
            &&& Some(g.main_class@) == entry_point(chain)
            &&& g.asset_index_id@ == asset_index_of(chain)
        },
{
    let ghost orig = store.manifests@;
    let InstalledVersions { manifests, jars } = store;
    let mut manifests = manifests;
    let mut layers: Vec<ManifestLayer> = Vec::new();
    let mut cur: String = id.to_owned();
    assert(layers@ + lineage(manifests@, cur@).0 =~= lineage(manifests@, cur@).0);
    loop
        invariant_except_break
            orig == store.manifests@,
            jars@ == store.jars@,
            lineage(orig, id@).0 == lineage(manifests@, cur@).0 + layers@,
            lineage(orig, id@).1 == lineage(manifests@, cur@).1,
            layers@.len() == 0 ==> cur@ == id@ && manifests@ == orig,
        ensures
            orig == store.manifests@,
            jars@ == store.jars@,
            lineage(orig, id@).0 == layers@,
            lineage(orig, id@).1.is_none(),
            layers@.len() > 0,
        decreases manifests@.len(),
    {
        proof {
            lemma_first_with_id(manifests@, cur@);
        }
        match find_manifest(&manifests, &cur) {
            None => {
                assert(lineage(manifests@, cur@).0 =~= Seq::<ManifestLayer>::empty());
                assert(lineage(orig, id@).0 =~= layers@);
                assert(lineage(orig, id@).1 == Some(cur@));
                if layers.len() == 0 {
                    assert(lineage(orig, id@).0.len() == 0);
                    assert(resolve_failure(orig, jars@, id@) == Some((0int, id@)));
                    return Err(ResolveError::NotInstalled(cur));
                } else {
                    assert(lineage(orig, id@).0.len() > 0);
                    assert(resolve_failure(orig, jars@, id@) == Some((1int, cur@)));
                    return Err(ResolveError::MissingParent(cur));
                }
            },
            Some(i) => {
                let ghost before = manifests@;
                let ghost old_layers = layers@;
                let m = manifests.remove(i);
                let next = copy_opt(&m.inherits_from);
                layers.insert(0, m);
                match next {
                    None => {
                        assert(lineage(before, cur@).0 =~= seq![m]);
                        assert(lineage(before, cur@).1.is_none());
                        assert(lineage(orig, id@).0 =~= layers@);
                        break ;
                    },
                    Some(p) => {
                        assert(before.remove(i as int) == manifests@);
                        assert(lineage(before, cur@).0 == lineage(manifests@, p@).0.push(m));
                        assert(lineage(orig, id@).0 =~= lineage(manifests@, p@).0 + layers@);
                        cur = p;
                    },
                }
            },
        }
    }
    let ghost chain = lineage(orig, id@).0;
    assert(chain == layers@);
    let base_id = layers[0].id.clone();
    if !jar_present(&jars, &base_id) {
        return Err(ResolveError::MissingArtifact(base_id));
    }
    let mut main: Option<String> = None;
    let mut asset = String::new();
    let mut asset_found = false;
    let mut k: usize = layers.len();
    assert(chain.subrange(0, k as int) =~= chain);
    while k > 0
        invariant
            k <= layers@.len(),
            layers@ == chain,
            chain == lineage(store.manifests@, id@).0,
            lineage(store.manifests@, id@).1.is_none(),
            jars@ == store.jars@,
            base_id@ == chain[0].id@,
            has_jar(jars@, chain[0].id@),
            !asset_found ==> asset@ == Seq::<char>::empty(),
            main.is_none() ==> entry_point(chain) == entry_point(chain.subrange(0, k as int)),
            main.is_some() ==> entry_point(chain) == Some(main.unwrap()@),
            !asset_found ==> asset_index_of(chain) == asset_index_of(chain.subrange(0, k as int)),
            asset_found ==> asset_index_of(chain) == asset@,
        decreases k,
    {
        let ghost pre = chain.subrange(0, k as int);
        assert(pre.drop_last() =~= chain.subrange(0, k - 1));
        assert(pre.last() == layers@[k - 1]);
        if main.is_none() && is_declared(&layers[k - 1].main_class) {
            main = copy_opt(&layers[k - 1].main_class);
        }
        if !asset_found && is_declared(&layers[k - 1].asset_index_id) {
            match &layers[k - 1].asset_index_id {
                Some(a) => {
                    asset = a.clone();
                },
                None => {},
            }
            asset_found = true;
        }
        k -= 1;
    }
    assert(chain.subrange(0, 0) =~= Seq::<ManifestLayer>::empty());
    match main {
        None => Err(ResolveError::MissingEntryPoint),
        Some(main_class) => Ok(ResolvedGraph { layers, base_id, main_class, asset_index_id: asset }),
    }
}

/// A manifest that inherits from nothing resolves to itself alone: the graph's
/// base is its own version, so the client jar is its own, and the merged
/// libraries are exactly its declared ones.
pub proof fn lemma_standalone_manifest(store: Seq<ManifestLayer>, id: Seq<char>)
    requires
        first_with_id(store, id) >= 0,
        store[first_with_id(store, id)].inherits_from.is_none(),
    ensures
        lineage(store, id).0 == seq![store[first_with_id(store, id)]],
        lineage(store, id).1.is_none(),
        lineage(store, id).0[0].id@ == id,
        merged_libraries(lineage(store, id).0) == store[first_with_id(store, id)].libraries@,
{
    lemma_first_with_id(store, id);
    let m = store[first_with_id(store, id)];
    let chain = seq![m];
    assert(chain.drop_last() =~= Seq::<ManifestLayer>::empty());
    assert(chain.last() == m);
    assert(merged_libraries(chain.drop_last()) == Seq::<Library>::empty());
    assert(merged_libraries(chain) =~= Seq::<Library>::empty() + m.libraries@);
}

/// Each layer of a resolved chain inherits from the layer before it; the newest
/// layer is the requested version, and a complete chain starts at a layer that
/// inherits from nothing.
pub proof fn lemma_lineage_links(store: Seq<ManifestLayer>, id: Seq<char>)
    ensures
        lineage(store, id).0.len() > 0 ==> lineage(store, id).0.last().id@ == id,
        lineage(store, id).0.len() > 0 && lineage(store, id).1.is_none() ==> lineage(store, id).0[0].inherits_from.is_none(),
        forall|k: int|
            0 < k < lineage(store, id).0.len() ==> (#[trigger] lineage(store, id).0[k]).inherits_from.is_some()
                && lineage(store, id).0[k].inherits_from.unwrap()@ == lineage(store, id).0[k - 1].id@,
    decreases store.len(),
{
    lemma_first_with_id(store, id);
    let i = first_with_id(store, id);
    if 0 <= i < store.len() {
        let m = store[i];
        match m.inherits_from {
            None => {},
            Some(p) => {
                lemma_lineage_links(store.remove(i), p@);
                let rest = lineage(store.remove(i), p@);
                let chain = rest.0.push(m);
                assert forall|k: int| 0 < k < chain.len() implies (#[trigger] chain[k]).inherits_from.is_some()
                    && chain[k].inherits_from.unwrap()@ == chain[k - 1].id@ by {
                    if k == chain.len() - 1 {
                        assert(chain[k] == m);
                        assert(chain[k - 1] == rest.0.last());
                    } else {
                        assert(chain[k] == rest.0[k]);
                        assert(chain[k - 1] == rest.0[k - 1]);
                    }
                }
                if rest.0.len() > 0 && rest.1.is_none() {
                    assert(chain[0] == rest.0[0]);
                }
            },
        }
    }
}

/// The merged libraries of three layers are the first's, then the second's,
/// then the third's.
proof fn lemma_three_layer_merge(layers: Seq<ManifestLayer>)
    requires
        layers.len() == 3,
    ensures
        merged_libraries(layers) == layers[0].libraries@ + layers[1].libraries@ + layers[2].libraries@,
        merged_libraries(layers).len() == layers[0].libraries@.len() + layers[1].libraries@.len()
            + layers[2].libraries@.len(),
{
    let l1 = layers.drop_last();
    let l0 = l1.drop_last();
    assert(l0.drop_last() =~= Seq::<ManifestLayer>::empty());
    assert(l0.last() == layers[0]);
    assert(l1.last() == layers[1]);
    assert(layers.last() == layers[2]);
    assert(merged_libraries(l0.drop_last()) == Seq::<Library>::empty());
    assert(merged_libraries(l0) =~= layers[0].libraries@);
    assert(merged_libraries(l1) =~= layers[0].libraries@ + layers[1].libraries@);
}

/// A three-layer chain (child inherits parent inherits grandparent) resolves
/// with the grandparent first and the child last, and its merged libraries are
/// the grandparent's, then the parent's, then the child's, so their count is the
/// sum of the three layers' counts.
pub proof fn lemma_three_layer_chain(store: Seq<ManifestLayer>, id: Seq<char>)
    requires
        lineage(store, id).0.len() == 3,
    ensures
        ({
            let c = lineage(store, id).0;
            &&& c[2].id@ == id
            &&& c[2].inherits_from.is_some() && c[2].inherits_from.unwrap()@ == c[1].id@
            &&& c[1].inherits_from.is_some() && c[1].inherits_from.unwrap()@ == c[0].id@
            &&& merged_libraries(c) == c[0].libraries@ + c[1].libraries@ + c[2].libraries@
            &&& merged_libraries(c).len() == c[0].libraries@.len() + c[1].libraries@.len() + c[2].libraries@.len()
        }),
{
    lemma_lineage_links(store, id);
    let c = lineage(store, id).0;
    assert(c.last() == c[2]);
    assert(c[2].inherits_from.is_some() && c[2].inherits_from.unwrap()@ == c[1].id@);
    assert(c[1].inherits_from.is_some() && c[1].inherits_from.unwrap()@ == c[0].id@);
    lemma_three_layer_merge(c);
}

} // verus!
