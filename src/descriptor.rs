//! Version descriptors and their inheritance: a loader's thin descriptor
//! augments the engine descriptor it inherits from, parent first and child
//! overriding.

use vstd::prelude::*;
use crate::classpath::contains_string;
use crate::models::{Arguments, ArgumentValue, AssetIndex, Downloads, JavaVersion, Library};
use crate::text::views;

verus! {

/// A version descriptor as stored on disk; every field but the lists may be
/// absent in a descriptor that inherits.
#[derive(Clone, Debug)]
pub struct VersionDescriptor {
    pub id: Option<String>,
    pub main_class: Option<String>,
    pub inherits_from: Option<String>,
    pub version_type: Option<String>,
    pub libraries: Vec<Library>,
    pub arguments: Arguments,
    pub asset_index: Option<AssetIndex>,
    pub assets: Option<String>,
    pub downloads: Option<Downloads>,
    pub java_version: Option<JavaVersion>,
    pub minecraft_arguments: Option<String>,
}

/// The mathematical content of a descriptor.
pub struct DescriptorView {
    pub id: Option<String>,
    pub main_class: Option<String>,
    pub inherits_from: Option<String>,
    pub version_type: Option<String>,
    pub libraries: Seq<Library>,
    pub jvm: Seq<ArgumentValue>,
    pub game: Seq<ArgumentValue>,
    pub asset_index: Option<AssetIndex>,
    pub assets: Option<String>,
    pub downloads: Option<Downloads>,
    pub java_version: Option<JavaVersion>,
    pub minecraft_arguments: Option<String>,
}

impl View for VersionDescriptor {
    type V = DescriptorView;

    open spec fn view(&self) -> DescriptorView {
        DescriptorView {
            id: self.id,
            main_class: self.main_class,
            inherits_from: self.inherits_from,
            version_type: self.version_type,
            libraries: self.libraries@,
            jvm: self.arguments.jvm@,
            game: self.arguments.game@,
            asset_index: self.asset_index,
            assets: self.assets,
            downloads: self.downloads,
            java_version: self.java_version,
            minecraft_arguments: self.minecraft_arguments,
        }
    }
}

/// The child's value where it has one, else the parent's.
pub open spec fn overlay<T>(p: Option<T>, c: Option<T>) -> Option<T> {
    if c is Some {
        c
    } else {
        p
    }
}

/// A child merged over its parent: scalars overridden where the child has
/// them, libraries and arguments concatenated parent first.
pub open spec fn merge_view(p: DescriptorView, c: DescriptorView) -> DescriptorView {
    DescriptorView {
        id: overlay(p.id, c.id),
        main_class: overlay(p.main_class, c.main_class),
        inherits_from: overlay(p.inherits_from, c.inherits_from),
        version_type: overlay(p.version_type, c.version_type),
        libraries: p.libraries + c.libraries,
        jvm: p.jvm + c.jvm,
        game: p.game + c.game,
        asset_index: overlay(p.asset_index, c.asset_index),
        assets: overlay(p.assets, c.assets),
        downloads: overlay(p.downloads, c.downloads),
        java_version: overlay(p.java_version, c.java_version),
        minecraft_arguments: overlay(p.minecraft_arguments, c.minecraft_arguments),
    }
}

/// The views of a list of descriptors.
pub open spec fn chain_views(v: Seq<VersionDescriptor>) -> Seq<DescriptorView> {
    v.map_values(|d: VersionDescriptor| d@)
}

/// An inheritance chain (the requested descriptor first, then its parent,
/// and so on) folded from the root down: each descriptor merged over the
/// merge of its ancestors.
pub open spec fn merged_chain(s: Seq<DescriptorView>) -> DescriptorView
    decreases s.len(),
{
    if s.len() <= 1 {
        s[0]
    } else {
        merge_view(merged_chain(s.drop_first()), s[0])
    }
}

fn pick<T>(p: Option<T>, c: Option<T>) -> (r: Option<T>)
    ensures
        r == overlay(p, c),
{
    match c {
        Some(v) => Some(v),
        None => p,
    }
}

/// Merges a child descriptor over its parent.
pub fn merge_version_json(parent: VersionDescriptor, child: VersionDescriptor) -> (r:
    VersionDescriptor)
    ensures
        r@ == merge_view(parent@, child@),
{
    let VersionDescriptor {
        id: p_id,
        main_class: p_main,
        inherits_from: p_inh,
        version_type: p_type,
        libraries: mut libraries,
        arguments: Arguments { game: mut game, jvm: mut jvm },
        asset_index: p_ai,
        assets: p_assets,
        downloads: p_dl,
        java_version: p_java,
        minecraft_arguments: p_mca,
    } = parent;
    let VersionDescriptor {
        id: c_id,
        main_class: c_main,
        inherits_from: c_inh,
        version_type: c_type,
        libraries: mut c_libs,
        arguments: Arguments { game: mut c_game, jvm: mut c_jvm },
        asset_index: c_ai,
        assets: c_assets,
        downloads: c_dl,
        java_version: c_java,
        minecraft_arguments: c_mca,
    } = child;
    libraries.append(&mut c_libs);
    game.append(&mut c_game);
    jvm.append(&mut c_jvm);
    VersionDescriptor {
        id: pick(p_id, c_id),
        main_class: pick(p_main, c_main),
        inherits_from: pick(p_inh, c_inh),
        version_type: pick(p_type, c_type),
        libraries,
        arguments: Arguments { game, jvm },
        asset_index: pick(p_ai, c_ai),
        assets: pick(p_assets, c_assets),
        downloads: pick(p_dl, c_dl),
        java_version: pick(p_java, c_java),
        minecraft_arguments: pick(p_mca, c_mca),
    }
}

/// Resolves a loaded inheritance chain (requested descriptor first, each
/// next one the parent of the one before) into one merged descriptor;
/// `None` for an empty chain.
pub fn load_merged_version_json(chain: Vec<VersionDescriptor>) -> (r: Option<VersionDescriptor>)
    ensures
        chain@.len() == 0 <==> r is None,
        r matches Some(d) ==> d@ == merged_chain(chain_views(chain@)),
{
    let ghost all = chain_views(chain@);
    let n = chain.len();
    let mut rest = chain;
    let mut acc = match rest.pop() {
        Some(root) => root,
        None => {
            return None;
        },
    };
    proof {
        let s = all.subrange(n - 1, n as int);
        assert(s.len() == 1);
        assert(s[0] == acc@);
    }
    while rest.len() > 0
        invariant
            n == all.len(),
            0 < n,
            rest.len() < n,
            chain_views(rest@) == all.subrange(0, rest.len() as int),
            acc@ == merged_chain(all.subrange(rest.len() as int, n as int)),
        decreases rest.len(),
    {
        let ghost k = rest.len();
        let ghost before = rest@;
        let c = rest.pop().unwrap();
        proof {
            assert(rest@ =~= before.drop_last());
            assert(chain_views(rest@) =~= all.subrange(0, k - 1));
            assert(c == before[k - 1]);
            assert(chain_views(before)[k - 1] == before[k - 1]@);
            assert(all.subrange(0, k as int)[k - 1] == all[k - 1]);
            assert(c@ == all[k - 1]);
            let s = all.subrange(k - 1, n as int);
            assert(s.drop_first() =~= all.subrange(k as int, n as int));
            assert(s[0] == c@);
        }
        acc = merge_version_json(acc, c);
    }
    proof {
        assert(all.subrange(0, n as int) =~= all);
    }
    Some(acc)
}

/// The parent to load next: the descriptor's parent id, unless it was
/// already loaded (a cycle).
pub fn next_parent_id(current: &VersionDescriptor, visited: &[String]) -> (r: Option<String>)
    ensures
        r matches Some(p) ==> current.inherits_from == Some(p) && !views(visited@).contains(p@),
        r is None ==> (current.inherits_from matches Some(p) ==> views(visited@).contains(p@)),
{
    match &current.inherits_from {
        Some(p) => if contains_string(visited, p.as_str()) {
            None
        } else {
            Some(p.clone())
        },
        None => None,
    }
}

/// The main class of the nearest descriptor in the chain that declares one.
pub open spec fn nearest_main_class(s: Seq<DescriptorView>) -> Option<String>
    decreases s.len(),
{
    if s.len() == 0 {
        None
    } else if s[0].main_class is Some {
        s[0].main_class
    } else {
        nearest_main_class(s.drop_first())
    }
}

/// Every library of the chain, the root's first.
pub open spec fn chain_libraries(s: Seq<DescriptorView>) -> Seq<Library>
    decreases s.len(),
{
    if s.len() == 0 {
        Seq::empty()
    } else {
        chain_libraries(s.drop_first()) + s[0].libraries
    }
}

/// Folding a chain of any depth: the merged main class is the requested
/// descriptor's own if it declares one, else the nearest ancestor's; the
/// merged libraries are all the chain's libraries, root first.
pub proof fn lemma_merged_chain(s: Seq<DescriptorView>)
    requires
        s.len() >= 1,
    ensures
        merged_chain(s).main_class == nearest_main_class(s),
        merged_chain(s).libraries == chain_libraries(s),
    decreases s.len(),
{
    if s.len() == 1 {
        assert(s.drop_first().len() == 0);
        assert(nearest_main_class(s.drop_first()) is None);
        assert(chain_libraries(s.drop_first()) == Seq::<Library>::empty());
        assert(chain_libraries(s) =~= s[0].libraries);
    } else {
        lemma_merged_chain(s.drop_first());
    }
}

} // verus!
