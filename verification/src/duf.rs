//! Plain-data model of a DAZ user file (DUF): the scene graph references
//! that asset resolution reads. A reference beginning with `#` points into
//! the file itself; any other reference names an external file.

use vstd::prelude::*;

use crate::dsf::AssetInfo;

verus! {

/// One entry of an image's map list: where the image data lives.
#[derive(Debug)]
pub struct ImageMap {
    pub url: String,
    pub label: String,
}

/// One image of the image library.
#[derive(Debug)]
pub struct ImageRefs {
    pub id: String,
    pub name: String,
    pub map: Vec<ImageMap>,
}

/// A node instanced by the scene, by reference to its asset.
#[derive(Debug)]
pub struct SceneNode {
    pub id: String,
    pub url: String,
    pub name: String,
    pub label: String,
    pub parent: Option<String>,
}

/// A material applied by the scene, by reference to its asset.
#[derive(Debug)]
pub struct MaterialNode {
    pub id: Option<String>,
    pub url: String,
    pub geometry: Option<String>,
    pub groups: Vec<String>,
    pub uv_set: Option<String>,
}

/// The scene block: instanced nodes and materials.
#[derive(Debug)]
pub struct Scene {
    pub nodes: Option<Vec<SceneNode>>,
    pub materials: Option<Vec<MaterialNode>>,
}

/// A DAZ user file.
#[derive(Debug)]
pub struct DUF {
    pub file_version: String,
    pub asset_info: AssetInfo,
    pub image_library: Option<Vec<ImageRefs>>,
    pub scene: Scene,
}

/// A reference that starts with `#` points inside the containing file.
pub open spec fn is_internal_ref(u: Seq<char>) -> bool {
    u.len() > 0 && u[0] == '#'
}

/// The urls of the scene's node references, in order.
pub open spec fn node_urls(nodes: Option<Vec<SceneNode>>) -> Seq<Seq<char>> {
    match nodes {
        Some(v) => v@.map_values(|n: SceneNode| n.url@),
        None => Seq::empty(),
    }
}

/// The urls of the scene's material references, in order.
pub open spec fn material_urls(materials: Option<Vec<MaterialNode>>) -> Seq<Seq<char>> {
    match materials {
        Some(v) => v@.map_values(|m: MaterialNode| m.url@),
        None => Seq::empty(),
    }
}

/// Every url the scene references: nodes first, then materials.
pub open spec fn scene_urls(duf: DUF) -> Seq<Seq<char>> {
    node_urls(duf.scene.nodes) + material_urls(duf.scene.materials)
}

/// The urls of one image's map list, in order.
pub open spec fn image_map_urls(image: ImageRefs) -> Seq<Seq<char>> {
    image.map@.map_values(|m: ImageMap| m.url@)
}

/// Every url of the image library, image by image, in order.
pub open spec fn image_urls(library: Seq<ImageRefs>) -> Seq<Seq<char>>
    decreases library.len(),
{
    if library.len() == 0 {
        Seq::empty()
    } else {
        image_map_urls(library[0]) + image_urls(library.skip(1))
    }
}

proof fn lemma_filter_singleton<A>(x: A, p: spec_fn(A) -> bool)
    ensures
        seq![x].filter(p) == if p(x) {
            seq![x]
        } else {
            Seq::<A>::empty()
        },
{
    reveal_with_fuel(Seq::filter, 2);
    assert(seq![x].drop_last() =~= Seq::<A>::empty());
    if p(x) {
        assert(seq![x].filter(p) =~= seq![x]);
    } else {
        assert(seq![x].filter(p) =~= Seq::<A>::empty());
    }
}

/// Whether `url` names a location inside the containing file.
fn url_is_internal(url: &String) -> (b: bool)
    ensures
        b == is_internal_ref(url@),
{
    let n = url.as_str().unicode_len();
    n > 0 && url.as_str().get_char(0) == '#'
}

impl DUF {
    /// Partition every url the scene references into external file
    /// references and in-file references, each side in scene order
    /// (nodes first, then materials).
    pub fn get_file_refs(&self) -> (r: (Vec<String>, Vec<String>))
        ensures
            r.0@.map_values(|s: String| s@) == scene_urls(*self).filter(
                |u: Seq<char>| !is_internal_ref(u),
            ),
            r.1@.map_values(|s: String| s@) == scene_urls(*self).filter(
                |u: Seq<char>| is_internal_ref(u),
            ),
    {
        let mut external_refs: Vec<String> = Vec::new();
        let mut in_file_refs: Vec<String> = Vec::new();
        let ghost nurls = node_urls(self.scene.nodes);
        let ghost murls = material_urls(self.scene.materials);
        proof {
            assert(nurls.take(0) =~= Seq::<Seq<char>>::empty());
            assert(Seq::<Seq<char>>::empty().filter(|u: Seq<char>| !is_internal_ref(u)) =~= Seq::<Seq<char>>::empty());
            assert(Seq::<Seq<char>>::empty().filter(|u: Seq<char>| is_internal_ref(u)) =~= Seq::<Seq<char>>::empty());
            assert(external_refs@.map_values(|s: String| s@) =~= Seq::<Seq<char>>::empty());
            assert(in_file_refs@.map_values(|s: String| s@) =~= Seq::<Seq<char>>::empty());
        }
        if let Some(scene_nodes) = &self.scene.nodes {
            let mut i: usize = 0;
            while i < scene_nodes.len()
                invariant
                    i <= scene_nodes@.len(),
                    nurls == node_urls(Some(*scene_nodes)),
                    nurls.len() == scene_nodes@.len(),
                    external_refs@.map_values(|s: String| s@) == nurls.take(i as int).filter(
                        |u: Seq<char>| !is_internal_ref(u),
                    ),
                    in_file_refs@.map_values(|s: String| s@) == nurls.take(i as int).filter(
                        |u: Seq<char>| is_internal_ref(u),
                    ),
                decreases scene_nodes@.len() - i,
            {
                let node = &scene_nodes[i];
                let ghost ext0 = external_refs@;
                let ghost int0 = in_file_refs@;
                if url_is_internal(&node.url) {
                    in_file_refs.push(node.url.clone());
                } else {
                    external_refs.push(node.url.clone());
                }
                proof {
                    let u = nurls[i as int];
                    assert(u == node.url@);
                    assert(nurls.take(i as int + 1) =~= nurls.take(i as int) + seq![u]);
                    Seq::filter_distributes_over_add(nurls.take(i as int), seq![u], |u2: Seq<char>| !is_internal_ref(u2));
                    Seq::filter_distributes_over_add(nurls.take(i as int), seq![u], |u2: Seq<char>| is_internal_ref(u2));
                    lemma_filter_singleton(u, |u2: Seq<char>| !is_internal_ref(u2));
                    lemma_filter_singleton(u, |u2: Seq<char>| is_internal_ref(u2));
                    if is_internal_ref(u) {
                        assert(in_file_refs@.map_values(|s: String| s@) =~= int0.map_values(
                            |s: String| s@,
                        ).push(u));
                        assert(nurls.take(i as int).filter(|u: Seq<char>| !is_internal_ref(u)) + Seq::<Seq<char>>::empty()
                            =~= nurls.take(i as int).filter(|u: Seq<char>| !is_internal_ref(u)));
                        assert(int0.map_values(|s: String| s@).push(u) =~= nurls.take(
                            i as int,
                        ).filter(|u: Seq<char>| is_internal_ref(u)) + seq![u]);
                    } else {
                        assert(external_refs@.map_values(|s: String| s@) =~= ext0.map_values(
                            |s: String| s@,
                        ).push(u));
                        assert(nurls.take(i as int).filter(|u: Seq<char>| is_internal_ref(u)) + Seq::<Seq<char>>::empty()
                            =~= nurls.take(i as int).filter(|u: Seq<char>| is_internal_ref(u)));
                        assert(ext0.map_values(|s: String| s@).push(u) =~= nurls.take(
                            i as int,
                        ).filter(|u: Seq<char>| !is_internal_ref(u)) + seq![u]);
                    }
                }
                i = i + 1;
            }
            proof {
                assert(nurls.take(nurls.len() as int) =~= nurls);
            }
        }
        let ghost ext_mid = external_refs@;
        let ghost int_mid = in_file_refs@;
        if let Some(material_nodes) = &self.scene.materials {
            let mut i: usize = 0;
            while i < material_nodes.len()
                invariant
                    i <= material_nodes@.len(),
                    murls == material_urls(Some(*material_nodes)),
                    murls.len() == material_nodes@.len(),
                    external_refs@.map_values(|s: String| s@) == (nurls + murls.take(
                        i as int,
                    )).filter(|u: Seq<char>| !is_internal_ref(u)),
                    in_file_refs@.map_values(|s: String| s@) == (nurls + murls.take(
                        i as int,
                    )).filter(|u: Seq<char>| is_internal_ref(u)),
                decreases material_nodes@.len() - i,
            {
                let node = &material_nodes[i];
                let ghost ext0 = external_refs@;
                let ghost int0 = in_file_refs@;
                if url_is_internal(&node.url) {
                    in_file_refs.push(node.url.clone());
                } else {
                    external_refs.push(node.url.clone());
                }
                proof {
                    let u = murls[i as int];
                    assert(u == node.url@);
                    assert((nurls + murls.take(i as int + 1)) =~= (nurls + murls.take(i as int))
                        + seq![u]);
                    Seq::filter_distributes_over_add(
                        nurls + murls.take(i as int),
                        seq![u],
                        |u2: Seq<char>| !is_internal_ref(u2),
                    );
                    Seq::filter_distributes_over_add(
                        nurls + murls.take(i as int),
                        seq![u],
                        |u2: Seq<char>| is_internal_ref(u2),
                    );
                    lemma_filter_singleton(u, |u2: Seq<char>| !is_internal_ref(u2));
                    lemma_filter_singleton(u, |u2: Seq<char>| is_internal_ref(u2));
                    if is_internal_ref(u) {
                        assert(in_file_refs@.map_values(|s: String| s@) =~= int0.map_values(
                            |s: String| s@,
                        ).push(u));
                        assert((nurls + murls.take(i as int)).filter(|u: Seq<char>| !is_internal_ref(u)) + Seq::<
                            Seq<char>,
                        >::empty() =~= (nurls + murls.take(i as int)).filter(|u: Seq<char>| !is_internal_ref(u)));
                        assert(int0.map_values(|s: String| s@).push(u) =~= (nurls + murls.take(
                            i as int,
                        )).filter(|u: Seq<char>| is_internal_ref(u)) + seq![u]);
                    } else {
                        assert(external_refs@.map_values(|s: String| s@) =~= ext0.map_values(
                            |s: String| s@,
                        ).push(u));
                        assert((nurls + murls.take(i as int)).filter(|u: Seq<char>| is_internal_ref(u)) + Seq::<
                            Seq<char>,
                        >::empty() =~= (nurls + murls.take(i as int)).filter(|u: Seq<char>| is_internal_ref(u)));
                        assert(ext0.map_values(|s: String| s@).push(u) =~= (nurls + murls.take(
                            i as int,
                        )).filter(|u: Seq<char>| !is_internal_ref(u)) + seq![u]);
                    }
                }
                i = i + 1;
            }
            proof {
                assert(nurls + murls.take(murls.len() as int) =~= scene_urls(*self));
            }
        } else {
            proof {
                assert(murls =~= Seq::<Seq<char>>::empty());
                assert(nurls + murls =~= nurls);
                assert(nurls =~= scene_urls(*self));
            }
        }
        (external_refs, in_file_refs)
    }

    /// Collect every image url of the image library, image by image, in
    /// order; an absent library yields nothing.
    pub fn get_image_refs(&self) -> (refs: Vec<String>)
        ensures
            refs@.map_values(|s: String| s@) == match self.image_library {
                Some(library) => image_urls(library@),
                None => Seq::<Seq<char>>::empty(),
            },
    {
        let mut refs: Vec<String> = Vec::new();
        proof {
            assert(refs@.map_values(|s: String| s@) =~= Seq::<Seq<char>>::empty());
        }
        if let Some(images) = &self.image_library {
            let ghost lib = images@;
            let mut i: usize = 0;
            proof {
                assert(lib.skip(0) =~= lib);
                assert(refs@.map_values(|s: String| s@) + image_urls(lib) =~= image_urls(lib));
            }
            while i < images.len()
                invariant
                    i <= lib.len(),
                    lib == images@,
                    image_urls(lib) == refs@.map_values(|s: String| s@) + image_urls(
                        lib.skip(i as int),
                    ),
                decreases lib.len() - i,
            {
                let image = &images[i];
                let ghost refs0 = refs@;
                let ghost maps = image_map_urls(*image);
                let mut j: usize = 0;
                proof {
                    assert(refs@.map_values(|s: String| s@) + maps.take(0) =~= refs@.map_values(
                        |s: String| s@,
                    ));
                }
                while j < image.map.len()
                    invariant
                        j <= image.map@.len(),
                        maps == image_map_urls(*image),
                        maps.len() == image.map@.len(),
                        refs@.map_values(|s: String| s@) == refs0.map_values(|s: String| s@)
                            + maps.take(j as int),
                    decreases image.map@.len() - j,
                {
                    let ghost r0 = refs@;
                    refs.push(image.map[j].url.clone());
                    proof {
                        assert(maps[j as int] == image.map@[j as int].url@);
                        assert(refs@.map_values(|s: String| s@) =~= r0.map_values(
                            |s: String| s@,
                        ).push(maps[j as int]));
                        assert(maps.take(j as int + 1) =~= maps.take(j as int).push(
                            maps[j as int],
                        ));
                        assert(refs@.map_values(|s: String| s@) =~= refs0.map_values(
                            |s: String| s@,
                        ) + maps.take(j as int + 1));
                    }
                    j = j + 1;
                }
                proof {
                    assert(maps.take(maps.len() as int) =~= maps);
                    assert(lib.skip(i as int)[0] == lib[i as int]);
                    assert(lib.skip(i as int).skip(1) =~= lib.skip(i as int + 1));
                    assert(image_urls(lib.skip(i as int)) == maps + image_urls(
                        lib.skip(i as int + 1),
                    ));
                    assert(refs0.map_values(|s: String| s@) + maps + image_urls(
                        lib.skip(i as int + 1),
                    ) =~= refs@.map_values(|s: String| s@) + image_urls(lib.skip(i as int + 1)));
                    assert(image_urls(lib) == refs@.map_values(|s: String| s@) + image_urls(
                        lib.skip(i as int + 1),
                    ));
                }
                i = i + 1;
            }
            proof {
                assert(lib.skip(lib.len() as int) =~= Seq::<ImageRefs>::empty());
                assert(image_urls(Seq::<ImageRefs>::empty()) =~= Seq::<Seq<char>>::empty());
                assert(refs@.map_values(|s: String| s@) + Seq::<Seq<char>>::empty()
                    =~= refs@.map_values(|s: String| s@));
            }
        }
        refs
    }
}

} // verus!
