use taskpool::daz::{daz_kind_for_extension, parse_url, split_url, unique_files, DazFileKind};
use taskpool::dsf::{AssetInfo, Contributor, NodeInfo, DSF};
use taskpool::duf::{ImageMap, ImageRefs, MaterialNode, Scene, SceneNode, DUF};

fn node(id: &str, url: &str) -> SceneNode {
    SceneNode {
        id: id.to_string(),
        url: url.to_string(),
        name: id.to_string(),
        label: id.to_string(),
        parent: None,
    }
}

fn material(url: &str) -> MaterialNode {
    MaterialNode {
        id: None,
        url: url.to_string(),
        geometry: None,
        groups: vec![],
        uv_set: None,
    }
}

fn asset_info() -> AssetInfo {
    AssetInfo {
        id: "asset".to_string(),
        asset_type: "scene".to_string(),
        contributor: Contributor {
            author: "a".to_string(),
            email: "e".to_string(),
            website: "w".to_string(),
        },
        revision: "1.0".to_string(),
        modified: "now".to_string(),
    }
}

#[test]
fn split_url_no_fragment() {
    let (location, fragment) = split_url("data/figure.dsf");
    assert_eq!(location, "data/figure.dsf");
    assert_eq!(fragment, None);
}

#[test]
fn split_url_with_fragment() {
    let (location, fragment) = split_url("data/figure.dsf#hip");
    assert_eq!(location, "data/figure.dsf");
    assert_eq!(fragment, Some("hip".to_string()));
}

#[test]
fn split_url_second_hash_ends_fragment() {
    let (location, fragment) = split_url("a#b#c");
    assert_eq!(location, "a");
    assert_eq!(fragment, Some("b".to_string()));
}

#[test]
fn parse_url_decodes_percent_escapes() {
    // would fail if the decoder handed its argument back unchanged:
    // "%23" is the escape of '#' itself
    let parsed = parse_url(&"a%23b".to_string()).unwrap();
    assert_eq!(parsed.0, "a");
    assert_eq!(parsed.1, Some("b".to_string()));

    let parsed = parse_url(&"My%20Library/f.dsf#frag".to_string()).unwrap();
    assert_eq!(parsed.0, "My Library/f.dsf");
    assert_eq!(parsed.1, Some("frag".to_string()));
}

#[test]
fn unique_files_dedups_locations() {
    let refs = vec![
        "a.dsf#x".to_string(),
        "a.dsf#y".to_string(),
        "b.dsf".to_string(),
        "a.dsf".to_string(),
    ];
    let files = unique_files(refs);
    assert_eq!(files, vec!["a.dsf".to_string(), "b.dsf".to_string()]);
}

#[test]
fn unique_files_decodes_before_splitting() {
    let refs = vec!["My%20Lib/f.dsf#x".to_string(), "My Lib/f.dsf#y".to_string()];
    let files = unique_files(refs);
    assert_eq!(files, vec!["My Lib/f.dsf".to_string()]);
}

#[test]
fn get_file_refs_partitions_by_internal_prefix() {
    let duf = DUF {
        file_version: "0.6".to_string(),
        asset_info: asset_info(),
        image_library: None,
        scene: Scene {
            nodes: Some(vec![node("n0", "#inner"), node("n1", "ext.dsf#frag")]),
            materials: Some(vec![material("mat.dsf"), material("#skin")]),
        },
    };
    let (external, internal) = duf.get_file_refs();
    assert_eq!(external, vec!["ext.dsf#frag".to_string(), "mat.dsf".to_string()]);
    assert_eq!(internal, vec!["#inner".to_string(), "#skin".to_string()]);
}

#[test]
fn get_file_refs_empty_scene() {
    let duf = DUF {
        file_version: "0.6".to_string(),
        asset_info: asset_info(),
        image_library: None,
        scene: Scene { nodes: None, materials: None },
    };
    let (external, internal) = duf.get_file_refs();
    assert!(external.is_empty());
    assert!(internal.is_empty());
}

#[test]
fn get_image_refs_flattens_maps() {
    let duf = DUF {
        file_version: "0.6".to_string(),
        asset_info: asset_info(),
        image_library: Some(vec![
            ImageRefs {
                id: "i0".to_string(),
                name: "skin".to_string(),
                map: vec![
                    ImageMap { url: "skin_d.png".to_string(), label: "diffuse".to_string() },
                    ImageMap { url: "skin_n.png".to_string(), label: "normal".to_string() },
                ],
            },
            ImageRefs {
                id: "i1".to_string(),
                name: "eyes".to_string(),
                map: vec![ImageMap { url: "eyes.png".to_string(), label: "diffuse".to_string() }],
            },
        ]),
        scene: Scene { nodes: None, materials: None },
    };
    let refs = duf.get_image_refs();
    assert_eq!(
        refs,
        vec!["skin_d.png".to_string(), "skin_n.png".to_string(), "eyes.png".to_string()]
    );
}

#[test]
fn daz_kind_for_known_extensions() {
    assert_eq!(daz_kind_for_extension("dsf"), Some(DazFileKind::Dsf));
    assert_eq!(daz_kind_for_extension("duf"), Some(DazFileKind::Duf));
    assert_eq!(daz_kind_for_extension("png"), None);
    assert_eq!(daz_kind_for_extension(""), None);
}

#[test]
fn find_node_returns_first_match() {
    let mk = |id: &str| NodeInfo {
        id: id.to_string(),
        name: id.to_string(),
        node_type: "bone".to_string(),
        label: id.to_string(),
        parent: None,
        inherits_scale: false,
    };
    let dsf = DSF {
        file_version: "0.6".to_string(),
        asset_info: asset_info(),
        geometry_library: vec![],
        node_library: vec![mk("hip"), mk("chest"), mk("hip")],
        modifier_library: vec![],
    };
    assert_eq!(dsf.find_node(&"chest".to_string()), Some(1));
    assert_eq!(dsf.find_node(&"hip".to_string()), Some(0));
    assert_eq!(dsf.find_node(&"head".to_string()), None);
}

#[test]
fn unique_files_skips_undecodable_refs() {
    // "%FF" decodes to a lone 0xFF byte, which is not UTF-8
    let refs = vec!["%FF".to_string(), "ok.dsf".to_string()];
    let files = unique_files(refs);
    assert_eq!(files, vec!["ok.dsf".to_string()]);
}

#[test]
fn parse_url_empty_string() {
    let parsed = parse_url(&"".to_string()).unwrap();
    assert_eq!(parsed.0, "");
    assert_eq!(parsed.1, None);
}
