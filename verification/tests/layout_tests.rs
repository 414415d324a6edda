use oto_core::error::CoreError;
use oto_core::layout::{
    detect_model_structure, find_model_file_recursive, find_texture_folder, has_size_tag,
    holds_model, holds_png, join_parts, reorganize_flat_model, Entry, MAX_MODEL_SEARCH_DEPTH,
};

fn file(name: &str) -> Entry {
    Entry::File(name.to_string())
}

fn dir(name: &str, entries: Vec<Entry>) -> Entry {
    Entry::Dir(name.to_string(), entries)
}

fn names(entries: &[Entry]) -> Vec<String> {
    entries.iter().map(|e| e.name().clone()).collect()
}

fn listing_of<'a>(entries: &'a [Entry], name: &str) -> &'a Vec<Entry> {
    for e in entries {
        if let Entry::Dir(n, below) = e {
            if n == name {
                return below;
            }
        }
    }
    panic!("no folder {}", name);
}

#[test]
fn depth_bound_is_three() {
    assert_eq!(MAX_MODEL_SEARCH_DEPTH, 3);
}

#[test]
fn flat_layout_is_gathered_into_a_named_folder() {
    let root = vec![
        file("foo.model3.json"),
        file("a.png"),
        file("b.png"),
        file("c.png"),
    ];
    let d = detect_model_structure("/data/models/character_1", root).expect("a model");
    assert_eq!(d.folder, "foo");
    assert_eq!(d.model_file, "foo.model3.json");
    assert_eq!(d.texture_folder, None);
    assert!(d.flat);
    assert_eq!(d.moved, vec!["foo.model3.json", "a.png", "b.png", "c.png"]);
    assert_eq!(names(&d.root), vec!["foo"]);
    let inside = listing_of(&d.root, "foo");
    assert_eq!(names(inside), vec!["foo.model3.json", "a.png", "b.png", "c.png"]);
    assert!(inside.iter().all(|e| matches!(e, Entry::File(_))));
}

#[test]
fn flat_layout_finds_the_texture_folder_after_gathering() {
    let root = vec![
        dir("foo.2048", vec![file("texture_00.png")]),
        file("foo.model3.json"),
        dir("motions", vec![file("idle.motion3.json")]),
    ];
    let d = detect_model_structure("/data/models/character_1", root).expect("a model");
    assert_eq!(d.folder, "foo");
    assert_eq!(d.texture_folder, Some("foo.2048".to_string()));
    assert_eq!(d.moved, vec!["foo.2048", "foo.model3.json", "motions"]);
}

#[test]
fn reorganize_keeps_a_folder_that_has_the_target_name() {
    let root = vec![
        file("foo.model3.json"),
        dir("foo", vec![file("old.txt")]),
        file("a.png"),
    ];
    let done = reorganize_flat_model(root, "foo.model3.json").expect("gathered");
    assert_eq!(done.folder, "foo");
    assert_eq!(done.moved, vec!["foo.model3.json", "a.png"]);
    assert_eq!(names(&done.root), vec!["foo"]);
    assert_eq!(
        names(listing_of(&done.root, "foo")),
        vec!["old.txt", "foo.model3.json", "a.png"]
    );
}

#[test]
fn reorganize_fails_where_a_file_has_the_target_name() {
    let root = vec![file("foo.model3.json"), file("foo")];
    match reorganize_flat_model(root, "foo.model3.json") {
        Err(CoreError::Filesystem(m)) => assert_eq!(m, "Failed to create model folder: foo"),
        other => panic!("unexpected: {:?}", other),
    }
    let root = vec![Entry::Other("foo".to_string()), file("foo.model3.json")];
    match detect_model_structure("/data/models/character_1", root) {
        Err(CoreError::Filesystem(m)) => assert_eq!(m, "Failed to create model folder: foo"),
        other => panic!("unexpected: {:?}", other),
    }
}

#[test]
fn reorganize_strips_every_repetition_of_the_suffix() {
    let root = vec![file("foo.model3.json.model3.json")];
    let done = reorganize_flat_model(root, "foo.model3.json.model3.json").expect("gathered");
    assert_eq!(done.folder, "foo");
}

#[test]
fn a_descriptor_without_a_base_name_leaves_the_root_as_the_folder() {
    let root = vec![file(".model3.json"), dir("textures", vec![])];
    let d = detect_model_structure("/data/models/character_1", root).expect("a model");
    assert_eq!(d.folder, "");
    assert_eq!(d.model_file, ".model3.json");
    assert_eq!(d.texture_folder, Some("textures".to_string()));
    assert!(d.flat);
    assert_eq!(names(&d.root), vec![".model3.json", "textures"]);
}

#[test]
fn nested_layout_reports_the_relative_folder() {
    let root = vec![
        file("readme.txt"),
        dir(
            "bundle",
            vec![dir(
                "model",
                vec![file("m.model3.json"), dir("m.4096", vec![file("t.png")])],
            )],
        ),
    ];
    let d = detect_model_structure("/data/models/character_1", root).expect("a model");
    assert_eq!(d.folder, "bundle/model");
    assert_eq!(d.model_file, "m.model3.json");
    assert_eq!(d.texture_folder, Some("m.4096".to_string()));
    assert!(!d.flat);
    assert!(d.moved.is_empty());
    assert_eq!(names(&d.root), vec!["readme.txt", "bundle"]);
}

fn nest(levels: usize, leaf: Entry) -> Entry {
    let mut e = leaf;
    for i in 0..levels {
        e = dir(&format!("d{}", levels - i), vec![e]);
    }
    e
}

#[test]
fn a_descriptor_three_levels_down_is_found() {
    let root = vec![nest(3, file("deep.model3.json"))];
    let d = detect_model_structure("/data/models/character_1", root).expect("a model");
    assert_eq!(d.folder, "d1/d2/d3");
    assert_eq!(d.model_file, "deep.model3.json");
}

#[test]
fn a_descriptor_four_levels_down_is_not_found() {
    let root = vec![nest(4, file("deep.model3.json"))];
    match detect_model_structure("/data/models/character_1", root) {
        Err(CoreError::NoModelFound(root)) => assert_eq!(root, "/data/models/character_1"),
        other => panic!("unexpected: {:?}", other),
    }
}

#[test]
fn search_depth_counts_the_listing_itself() {
    let listing = vec![dir("a", vec![dir("b", vec![file("x.model3.json")])])];
    assert!(find_model_file_recursive(&listing, 0).is_none());
    assert!(find_model_file_recursive(&listing, 1).is_none());
    assert!(find_model_file_recursive(&listing, 2).is_none());
    let found = find_model_file_recursive(&listing, 3).expect("found");
    assert_eq!(found.path, vec!["a", "b"]);
    assert_eq!(found.file, "x.model3.json");
    assert_eq!(names(found.entries), vec!["x.model3.json"]);
}

#[test]
fn files_of_a_level_win_over_its_folders() {
    let listing = vec![
        dir("first", vec![file("inner.model3.json")]),
        file("outer.model3.json"),
    ];
    let found = find_model_file_recursive(&listing, 3).expect("found");
    assert!(found.path.is_empty());
    assert_eq!(found.file, "outer.model3.json");
}

#[test]
fn the_first_folder_with_a_model_wins() {
    let root = vec![
        dir("empty", vec![file("notes.txt")]),
        dir("deep", vec![dir("x", vec![dir("y", vec![file("late.model3.json")])])]),
        dir("shallow", vec![file("early.model3.json")]),
    ];
    let d = detect_model_structure("/data/models/character_1", root).expect("a model");
    assert_eq!(d.folder, "deep/x/y");
    assert_eq!(d.model_file, "late.model3.json");
}

#[test]
fn a_folder_named_like_a_descriptor_is_no_descriptor() {
    let root = vec![dir("odd.model3.json", vec![file("real.model3.json")])];
    let d = detect_model_structure("/data/models/character_1", root).expect("a model");
    assert_eq!(d.folder, "odd.model3.json");
    assert_eq!(d.model_file, "real.model3.json");
    assert!(!d.flat);
}

#[test]
fn a_bundle_without_descriptor_has_no_model() {
    for root in [
        Vec::new(),
        vec![file("a.png"), file("model.json")],
        vec![dir("a", vec![dir("b", vec![file("c.txt")])])],
    ] {
        match detect_model_structure("/data/models/character_1", root) {
            Err(CoreError::NoModelFound(root)) => assert_eq!(root, "/data/models/character_1"),
            other => panic!("unexpected: {:?}", other),
        }
    }
}

#[test]
fn size_tags() {
    assert!(has_size_tag("Hiyori.2048"));
    assert!(has_size_tag("x.4096"));
    assert!(has_size_tag("x.1024"));
    assert!(has_size_tag(".1024"));
    assert!(!has_size_tag("textures"));
    assert!(!has_size_tag("x.512"));
    assert!(!has_size_tag("2048"));
    assert!(!has_size_tag("x.2048.bak"));
}

#[test]
fn a_size_tag_wins_over_the_name_textures_in_either_order() {
    let listing = vec![dir("textures", vec![]), dir("foo.2048", vec![])];
    assert_eq!(find_texture_folder(&listing), Some("foo.2048".to_string()));
    let listing = vec![dir("foo.2048", vec![]), dir("textures", vec![])];
    assert_eq!(find_texture_folder(&listing), Some("foo.2048".to_string()));
}

#[test]
fn the_first_size_tag_wins_among_several() {
    let listing = vec![
        dir("images", vec![file("a.png")]),
        file("x.2048"),
        dir("textures", vec![]),
        dir("m.4096", vec![]),
        dir("m.2048", vec![]),
    ];
    assert_eq!(find_texture_folder(&listing), Some("m.4096".to_string()));
}

#[test]
fn the_name_textures_wins_over_a_folder_with_images() {
    let listing = vec![
        dir("art", vec![file("skin.png")]),
        file("textures"),
        dir("Textures", vec![]),
        dir("textures", vec![]),
    ];
    assert_eq!(find_texture_folder(&listing), Some("textures".to_string()));
}

#[test]
fn texture_folder_falls_back_to_the_first_folder_with_an_image() {
    let listing = vec![
        dir("motions", vec![file("idle.json")]),
        dir("art", vec![file("readme.md"), file("skin.png")]),
        dir("more", vec![file("other.png")]),
    ];
    assert_eq!(find_texture_folder(&listing), Some("art".to_string()));
}

#[test]
fn a_folder_named_like_an_image_is_no_image() {
    let listing = vec![dir("sub", vec![dir("x.png", vec![])])];
    assert_eq!(find_texture_folder(&listing), None);
    let listing = vec![dir("sub", vec![Entry::Other("x.png".to_string())])];
    assert_eq!(find_texture_folder(&listing), None);
}

#[test]
fn images_two_levels_down_do_not_count() {
    let listing = vec![dir("sub", vec![dir("deeper", vec![file("x.png")])])];
    assert_eq!(find_texture_folder(&listing), None);
}

#[test]
fn no_texture_folder_is_no_error() {
    let listing = vec![file("a.png"), dir("motions", vec![file("idle.json")])];
    assert_eq!(find_texture_folder(&listing), None);
    assert_eq!(find_texture_folder(&Vec::new()), None);
}

#[test]
fn holds_png_counts_files_only() {
    assert!(holds_png(&vec![file("a.PNG"), file("b.png")]));
    assert!(!holds_png(&vec![file("a.PNG"), dir("b.png", vec![])]));
    assert!(!holds_png(&vec![file("a.PNG"), file("b.jpg")]));
    assert!(!holds_png(&Vec::new()));
}

#[test]
fn join_parts_puts_slashes_between() {
    assert_eq!(join_parts(&vec![]), "");
    assert_eq!(join_parts(&vec!["a".to_string()]), "a");
    assert_eq!(join_parts(&vec!["a".to_string(), "b".to_string(), "c".to_string()]), "a/b/c");
}

#[test]
fn entry_names_and_kinds() {
    assert_eq!(file("x").name(), "x");
    assert_eq!(dir("d", vec![]).name(), "d");
    assert_eq!(Entry::Other("o".to_string()).name(), "o");
    assert!(file("a.model3.json").is_model_file());
    assert!(!file("a.model3.jsonx").is_model_file());
    assert!(!dir("a.model3.json", vec![]).is_model_file());
    assert!(!Entry::Other("a.model3.json".to_string()).is_model_file());
}

#[test]
fn a_picked_folder_holds_a_model_by_name_or_within_reach() {
    assert!(holds_model(&vec![file("a.txt"), file("m.model3.json")]));
    assert!(holds_model(&vec![dir("odd.model3.json", vec![])]));
    assert!(holds_model(&vec![nest(3, file("deep.model3.json"))]));
    assert!(!holds_model(&vec![nest(4, file("deep.model3.json"))]));
    assert!(!holds_model(&vec![file("a.txt"), dir("d", vec![file("b.json")])]));
    assert!(!holds_model(&Vec::new()));
}
