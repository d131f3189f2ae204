use gameterm_visual::asset::{SceneAssetEditError, SceneAssetStateManifest};
use gameterm_visual::states::{collect_states, entry_lookup, state_composite_options, state_manifest_parts, text_less_than};

fn s(text: &str) -> String {
    text.to_string()
}

fn invalid_message(e: SceneAssetEditError) -> String {
    match e {
        SceneAssetEditError::InvalidOperation(m) => m,
        other => panic!("unexpected error {:?}", other),
    }
}

#[test]
fn text_order_is_character_order() {
    assert!(text_less_than("apple", "banana"));
    assert!(text_less_than("ab", "abc"));
    assert!(!text_less_than("abc", "ab"));
    assert!(!text_less_than("same", "same"));
    assert!(text_less_than("Zeta", "alpha"));
    assert!(text_less_than("", "a"));
}

#[test]
fn states_are_named_by_file_stem_sorted_and_last_file_wins() {
    let files = vec![s("parts/eyes/open.png"), s("parts/eyes/closed.png"), s("other/open.webp")];
    let states = collect_states(&files);
    assert_eq!(states, vec![(s("closed"), s("parts/eyes/closed.png")), (s("open"), s("other/open.webp"))]);
}

#[test]
fn manifest_parts_take_the_smallest_state_as_default() {
    let parts = vec![(s("eyes"), vec![s("dir/open.png"), s("dir/closed.png")]), (s("mouth"), vec![s("smile.png")])];
    let built = state_manifest_parts(&parts).unwrap();
    assert_eq!(built.len(), 2);
    assert_eq!(built[0].0, "eyes");
    assert_eq!(built[0].1.default, "closed");
    assert_eq!(built[0].1.states.len(), 2);
    assert_eq!(built[1].1.default, "smile");
}

#[test]
fn a_part_without_files_is_refused() {
    let parts = vec![(s("eyes"), vec![s("open.png")]), (s("mouth"), Vec::new())];
    let err = state_manifest_parts(&parts).unwrap_err();
    assert_eq!(invalid_message(err), "state part `mouth` requires at least one state file");
}

fn manifest() -> SceneAssetStateManifest {
    let parts = vec![(s("eyes"), vec![s("open.png"), s("closed.png")]), (s("mouth"), vec![s("smile.png")])];
    SceneAssetStateManifest {
        asset_state_version: 1,
        character: s("kiki"),
        base: s("base.png"),
        parts: state_manifest_parts(&parts).unwrap(),
    }
}

#[test]
fn composite_and_state_variants_render_outputs() {
    let manifest = manifest();
    assert_eq!(manifest.parts[0].1.states.len(), 2);
    let layers = state_composite_options(&manifest, &[(s("eyes"), s("closed"))]).unwrap();
    assert_eq!(layers, vec![s("base.png"), s("closed.png"), s("smile.png")]);
    let defaults = state_composite_options(&manifest, &[]).unwrap();
    assert_eq!(defaults, vec![s("base.png"), s("closed.png"), s("smile.png")]);
    let open = state_composite_options(&manifest, &[(s("eyes"), s("open"))]).unwrap();
    assert_eq!(open[1], "open.png");
}

#[test]
fn an_unknown_state_names_the_part() {
    let err = state_composite_options(&manifest(), &[(s("mouth"), s("frown"))]).unwrap_err();
    assert_eq!(invalid_message(err), "unknown state `frown` for part `mouth`");
}

#[test]
fn lookups_take_the_first_matching_entry() {
    let entries = vec![(s("a"), s("1")), (s("b"), s("2")), (s("a"), s("3"))];
    assert_eq!(entry_lookup(&entries, "a"), Some(s("1")));
    assert_eq!(entry_lookup(&entries, "c"), None);
}
