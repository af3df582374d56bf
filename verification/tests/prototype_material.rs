use bevy_dev::prototype_material::PrototypeMaterial;

#[test]
fn same_feature_name_paints_the_same_color() {
    let first = PrototypeMaterial::new("floor");
    let second = PrototypeMaterial::new("floor");
    assert_eq!(first, second);
    assert_eq!(first.color, second.color);
}

#[test]
fn color_is_stable_across_many_derivations() {
    let reference = PrototypeMaterial::new("wall");
    for _ in 0..8 {
        assert_eq!(PrototypeMaterial::new("wall"), reference);
    }
}

#[test]
fn different_feature_names_paint_different_colors() {
    let floor = PrototypeMaterial::new("floor");
    let ceiling = PrototypeMaterial::new("ceiling");
    assert_ne!(floor, ceiling);
}

#[test]
fn empty_and_long_names_derive_colors_too() {
    let empty = PrototypeMaterial::new("");
    assert_eq!(PrototypeMaterial::new(""), empty);
    let long = "a-rather-long-feature-name-used-for-a-blockout-mesh";
    assert_eq!(PrototypeMaterial::new(long), PrototypeMaterial::new(long));
}
