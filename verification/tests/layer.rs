use bevy::math::{URect, UVec2};
use bevy_parallaxium::layer::{
    create_texture_atlas_layout, layer_tiles, texture_count, LayerRepeat, LayerTile, RepeatStrategy,
};

fn tile(x: i32, y: i32, flip_x: bool, flip_y: bool) -> LayerTile {
    LayerTile { x, y, flip_x, flip_y }
}

#[test]
fn test_check() {
    assert_eq!(true, true);
}

#[test]
fn transform_none_and_same_keep_flip() {
    for strategy in [RepeatStrategy::NoTiling, RepeatStrategy::Same] {
        let mut flip = (true, false);
        strategy.transform(&mut flip, (3, -5));
        assert_eq!(flip, (true, false));
    }
}

#[test]
fn transform_mirror_horizontally_flips_odd_columns() {
    let mut flip = (false, false);
    RepeatStrategy::MirrorHorizontally.transform(&mut flip, (1, 1));
    assert_eq!(flip, (true, false));
    let mut flip = (true, true);
    RepeatStrategy::MirrorHorizontally.transform(&mut flip, (-3, 7));
    assert_eq!(flip, (false, true));
    let mut flip = (false, false);
    RepeatStrategy::MirrorHorizontally.transform(&mut flip, (-2, 1));
    assert_eq!(flip, (false, false));
}

#[test]
fn transform_mirror_vertically_flips_odd_rows() {
    let mut flip = (false, false);
    RepeatStrategy::MirrorVertically.transform(&mut flip, (1, -1));
    assert_eq!(flip, (false, true));
    let mut flip = (false, true);
    RepeatStrategy::MirrorVertically.transform(&mut flip, (5, 4));
    assert_eq!(flip, (false, true));
}

#[test]
fn transform_mirror_both_flips_each_axis() {
    let mut flip = (false, false);
    RepeatStrategy::MirrorBoth.transform(&mut flip, (1, 2));
    assert_eq!(flip, (true, false));
    let mut flip = (false, true);
    RepeatStrategy::MirrorBoth.transform(&mut flip, (-1, -1));
    assert_eq!(flip, (true, false));
}

#[test]
fn transform_twice_restores_flip() {
    let strategies = [
        RepeatStrategy::NoTiling,
        RepeatStrategy::Same,
        RepeatStrategy::MirrorHorizontally,
        RepeatStrategy::MirrorVertically,
        RepeatStrategy::MirrorBoth,
    ];
    for strategy in strategies {
        for pos in [(0, 0), (1, 0), (0, -1), (-3, 5), (i32::MAX, i32::MIN)] {
            let mut flip = (true, false);
            strategy.transform(&mut flip, pos);
            strategy.transform(&mut flip, pos);
            assert_eq!(flip, (true, false));
        }
    }
}

#[test]
fn transform_depends_on_parity_only() {
    let mut a = (false, false);
    let mut b = (false, false);
    RepeatStrategy::MirrorBoth.transform(&mut a, (3, 4));
    RepeatStrategy::MirrorBoth.transform(&mut b, (5, 6));
    assert_eq!(a, b);
    let mut origin = (true, true);
    RepeatStrategy::MirrorBoth.transform(&mut origin, (0, 0));
    assert_eq!(origin, (true, true));
}

#[test]
fn layer_repeat_constructors() {
    assert_eq!(LayerRepeat::none(), LayerRepeat::NoTiling);
    assert_eq!(LayerRepeat::both(RepeatStrategy::MirrorBoth), LayerRepeat::Bidirectional(RepeatStrategy::MirrorBoth));
    assert_eq!(
        LayerRepeat::horizontally(RepeatStrategy::MirrorHorizontally),
        LayerRepeat::Horizontal(RepeatStrategy::MirrorHorizontally)
    );
    assert_eq!(
        LayerRepeat::vertically(RepeatStrategy::MirrorVertically),
        LayerRepeat::Vertical(RepeatStrategy::MirrorVertically)
    );
    assert_eq!(LayerRepeat::horizontal(), LayerRepeat::Horizontal(RepeatStrategy::Same));
    assert_eq!(LayerRepeat::vertical(), LayerRepeat::Vertical(RepeatStrategy::Same));
    assert_eq!(LayerRepeat::default(), LayerRepeat::Bidirectional(RepeatStrategy::Same));
}

#[test]
fn layer_repeat_axes() {
    assert!(!LayerRepeat::none().has_horizontal());
    assert!(!LayerRepeat::none().has_vertical());
    assert!(LayerRepeat::horizontal().has_horizontal());
    assert!(!LayerRepeat::horizontal().has_vertical());
    assert!(!LayerRepeat::vertical().has_horizontal());
    assert!(LayerRepeat::vertical().has_vertical());
    assert!(LayerRepeat::both(RepeatStrategy::Same).has_horizontal());
    assert!(LayerRepeat::both(RepeatStrategy::Same).has_vertical());
}

#[test]
fn layer_repeat_strategy() {
    assert_eq!(*LayerRepeat::none().get_strategy(), RepeatStrategy::NoTiling);
    assert_eq!(*LayerRepeat::horizontally(RepeatStrategy::MirrorBoth).get_strategy(), RepeatStrategy::MirrorBoth);
    assert_eq!(*LayerRepeat::vertically(RepeatStrategy::MirrorVertically).get_strategy(), RepeatStrategy::MirrorVertically);
    assert_eq!(*LayerRepeat::both(RepeatStrategy::MirrorHorizontally).get_strategy(), RepeatStrategy::MirrorHorizontally);
}

#[test]
fn tiles_of_horizontal_layer() {
    let repeat = LayerRepeat::horizontally(RepeatStrategy::MirrorHorizontally);
    let tiles = layer_tiles(&repeat, 2, 7, (false, true));
    assert_eq!(
        tiles,
        vec![tile(-1, 0, true, true), tile(0, 0, false, true), tile(1, 0, true, true), tile(2, 0, false, true)]
    );
}

#[test]
fn tiles_of_bidirectional_layer() {
    let repeat = LayerRepeat::both(RepeatStrategy::MirrorBoth);
    let tiles = layer_tiles(&repeat, 1, 2, (false, false));
    assert_eq!(
        tiles,
        vec![
            tile(0, -1, false, true),
            tile(0, 0, false, false),
            tile(0, 1, false, true),
            tile(0, 2, false, false),
            tile(1, -1, true, true),
            tile(1, 0, true, false),
            tile(1, 1, true, true),
            tile(1, 2, true, false),
        ]
    );
}

#[test]
fn tiles_of_vertical_and_untiled_layers() {
    let tiles = layer_tiles(&LayerRepeat::vertical(), 9, 1, (true, false));
    assert_eq!(tiles, vec![tile(0, 0, true, false), tile(0, 1, true, false)]);
    let tiles = layer_tiles(&LayerRepeat::none(), 4, 4, (false, true));
    assert_eq!(tiles, vec![tile(0, 0, false, true)]);
}

#[test]
fn tiles_of_layer_with_no_reach_are_empty() {
    assert!(layer_tiles(&LayerRepeat::horizontal(), 0, 3, (false, false)).is_empty());
    assert!(layer_tiles(&LayerRepeat::both(RepeatStrategy::Same), 2, -4, (false, false)).is_empty());
}

#[test]
fn tiles_cover_grid_once() {
    let tiles = layer_tiles(&LayerRepeat::both(RepeatStrategy::Same), 3, 2, (false, false));
    assert_eq!(tiles.len(), 6 * 4);
    for x in -2..=3 {
        for y in -1..=2 {
            assert_eq!(tiles.iter().filter(|t| t.x == x && t.y == y).count(), 1);
        }
    }
}

#[test]
fn texture_count_values() {
    assert_eq!(texture_count(&LayerRepeat::both(RepeatStrategy::Same), 3, 2), (6, 4));
    assert_eq!(texture_count(&LayerRepeat::horizontal(), 3, 2), (6, 1));
    assert_eq!(texture_count(&LayerRepeat::vertical(), 3, 2), (1, 4));
    assert_eq!(texture_count(&LayerRepeat::none(), 3, 2), (1, 1));
    assert_eq!(texture_count(&LayerRepeat::horizontal(), 0, 0), (1, 1));
    assert_eq!(texture_count(&LayerRepeat::horizontal(), -5, 0), (1, 1));
    assert_eq!(texture_count(&LayerRepeat::horizontal(), i32::MAX, 0), (2 * i32::MAX as i64, 1));
}

#[test]
fn texture_count_matches_tile_columns() {
    let repeat = LayerRepeat::both(RepeatStrategy::MirrorBoth);
    let tiles = layer_tiles(&repeat, 4, 3, (false, false));
    let (cols, rows) = texture_count(&repeat, 4, 3);
    assert_eq!(tiles.len() as i64, cols * rows);
}

#[test]
fn atlas_layout_is_grid() {
    let layout = create_texture_atlas_layout((16, 8), 3, 2);
    assert_eq!(layout.size, UVec2::new(48, 16));
    assert_eq!(layout.textures.len(), 6);
    assert_eq!(layout.textures[0], URect::new(0, 0, 16, 8));
    assert_eq!(layout.textures[2], URect::new(32, 0, 48, 8));
    assert_eq!(layout.textures[4], URect::new(16, 8, 32, 16));
}

#[test]
fn atlas_layout_default_one_cell() {
    let layout = create_texture_atlas_layout((0, 0), 1, 1);
    assert_eq!(layout.size, UVec2::new(0, 0));
    assert_eq!(layout.textures, vec![URect::new(0, 0, 0, 0)]);
}

#[test]
fn no_tiling_strategy_renders_once() {
    for repeat in [
        LayerRepeat::horizontally(RepeatStrategy::NoTiling),
        LayerRepeat::vertically(RepeatStrategy::NoTiling),
        LayerRepeat::both(RepeatStrategy::NoTiling),
        LayerRepeat::none(),
    ] {
        assert_eq!(layer_tiles(&repeat, 3, 4, (true, false)), vec![tile(0, 0, true, false)]);
        assert_eq!(texture_count(&repeat, 3, 4), (1, 1));
        assert!(!repeat.spans_horizontally());
        assert!(!repeat.spans_vertically());
    }
}

#[test]
fn spans_follow_axes_for_repeating_strategies() {
    assert!(LayerRepeat::horizontal().spans_horizontally());
    assert!(!LayerRepeat::horizontal().spans_vertically());
    assert!(LayerRepeat::vertically(RepeatStrategy::MirrorBoth).spans_vertically());
    assert!(LayerRepeat::both(RepeatStrategy::MirrorHorizontally).spans_horizontally());
    assert!(LayerRepeat::both(RepeatStrategy::MirrorHorizontally).spans_vertically());
}
