use vstd::prelude::*;
use bevy::image::TextureAtlasLayout;
use bevy::math::UVec2;
use vstd::arithmetic::div_mod::{
    lemma_fundamental_div_mod,
    lemma_fundamental_div_mod_converse,
    lemma_mod_pos_bound,
    lemma_div_pos_is_pos,
};

verus! {

/// `true` when `v` is an odd integer (negative values included).
pub open spec fn is_odd(v: int) -> bool {
    v % 2 != 0
}

/// Controls how repeated tiles are flipped when tiling a layer.
#[derive(Debug, Clone, Copy, PartialEq, Eq, Structural)]
pub enum RepeatStrategy {
    /// No tiling: the sprite is rendered exactly once with no repetition.
    NoTiling,
    /// All tiles use the same orientation.
    Same,
    /// Every other column is flipped horizontally.
    MirrorHorizontally,
    /// Every other row is flipped vertically.
    MirrorVertically,
    /// Every other tile is flipped both horizontally and vertically.
    MirrorBoth,
}

impl RepeatStrategy {
    /// Whether this strategy mirrors odd columns.
    pub open spec fn mirrors_columns(self) -> bool {
        self is MirrorHorizontally || self is MirrorBoth
    }

    /// Whether this strategy mirrors odd rows.
    pub open spec fn mirrors_rows(self) -> bool {
        self is MirrorVertically || self is MirrorBoth
    }

    /// The flip state of the tile at grid position `pos`, when the layer's own
    /// flip state is `flip`.
    pub open spec fn flipped(self, flip: (bool, bool), pos: (i32, i32)) -> (bool, bool) {
        (
            flip.0 != (self.mirrors_columns() && is_odd(pos.0 as int)),
            flip.1 != (self.mirrors_rows() && is_odd(pos.1 as int)),
        )
    }

    /// Applies the strategy to the flip state `(flip_x, flip_y)` of the tile at
    /// grid position `pos`: odd columns (rows) toggle their horizontal (vertical)
    /// flip when the strategy mirrors that axis.
    pub fn transform(&self, flip: &mut (bool, bool), pos: (i32, i32))
        ensures
            *final(flip) == self.flipped(*old(flip), pos),
            final(flip).0 == (old(flip).0 != ((*self == RepeatStrategy::MirrorHorizontally || *self
                == RepeatStrategy::MirrorBoth) && (pos.0 as int) % 2 != 0)),
            final(flip).1 == (old(flip).1 != ((*self == RepeatStrategy::MirrorVertically || *self
                == RepeatStrategy::MirrorBoth) && (pos.1 as int) % 2 != 0)),
    {
        match self {
            RepeatStrategy::NoTiling | RepeatStrategy::Same => {},
            RepeatStrategy::MirrorHorizontally => {
                let (x, _) = pos;
                flip.0 ^= x % 2 != 0;
            },
            RepeatStrategy::MirrorVertically => {
                let (_, y) = pos;
                flip.1 ^= y % 2 != 0;
            },
            RepeatStrategy::MirrorBoth => {
                let (x, y) = pos;
                flip.0 ^= x % 2 != 0;
                flip.1 ^= y % 2 != 0;
            },
        }
    }
}

/// Defines the axes along which a parallax layer tiles.
#[derive(Debug, Clone, Copy, PartialEq, Eq, Structural)]
pub enum LayerRepeat {
    /// No tiling: the sprite is rendered exactly once.
    NoTiling,
    /// Tiles only along the X axis.
    Horizontal(RepeatStrategy),
    /// Tiles only along the Y axis.
    Vertical(RepeatStrategy),
    /// Tiles along both axes.
    Bidirectional(RepeatStrategy),
}

impl LayerRepeat {
    /// Whether the layer tiles along the X axis.
    pub open spec fn tiles_horizontally(self) -> bool {
        self is Horizontal || self is Bidirectional
    }

    /// Whether the layer tiles along the Y axis.
    pub open spec fn tiles_vertically(self) -> bool {
        self is Vertical || self is Bidirectional
    }

    /// Whether the grid of the layer extends along X: the layer tiles along X
    /// with a strategy that repeats, that is any strategy but `NoTiling`.
    pub open spec fn grid_spans_x(self) -> bool {
        self.tiles_horizontally() && !(self.strategy() is NoTiling)
    }

    /// Whether the grid of the layer extends along Y: the layer tiles along Y
    /// with a strategy that repeats, that is any strategy but `NoTiling`.
    pub open spec fn grid_spans_y(self) -> bool {
        self.tiles_vertically() && !(self.strategy() is NoTiling)
    }

    /// The strategy that tiles of this layer are flipped by.
    pub open spec fn strategy(self) -> RepeatStrategy {
        match self {
            LayerRepeat::NoTiling => RepeatStrategy::NoTiling,
            LayerRepeat::Horizontal(s) => s,
            LayerRepeat::Vertical(s) => s,
            LayerRepeat::Bidirectional(s) => s,
        }
    }

    /// No tiling.
    pub fn none() -> (r: Self)
        ensures
            r == LayerRepeat::NoTiling,
    {
        LayerRepeat::NoTiling
    }

    /// Tile in both directions using the given strategy.
    pub fn both(strategy: RepeatStrategy) -> (r: Self)
        ensures
            r == LayerRepeat::Bidirectional(strategy),
    {
        LayerRepeat::Bidirectional(strategy)
    }

    /// Tile horizontally using the given strategy.
    pub fn horizontally(strategy: RepeatStrategy) -> (r: Self)
        ensures
            r == LayerRepeat::Horizontal(strategy),
    {
        LayerRepeat::Horizontal(strategy)
    }

    /// Tile vertically using the given strategy.
    pub fn vertically(strategy: RepeatStrategy) -> (r: Self)
        ensures
            r == LayerRepeat::Vertical(strategy),
    {
        LayerRepeat::Vertical(strategy)
    }

    /// Tile horizontally with no mirroring.
    pub fn horizontal() -> (r: Self)
        ensures
            r == LayerRepeat::Horizontal(RepeatStrategy::Same),
    {
        LayerRepeat::Horizontal(RepeatStrategy::Same)
    }

    /// Tile vertically with no mirroring.
    pub fn vertical() -> (r: Self)
        ensures
            r == LayerRepeat::Vertical(RepeatStrategy::Same),
    {
        LayerRepeat::Vertical(RepeatStrategy::Same)
    }

    /// Returns `true` if this repeat mode tiles along the Y axis.
    pub fn has_vertical(&self) -> (r: bool)
        ensures
            r == self.tiles_vertically(),
            r == (*self is Vertical || *self is Bidirectional),
    {
        matches!(self, LayerRepeat::Vertical(_) | LayerRepeat::Bidirectional(_))
    }

    /// Returns `true` if this repeat mode tiles along the X axis.
    pub fn has_horizontal(&self) -> (r: bool)
        ensures
            r == self.tiles_horizontally(),
            r == (*self is Horizontal || *self is Bidirectional),
    {
        matches!(self, LayerRepeat::Horizontal(_) | LayerRepeat::Bidirectional(_))
    }

    /// Returns `true` if the layer's grid extends along the X axis: it tiles
    /// along X with a strategy other than `RepeatStrategy::NoTiling`.
    pub fn spans_horizontally(&self) -> (r: bool)
        ensures
            r == self.grid_spans_x(),
    {
        self.has_horizontal() && !matches!(self.get_strategy(), RepeatStrategy::NoTiling)
    }

    /// Returns `true` if the layer's grid extends along the Y axis: it tiles
    /// along Y with a strategy other than `RepeatStrategy::NoTiling`.
    pub fn spans_vertically(&self) -> (r: bool)
        ensures
            r == self.grid_spans_y(),
    {
        self.has_vertical() && !matches!(self.get_strategy(), RepeatStrategy::NoTiling)
    }

    /// Returns the strategy associated with this repeat mode, and
    /// `RepeatStrategy::NoTiling` when the layer does not tile.
    pub fn get_strategy(&self) -> (r: &RepeatStrategy)
        ensures
            *r == self.strategy(),
            *r == match *self {
                LayerRepeat::NoTiling => RepeatStrategy::NoTiling,
                LayerRepeat::Horizontal(s) => s,
                LayerRepeat::Vertical(s) => s,
                LayerRepeat::Bidirectional(s) => s,
            },
    {
        match self {
            LayerRepeat::NoTiling => &RepeatStrategy::NoTiling,
            LayerRepeat::Horizontal(strategy) => strategy,
            LayerRepeat::Vertical(strategy) => strategy,
            LayerRepeat::Bidirectional(strategy) => strategy,
        }
    }
}

impl Default for LayerRepeat {
    /// Tiles in both directions with no mirroring.
    fn default() -> (r: Self)
        ensures
            r == LayerRepeat::Bidirectional(RepeatStrategy::Same),
    {
        LayerRepeat::Bidirectional(RepeatStrategy::Same)
    }
}

/// One tile of a layer's grid: its column `x`, its row `y`, and whether it is
/// flipped horizontally (`flip_x`) and vertically (`flip_y`).
#[derive(Debug, Clone, Copy, PartialEq, Eq, Structural)]
pub struct LayerTile {
    pub x: i32,
    pub y: i32,
    pub flip_x: bool,
    pub flip_y: bool,
}

/// First and last grid index (both inclusive) along one axis: from
/// `1 - max_index` to `max_index` when the layer repeats along it, the single
/// index `0` otherwise.
pub open spec fn axis_bounds(repeats: bool, max_index: i32) -> (int, int) {
    if repeats {
        (1 - max_index, max_index as int)
    } else {
        (0, 0)
    }
}

/// Number of grid indices along one axis.
pub open spec fn axis_count(repeats: bool, max_index: i32) -> int {
    let (lo, hi) = axis_bounds(repeats, max_index);
    if hi >= lo {
        hi - lo + 1
    } else {
        0
    }
}

/// The `i`-th tile of the grid: tiles go column by column, and within a
/// column row by row, each flipped by the layer's strategy from `flip`.
pub open spec fn tile_at(
    repeat: LayerRepeat,
    x_max_index: i32,
    y_max_index: i32,
    flip: (bool, bool),
    i: int,
) -> LayerTile {
    let x_lo = axis_bounds(repeat.grid_spans_x(), x_max_index).0;
    let y_lo = axis_bounds(repeat.grid_spans_y(), y_max_index).0;
    let rows = axis_count(repeat.grid_spans_y(), y_max_index);
    let x = (x_lo + i / rows) as i32;
    let y = (y_lo + i % rows) as i32;
    let tile_flip = repeat.strategy().flipped(flip, (x, y));
    LayerTile { x, y, flip_x: tile_flip.0, flip_y: tile_flip.1 }
}

/// The whole grid of a layer, in spawn order.
pub open spec fn tile_grid(
    repeat: LayerRepeat,
    x_max_index: i32,
    y_max_index: i32,
    flip: (bool, bool),
) -> Seq<LayerTile> {
    Seq::new(
        (axis_count(repeat.grid_spans_x(), x_max_index) * axis_count(
            repeat.grid_spans_y(),
            y_max_index,
        )) as nat,
        |i: int| tile_at(repeat, x_max_index, y_max_index, flip, i),
    )
}

/// The tiles that make up a layer, given how far the grid reaches from the
/// origin along each axis (`x_max_index`, `y_max_index`) and the layer's own
/// flip state. Along an axis that the layer repeats along with a strategy
/// other than `NoTiling`, the indices run from `1 - max_index` to
/// `max_index`; along any other axis there is only index `0`, so a layer
/// whose strategy is `NoTiling` is rendered exactly once, by the tile at the
/// origin. Each tile's flip state is the layer's, transformed by the repeat
/// strategy at the tile's position.
pub fn layer_tiles(repeat: &LayerRepeat, x_max_index: i32, y_max_index: i32, flip: (bool, bool)) -> (tiles: Vec<LayerTile>)
    requires
        repeat.grid_spans_x() ==> x_max_index >= i32::MIN + 2,
        repeat.grid_spans_y() ==> y_max_index >= i32::MIN + 2,
    ensures
        tiles@ == tile_grid(*repeat, x_max_index, y_max_index, flip),
        repeat.strategy() is NoTiling ==> tiles@.len() == 1 && tiles@[0].x == 0 && tiles@[0].y == 0
            && tiles@[0].flip_x == flip.0 && tiles@[0].flip_y == flip.1,
{
    let strategy = repeat.get_strategy();
    let x_range: (i32, i32) = if repeat.spans_horizontally() {
        (-x_max_index + 1, x_max_index)
    } else {
        (0, 0)
    };
    let y_range: (i32, i32) = if repeat.spans_vertically() {
        (-y_max_index + 1, y_max_index)
    } else {
        (0, 0)
    };
    let x_lo: i64 = x_range.0 as i64;
    let x_hi: i64 = x_range.1 as i64;
    let y_lo: i64 = y_range.0 as i64;
    let y_hi: i64 = y_range.1 as i64;
    let ghost rows: int = axis_count(repeat.grid_spans_y(), y_max_index);
    let ghost grid = tile_grid(*repeat, x_max_index, y_max_index, flip);
    assert(rows == if y_hi >= y_lo { y_hi - y_lo + 1 } else { 0int });

    let mut tiles: Vec<LayerTile> = Vec::new();
    let mut x: i64 = x_lo;
    while x <= x_hi
        invariant
            x_lo <= x,
            x_hi >= x_lo ==> x <= x_hi + 1,
            x_hi < x_lo ==> x == x_lo,
            x_lo == axis_bounds(repeat.grid_spans_x(), x_max_index).0,
            x_hi == axis_bounds(repeat.grid_spans_x(), x_max_index).1,
            y_lo == axis_bounds(repeat.grid_spans_y(), y_max_index).0,
            y_hi == axis_bounds(repeat.grid_spans_y(), y_max_index).1,
            i32::MIN <= x_lo && x_hi <= i32::MAX,
            i32::MIN <= y_lo && y_hi <= i32::MAX,
            rows == if y_hi >= y_lo { y_hi - y_lo + 1 } else { 0int },
            rows == axis_count(repeat.grid_spans_y(), y_max_index),
            *strategy == repeat.strategy(),
            grid == tile_grid(*repeat, x_max_index, y_max_index, flip),
            tiles@.len() == (x - x_lo) * rows,
            forall|k: int| 0 <= k < tiles@.len() ==> #[trigger] tiles@[k] == tile_at(*repeat, x_max_index, y_max_index, flip, k),
        decreases x_hi + 1 - x,
    {
        let mut y: i64 = y_lo;
        while y <= y_hi
            invariant
                x_lo <= x <= x_hi,
                y_lo <= y,
                y_hi >= y_lo ==> y <= y_hi + 1,
                y_hi < y_lo ==> y == y_lo,
                x_lo == axis_bounds(repeat.grid_spans_x(), x_max_index).0,
                y_lo == axis_bounds(repeat.grid_spans_y(), y_max_index).0,
                i32::MIN <= x_lo && x_hi <= i32::MAX,
                i32::MIN <= y_lo && y_hi <= i32::MAX,
                rows == if y_hi >= y_lo { y_hi - y_lo + 1 } else { 0int },
                rows == axis_count(repeat.grid_spans_y(), y_max_index),
                *strategy == repeat.strategy(),
                tiles@.len() == (x - x_lo) * rows + (y - y_lo),
                forall|k: int| 0 <= k < tiles@.len() ==> #[trigger] tiles@[k] == tile_at(*repeat, x_max_index, y_max_index, flip, k),
            decreases y_hi + 1 - y,
        {
            let mut tile_flip = flip;
            strategy.transform(&mut tile_flip, (x as i32, y as i32));
            let ghost k: int = tiles@.len() as int;
            proof {
                lemma_fundamental_div_mod_converse(k, rows, x - x_lo, y - y_lo);
            }
            tiles.push(LayerTile { x: x as i32, y: y as i32, flip_x: tile_flip.0, flip_y: tile_flip.1 });
            y = y + 1;
        }
        let ghost done: int = tiles@.len() as int;
        proof {
            assert(done == (x - x_lo) * rows + rows);
            assert(done == (x + 1 - x_lo) * rows) by (nonlinear_arith)
                requires
                    done == (x - x_lo) * rows + rows,
            ;
        }
        x = x + 1;
    }
    proof {
        let cols = axis_count(repeat.grid_spans_x(), x_max_index);
        if x_hi >= x_lo {
            assert(x - x_lo == cols);
        } else {
            assert(cols == 0);
            assert(x == x_lo);
        }
        assert(tiles@ =~= grid);
    }
    tiles
}

/// Number of tiles a layer counts along one axis when it wraps tiles around:
/// twice the max index, and at least 1, along a repeated axis; 1 otherwise.
pub open spec fn axis_texture_count(repeats: bool, max_index: i32) -> int {
    if repeats && 2 * max_index >= 1 {
        2 * max_index
    } else {
        1
    }
}

/// The texture count of a layer along X and Y, from how far its grid reaches
/// along each axis; an axis that the layer does not repeat along with a
/// strategy other than `NoTiling` counts one texture.
pub fn texture_count(repeat: &LayerRepeat, x_max_index: i32, y_max_index: i32) -> (count: (i64, i64))
    ensures
        count.0 == axis_texture_count(repeat.grid_spans_x(), x_max_index),
        count.1 == axis_texture_count(repeat.grid_spans_y(), y_max_index),
        repeat.strategy() is NoTiling ==> count == (1i64, 1i64),
        count.0 == (if repeats_along_x(*repeat) && x_max_index >= 1 {
            2 * x_max_index
        } else {
            1int
        }),
        count.1 == (if repeats_along_y(*repeat) && y_max_index >= 1 {
            2 * y_max_index
        } else {
            1int
        }),
{
    let x_index: i64 = if repeat.spans_horizontally() { x_max_index as i64 } else { 0 };
    let y_index: i64 = if repeat.spans_vertically() { y_max_index as i64 } else { 0 };
    let x_count: i64 = if 2 * x_index >= 1 { 2 * x_index } else { 1 };
    let y_count: i64 = if 2 * y_index >= 1 { 2 * y_index } else { 1 };
    (x_count, y_count)
}

/// Law: transforming a tile's flip state twice at the same position gives
/// back the flip state it started from.
pub proof fn lemma_transform_involutive(strategy: RepeatStrategy, flip: (bool, bool), pos: (i32, i32))
    ensures
        strategy.flipped(strategy.flipped(flip, pos), pos) == flip,
{
}

/// Law: a strategy only looks at the parity of a tile's position, so tiles two
/// columns or two rows apart get the same flip state.
pub proof fn lemma_transform_period_two(strategy: RepeatStrategy, flip: (bool, bool), x: i32, y: i32)
    requires
        x <= i32::MAX - 2,
        y <= i32::MAX - 2,
    ensures
        strategy.flipped(flip, ((x + 2) as i32, y)) == strategy.flipped(flip, (x, y)),
        strategy.flipped(flip, (x, (y + 2) as i32)) == strategy.flipped(flip, (x, y)),
{
}

/// Law: the tile at the origin keeps the layer's own flip state, and the
/// strategies `NoTiling` and `Same` keep it on every tile.
pub proof fn lemma_transform_keeps_unmirrored(strategy: RepeatStrategy, flip: (bool, bool), pos: (i32, i32))
    ensures
        strategy.flipped(flip, (0, 0)) == flip,
        (strategy is NoTiling || strategy is Same) ==> strategy.flipped(flip, pos) == flip,
{
}

/// Whether some tile of `grid` sits at column `x` and row `y`.
pub open spec fn has_tile_at(grid: Seq<LayerTile>, x: int, y: int) -> bool {
    exists|i: int| 0 <= i < grid.len() && #[trigger] grid[i].x == x && grid[i].y == y
}

/// Law: the tiles of a layer cover the rectangle of grid indices between the
/// axis bounds exactly once: every tile lies inside it, every position inside
/// it holds a tile, and no two tiles share a position.
pub proof fn lemma_layer_tiles_cover_grid(repeat: LayerRepeat, x_max_index: i32, y_max_index: i32, flip: (bool, bool))
    requires
        repeat.grid_spans_x() ==> x_max_index >= i32::MIN + 2,
        repeat.grid_spans_y() ==> y_max_index >= i32::MIN + 2,
    ensures
        ({
            let grid = tile_grid(repeat, x_max_index, y_max_index, flip);
            let (x_lo, x_hi) = axis_bounds(repeat.grid_spans_x(), x_max_index);
            let (y_lo, y_hi) = axis_bounds(repeat.grid_spans_y(), y_max_index);
            &&& forall|i: int|
                0 <= i < grid.len() ==> x_lo <= #[trigger] grid[i].x <= x_hi && y_lo <= grid[i].y <= y_hi
            &&& forall|x: int, y: int|
                x_lo <= x <= x_hi && y_lo <= y <= y_hi ==> #[trigger] has_tile_at(grid, x, y)
            &&& forall|i: int, j: int|
                0 <= i < j < grid.len() ==> #[trigger] grid[i].x != #[trigger] grid[j].x || grid[i].y
                    != grid[j].y
        }),
{
    let grid = tile_grid(repeat, x_max_index, y_max_index, flip);
    let (x_lo, x_hi) = axis_bounds(repeat.grid_spans_x(), x_max_index);
    let (y_lo, y_hi) = axis_bounds(repeat.grid_spans_y(), y_max_index);
    let cols = axis_count(repeat.grid_spans_x(), x_max_index);
    let rows = axis_count(repeat.grid_spans_y(), y_max_index);
    assert(grid.len() == cols * rows) by (nonlinear_arith)
        requires
            grid.len() == (cols * rows) as nat,
            cols >= 0,
            rows >= 0,
    ;
    assert forall|i: int| 0 <= i < grid.len() implies x_lo <= #[trigger] grid[i].x <= x_hi && y_lo
        <= grid[i].y <= y_hi by {
        lemma_tile_position(repeat, x_max_index, y_max_index, flip, i);
    }
    assert forall|x: int, y: int| x_lo <= x <= x_hi && y_lo <= y <= y_hi implies #[trigger] has_tile_at(
        grid,
        x,
        y,
    ) by {
        let i = (x - x_lo) * rows + (y - y_lo);
        assert(0 <= i < cols * rows) by (nonlinear_arith)
            requires
                i == (x - x_lo) * rows + (y - y_lo),
                0 <= x - x_lo < cols,
                0 <= y - y_lo < rows,
        ;
        lemma_fundamental_div_mod_converse(i, rows, x - x_lo, y - y_lo);
        assert(grid[i].x == x && grid[i].y == y);
    }
    assert forall|i: int, j: int| 0 <= i < j < grid.len() implies #[trigger] grid[i].x
        != #[trigger] grid[j].x || grid[i].y != grid[j].y by {
        lemma_tile_position(repeat, x_max_index, y_max_index, flip, i);
        lemma_tile_position(repeat, x_max_index, y_max_index, flip, j);
    }
}

/// Where the `i`-th tile of a grid sits, spelled out as a quotient and a
/// remainder by the number of rows.
proof fn lemma_tile_position(repeat: LayerRepeat, x_max_index: i32, y_max_index: i32, flip: (bool, bool), i: int)
    requires
        repeat.grid_spans_x() ==> x_max_index >= i32::MIN + 2,
        repeat.grid_spans_y() ==> y_max_index >= i32::MIN + 2,
        0 <= i < tile_grid(repeat, x_max_index, y_max_index, flip).len(),
    ensures
        ({
            let grid = tile_grid(repeat, x_max_index, y_max_index, flip);
            let x_lo = axis_bounds(repeat.grid_spans_x(), x_max_index).0;
            let y_lo = axis_bounds(repeat.grid_spans_y(), y_max_index).0;
            let cols = axis_count(repeat.grid_spans_x(), x_max_index);
            let rows = axis_count(repeat.grid_spans_y(), y_max_index);
            &&& 0 <= i / rows < cols
            &&& 0 <= i % rows < rows
            &&& i == rows * (i / rows) + i % rows
            &&& grid[i].x == x_lo + i / rows
            &&& grid[i].y == y_lo + i % rows
        }),
{
    let grid = tile_grid(repeat, x_max_index, y_max_index, flip);
    let cols = axis_count(repeat.grid_spans_x(), x_max_index);
    let rows = axis_count(repeat.grid_spans_y(), y_max_index);
    assert(grid.len() == cols * rows) by (nonlinear_arith)
        requires
            grid.len() == (cols * rows) as nat,
            cols >= 0,
            rows >= 0,
    ;
    assert(rows > 0) by (nonlinear_arith)
        requires
            0 <= i < cols * rows,
            cols >= 0,
            rows >= 0,
    ;
    lemma_fundamental_div_mod(i, rows);
    lemma_mod_pos_bound(i, rows);
    lemma_div_pos_is_pos(i, rows);
    let q = i / rows;
    assert(q < cols) by (nonlinear_arith)
        requires
            i == rows * q + i % rows,
            0 <= i % rows < rows,
            i < cols * rows,
    ;
}

/// Law: wherever the grid of a layer is not empty along an axis, it holds as
/// many indices along that axis as the layer's texture count; along a
/// repeated axis whose max index is below 1 it holds none.
pub proof fn lemma_texture_count_matches_grid(repeats: bool, max_index: i32)
    ensures
        repeats && max_index < 1 ==> axis_count(repeats, max_index) == 0,
        !(repeats && max_index < 1) ==> axis_count(repeats, max_index) == axis_texture_count(
            repeats,
            max_index,
        ),
{
}

#[verifier::external_type_specification]
#[verifier::external_body]
pub struct ExTextureAtlasLayout(bevy::image::TextureAtlasLayout);

/// The texture rectangles that an atlas layout holds, in atlas index order,
/// each as `(min_x, min_y, max_x, max_y)`.
pub uninterp spec fn atlas_textures(layout: TextureAtlasLayout) -> Seq<(u32, u32, u32, u32)>;

/// The total size `(width, height)` that an atlas layout was made with.
pub uninterp spec fn atlas_size(layout: TextureAtlasLayout) -> (u32, u32);

/// The rectangle of the `i`-th cell of a grid of `columns` columns of
/// `tile_width` by `tile_height` cells, counted left to right, top to bottom.
pub open spec fn grid_rect(tile_width: u32, tile_height: u32, columns: u32, i: int) -> (u32, u32, u32, u32) {
    let x = i % (columns as int);
    let y = i / (columns as int);
    (
        (x * tile_width) as u32,
        (y * tile_height) as u32,
        (x * tile_width + tile_width) as u32,
        (y * tile_height + tile_height) as u32,
    )
}

/// The rectangles of all cells of a grid of `columns` by `rows` cells.
pub open spec fn grid_rects(tile_width: u32, tile_height: u32, columns: u32, rows: u32) -> Seq<(u32, u32, u32, u32)> {
    Seq::new((columns * rows) as nat, |i: int| grid_rect(tile_width, tile_height, columns, i))
}

/// Calls `TextureAtlasLayout::from_grid` with no padding and no offset.
/// Its source pushes, for each row and then each column, the rectangle from
/// `tile * (column, row)` to that corner plus `tile`, and sets the size to
/// `tile * (columns, rows)`; it multiplies `u32`s unchecked, hence the bounds.
#[verifier::external_body]
fn atlas_layout_from_grid(tile_width: u32, tile_height: u32, columns: u32, rows: u32) -> (layout: TextureAtlasLayout)
    requires
        columns * tile_width <= u32::MAX,
        rows * tile_height <= u32::MAX,
    ensures
        atlas_textures(layout) == grid_rects(tile_width, tile_height, columns, rows),
        atlas_size(layout) == ((columns * tile_width) as u32, (rows * tile_height) as u32),
{
    TextureAtlasLayout::from_grid(UVec2::new(tile_width, tile_height), columns, rows, None, None)
}

/// Builds the texture-atlas layout of a layer: a grid of `cols` by `rows`
/// cells of `tile_size` (width, height), indexed left to right, top to
/// bottom. The column and row counts are narrowed to `u32`, keeping their
/// low 32 bits.
pub fn create_texture_atlas_layout(tile_size: (u32, u32), cols: usize, rows: usize) -> (layout: TextureAtlasLayout)
    requires
        (cols as u32) * tile_size.0 <= u32::MAX,
        (rows as u32) * tile_size.1 <= u32::MAX,
    ensures
        atlas_textures(layout) == grid_rects(tile_size.0, tile_size.1, cols as u32, rows as u32),
        atlas_size(layout) == (((cols as u32) * tile_size.0) as u32, ((rows as u32) * tile_size.1) as u32),
{
    atlas_layout_from_grid(tile_size.0, tile_size.1, cols as u32, rows as u32)
}

/// Whether a layer repeats along X, read off its variant: it is
/// `Horizontal(s)` or `Bidirectional(s)` with `s` other than `NoTiling`.
pub open spec fn repeats_along_x(repeat: LayerRepeat) -> bool {
    match repeat {
        LayerRepeat::Horizontal(s) => s != RepeatStrategy::NoTiling,
        LayerRepeat::Bidirectional(s) => s != RepeatStrategy::NoTiling,
        _ => false,
    }
}

/// Whether a layer repeats along Y, read off its variant: it is
/// `Vertical(s)` or `Bidirectional(s)` with `s` other than `NoTiling`.
pub open spec fn repeats_along_y(repeat: LayerRepeat) -> bool {
    match repeat {
        LayerRepeat::Vertical(s) => s != RepeatStrategy::NoTiling,
        LayerRepeat::Bidirectional(s) => s != RepeatStrategy::NoTiling,
        _ => false,
    }
}

/// Whether the tiles of a layer mirror odd columns, read off its variant: it
/// was built with `MirrorHorizontally` or `MirrorBoth`.
pub open spec fn mirrors_odd_columns(repeat: LayerRepeat) -> bool {
    match repeat {
        LayerRepeat::NoTiling => false,
        LayerRepeat::Horizontal(s) => s == RepeatStrategy::MirrorHorizontally || s == RepeatStrategy::MirrorBoth,
        LayerRepeat::Vertical(s) => s == RepeatStrategy::MirrorHorizontally || s == RepeatStrategy::MirrorBoth,
        LayerRepeat::Bidirectional(s) => s == RepeatStrategy::MirrorHorizontally || s == RepeatStrategy::MirrorBoth,
    }
}

/// Whether the tiles of a layer mirror odd rows, read off its variant: it was
/// built with `MirrorVertically` or `MirrorBoth`.
pub open spec fn mirrors_odd_rows(repeat: LayerRepeat) -> bool {
    match repeat {
        LayerRepeat::NoTiling => false,
        LayerRepeat::Horizontal(s) => s == RepeatStrategy::MirrorVertically || s == RepeatStrategy::MirrorBoth,
        LayerRepeat::Vertical(s) => s == RepeatStrategy::MirrorVertically || s == RepeatStrategy::MirrorBoth,
        LayerRepeat::Bidirectional(s) => s == RepeatStrategy::MirrorVertically || s == RepeatStrategy::MirrorBoth,
    }
}

/// Law: a repeat mode hands back the strategy it was built with, and a layer
/// that does not tile has the `NoTiling` strategy.
pub proof fn lemma_strategy_is_the_one_built_with(s: RepeatStrategy)
    ensures
        LayerRepeat::Horizontal(s).strategy() == s,
        LayerRepeat::Vertical(s).strategy() == s,
        LayerRepeat::Bidirectional(s).strategy() == s,
        LayerRepeat::NoTiling.strategy() == RepeatStrategy::NoTiling,
{
}

/// Law: a layer tiles along X exactly when it is `Horizontal` or
/// `Bidirectional`, and along Y exactly when it is `Vertical` or
/// `Bidirectional`, whatever its strategy; its grid extends along an axis it
/// tiles along unless its strategy is `NoTiling`.
pub proof fn lemma_axes_by_variant(repeat: LayerRepeat)
    ensures
        repeat.tiles_horizontally() == (repeat is Horizontal || repeat is Bidirectional),
        repeat.tiles_vertically() == (repeat is Vertical || repeat is Bidirectional),
        repeat.grid_spans_x() == repeats_along_x(repeat),
        repeat.grid_spans_y() == repeats_along_y(repeat),
{
}

/// Law: each strategy toggles a flip state exactly as its name says, at every
/// position: `MirrorHorizontally` toggles the horizontal flip on odd columns,
/// `MirrorVertically` the vertical flip on odd rows, `MirrorBoth` both, and
/// `NoTiling` and `Same` nothing.
pub proof fn lemma_strategy_toggles(flip: (bool, bool), x: i32, y: i32)
    ensures
        RepeatStrategy::NoTiling.flipped(flip, (x, y)) == flip,
        RepeatStrategy::Same.flipped(flip, (x, y)) == flip,
        RepeatStrategy::MirrorHorizontally.flipped(flip, (x, y)) == (flip.0 != ((x as int) % 2 != 0), flip.1),
        RepeatStrategy::MirrorVertically.flipped(flip, (x, y)) == (flip.0, flip.1 != ((y as int) % 2 != 0)),
        RepeatStrategy::MirrorBoth.flipped(flip, (x, y)) == (flip.0 != ((x as int) % 2 != 0), flip.1 != ((
        y as int) % 2 != 0)),
{
}

/// Law: every tile of a layer starts from the layer's own flip state, and the
/// strategy toggles the horizontal flip on odd columns when it mirrors
/// columns and the vertical flip on odd rows when it mirrors rows; so the tile
/// at the origin always carries the layer's own flip.
pub proof fn lemma_tiles_carry_layer_flip(repeat: LayerRepeat, x_max_index: i32, y_max_index: i32, flip: (bool, bool))
    requires
        repeat.grid_spans_x() ==> x_max_index >= i32::MIN + 2,
        repeat.grid_spans_y() ==> y_max_index >= i32::MIN + 2,
    ensures
        forall|i: int|
            0 <= i < tile_grid(repeat, x_max_index, y_max_index, flip).len() ==> {
                let t = #[trigger] tile_grid(repeat, x_max_index, y_max_index, flip)[i];
                &&& t.flip_x == (flip.0 != (mirrors_odd_columns(repeat) && (t.x as int) % 2 != 0))
                &&& t.flip_y == (flip.1 != (mirrors_odd_rows(repeat) && (t.y as int) % 2 != 0))
                &&& (t.x == 0 && t.y == 0 ==> t.flip_x == flip.0 && t.flip_y == flip.1)
            },
{
}

/// Law: along X, a layer that repeats along X with a reach of `m >= 1` tiles
/// spawns exactly the columns `1 - m ..= m`: every tile lies in them, and every
/// row that holds a tile holds one in each of them; its texture count along X
/// is `2 * m`. A layer that does not repeat along X only has column `0`.
pub proof fn lemma_grid_columns(repeat: LayerRepeat, x_max_index: i32, y_max_index: i32, flip: (bool, bool))
    requires
        repeat.grid_spans_x() ==> x_max_index >= i32::MIN + 2,
        repeat.grid_spans_y() ==> y_max_index >= i32::MIN + 2,
    ensures
        ({
            let grid = tile_grid(repeat, x_max_index, y_max_index, flip);
            &&& repeats_along_x(repeat) && x_max_index >= 1 ==> {
                &&& forall|i: int| 0 <= i < grid.len() ==> 1 - x_max_index <= #[trigger] grid[i].x <= x_max_index
                &&& forall|x: int, j: int|
                    1 - x_max_index <= x <= x_max_index && 0 <= j < grid.len() ==> #[trigger] has_tile_at(
                        grid,
                        x,
                        #[trigger] grid[j].y as int,
                    )
                &&& axis_texture_count(repeat.grid_spans_x(), x_max_index) == 2 * x_max_index
            }
            &&& !repeats_along_x(repeat) ==> forall|i: int| 0 <= i < grid.len() ==> #[trigger] grid[i].x == 0
        }),
{
    lemma_grid_axis_cover(repeat, x_max_index, y_max_index, flip);
}

/// Law: along Y, a layer that repeats along Y with a reach of `m >= 1` tiles
/// spawns exactly the rows `1 - m ..= m`: every tile lies in them, and every
/// column that holds a tile holds one in each of them; its texture count along
/// Y is `2 * m`. A layer that does not repeat along Y only has row `0`.
pub proof fn lemma_grid_rows(repeat: LayerRepeat, x_max_index: i32, y_max_index: i32, flip: (bool, bool))
    requires
        repeat.grid_spans_x() ==> x_max_index >= i32::MIN + 2,
        repeat.grid_spans_y() ==> y_max_index >= i32::MIN + 2,
    ensures
        ({
            let grid = tile_grid(repeat, x_max_index, y_max_index, flip);
            &&& repeats_along_y(repeat) && y_max_index >= 1 ==> {
                &&& forall|i: int| 0 <= i < grid.len() ==> 1 - y_max_index <= #[trigger] grid[i].y <= y_max_index
                &&& forall|y: int, j: int|
                    1 - y_max_index <= y <= y_max_index && 0 <= j < grid.len() ==> #[trigger] has_tile_at(
                        grid,
                        #[trigger] grid[j].x as int,
                        y,
                    )
                &&& axis_texture_count(repeat.grid_spans_y(), y_max_index) == 2 * y_max_index
            }
            &&& !repeats_along_y(repeat) ==> forall|i: int| 0 <= i < grid.len() ==> #[trigger] grid[i].y == 0
        }),
{
    lemma_grid_axis_cover(repeat, x_max_index, y_max_index, flip);
}

/// Every pair of a column and a row inside the axis bounds holds a tile, and
/// every tile lies inside them.
proof fn lemma_grid_axis_cover(repeat: LayerRepeat, x_max_index: i32, y_max_index: i32, flip: (bool, bool))
    requires
        repeat.grid_spans_x() ==> x_max_index >= i32::MIN + 2,
        repeat.grid_spans_y() ==> y_max_index >= i32::MIN + 2,
    ensures
        ({
            let grid = tile_grid(repeat, x_max_index, y_max_index, flip);
            let (x_lo, x_hi) = axis_bounds(repeat.grid_spans_x(), x_max_index);
            let (y_lo, y_hi) = axis_bounds(repeat.grid_spans_y(), y_max_index);
            &&& repeat.grid_spans_x() == repeats_along_x(repeat)
            &&& repeat.grid_spans_y() == repeats_along_y(repeat)
            &&& forall|i: int|
                0 <= i < grid.len() ==> x_lo <= #[trigger] grid[i].x <= x_hi && y_lo <= grid[i].y <= y_hi
            &&& forall|x: int, y: int|
                x_lo <= x <= x_hi && y_lo <= y <= y_hi ==> #[trigger] has_tile_at(grid, x, y)
        }),
{
    lemma_layer_tiles_cover_grid(repeat, x_max_index, y_max_index, flip);
}

/// Law: the tiles of a layer come column by column, and within a column row
/// by row: of two tiles, the earlier one has the smaller column, or the same
/// column and the smaller row.
pub proof fn lemma_tiles_in_column_order(repeat: LayerRepeat, x_max_index: i32, y_max_index: i32, flip: (bool, bool))
    requires
        repeat.grid_spans_x() ==> x_max_index >= i32::MIN + 2,
        repeat.grid_spans_y() ==> y_max_index >= i32::MIN + 2,
    ensures
        ({
            let grid = tile_grid(repeat, x_max_index, y_max_index, flip);
            forall|i: int, j: int|
                0 <= i < j < grid.len() ==> #[trigger] grid[i].x < #[trigger] grid[j].x || (grid[i].x
                    == grid[j].x && grid[i].y < grid[j].y)
        }),
{
    let grid = tile_grid(repeat, x_max_index, y_max_index, flip);
    let rows = axis_count(repeat.grid_spans_y(), y_max_index);
    assert forall|i: int, j: int| 0 <= i < j < grid.len() implies #[trigger] grid[i].x < #[trigger] grid[j].x
        || (grid[i].x == grid[j].x && grid[i].y < grid[j].y) by {
        lemma_tile_position(repeat, x_max_index, y_max_index, flip, i);
        lemma_tile_position(repeat, x_max_index, y_max_index, flip, j);
        let qi = i / rows;
        let qj = j / rows;
        let ri = i % rows;
        let rj = j % rows;
        assert(qi < qj || (qi == qj && ri < rj)) by (nonlinear_arith)
            requires
                i == rows * qi + ri,
                j == rows * qj + rj,
                0 <= ri < rows,
                0 <= rj < rows,
                i < j,
        {
            if qi > qj {
                assert(rows * qi >= rows * (qj + 1));
            }
        }
    }
}

/// Law: cell `(column, row)` of an atlas grid is its `row * columns + column`-th
/// rectangle, running from `(column * tile_width, row * tile_height)` to one
/// tile further along each axis; the grid holds `columns * rows` of them.
pub proof fn lemma_grid_rects_by_cell(tile_width: u32, tile_height: u32, columns: u32, rows: u32)
    requires
        columns * tile_width <= u32::MAX,
        rows * tile_height <= u32::MAX,
    ensures
        grid_rects(tile_width, tile_height, columns, rows).len() == columns * rows,
        forall|column: int, row: int|
            0 <= column < columns && 0 <= row < rows ==> #[trigger] grid_rects(
                tile_width,
                tile_height,
                columns,
                rows,
            )[row * columns + column] == (
                (column * tile_width) as u32,
                (row * tile_height) as u32,
                (column * tile_width + tile_width) as u32,
                (row * tile_height + tile_height) as u32,
            ),
{
    let rects = grid_rects(tile_width, tile_height, columns, rows);
    assert(rects.len() == columns * rows) by (nonlinear_arith)
        requires
            rects.len() == (columns * rows) as nat,
    ;
    assert forall|column: int, row: int| 0 <= column < columns && 0 <= row < rows implies #[trigger] rects[row
        * columns + column] == (
        (column * tile_width) as u32,
        (row * tile_height) as u32,
        (column * tile_width + tile_width) as u32,
        (row * tile_height + tile_height) as u32,
    ) by {
        let i = row * columns + column;
        assert(0 <= i < columns * rows) by (nonlinear_arith)
            requires
                i == row * columns + column,
                0 <= column < columns,
                0 <= row < rows,
        ;
        lemma_fundamental_div_mod_converse(i, columns as int, row, column);
    }
}

} // verus!
