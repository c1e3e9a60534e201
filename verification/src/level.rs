use vstd::prelude::*;
use vstd::string::StringSliceAdditionalSpecFns;
use crate::csv::{fields_exec, fields_of, lines_exec, lines_of, views};
use crate::direction::Dir4;
use crate::geometry::{clamp_spec, PixelRect, TilePoint, TileSize};
use crate::units::TILE_PIXELS;

verus! {

/// What a tile of a level does to the ship.
#[derive(Clone, Copy, PartialEq, Eq, Structural, Debug, Hash)]
pub enum CollisionType {
    /// Nothing: the ship flies through.
    Empty,
    /// The ship is destroyed on contact.
    Wall,
    /// A bumper that sends the ship away along its outward normal.
    Bouncy { normal_dir: Dir4 },
}

/// The tile that a cell of the collision file stands for: `1` empty, `2` wall,
/// `3` to `6` bumpers facing up, right, down and left. Anything else is no cell.
pub open spec fn cell_type(cell: Seq<u8>) -> Option<CollisionType> {
    if cell.len() != 1 {
        None
    } else if cell[0] == 49u8 {
        Some(CollisionType::Empty)
    } else if cell[0] == 50u8 {
        Some(CollisionType::Wall)
    } else if cell[0] == 51u8 {
        Some(CollisionType::Bouncy { normal_dir: Dir4::Up })
    } else if cell[0] == 52u8 {
        Some(CollisionType::Bouncy { normal_dir: Dir4::Right })
    } else if cell[0] == 53u8 {
        Some(CollisionType::Bouncy { normal_dir: Dir4::Down })
    } else if cell[0] == 54u8 {
        Some(CollisionType::Bouncy { normal_dir: Dir4::Left })
    } else {
        None
    }
}

/// The cells of a collision file: for each line, its non-empty
/// comma-separated fields.
pub open spec fn csv_rows(text: Seq<u8>) -> Seq<Seq<Seq<u8>>> {
    lines_of(text).map_values(|line: Seq<u8>| fields_of(line))
}

/// A collision file that can be read: it has at least one line, and every
/// field of every line is a cell.
pub open spec fn valid_collision_csv(text: Seq<u8>) -> bool {
    let rows = csv_rows(text);
    &&& rows.len() >= 1
    &&& forall|i: int, j: int|
        0 <= i < rows.len() && 0 <= j < rows[i].len() ==> (#[trigger] cell_type(rows[i][j])) is Some
}

/// The tiles of each line of a collision file.
pub open spec fn parsed_rows(text: Seq<u8>) -> Seq<Seq<CollisionType>> {
    csv_rows(text).map_values(|row: Seq<Seq<u8>>| row.map_values(|c: Seq<u8>| cell_type(c).unwrap()))
}

impl CollisionType {
    /// Reads one cell of a collision file.
    pub fn from_cell(cell: &[u8]) -> (r: CollisionType)
        requires
            cell_type(cell@) is Some,
        ensures
            cell_type(cell@) == Some(r),
    {
        let b = cell[0];
        if b == 49u8 {
            CollisionType::Empty
        } else if b == 50u8 {
            CollisionType::Wall
        } else if b == 51u8 {
            CollisionType::Bouncy { normal_dir: Dir4::Up }
        } else if b == 52u8 {
            CollisionType::Bouncy { normal_dir: Dir4::Right }
        } else if b == 53u8 {
            CollisionType::Bouncy { normal_dir: Dir4::Down }
        } else {
            CollisionType::Bouncy { normal_dir: Dir4::Left }
        }
    }

    /// Whether `cell` is a cell of a collision file.
    pub fn is_cell(cell: &[u8]) -> (r: bool)
        ensures
            r == (cell_type(cell@) is Some),
    {
        cell.len() == 1 && 49u8 <= cell[0] && cell[0] <= 54u8
    }
}

/// The tile column or row in which a pixel coordinate lies, clamped to the
/// byte range of tile coordinates.
pub open spec fn tile_floor(v: int) -> int {
    clamp_spec(v / TILE_PIXELS as int, 0, 255)
}

/// The first tile column or row that begins at or past a pixel coordinate,
/// clamped to the byte range of tile coordinates.
pub open spec fn tile_ceil(v: int) -> int {
    clamp_spec(-((-v) / TILE_PIXELS as int), 0, 255)
}

/// The elements of `s` in the order of their first occurrence, each once.
pub open spec fn first_occurrences<A>(s: Seq<A>) -> Seq<A>
    decreases s.len(),
{
    if s.len() == 0 {
        s
    } else {
        let d = first_occurrences(s.drop_last());
        if d.contains(s.last()) {
            d
        } else {
            d.push(s.last())
        }
    }
}

/// `first_occurrences(s)` holds no element twice, and exactly the elements of `s`.
pub proof fn lemma_first_occurrences<A>(s: Seq<A>)
    ensures
        first_occurrences(s).no_duplicates(),
        forall|a: A| #[trigger] first_occurrences(s).contains(a) <==> s.contains(a),
    decreases s.len(),
{
    if s.len() > 0 {
        let p = s.drop_last();
        lemma_first_occurrences(p);
        let d = first_occurrences(p);
        assert(s =~= p.push(s.last()));
        assert forall|a: A| #[trigger] p.contains(a) implies s.contains(a) by {
            let k = choose|k: int| 0 <= k < p.len() && p[k] == a;
            assert(s[k] == a);
        }
        assert forall|a: A| #[trigger] s.contains(a) implies p.contains(a) || a == s.last() by {
            let k = choose|k: int| 0 <= k < s.len() && s[k] == a;
            if k < s.len() - 1 {
                assert(p[k] == a);
            }
        }
        assert(s[s.len() - 1] == s.last());
        assert(s.contains(s.last()));
        if d.contains(s.last()) {
            assert(first_occurrences(s) == d);
        } else {
            let e = d.push(s.last());
            assert(first_occurrences(s) == e);
            assert(e[d.len() as int] == s.last());
            assert forall|a: A| #[trigger] e.contains(a) <==> d.contains(a) || a == s.last() by {
                if e.contains(a) {
                    let k = choose|k: int| 0 <= k < e.len() && e[k] == a;
                    if k < d.len() {
                        assert(d[k] == a);
                    }
                }
                if d.contains(a) {
                    let k = choose|k: int| 0 <= k < d.len() && d[k] == a;
                    assert(e[k] == a);
                }
            }
        }
        assert forall|a: A| #[trigger] first_occurrences(s).contains(a) <==> s.contains(a) by {
            if a == s.last() {
                if d.contains(s.last()) {
                    assert(p.contains(a));
                }
            } else {
                if s.contains(a) {
                    assert(p.contains(a));
                    assert(d.contains(a));
                }
                if d.contains(a) {
                    assert(p.contains(a));
                }
            }
        }
        if !d.contains(s.last()) {
            assert forall|i: int, j: int|
                0 <= i < d.len() + 1 && 0 <= j < d.len() + 1 && i != j
                implies d.push(s.last())[i] != d.push(s.last())[j] by {
                if i < d.len() && j < d.len() {
                } else if i == d.len() {
                    assert(d[j] == d.push(s.last())[j]);
                } else {
                    assert(d[i] == d.push(s.last())[i]);
                }
            }
        }
    }
}

/// `LevelCollision::touching` reports each tile type under the rectangle
/// exactly once: no type twice, and a type is reported if and only if some
/// tile under the rectangle has it.
pub proof fn law_touching_reports_each_type_once(c: LevelCollision, obj: PixelRect)
    ensures
        first_occurrences(c.touching_columns(obj).flatten()).no_duplicates(),
        forall|t: CollisionType| #[trigger] first_occurrences(c.touching_columns(obj).flatten()).contains(t)
            <==> c.touching_columns(obj).flatten().contains(t),
{
    lemma_first_occurrences(c.touching_columns(obj).flatten());
}

/// Floor division by the tile size, from pixels to tiles.
fn floor_div_tile(v: i32) -> (r: i64)
    ensures
        r == v as int / TILE_PIXELS as int,
{
    let w = v as i64;
    let t = TILE_PIXELS as i64;
    if w >= 0 { w / t } else { -((-w + t - 1) / t) }
}

/// Ceiling division by the tile size, from pixels to tiles.
fn ceil_div_tile(v: i32) -> (r: i64)
    ensures
        r == -((-(v as int)) / TILE_PIXELS as int),
{
    let w = v as i64;
    let t = TILE_PIXELS as i64;
    if w >= 0 { (w + t - 1) / t } else { -((-w) / t) }
}

/// A tile coordinate clamped to a byte.
fn clamp_to_byte(v: i64) -> (r: u8)
    ensures
        r == clamp_spec(v as int, 0, 255),
{
    if v < 0 { 0 } else if v > 255 { 255 } else { v as u8 }
}

/// The collision map of a level: one tile type per tile, row by row.
pub struct LevelCollision {
    grid: Vec<CollisionType>,
    dim: TileSize,
}

impl LevelCollision {
    /// The tiles, row after row.
    pub closed spec fn cells(&self) -> Seq<CollisionType> {
        self.grid@
    }

    /// The extent in tiles: the width is that of the first row, the height
    /// the number of rows.
    pub closed spec fn dim_spec(&self) -> TileSize {
        self.dim
    }

    /// Index in `cells` of the tile in column `c` of row `r`.
    pub open spec fn index_of(&self, c: int, r: int) -> int {
        r * self.dim_spec().width + c
    }

    /// Tile columns `[x0, x1)` and rows `[y0, y1)` that a pixel rectangle
    /// overlaps: from the tile holding its least corner up to the first tile at
    /// or past its greatest corner.
    pub open spec fn tile_span(obj: PixelRect) -> (int, int, int, int) {
        (
            tile_floor(obj.min_x()),
            tile_ceil(obj.max_x()),
            tile_floor(obj.min_y()),
            tile_ceil(obj.max_y()),
        )
    }

    /// The tiles under a pixel rectangle, column after column, each column
    /// from top to bottom.
    pub open spec fn touching_columns(&self, obj: PixelRect) -> Seq<Seq<CollisionType>> {
        let (x0, x1, y0, y1) = Self::tile_span(obj);
        Seq::new(
            (x1 - x0) as nat,
            |i: int| Seq::new((y1 - y0) as nat, |j: int| self.cells()[self.index_of(x0 + i, y0 + j)]),
        )
    }

    /// Whether every tile under `obj` lies in the map.
    pub open spec fn covers(&self, obj: PixelRect) -> bool {
        let (x0, x1, y0, y1) = Self::tile_span(obj);
        x0 < x1 && y0 < y1 ==> self.index_of(x1 - 1, y1 - 1) < self.cells().len()
    }

    /// Whether every tile under `obj` lies in the map, as `covers` says.
    pub fn covers_exec(&self, obj_rect: PixelRect) -> (r: bool)
        requires
            obj_rect.size.width >= 0,
            obj_rect.size.height >= 0,
            obj_rect.max_x() <= i32::MAX,
            obj_rect.max_y() <= i32::MAX,
        ensures
            r == self.covers(obj_rect),
    {
        let x0 = clamp_to_byte(floor_div_tile(obj_rect.origin.x));
        let x1 = clamp_to_byte(ceil_div_tile(obj_rect.origin.x + obj_rect.size.width));
        let y0 = clamp_to_byte(floor_div_tile(obj_rect.origin.y));
        let y1 = clamp_to_byte(ceil_div_tile(obj_rect.origin.y + obj_rect.size.height));
        if x0 < x1 && y0 < y1 {
            let w = self.dim.width as usize;
            assert((y1 - 1) * w <= 255 * 255) by (nonlinear_arith)
                requires y1 - 1 <= 255, w <= 255, y1 >= 1;
            ((y1 - 1) as usize) * w + ((x1 - 1) as usize) < self.grid.len()
        } else {
            true
        }
    }

    /// Extent in tiles.
    pub fn dim(&self) -> (r: TileSize)
        ensures
            r == self.dim_spec(),
    {
        self.dim
    }

    /// The tile at `pos` (column `x`, row `y`).
    pub fn at(&self, pos: TilePoint) -> (r: CollisionType)
        requires
            self.index_of(pos.x as int, pos.y as int) < self.cells().len(),
        ensures
            r == self.cells()[self.index_of(pos.x as int, pos.y as int)],
    {
        let w = self.dim.width as usize;
        assert(pos.y * w <= 255 * 255) by (nonlinear_arith)
            requires pos.y <= 255, w <= 255;
        self.grid[pos.y as usize * w + pos.x as usize]
    }

    /// The distinct tile types under a pixel rectangle, in the order in which
    /// a scan column by column, top to bottom, first meets them.
    pub fn touching(&self, obj_rect: PixelRect) -> (r: Vec<CollisionType>)
        requires
            obj_rect.size.width >= 0,
            obj_rect.size.height >= 0,
            obj_rect.max_x() <= i32::MAX,
            obj_rect.max_y() <= i32::MAX,
            self.covers(obj_rect),
        ensures
            r@ == first_occurrences(self.touching_columns(obj_rect).flatten()),
    {
        let ghost cols = self.touching_columns(obj_rect);
        let ghost span = Self::tile_span(obj_rect);
        let x0 = clamp_to_byte(floor_div_tile(obj_rect.origin.x));
        let x1 = clamp_to_byte(ceil_div_tile(obj_rect.origin.x + obj_rect.size.width));
        let y0 = clamp_to_byte(floor_div_tile(obj_rect.origin.y));
        let y1 = clamp_to_byte(ceil_div_tile(obj_rect.origin.y + obj_rect.size.height));
        assert(span == (x0 as int, x1 as int, y0 as int, y1 as int));
        assert(x0 <= x1 && y0 <= y1);
        let ghost w = self.dim_spec().width as int;
        let mut r: Vec<CollisionType> = Vec::new();
        let mut x = x0;
        assert(cols.take(0) =~= Seq::<Seq<CollisionType>>::empty());
        while x < x1
            invariant
                x0 <= x <= x1,
                y0 <= y1,
                cols == self.touching_columns(obj_rect),
                span == Self::tile_span(obj_rect),
                span == (x0 as int, x1 as int, y0 as int, y1 as int),
                self.covers(obj_rect),
                w == self.dim_spec().width,
                r@ == first_occurrences(cols.take(x - x0).flatten()),
            decreases x1 - x,
        {
            let ghost i = x - x0;
            let ghost before = cols.take(i).flatten();
            assert(cols.len() == x1 - x0);
            assert(cols[i].len() == y1 - y0);
            let mut y = y0;
            assert(cols[i].take(0) =~= Seq::<CollisionType>::empty());
            assert(before + cols[i].take(0) =~= before);
            while y < y1
                invariant
                    x0 <= x < x1,
                    y0 <= y <= y1,
                    i == x - x0,
                    cols.len() == x1 - x0,
                    cols[i].len() == y1 - y0,
                    cols == self.touching_columns(obj_rect),
                    span == Self::tile_span(obj_rect),
                    span == (x0 as int, x1 as int, y0 as int, y1 as int),
                    self.covers(obj_rect),
                    w == self.dim_spec().width,
                    r@ == first_occurrences(before + cols[i].take(y - y0)),
                decreases y1 - y,
            {
                assert(y as int * w + x <= (y1 - 1) * w + (x1 - 1)) by (nonlinear_arith)
                    requires y < y1, x < x1, w >= 0;
                assert(self.index_of(x as int, y as int) <= self.index_of(x1 - 1, y1 - 1));
                let t = self.at(TilePoint { x, y });
                assert(cols[i][y - y0] == t);
                let ghost prev = before + cols[i].take(y - y0);
                assert(before + cols[i].take(y - y0 + 1) =~= prev.push(t));
                assert(prev.push(t).drop_last() =~= prev);
                let mut found = false;
                let mut k: usize = 0;
                while k < r.len()
                    invariant
                        k <= r@.len(),
                        found <==> exists|m: int| 0 <= m < k && r@[m] == t,
                    decreases r@.len() - k,
                {
                    if r[k] == t {
                        found = true;
                    }
                    k += 1;
                }
                if !found {
                    r.push(t);
                } else {
                    assert(r@.contains(t));
                }
                y += 1;
            }
            assert(cols[i].take(y1 - y0) =~= cols[i]);
            assert(cols.take(i + 1) =~= cols.take(i).push(cols[i]));
            proof { cols.take(i).lemma_flatten_push(cols[i]); }
            x += 1;
        }
        assert(cols.take(x1 - x0) =~= cols);
        r
    }

    /// Reads a collision file: one line per row of tiles, cells separated by
    /// commas (empty fields are skipped). The tiles are kept row after row; the
    /// width is the number of cells of the first line and the height the number
    /// of lines, each truncated to a byte.
    pub fn from_csv_text(s: &str) -> (r: LevelCollision)
        requires
            valid_collision_csv(s.spec_bytes()),
        ensures
            r.cells() == parsed_rows(s.spec_bytes()).flatten(),
            r.dim_spec().width == csv_rows(s.spec_bytes())[0].len() % 256,
            r.dim_spec().height == csv_rows(s.spec_bytes()).len() % 256,
    {
        let bytes = s.as_bytes();
        let ghost text = bytes@;
        let lines = lines_exec(bytes);
        let ghost rows = csv_rows(text);
        let ghost parsed = parsed_rows(text);
        let mut grid: Vec<CollisionType> = Vec::new();
        let mut width: usize = 0;
        let n = lines.len();
        assert(parsed.take(0) =~= Seq::<Seq<CollisionType>>::empty());
        assert(rows.len() == n && parsed.len() == n);
        for i in 0..n
            invariant
                text == s.spec_bytes(),
                n == lines@.len(),
                views(lines@) == lines_of(text),
                rows == csv_rows(text),
                parsed == parsed_rows(text),
                rows.len() == n && parsed.len() == n,
                valid_collision_csv(text),
                grid@ == parsed.take(i as int).flatten(),
                i > 0 ==> width == rows[0].len(),
        {
            assert(views(lines@)[i as int] == lines@[i as int]@);
            let fields = fields_exec(&lines[i]);
            assert(views(fields@) == rows[i as int]);
            let ghost before = grid@;
            let m = fields.len();
            assert(m == rows[i as int].len() && m == parsed[i as int].len());
            for j in 0..m
                invariant
                    0 <= i < n,
                    m == fields@.len(),
                    rows == csv_rows(text),
                    parsed == parsed_rows(text),
                    rows.len() == n && parsed.len() == n,
                    views(fields@) == rows[i as int],
                    m == rows[i as int].len() && m == parsed[i as int].len(),
                    valid_collision_csv(text),
                    grid@ == before + parsed[i as int].take(j as int),
            {
                assert(views(fields@)[j as int] == fields@[j as int]@);
                assert(cell_type(rows[i as int][j as int]) is Some);
                let t = CollisionType::from_cell(fields[j].as_slice());
                assert(parsed[i as int][j as int] == t);
                grid.push(t);
                assert(parsed[i as int].take(j + 1) =~= parsed[i as int].take(j as int).push(t));
                assert(grid@ =~= before + parsed[i as int].take(j + 1));
            }
            assert(parsed[i as int].take(m as int) =~= parsed[i as int]);
            assert(parsed.take(i + 1) =~= parsed.take(i as int).push(parsed[i as int]));
            proof { parsed.take(i as int).lemma_flatten_push(parsed[i as int]); }
            if i == 0 {
                width = m;
            }
        }
        assert(parsed.take(n as int) =~= parsed);
        let height = n;
        LevelCollision {
            grid,
            dim: TileSize { width: (width % 256) as u8, height: (height % 256) as u8 },
        }
    }
}

/// Whether `s` is a collision file that `LevelCollision::from_csv_text` can read.
pub fn is_valid_collision_csv(s: &str) -> (r: bool)
    ensures
        r == valid_collision_csv(s.spec_bytes()),
{
    let bytes = s.as_bytes();
    let ghost text = bytes@;
    let lines = lines_exec(bytes);
    let ghost rows = csv_rows(text);
    let n = lines.len();
    assert(rows.len() == n);
    if n == 0 {
        return false;
    }
    for i in 0..n
        invariant
            text == s.spec_bytes(),
            n == lines@.len(),
            rows.len() == n,
            views(lines@) == lines_of(text),
            rows == csv_rows(text),
            forall|a: int, b: int|
                0 <= a < i && 0 <= b < rows[a].len() ==> (#[trigger] cell_type(rows[a][b])) is Some,
    {
        assert(views(lines@)[i as int] == lines@[i as int]@);
        let fields = fields_exec(&lines[i]);
        let m = fields.len();
        for j in 0..m
            invariant
                text == s.spec_bytes(),
                0 <= i < n,
                rows.len() == n,
                m == rows[i as int].len(),
                m == fields@.len(),
                rows == csv_rows(text),
                views(fields@) == rows[i as int],
                forall|a: int, b: int|
                    0 <= a < i && 0 <= b < rows[a].len() ==> (#[trigger] cell_type(rows[a][b])) is Some,
                forall|b: int| 0 <= b < j ==> (#[trigger] cell_type(rows[i as int][b])) is Some,
        {
            assert(views(fields@)[j as int] == fields@[j as int]@);
            if !CollisionType::is_cell(fields[j].as_slice()) {
                assert(cell_type(rows[i as int][j as int]) is None);
                return false;
            }
        }
    }
    true
}

} // verus!

verus! {

/// The positions stored in a level's data file, in tiles.
pub struct LevelData {
    pub player_init: (u8, u8),
    pub portal: (u8, u8),
    pub black_holes: Vec<(u8, u8)>,
}

/// A tile position given as a pair `(x, y)`.
pub open spec fn tile_point_of(p: (u8, u8)) -> TilePoint {
    TilePoint { x: p.0, y: p.1 }
}

/// A level: its picture (whatever the host draws it with), its collision map
/// and where the ship, the portal and the black holes appear.
pub struct Level<T> {
    pub tiles: T,
    pub collision: LevelCollision,
    pub spawn_player_pos: TilePoint,
    pub spawn_portal_pos: TilePoint,
    pub spawn_black_holes_pos: Vec<TilePoint>,
}

impl<T> Level<T> {
    /// Assembles a level from the contents of its three files.
    pub fn from_file_parts(tiles: T, collision: LevelCollision, data: LevelData) -> (r: Level<T>)
        ensures
            r.tiles == tiles,
            r.collision == collision,
            r.spawn_player_pos == tile_point_of(data.player_init),
            r.spawn_portal_pos == tile_point_of(data.portal),
            r.spawn_black_holes_pos@ == data.black_holes@.map_values(|p: (u8, u8)| tile_point_of(p)),
    {
        let mut holes: Vec<TilePoint> = Vec::new();
        let n = data.black_holes.len();
        for i in 0..n
            invariant
                n == data.black_holes@.len(),
                holes@ == data.black_holes@.take(i as int).map_values(|p: (u8, u8)| tile_point_of(p)),
        {
            let p = data.black_holes[i];
            holes.push(TilePoint { x: p.0, y: p.1 });
            assert(data.black_holes@.take(i + 1) =~= data.black_holes@.take(i as int).push(p));
            assert(holes@ =~= data.black_holes@.take(i + 1).map_values(|p: (u8, u8)| tile_point_of(p)));
        }
        assert(data.black_holes@.take(n as int) =~= data.black_holes@);
        Level {
            tiles,
            collision,
            spawn_player_pos: TilePoint { x: data.player_init.0, y: data.player_init.1 },
            spawn_portal_pos: TilePoint { x: data.portal.0, y: data.portal.1 },
            spawn_black_holes_pos: holes,
        }
    }
}

} // verus!
