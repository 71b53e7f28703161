use vstd::prelude::*;

verus! {

/// A cell of the map grid: column `x` within its line, line `y` of the map.
#[derive(Clone, Copy, Debug, PartialEq, Eq, Structural)]
pub struct GridCell {
    pub x: usize,
    pub y: usize,
}

/// What a map file holds, in grid cells. Each character of a line is one
/// cell: '0' is empty space, '#' a wall block, 'P' the player's spawn
/// point; any other character is reported and otherwise skipped.
#[derive(Debug)]
pub struct MapLayout {
    /// The wall cells, in reading order (line by line, left to right).
    pub walls: Vec<GridCell>,
    /// The last spawn cell of the map, if it has one.
    pub spawn: Option<GridCell>,
    /// The characters the format does not know, in reading order.
    pub unknown: Vec<char>,
}

pub open spec fn cell_pos(c: GridCell) -> (int, int) {
    (c.x as int, c.y as int)
}

pub open spec fn cells_view(cells: Seq<GridCell>) -> Seq<(int, int)> {
    cells.map_values(|c: GridCell| cell_pos(c))
}

pub open spec fn spawn_view(spawn: Option<GridCell>) -> Option<(int, int)> {
    match spawn {
        Some(c) => Some(cell_pos(c)),
        None => None,
    }
}

/// The lines of a map as sequences of characters.
pub open spec fn rows_of(lines: Seq<String>) -> Seq<Seq<char>> {
    lines.map_values(|l: String| l@)
}

/// A character the map format gives a meaning to.
pub open spec fn is_known(c: char) -> bool {
    c == '0' || c == '#' || c == 'P'
}

/// The wall cells of line `y`, left to right.
pub open spec fn walls_in_row(row: Seq<char>, y: int) -> Seq<(int, int)>
    decreases row.len(),
{
    if row.len() == 0 {
        Seq::empty()
    } else {
        walls_in_row(row.drop_last(), y) + if row.last() == '#' {
            seq![(row.len() - 1, y)]
        } else {
            Seq::empty()
        }
    }
}

/// The wall cells of the whole map, line by line.
pub open spec fn map_walls(rows: Seq<Seq<char>>) -> Seq<(int, int)>
    decreases rows.len(),
{
    if rows.len() == 0 {
        Seq::empty()
    } else {
        map_walls(rows.drop_last()) + walls_in_row(rows.last(), rows.len() - 1)
    }
}

/// The rightmost spawn cell of line `y`.
pub open spec fn spawn_in_row(row: Seq<char>, y: int) -> Option<(int, int)>
    decreases row.len(),
{
    if row.len() == 0 {
        None
    } else if row.last() == 'P' {
        Some((row.len() - 1, y))
    } else {
        spawn_in_row(row.drop_last(), y)
    }
}

/// The spawn cell that counts: the last one in reading order.
pub open spec fn map_spawn(rows: Seq<Seq<char>>) -> Option<(int, int)>
    decreases rows.len(),
{
    if rows.len() == 0 {
        None
    } else {
        match spawn_in_row(rows.last(), rows.len() - 1) {
            Some(p) => Some(p),
            None => map_spawn(rows.drop_last()),
        }
    }
}

/// The unknown characters of one line, left to right.
pub open spec fn unknown_in_row(row: Seq<char>) -> Seq<char>
    decreases row.len(),
{
    if row.len() == 0 {
        Seq::empty()
    } else {
        unknown_in_row(row.drop_last()) + if is_known(row.last()) {
            Seq::empty()
        } else {
            seq![row.last()]
        }
    }
}

/// The unknown characters of the whole map, in reading order.
pub open spec fn map_unknown(rows: Seq<Seq<char>>) -> Seq<char>
    decreases rows.len(),
{
    if rows.len() == 0 {
        Seq::empty()
    } else {
        map_unknown(rows.drop_last()) + unknown_in_row(rows.last())
    }
}

/// Reads a map given as its lines (without line terminators).
pub fn parse_map(lines: &Vec<String>) -> (m: MapLayout)
    requires
        forall|i: int| 0 <= i < lines@.len() ==> #[trigger] lines@[i]@.len() <= usize::MAX,
    ensures
        cells_view(m.walls@) == map_walls(rows_of(lines@)),
        spawn_view(m.spawn) == map_spawn(rows_of(lines@)),
        m.unknown@ == map_unknown(rows_of(lines@)),
        forall|i: int|
            #![trigger m.walls@[i]]
            0 <= i < m.walls@.len() ==> {
                let c = m.walls@[i];
                &&& c.y < lines@.len()
                &&& c.x < lines@[c.y as int]@.len()
                &&& lines@[c.y as int]@[c.x as int] == '#'
            },
        forall|i: int, j: int|
            0 <= i < j < m.walls@.len() ==> reads_after(
                #[trigger] m.walls@[j].x as int,
                m.walls@[j].y as int,
                #[trigger] m.walls@[i].x as int,
                m.walls@[i].y as int,
            ),
        forall|x: int, y: int|
            0 <= y < lines@.len() && 0 <= x < lines@[y]@.len() && #[trigger] lines@[y]@[x]
                == '#' ==> exists|i: int|
                0 <= i < m.walls@.len() && m.walls@[i].x == x && m.walls@[i].y == y,
{
    let ghost rows = rows_of(lines@);
    let mut walls: Vec<GridCell> = Vec::new();
    let mut spawn: Option<GridCell> = None;
    let mut unknown: Vec<char> = Vec::new();
    let mut y: usize = 0;
    while y < lines.len()
        invariant
            y <= lines.len(),
            rows == rows_of(lines@),
            forall|i: int| 0 <= i < lines@.len() ==> #[trigger] lines@[i]@.len() <= usize::MAX,
            cells_view(walls@) == map_walls(rows.take(y as int)),
            spawn_view(spawn) == map_spawn(rows.take(y as int)),
            unknown@ == map_unknown(rows.take(y as int)),
        decreases lines.len() - y,
    {
        let line = &lines[y];
        let ghost row = rows[y as int];
        let ghost walls_before = cells_view(walls@);
        let ghost spawn_before = spawn_view(spawn);
        let ghost unknown_before = unknown@;
        assert(rows.take(y + 1).drop_last() == rows.take(y as int));
        let mut x: usize = 0;
        for ch in it: line.as_str().chars()
            invariant
                row == line@,
                row.len() <= usize::MAX,
                it.seq() == row,
                x == it.index(),
                cells_view(walls@) == walls_before + walls_in_row(row.take(x as int), y as int),
                spawn_view(spawn) == match spawn_in_row(row.take(x as int), y as int) {
                    Some(p) => Some(p),
                    None => spawn_before,
                },
                unknown@ == unknown_before + unknown_in_row(row.take(x as int)),
        {
            assert(row.take(x + 1).drop_last() == row.take(x as int));
            if ch == '#' {
                let ghost seen = walls@;
                walls.push(GridCell { x, y });
                assert(cells_view(walls@) == cells_view(seen).push((x as int, y as int)));
            } else if ch == 'P' {
                spawn = Some(GridCell { x, y });
            } else if ch != '0' {
                unknown.push(ch);
            }
            x = x + 1;
        }
        assert(row.take(row.len() as int) == row);
        y = y + 1;
    }
    assert(rows.take(lines@.len() as int) == rows);
    proof {
        lemma_walls_ordered(rows);
        let w = walls@;
        assert forall|i: int| 0 <= i < w.len() implies cells_view(w)[i] == cell_pos(
            #[trigger] w[i],
        ) by {}
        assert forall|y: int| 0 <= y < rows.len() implies #[trigger] rows[y] == lines@[y]@ by {}
        assert forall|x: int, y: int|
            0 <= y < lines@.len() && 0 <= x < lines@[y]@.len() && #[trigger] lines@[y]@[x]
                == '#' implies exists|i: int|
            0 <= i < w.len() && w[i].x == x && w[i].y == y by {
            assert(rows[y] == lines@[y]@);
            lemma_wall_cells(rows, x, y);
            let k = choose|k: int| 0 <= k < cells_view(w).len() && cells_view(w)[k] == (x, y);
            assert(cell_pos(w[k]) == (x, y));
        }
    }
    MapLayout { walls, spawn, unknown }
}

proof fn lemma_row_walls(row: Seq<char>, y: int, px: int, py: int)
    ensures
        walls_in_row(row, y).contains((px, py)) <==> (py == y && 0 <= px < row.len()
            && row[px] == '#'),
    decreases row.len(),
{
    if row.len() > 0 {
        let init = row.drop_last();
        lemma_row_walls(init, y, px, py);
        let tail: Seq<(int, int)> = if row.last() == '#' {
            seq![(row.len() - 1, y)]
        } else {
            Seq::empty()
        };
        assert(walls_in_row(row, y) == walls_in_row(init, y) + tail);
        if walls_in_row(row, y).contains((px, py)) {
            let k = choose|k: int|
                0 <= k < walls_in_row(row, y).len() && walls_in_row(row, y)[k] == (px, py);
            if k >= walls_in_row(init, y).len() {
                assert(tail[k - walls_in_row(init, y).len()] == (px, py));
            } else {
                assert(walls_in_row(init, y)[k] == (px, py));
            }
        }
        if py == y && 0 <= px < row.len() && row[px] == '#' {
            if px == row.len() - 1 {
                assert(walls_in_row(row, y)[walls_in_row(init, y).len() as int] == (px, py));
            } else {
                assert(init[px] == row[px]);
                let k = choose|k: int|
                    0 <= k < walls_in_row(init, y).len() && walls_in_row(init, y)[k] == (px, py);
                assert(walls_in_row(row, y)[k] == (px, py));
            }
        }
    }
}

/// A cell is a wall of the map exactly when its character is '#'.
pub proof fn lemma_wall_cells(rows: Seq<Seq<char>>, x: int, y: int)
    ensures
        map_walls(rows).contains((x, y)) <==> (0 <= y < rows.len() && 0 <= x < rows[y].len()
            && rows[y][x] == '#'),
    decreases rows.len(),
{
    if rows.len() > 0 {
        let init = rows.drop_last();
        let last_y = rows.len() - 1;
        lemma_wall_cells(init, x, y);
        lemma_row_walls(rows.last(), last_y, x, y);
        let a = map_walls(init);
        let b = walls_in_row(rows.last(), last_y);
        assert(map_walls(rows) == a + b);
        if (a + b).contains((x, y)) {
            let k = choose|k: int| 0 <= k < (a + b).len() && (a + b)[k] == (x, y);
            if k >= a.len() {
                assert(b[k - a.len()] == (x, y));
            } else {
                assert(a[k] == (x, y));
            }
        }
        if 0 <= y < rows.len() && 0 <= x < rows[y].len() && rows[y][x] == '#' {
            if y == last_y {
                let k = choose|k: int| 0 <= k < b.len() && b[k] == (x, y);
                assert((a + b)[a.len() + k] == (x, y));
            } else {
                assert(init[y] == rows[y]);
                let k = choose|k: int| 0 <= k < a.len() && a[k] == (x, y);
                assert((a + b)[k] == (x, y));
            }
        }
    }
}

/// The wall cells of a line lie on that line, inside it, in strictly
/// increasing column order.
proof fn lemma_row_walls_ordered(row: Seq<char>, y: int)
    ensures
        forall|i: int|
            0 <= i < walls_in_row(row, y).len() ==> (#[trigger] walls_in_row(row, y)[i]).1 == y
                && 0 <= walls_in_row(row, y)[i].0 < row.len() && row[walls_in_row(row, y)[i].0]
                == '#',
        forall|i: int, j: int|
            0 <= i < j < walls_in_row(row, y).len() ==> (#[trigger] walls_in_row(row, y)[i]).0
                < (#[trigger] walls_in_row(row, y)[j]).0,
    decreases row.len(),
{
    if row.len() > 0 {
        let init = row.drop_last();
        lemma_row_walls_ordered(init, y);
        let a = walls_in_row(init, y);
        let tail: Seq<(int, int)> = if row.last() == '#' {
            seq![(row.len() - 1, y)]
        } else {
            Seq::empty()
        };
        let w = walls_in_row(row, y);
        assert(w == a + tail);
        assert forall|i: int| 0 <= i < w.len() implies (#[trigger] w[i]).1 == y && 0 <= w[i].0
            < row.len() && row[w[i].0] == '#' by {
            if i < a.len() {
                assert(w[i] == a[i]);
                assert(init[a[i].0] == row[a[i].0]);
            } else {
                assert(w[i] == tail[i - a.len()]);
            }
        }
        assert forall|i: int, j: int| 0 <= i < j < w.len() implies (#[trigger] w[i]).0 < (
        #[trigger] w[j]).0 by {
            if j < a.len() {
                assert(w[i] == a[i] && w[j] == a[j]);
            } else {
                assert(w[i] == a[i]);
                assert(w[j] == tail[j - a.len()]);
            }
        }
    }
}

/// The wall cells of a map are '#' cells listed in strictly increasing
/// reading order, so no cell is listed twice.
pub proof fn lemma_walls_ordered(rows: Seq<Seq<char>>)
    ensures
        forall|i: int|
            0 <= i < map_walls(rows).len() ==> {
                let c = #[trigger] map_walls(rows)[i];
                &&& 0 <= c.1 < rows.len()
                &&& 0 <= c.0 < rows[c.1].len()
                &&& rows[c.1][c.0] == '#'
            },
        forall|i: int, j: int|
            0 <= i < j < map_walls(rows).len() ==> reads_after(
                (#[trigger] map_walls(rows)[j]).0,
                map_walls(rows)[j].1,
                (#[trigger] map_walls(rows)[i]).0,
                map_walls(rows)[i].1,
            ),
    decreases rows.len(),
{
    if rows.len() > 0 {
        let init = rows.drop_last();
        let last_y = rows.len() - 1;
        lemma_walls_ordered(init);
        lemma_row_walls_ordered(rows.last(), last_y);
        let a = map_walls(init);
        let b = walls_in_row(rows.last(), last_y);
        let w = map_walls(rows);
        assert(w == a + b);
        assert forall|i: int| 0 <= i < w.len() implies {
            let c = #[trigger] w[i];
            &&& 0 <= c.1 < rows.len()
            &&& 0 <= c.0 < rows[c.1].len()
            &&& rows[c.1][c.0] == '#'
        } by {
            if i < a.len() {
                assert(w[i] == a[i]);
                assert(init[a[i].1] == rows[a[i].1]);
            } else {
                assert(w[i] == b[i - a.len()]);
            }
        }
        assert forall|i: int, j: int| 0 <= i < j < w.len() implies reads_after(
            (#[trigger] w[j]).0,
            w[j].1,
            (#[trigger] w[i]).0,
            w[i].1,
        ) by {
            if j < a.len() {
                assert(w[i] == a[i] && w[j] == a[j]);
            } else if i < a.len() {
                assert(w[i] == a[i]);
                assert(w[j] == b[j - a.len()]);
            } else {
                assert(w[i] == b[i - a.len()]);
                assert(w[j] == b[j - a.len()]);
            }
        }
    }
}

/// Cell (x2, y2) comes after cell (x1, y1) in reading order.
pub open spec fn reads_after(x2: int, y2: int, x1: int, y1: int) -> bool {
    y2 > y1 || (y2 == y1 && x2 > x1)
}

/// The map holds a 'P' at (x, y).
pub open spec fn is_spawn_char(rows: Seq<Seq<char>>, x: int, y: int) -> bool {
    0 <= y < rows.len() && 0 <= x < rows[y].len() && rows[y][x] == 'P'
}

proof fn lemma_row_spawn(row: Seq<char>, y: int)
    ensures
        match spawn_in_row(row, y) {
            Some(p) => p.1 == y && 0 <= p.0 < row.len() && row[p.0] == 'P' && forall|x2: int|
                p.0 < x2 < row.len() ==> row[x2] != 'P',
            None => forall|x2: int| 0 <= x2 < row.len() ==> row[x2] != 'P',
        },
    decreases row.len(),
{
    if row.len() > 0 {
        let init = row.drop_last();
        lemma_row_spawn(init, y);
        if row.last() != 'P' {
            assert forall|x2: int| 0 <= x2 < row.len() - 1 implies init[x2] == row[x2] by {}
        }
    }
}

/// The spawn point is the last 'P' of the map in reading order, and there
/// is none exactly when the map holds no 'P'.
pub proof fn lemma_spawn_is_last(rows: Seq<Seq<char>>)
    ensures
        match map_spawn(rows) {
            Some(p) => is_spawn_char(rows, p.0, p.1) && forall|x2: int, y2: int|
                #![trigger is_spawn_char(rows, x2, y2)]
                reads_after(x2, y2, p.0, p.1) ==> !is_spawn_char(rows, x2, y2),
            None => forall|x2: int, y2: int| !is_spawn_char(rows, x2, y2),
        },
    decreases rows.len(),
{
    if rows.len() > 0 {
        let init = rows.drop_last();
        let last_y = rows.len() - 1;
        lemma_spawn_is_last(init);
        lemma_row_spawn(rows.last(), last_y);
        assert forall|x2: int, y2: int| 0 <= y2 < last_y implies #[trigger] is_spawn_char(
            rows,
            x2,
            y2,
        ) == is_spawn_char(init, x2, y2) by {
            assert(init[y2] == rows[y2]);
        }
    }
}

} // verus!
