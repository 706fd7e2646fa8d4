//! The connection area: a grid of points, which the wires are painted on.

use crate::model::Connection;
use crate::view_model::Color;
use vstd::prelude::*;

verus! {

/// A place on the screen, in pixels.
#[derive(Copy, Clone, Debug, PartialEq, Eq, Structural)]
pub struct Point {
    pub x: i32,
    pub y: i32,
}

impl Point {
    /// The place at `x` from the left and `y` from the top.
    pub fn new(x: i32, y: i32) -> (point: Self)
        ensures
            point == (Point { x, y }),
    {
        Point { x, y }
    }
}

/// One point of the grid: a rectangle from `p` to `q`, its fill and its border.
#[derive(Copy, Clone, Debug, PartialEq, Eq, Structural)]
pub struct ConnectionPoint {
    pub p: Point,
    pub q: Point,
    pub border_color: Color,
    pub color: Color,
    pub border_width: u32,
}

/// A point between two corners, black and without a border.
pub open spec fn blank_point(p: Point, q: Point) -> ConnectionPoint {
    ConnectionPoint {
        p,
        q,
        border_color: Color { r: 0, g: 0, b: 0 },
        color: Color { r: 0, g: 0, b: 0 },
        border_width: 0,
    }
}

impl ConnectionPoint {
    /// A point between two corners, black and without a border.
    pub fn new(p: Point, q: Point) -> (point: Self)
        ensures
            point == blank_point(p, q),
    {
        ConnectionPoint {
            p,
            q,
            border_color: Color { r: 0, g: 0, b: 0 },
            color: Color { r: 0, g: 0, b: 0 },
            border_width: 0,
        }
    }
}

/// A number of steps of a width, from 0 on, stays within the pixels that can be named.
pub open spec fn steps_fit(count: usize, step: i32) -> bool {
    i32::MIN <= count * step <= i32::MAX
}

/// The point of a grid at a row and a column: the points are as wide and as
/// high as given, and lie side by side from the top left corner on.
pub open spec fn point_at(point_width: i32, point_height: i32, row: int, column: int) -> ConnectionPoint {
    blank_point(
        Point { x: (column * point_width) as i32, y: (row * point_height) as i32 },
        Point { x: ((column + 1) * point_width) as i32, y: ((row + 1) * point_height) as i32 },
    )
}

/// A point filled with a color, without a border.
pub open spec fn filled(point: ConnectionPoint, color: Color) -> ConnectionPoint {
    ConnectionPoint { color, border_width: 0, ..point }
}

/// The grid after the points of a row from a column up to, not including,
/// another were filled with a color.
pub open spec fn paint_span(
    area: Seq<Seq<ConnectionPoint>>,
    row: int,
    from: int,
    to: int,
    color: Color,
) -> Seq<Seq<ConnectionPoint>> {
    Seq::new(
        area.len(),
        |r: int|
            Seq::new(
                area[r].len(),
                |c: int|
                    if r == row && from <= c < to {
                        filled(area[r][c], color)
                    } else {
                        area[r][c]
                    },
            ),
    )
}

/// The grid after wires were painted on it, one after the other: each from
/// its lower column up to, not including, its upper column, the rows and the
/// colors taken in turn. Without rows or without colors nothing is painted.
pub open spec fn painted(
    area: Seq<Seq<ConnectionPoint>>,
    wires: Seq<Connection>,
    colors: Seq<Color>,
) -> Seq<Seq<ConnectionPoint>>
    decreases wires.len(),
{
    if wires.len() == 0 || area.len() == 0 || colors.len() == 0 {
        area
    } else {
        let turn = wires.len() - 1;
        paint_span(
            painted(area, wires.drop_last(), colors),
            turn % (area.len() as int),
            wires.last().spec_low() as int,
            wires.last().spec_high() as int,
            colors[turn % (colors.len() as int)],
        )
    }
}

/// Multiples of a step up to a multiple that can be named can be named.
proof fn lemma_steps_fit(count: usize, step: i32, k: int)
    requires
        steps_fit(count, step),
        0 <= k <= count,
    ensures
        i32::MIN <= k * step <= i32::MAX,
{
    assert(i32::MIN <= k * step <= i32::MAX) by (nonlinear_arith)
        requires
            0 <= k <= count,
            i32::MIN <= count * step <= i32::MAX,
    ;
}

/// A grid of `ROWS` rows of `COLUMNS` points each.
#[derive(Copy, Clone, Debug)]
pub struct ConnectionArea<const COLUMNS: usize, const ROWS: usize> {
    rows: [[ConnectionPoint; COLUMNS]; ROWS],
}

impl<const COLUMNS: usize, const ROWS: usize> View for ConnectionArea<COLUMNS, ROWS> {
    type V = Seq<Seq<ConnectionPoint>>;

    /// The points, row by row.
    closed spec fn view(&self) -> Seq<Seq<ConnectionPoint>> {
        self.rows@.map_values(|row: [ConnectionPoint; COLUMNS]| row@)
    }
}

impl<const COLUMNS: usize, const ROWS: usize> ConnectionArea<COLUMNS, ROWS> {
    /// A grid of blank points of a width and a height, side by side from the
    /// top left corner on. The grid must lie within the pixels that can be named.
    pub fn new(point_width: i32, point_height: i32) -> (area: Self)
        requires
            steps_fit(COLUMNS, point_width),
            steps_fit(ROWS, point_height),
        ensures
            area@.len() == ROWS,
            forall|r: int| 0 <= r < ROWS ==> (#[trigger] area@[r]).len() == COLUMNS,
            forall|r: int, c: int|
                0 <= r < ROWS && 0 <= c < COLUMNS ==> #[trigger] area@[r][c] == point_at(
                    point_width,
                    point_height,
                    r,
                    c,
                ),
    {
        let blank = ConnectionPoint::new(Point::new(0, 0), Point::new(0, 0));
        let mut area = ConnectionArea { rows: [[blank; COLUMNS]; ROWS] };
        let mut y: i32 = 0;
        let mut r: usize = 0;
        while r < ROWS
            invariant
                steps_fit(COLUMNS, point_width),
                steps_fit(ROWS, point_height),
                r <= ROWS,
                y == r * point_height,
                area@.len() == ROWS,
                forall|i: int| 0 <= i < ROWS ==> (#[trigger] area@[i]).len() == COLUMNS,
                forall|i: int, c: int|
                    0 <= i < r && 0 <= c < COLUMNS ==> #[trigger] area@[i][c] == point_at(
                        point_width,
                        point_height,
                        i,
                        c,
                    ),
            decreases ROWS - r,
        {
            proof {
                lemma_steps_fit(ROWS, point_height, r + 1);
                assert((r + 1) * point_height == r * point_height + point_height)
                    by (nonlinear_arith);
            }
            let mut x: i32 = 0;
            let mut c: usize = 0;
            while c < COLUMNS
                invariant
                    steps_fit(COLUMNS, point_width),
                    r < ROWS,
                    c <= COLUMNS,
                    x == c * point_width,
                    y == r * point_height,
                    i32::MIN <= y + point_height <= i32::MAX,
                    y + point_height == (r + 1) * point_height,
                    area@.len() == ROWS,
                    forall|i: int| 0 <= i < ROWS ==> (#[trigger] area@[i]).len() == COLUMNS,
                    forall|i: int, k: int|
                        0 <= i < r && 0 <= k < COLUMNS ==> #[trigger] area@[i][k] == point_at(
                            point_width,
                            point_height,
                            i,
                            k,
                        ),
                    forall|k: int|
                        0 <= k < c ==> #[trigger] area@[r as int][k] == point_at(
                            point_width,
                            point_height,
                            r as int,
                            k,
                        ),
                decreases COLUMNS - c,
            {
                proof {
                    lemma_steps_fit(COLUMNS, point_width, c + 1);
                    assert((c + 1) * point_width == c * point_width + point_width)
                        by (nonlinear_arith);
                }
                let point = area.connection_point((r, c));
                *point =
                ConnectionPoint::new(
                    Point::new(x, y),
                    Point::new(x + point_width, y + point_height),
                );
                x += point_width;
                c += 1;
            }
            y += point_height;
            r += 1;
        }
        area
    }

    /// The point at a row and a column, as it is.
    pub fn point(&self, point: (usize, usize)) -> (found: ConnectionPoint)
        requires
            point.0 < ROWS,
            point.1 < COLUMNS,
        ensures
            found == self@[point.0 as int][point.1 as int],
    {
        self.rows[point.0][point.1]
    }

    /// The point at a row and a column.
    pub fn connection_point(&mut self, point: (usize, usize)) -> (found: &mut ConnectionPoint)
        requires
            point.0 < ROWS,
            point.1 < COLUMNS,
        ensures
            *found == old(self)@[point.0 as int][point.1 as int],
            final(self)@ == old(self)@.update(
                point.0 as int,
                old(self)@[point.0 as int].update(point.1 as int, *final(found)),
            ),
    {
        &mut self.rows[point.0][point.1]
    }
}

/// Paints wires on the grid, one after the other: each fills the points from
/// its lower column up to, not including, its upper column, in the next row
/// and with the next color, and takes their border away. No wire may reach
/// past the last column.
pub fn draw<const COLUMNS: usize, const ROWS: usize>(
    connections: &Vec<Connection>,
    connection_area: &mut ConnectionArea<COLUMNS, ROWS>,
    colors: &[Color],
)
    requires
        forall|i: int|
            0 <= i < connections.len() ==> (#[trigger] connections@[i]).spec_high() <= COLUMNS,
    ensures
        final(connection_area)@ == painted(old(connection_area)@, connections@, colors@),
{
    if ROWS == 0 || colors.len() == 0 {
        return ;
    }
    let mut i: usize = 0;
    assert(connections@.take(0) =~= Seq::<Connection>::empty());
    while i < connections.len()
        invariant
            ROWS > 0,
            colors.len() > 0,
            i <= connections.len(),
            forall|k: int|
                0 <= k < connections.len() ==> (#[trigger] connections@[k]).spec_high() <= COLUMNS,
            connection_area@.len() == ROWS,
            forall|r: int| 0 <= r < ROWS ==> (#[trigger] connection_area@[r]).len() == COLUMNS,
            connection_area@ == painted(old(connection_area)@, connections@.take(i as int), colors@),
        decreases connections.len() - i,
    {
        let wire = connections[i];
        let row = i % ROWS;
        let color = colors[i % colors.len()];
        let from = wire.low();
        let to = wire.high();
        let ghost before = connection_area@;
        let mut column = from;
        assert(connection_area@ =~~= paint_span(before, row as int, from as int, from as int, color));
        while column < to
            invariant
                row < ROWS,
                from <= column <= to || to <= from == column,
                to <= COLUMNS,
                before.len() == ROWS,
                forall|r: int| 0 <= r < ROWS ==> (#[trigger] before[r]).len() == COLUMNS,
                connection_area@ == paint_span(before, row as int, from as int, column as int, color),
            decreases to - column,
        {
            let point = connection_area.connection_point((row, column));
            point.border_width = 0;
            point.color = color;
            column += 1;
            assert(connection_area@ =~~= paint_span(
                before,
                row as int,
                from as int,
                column as int,
                color,
            ));
        }
        i += 1;
        proof {
            let taken = connections@.take(i as int);
            assert(taken.drop_last() =~= connections@.take(i - 1));
            assert(taken.last() == wire);
            assert(connection_area@ =~~= paint_span(
                before,
                row as int,
                from as int,
                to as int,
                color,
            ));
        }
    }
    assert(connections@.take(i as int) =~= connections@);
}

} // verus!
