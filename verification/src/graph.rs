use vstd::prelude::*;

verus! {

/// The place of cell `pos` on its ring: 0 is the middle of the top side, and the places go
/// round clockwise, so the odd places are the corners.
pub open spec fn place_of(pos: int) -> int {
    pos % 8
}

/// The spoke on which cell `pos` lies, counted from the top left corner: the even spokes are
/// the corners, the odd spokes the middles of the sides.
pub open spec fn spoke_of(pos: int) -> int {
    (pos + 1) % 8
}

/// The ring on which cell `pos` lies: 0 is the outer ring.
pub open spec fn ring_of(pos: int) -> int {
    pos / 8
}

/// The first cell of the ring of `pos`.
pub open spec fn ring_start(pos: int) -> int {
    pos - pos % 8
}

/// Whether a line joins the two cells: neighbours on one ring, or cells on one odd spoke on
/// neighbouring rings.
pub open spec fn adjacent(first: int, second: int) -> bool {
    &&& 0 <= first < 24
    &&& 0 <= second < 24
    &&& {
        ||| ring_start(first) == ring_start(second) && (place_of(first) + 1) % 8 == place_of(
            second,
        )
        ||| ring_start(first) == ring_start(second) && (place_of(second) + 1) % 8 == place_of(
            first,
        )
        ||| place_of(first) % 2 == 0 && first + 8 == second
        ||| place_of(first) % 2 == 0 && second + 8 == first
    }
}

/// The two cells that form the first mill line through `pos` together with it: for a corner
/// the side that starts there, for the middle of a side that side.
pub open spec fn first_line(pos: int) -> (int, int) {
    let place = place_of(pos);
    let start = ring_start(pos);
    if place % 2 == 1 {
        (start + (place + 1) % 8, start + (place + 2) % 8)
    } else {
        (start + (place + 7) % 8, start + (place + 1) % 8)
    }
}

/// The two cells that form the second mill line through `pos` together with it: for a corner
/// the side that ends there, for the middle of a side the spoke across the three rings.
pub open spec fn second_line(pos: int) -> (int, int) {
    let place = place_of(pos);
    let start = ring_start(pos);
    if place % 2 == 1 {
        (start + (place + 7) % 8, start + (place + 6) % 8)
    } else {
        ((pos + 8) % 24, (pos + 16) % 24)
    }
}

/// The cell on `spoke` and `ring`.
pub open spec fn cell_index(spoke: int, ring: int) -> int {
    ring * 8 + (spoke + 7) % 8
}

/// Whether the three cells are a mill line: three cells in a row on one side of a ring,
/// which starts at a corner, or the three cells of one odd spoke.
pub open spec fn is_mill_line(first: int, second: int, third: int) -> bool {
    ||| exists|spoke: int, ring: int|
        0 <= spoke < 8 && spoke % 2 == 0 && 0 <= ring < 3 && first == #[trigger] cell_index(
            spoke,
            ring,
        ) && second == cell_index((spoke + 1) % 8, ring) && third == cell_index(
            (spoke + 2) % 8,
            ring,
        )
    ||| exists|spoke: int|
        0 <= spoke < 8 && spoke % 2 == 1 && first == #[trigger] cell_index(spoke, 0) && second
            == cell_index(spoke, 1) && third == cell_index(spoke, 2)
}

/// Two cells are neighbours if and only if they lie next to each other on one ring, where
/// spoke 7 lies next to spoke 0, or on one odd spoke on rings next to each other.
pub proof fn lemma_adjacent_by_spoke_and_ring(first: int, second: int)
    requires
        0 <= first < 24,
        0 <= second < 24,
    ensures
        adjacent(first, second) <==> {
            ||| ring_of(first) == ring_of(second) && ((spoke_of(first) + 1) % 8 == spoke_of(second)
                || (spoke_of(second) + 1) % 8 == spoke_of(first))
            ||| spoke_of(first) == spoke_of(second) && spoke_of(first) % 2 == 1 && (ring_of(first)
                + 1 == ring_of(second) || ring_of(second) + 1 == ring_of(first))
        },
        first == cell_index(spoke_of(first), ring_of(first)),
{
}

/// Each cell lies on two mill lines, and its partners on them are as `first_line` and
/// `second_line` say: the cell and its partners are, in some order, a mill line.
pub proof fn lemma_lines_are_mill_lines(pos: int)
    requires
        0 <= pos < 24,
    ensures
        ({
            let (a, b) = first_line(pos);
            is_mill_line(pos, a, b) || is_mill_line(a, pos, b)
        }),
        ({
            let (a, b) = second_line(pos);
            is_mill_line(b, a, pos) || is_mill_line(pos, a, b) || is_mill_line(b, pos, a)
                || is_mill_line(a, b, pos)
        }),
{
    let spoke = spoke_of(pos);
    let ring = ring_of(pos);
    assert(pos == cell_index(spoke, ring));
    let (a, b) = first_line(pos);
    let (c, d) = second_line(pos);
    if spoke % 2 == 0 {
        assert(a == cell_index((spoke + 1) % 8, ring));
        assert(b == cell_index((spoke + 2) % 8, ring));
        assert(is_mill_line(pos, a, b));
        let from = (spoke + 6) % 8;
        assert(d == cell_index(from, ring));
        assert(c == cell_index((from + 1) % 8, ring));
        assert(pos == cell_index((from + 2) % 8, ring));
        assert(is_mill_line(d, c, pos));
    } else {
        let from = (spoke + 7) % 8;
        assert(a == cell_index(from, ring));
        assert(pos == cell_index((from + 1) % 8, ring));
        assert(b == cell_index((from + 2) % 8, ring));
        assert(is_mill_line(a, pos, b));
        assert(cell_index(spoke, 0) == pos % 8);
        assert(cell_index(spoke, 1) == pos % 8 + 8);
        assert(cell_index(spoke, 2) == pos % 8 + 16);
        if ring == 0 {
            assert(is_mill_line(pos, c, d));
        } else if ring == 1 {
            assert(is_mill_line(d, pos, c));
        } else {
            assert(is_mill_line(c, d, pos));
        }
    }
}

/// No cell is its own neighbour, and a neighbour's neighbour is the cell.
pub proof fn lemma_adjacent_symmetric(first: int, second: int)
    ensures
        adjacent(first, second) == adjacent(second, first),
        !adjacent(first, first),
{
}

/// The partners on a mill line are cells of the board other than the cell itself.
pub proof fn lemma_lines_on_board(pos: int)
    requires
        0 <= pos < 24,
    ensures
        0 <= first_line(pos).0 < 24,
        0 <= first_line(pos).1 < 24,
        0 <= second_line(pos).0 < 24,
        0 <= second_line(pos).1 < 24,
        first_line(pos).0 != pos,
        first_line(pos).1 != pos,
        second_line(pos).0 != pos,
        second_line(pos).1 != pos,
        first_line(pos).0 != first_line(pos).1,
        second_line(pos).0 != second_line(pos).1,
{
}

/// Whether a line joins the two cells.
pub fn is_adjacent(first: usize, second: usize) -> (joined: bool)
    ensures
        joined == adjacent(first as int, second as int),
{
    if first >= 24 || second >= 24 {
        return false;
    }
    let first_place = first % 8;
    let second_place = second % 8;
    if first - first_place == second - second_place {
        (first_place + 1) % 8 == second_place || (second_place + 1) % 8 == first_place
    } else {
        first_place % 2 == 0 && (first + 8 == second || second + 8 == first)
    }
}

/// The partners of `position` on its two mill lines.
pub fn mill_lines(position: usize) -> (lines: ((usize, usize), (usize, usize)))
    requires
        position < 24,
    ensures
        lines.0.0 == first_line(position as int).0,
        lines.0.1 == first_line(position as int).1,
        lines.1.0 == second_line(position as int).0,
        lines.1.1 == second_line(position as int).1,
        lines.0.0 < 24,
        lines.0.1 < 24,
        lines.1.0 < 24,
        lines.1.1 < 24,
{
    let place = position % 8;
    let start = position - place;
    if place % 2 == 1 {
        (
            (start + (place + 1) % 8, start + (place + 2) % 8),
            (start + (place + 7) % 8, start + (place + 6) % 8),
        )
    } else {
        (
            (start + (place + 7) % 8, start + (place + 1) % 8),
            ((position + 8) % 24, (position + 16) % 24),
        )
    }
}

} // verus!
