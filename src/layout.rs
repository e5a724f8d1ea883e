use vstd::prelude::*;

verus! {

/// Whether grid cell `p` (`x + 10 * y`) holds a ship in `board`, a list of
/// occupied cells.
pub open spec fn occupied(board: Seq<u8>, p: int) -> bool {
    0 <= p < 100 && board.contains(p as u8)
}

pub open spec fn has_left(board: Seq<u8>, p: int) -> bool {
    p % 10 > 0 && occupied(board, p - 1)
}

pub open spec fn has_right(board: Seq<u8>, p: int) -> bool {
    p % 10 < 9 && occupied(board, p + 1)
}

pub open spec fn has_up(board: Seq<u8>, p: int) -> bool {
    p >= 10 && occupied(board, p - 10)
}

pub open spec fn has_down(board: Seq<u8>, p: int) -> bool {
    p < 90 && occupied(board, p + 10)
}

/// A ship cell with a neighbour along its row and another along its column:
/// the ship through it is not a straight line.
pub open spec fn turns_corner(board: Seq<u8>, p: int) -> bool {
    occupied(board, p) && (has_left(board, p) || has_right(board, p)) && (has_up(board, p)
        || has_down(board, p))
}

/// The first cell of a ship: nothing to its left or above it.
pub open spec fn starts_ship(board: Seq<u8>, p: int) -> bool {
    occupied(board, p) && !has_left(board, p) && !has_up(board, p)
}

/// How many ship cells run from `p` to the right, `p` included.
pub open spec fn run_right(board: Seq<u8>, p: int) -> nat
    decreases 100 - p,
{
    if 0 <= p < 100 && has_right(board, p) {
        1 + run_right(board, p + 1)
    } else {
        1
    }
}

/// How many ship cells run from `p` downwards, `p` included.
pub open spec fn run_down(board: Seq<u8>, p: int) -> nat
    decreases 100 - p,
{
    if 0 <= p < 100 && has_down(board, p) {
        1 + run_down(board, p + 10)
    } else {
        1
    }
}

/// The length of the ship that starts at `p`.
pub open spec fn ship_length(board: Seq<u8>, p: int) -> nat {
    if has_right(board, p) {
        run_right(board, p)
    } else {
        run_down(board, p)
    }
}

/// How many ships of length `len` start among the cells below `n`.
pub open spec fn count_ships(board: Seq<u8>, len: nat, n: int) -> nat
    decreases n,
{
    if n <= 0 {
        0
    } else {
        count_ships(board, len, n - 1) + if starts_ship(board, n - 1) && ship_length(board, n - 1)
            == len {
            1nat
        } else {
            0nat
        }
    }
}

proof fn lemma_count_ships_bound(board: Seq<u8>, len: nat, n: int)
    requires
        n >= 0,
    ensures
        count_ships(board, len, n) <= n,
    decreases n,
{
    if n > 0 {
        lemma_count_ships_bound(board, len, n - 1);
    }
}

/// A legal fleet: every cell is on the grid, every ship is a straight line
/// of at most five cells, and the ships are one of length five, one of four,
/// one of three, two of two and two of one.
pub open spec fn valid_layout(board: Seq<u8>) -> bool {
    &&& forall|i: int| 0 <= i < board.len() ==> board[i] < 100
    &&& forall|p: int| 0 <= p < 100 ==> !turns_corner(board, p)
    &&& forall|p: int| 0 <= p < 100 && starts_ship(board, p) ==> ship_length(board, p) <= 5
    &&& count_ships(board, 5, 100) == 1
    &&& count_ships(board, 4, 100) == 1
    &&& count_ships(board, 3, 100) == 1
    &&& count_ships(board, 2, 100) == 2
    &&& count_ships(board, 1, 100) == 2
}

/// The grid of `board`: one flag per cell.
pub open spec fn grid_of(grid: Seq<bool>, board: Seq<u8>) -> bool {
    &&& grid.len() == 100
    &&& forall|p: int| 0 <= p < 100 ==> grid[p] == occupied(board, p)
}

fn left_at(grid: &Vec<bool>, Ghost(board): Ghost<Seq<u8>>, p: usize) -> (r: bool)
    requires
        grid_of(grid@, board),
        p < 100,
    ensures
        r == has_left(board, p as int),
{
    p % 10 > 0 && grid[p - 1]
}

fn right_at(grid: &Vec<bool>, Ghost(board): Ghost<Seq<u8>>, p: usize) -> (r: bool)
    requires
        grid_of(grid@, board),
        p < 100,
    ensures
        r == has_right(board, p as int),
{
    p % 10 < 9 && grid[p + 1]
}

fn up_at(grid: &Vec<bool>, Ghost(board): Ghost<Seq<u8>>, p: usize) -> (r: bool)
    requires
        grid_of(grid@, board),
        p < 100,
    ensures
        r == has_up(board, p as int),
{
    p >= 10 && grid[p - 10]
}

fn down_at(grid: &Vec<bool>, Ghost(board): Ghost<Seq<u8>>, p: usize) -> (r: bool)
    requires
        grid_of(grid@, board),
        p < 100,
    ensures
        r == has_down(board, p as int),
{
    p < 90 && grid[p + 10]
}

/// The length of the ship that starts at `p`, walking right or down.
fn ship_length_at(grid: &Vec<bool>, Ghost(board): Ghost<Seq<u8>>, p: usize) -> (r: usize)
    requires
        grid_of(grid@, board),
        p < 100,
    ensures
        r == ship_length(board, p as int),
{
    let mut q = p;
    let mut n: usize = 1;
    if right_at(grid, Ghost(board), p) {
        while right_at(grid, Ghost(board), q)
            invariant
                grid_of(grid@, board),
                p <= q < 100,
                n == q - p + 1,
                run_right(board, p as int) == n - 1 + run_right(board, q as int),
            decreases 100 - q,
        {
            q = q + 1;
            n = n + 1;
        }
    } else {
        while down_at(grid, Ghost(board), q)
            invariant
                grid_of(grid@, board),
                p <= q < 100,
                10 * (n - 1) <= q,
                n >= 1,
                run_down(board, p as int) == n - 1 + run_down(board, q as int),
            decreases 100 - q,
        {
            q = q + 10;
            n = n + 1;
        }
    }
    n
}

/// Whether `board`, the list of cells that a player's ships cover, is a
/// legal fleet.
pub fn validate_board(board: &Vec<u8>) -> (r: bool)
    ensures
        r == valid_layout(board@),
{
    let mut grid: Vec<bool> = Vec::new();
    while grid.len() < 100
        invariant
            grid@.len() <= 100,
            forall|p: int| 0 <= p < grid@.len() ==> !grid@[p],
        decreases 100 - grid@.len(),
    {
        grid.push(false);
    }
    let mut k: usize = 0;
    while k < board.len()
        invariant
            k <= board@.len(),
            grid@.len() == 100,
            forall|i: int| 0 <= i < k ==> board@[i] < 100,
            forall|p: int| 0 <= p < 100 ==> grid@[p] == board@.subrange(0, k as int).contains(p as u8),
        decreases board@.len() - k,
    {
        let b = board[k];
        if b >= 100 {
            return false;
        }
        grid[b as usize] = true;
        let ghost pre = board@.subrange(0, k as int);
        assert(board@.subrange(0, k + 1) =~= pre.push(b));
        assert forall|p: int| 0 <= p < 100 implies grid@[p] == board@.subrange(0, k + 1).contains(p as u8) by {
            let post = board@.subrange(0, k + 1);
            if pre.contains(p as u8) {
                let i = choose|i: int| 0 <= i < pre.len() && pre[i] == p as u8;
                assert(post[i] == p as u8);
            }
            if post.contains(p as u8) && p != b {
                let i = choose|i: int| 0 <= i < post.len() && post[i] == p as u8;
                assert(pre[i] == p as u8);
            }
            if p == b {
                assert(post[k as int] == b);
            }
        }
        k = k + 1;
    }
    assert(board@.subrange(0, board@.len() as int) =~= board@);
    let ghost cells = board@;
    assert(grid_of(grid@, cells));

    let mut p: usize = 0;
    while p < 100
        invariant
            grid_of(grid@, cells),
            cells == board@,
            p <= 100,
            forall|q: int| 0 <= q < p ==> !turns_corner(cells, q),
        decreases 100 - p,
    {
        if grid[p] && (left_at(&grid, Ghost(cells), p) || right_at(&grid, Ghost(cells), p)) && (
        up_at(&grid, Ghost(cells), p) || down_at(&grid, Ghost(cells), p)) {
            assert(turns_corner(cells, p as int));
            return false;
        }
        p = p + 1;
    }

    let mut counts: Vec<usize> = Vec::new();
    while counts.len() < 6
        invariant
            counts@.len() <= 6,
            forall|i: int| 0 <= i < counts@.len() ==> counts@[i] == 0,
        decreases 6 - counts@.len(),
    {
        counts.push(0);
    }
    let mut p: usize = 0;
    while p < 100
        invariant
            grid_of(grid@, cells),
            cells == board@,
            p <= 100,
            counts@.len() == 6,
            forall|len: int| 1 <= len <= 5 ==> counts@[len] == count_ships(cells, len as nat, p as int),
            forall|q: int| 0 <= q < p && starts_ship(cells, q) ==> ship_length(cells, q) <= 5,
        decreases 100 - p,
    {
        if grid[p] && !left_at(&grid, Ghost(cells), p) && !up_at(&grid, Ghost(cells), p) {
            let len = ship_length_at(&grid, Ghost(cells), p);
            if len > 5 {
                assert(starts_ship(cells, p as int));
                return false;
            }
            assert(len >= 1) by {
                if has_right(cells, p as int) {
                    assert(run_right(cells, p as int) >= 1);
                } else {
                    assert(run_down(cells, p as int) >= 1);
                }
            }
            proof {
                lemma_count_ships_bound(cells, len as nat, p as int);
            }
            counts[len] = counts[len] + 1;
        }
        p = p + 1;
    }
    counts[5] == 1 && counts[4] == 1 && counts[3] == 1 && counts[2] == 2 && counts[1] == 2
}

} // verus!
