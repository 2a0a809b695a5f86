//! Cell values and the board validator.
//!
//! A board is a vector of 100 bytes, one per cell of a 10x10 grid in
//! row-major order (index = x + 10*y). A submitted layout must place the
//! five ships as straight, contiguous, non-overlapping runs; everything
//! else is empty. `valid_setup` decides exactly that, and its contract
//! states it declaratively.

use vstd::prelude::*;

verus! {

pub const BOARD_SIZE: usize = 100;

pub const CARRIER_SIZE: u8 = 5;
pub const BATTLESHIP_SIZE: u8 = 4;
pub const CRUISER_SIZE: u8 = 3;
pub const SUBMARINE_SIZE: u8 = 3;
pub const DESTROYER_SIZE: u8 = 2;

/// Describes the occupancy of a cell (fits into u8)
#[derive(Clone, Copy, PartialEq, Eq, Structural, Debug)]
pub enum CellValue {
    /// nothing occupies the cell. used for both `home` and `away` grids
    Empty,
    /// for `away` grid only: player missed the cell
    Miss,
    /// part of the "Carrier" vessel occupies the cell
    Carrier,
    /// part of the "Battleship" vessel occupies the cell
    Battleship,
    /// part of the "Cruiser" vessel occupies the cell
    Cruiser,
    /// part of the "Submarine" vessel occupies the cell
    Submarine,
    /// part of the "Destroyer" vessel occupies the cell
    Destroyer,
    /// bitmask: the cell contains a vessel that has been hit
    Hit,
}

impl CellValue {
    /// The stored byte for this cell value.
    pub open spec fn as_u8(self) -> u8 {
        match self {
            CellValue::Empty => 0,
            CellValue::Miss => 1,
            CellValue::Carrier => 2,
            CellValue::Battleship => 3,
            CellValue::Cruiser => 4,
            CellValue::Submarine => 5,
            CellValue::Destroyer => 6,
            CellValue::Hit => 0x80,
        }
    }

    /// Returns u8 representation of the cell value.
    pub fn to_u8(&self) -> (r: u8)
        ensures
            r == self.as_u8(),
    {
        match self {
            CellValue::Empty => 0,
            CellValue::Miss => 1,
            CellValue::Carrier => 2,
            CellValue::Battleship => 3,
            CellValue::Cruiser => 4,
            CellValue::Submarine => 5,
            CellValue::Destroyer => 6,
            CellValue::Hit => 0x80,
        }
    }

    /// Decode a stored byte; fails on any byte that is not a bare marker.
    pub fn try_from(value: u8) -> (r: Result<CellValue, ()>)
        ensures
            match r {
                Ok(c) => c.as_u8() == value,
                Err(_) => value != 0 && value != 1 && !is_ship_type(value) && value != 0x80,
            },
    {
        match value {
            0 => Ok(CellValue::Empty),
            1 => Ok(CellValue::Miss),
            2 => Ok(CellValue::Carrier),
            3 => Ok(CellValue::Battleship),
            4 => Ok(CellValue::Cruiser),
            5 => Ok(CellValue::Submarine),
            6 => Ok(CellValue::Destroyer),
            0x80 => Ok(CellValue::Hit),
            _ => Err(()),
        }
    }
}

/// The bytes that mark an (un-hit) ship cell.
pub open spec fn is_ship_type(t: u8) -> bool {
    2 <= t <= 6
}

/// How many cells the ship marked by byte `t` occupies.
pub open spec fn size_of(t: u8) -> int {
    if t == 2 {
        5
    } else if t == 3 {
        4
    } else if t == 4 {
        3
    } else if t == 5 {
        3
    } else if t == 6 {
        2
    } else {
        0
    }
}

/// Is cell `j` part of the run of `n` cells starting at `start`?
/// A horizontal run occupies `n` consecutive indices; a vertical run
/// occupies every tenth index.
pub open spec fn run_cell(start: int, horiz: bool, n: int, j: int) -> bool {
    if horiz {
        start <= j < start + n
    } else {
        start <= j < start + 10 * n && (j - start) % 10 == 0
    }
}

/// The run stays on the board: a horizontal run must not cross a row
/// boundary, a vertical run must not run off the bottom.
pub open spec fn run_ok(start: int, horiz: bool, n: int) -> bool {
    &&& 0 <= start < 100
    &&& if horiz {
        start % 10 + n <= 10
    } else {
        start / 10 + n <= 10
    }
}

/// All `n` cells of the horizontal run starting at `start` hold `t`.
pub open spec fn h_run_at(s: Seq<u8>, t: u8, start: int, n: int) -> bool {
    &&& 0 <= start
    &&& start + n <= s.len()
    &&& start % 10 + n <= 10
    &&& forall|k: int| 0 <= k < n ==> s[#[trigger] (start + k)] == t
}

/// All `n` cells of the vertical run starting at `start` hold `t`.
pub open spec fn v_run_at(s: Seq<u8>, t: u8, start: int, n: int) -> bool {
    &&& 0 <= start
    &&& start + 10 * (n - 1) < s.len()
    &&& start / 10 + n <= 10
    &&& forall|k: int| 0 <= k < n ==> s[#[trigger] (start + 10 * k)] == t
}

/// A run of `t`s of the right length stands at `start`, in the given
/// direction.
pub open spec fn run_at(s: Seq<u8>, t: u8, start: int, horiz: bool) -> bool {
    if horiz {
        h_run_at(s, t, start, size_of(t))
    } else {
        v_run_at(s, t, start, size_of(t))
    }
}

/// The cells holding `t` are exactly one straight run of the right length.
pub open spec fn ship_placed_at(s: Seq<u8>, t: u8, start: int, horiz: bool) -> bool {
    &&& run_ok(start, horiz, size_of(t))
    &&& forall|j: int| 0 <= j < 100 ==> (s[j] == t <==> run_cell(start, horiz, size_of(t), j))
}

/// The ship marked by `t` is placed somewhere on the board.
pub open spec fn ship_placed(s: Seq<u8>, t: u8) -> bool {
    exists|start: int, horiz: bool| ship_placed_at(s, t, start, horiz)
}

/// A valid submitted layout: 100 cells, each either empty or a bare ship
/// marker, and each of the five ships placed as one straight contiguous
/// run. Non-overlap and the 17/83 occupancy split follow.
pub open spec fn spec_valid_setup(s: Seq<u8>) -> bool {
    &&& s.len() == 100
    &&& forall|j: int| 0 <= j < 100 ==> (s[j] == 0 || is_ship_type(#[trigger] s[j]))
    &&& forall|t: u8| is_ship_type(t) ==> ship_placed(s, t)
}

/// A filled run holds `t` at each of its member cells.
proof fn lemma_run_at_cells(s: Seq<u8>, t: u8, start: int, horiz: bool)
    requires
        run_at(s, t, start, horiz),
        size_of(t) >= 1,
    ensures
        forall|j: int| #[trigger] run_cell(start, horiz, size_of(t), j) ==> 0 <= j < s.len() && s[j]
            == t,
{
    let n = size_of(t);
    assert forall|j: int| #[trigger] run_cell(start, horiz, n, j) implies 0 <= j < s.len() && s[j]
        == t by {
        if horiz {
            let k = j - start;
            assert(s[start + k] == t);
        } else {
            let k = (j - start) / 10;
            assert(j - start == 10 * k) by {
                assert((j - start) % 10 == 0);
                vstd::arithmetic::div_mod::lemma_fundamental_div_mod(j - start, 10);
            }
            assert(0 <= k < n);
            assert(s[start + 10 * k] == t);
        }
    }
}

/// Conversely, a run all of whose member cells hold `t` is a filled run.
proof fn lemma_cells_run_at(s: Seq<u8>, t: u8, start: int, horiz: bool)
    requires
        s.len() == 100,
        size_of(t) >= 1,
        run_ok(start, horiz, size_of(t)),
        forall|j: int| #[trigger] run_cell(start, horiz, size_of(t), j) ==> s[j] == t,
    ensures
        run_at(s, t, start, horiz),
{
    let n = size_of(t);
    if horiz {
        assert forall|k: int| 0 <= k < n implies s[#[trigger] (start + k)] == t by {
            assert(run_cell(start, true, n, start + k));
        }
        assert(start + n <= 100) by {
            assert(start == 10 * (start / 10) + start % 10) by {
                vstd::arithmetic::div_mod::lemma_fundamental_div_mod(start, 10);
            }
        }
    } else {
        assert forall|k: int| 0 <= k < n implies s[#[trigger] (start + 10 * k)] == t by {
            assert((start + 10 * k - start) % 10 == 0);
            assert(run_cell(start, false, n, start + 10 * k));
        }
        assert(start + 10 * (n - 1) < 100) by {
            assert(start == 10 * (start / 10) + start % 10) by {
                vstd::arithmetic::div_mod::lemma_fundamental_div_mod(start, 10);
            }
        }
    }
}

/// Two straight runs of the same length `2 <= n <= 10`, one contained in
/// the other, are the same run.
proof fn lemma_run_subset_eq(st1: int, d1: bool, st2: int, d2: bool, n: int)
    requires
        2 <= n <= 10,
        forall|j: int| run_cell(st1, d1, n, j) ==> run_cell(st2, d2, n, j),
    ensures
        st1 == st2,
        forall|j: int| run_cell(st1, d1, n, j) <==> run_cell(st2, d2, n, j),
{
    if d1 {
        assert(run_cell(st1, d1, n, st1));
        assert(run_cell(st1, d1, n, st1 + 1));
        assert(run_cell(st1, d1, n, st1 + (n - 1)));
        if d2 {
            assert(st1 == st2);
        } else {
            assert((st1 - st2) % 10 == 0);
            assert((st1 + 1 - st2) % 10 == 0);
            assert(false);
        }
    } else {
        assert(run_cell(st1, d1, n, st1));
        assert(run_cell(st1, d1, n, st1 + 10 * (n - 1)));
        if d2 {
            assert(st2 <= st1);
            assert(st1 + 10 * (n - 1) < st2 + n);
            assert(false);
        } else {
            assert(st2 <= st1);
            assert(st1 + 10 * (n - 1) < st2 + 10 * n);
            assert((st1 - st2) % 10 == 0);
            assert(st1 == st2) by {
                let d = st1 - st2;
                assert(d % 10 == 0);
                assert(0 <= d);
                assert(d + 10 * (n - 1) < 10 * n);
                assert(d < 10);
                vstd::arithmetic::div_mod::lemma_fundamental_div_mod(d, 10);
            }
        }
    }
}

/// Check whether a run of `ship_size` cells holding `ship_type` stands at
/// `*i`, first horizontally, then vertically; mark the cells of the run
/// that was found.
pub fn ship_found(
    cells: &Vec<u8>,
    matched: &mut Vec<bool>,
    i: &usize,
    ship_type: u8,
    ship_size: usize,
) -> (found: bool)
    requires
        cells@.len() == 100,
        old(matched)@.len() == 100,
        *i < 100,
        1 <= ship_size <= 10,
    ensures
        final(matched)@.len() == 100,
        found == (h_run_at(cells@, ship_type, *i as int, ship_size as int) || v_run_at(
            cells@,
            ship_type,
            *i as int,
            ship_size as int,
        )),
        h_run_at(cells@, ship_type, *i as int, ship_size as int) ==> forall|j: int|
            0 <= j < 100 ==> final(matched)@[j] == (old(matched)@[j] || run_cell(
                *i as int,
                true,
                ship_size as int,
                j,
            )),
        (!h_run_at(cells@, ship_type, *i as int, ship_size as int) && v_run_at(
            cells@,
            ship_type,
            *i as int,
            ship_size as int,
        )) ==> forall|j: int|
            0 <= j < 100 ==> final(matched)@[j] == (old(matched)@[j] || run_cell(
                *i as int,
                false,
                ship_size as int,
                j,
            )),
        (!h_run_at(cells@, ship_type, *i as int, ship_size as int) && !v_run_at(
            cells@,
            ship_type,
            *i as int,
            ship_size as int,
        )) ==> final(matched)@ == old(matched)@,
{
    let idx: usize = *i;
    let n: usize = ship_size;

    // check horiz
    if idx % 10 + n <= 10 {
        let mut ok = true;
        let mut k: usize = 0;
        while k < n
            invariant
                cells@.len() == 100,
                idx < 100,
                1 <= n <= 10,
                idx % 10 + n <= 10,
                k <= n,
                ok == forall|q: int| 0 <= q < k ==> cells@[#[trigger] (idx + q)] == ship_type,
            decreases n - k,
        {
            if cells[idx + k] != ship_type {
                ok = false;
                k = n;
            } else {
                k = k + 1;
            }
        }
        if ok {
            assert(h_run_at(cells@, ship_type, idx as int, n as int));
            let mut j: usize = 0;
            while j < n
                invariant
                    old(matched)@.len() == 100,
                    matched@.len() == 100,
                    idx < 100,
                    1 <= n <= 10,
                    idx % 10 + n <= 10,
                    j <= n,
                    forall|q: int|
                        0 <= q < 100 ==> matched@[q] == (old(matched)@[q] || (idx <= q < idx
                            + j)),
                decreases n - j,
            {
                matched[idx + j] = true;
                j = j + 1;
            }
            return true;
        }
    }
    assert(!h_run_at(cells@, ship_type, idx as int, n as int));

    // check vert
    if idx / 10 + n <= 10 {
        let mut ok = true;
        let mut k: usize = 0;
        while k < n
            invariant
                cells@.len() == 100,
                idx < 100,
                1 <= n <= 10,
                idx / 10 + n <= 10,
                k <= n,
                ok == forall|q: int| 0 <= q < k ==> cells@[#[trigger] (idx + 10 * q)] == ship_type,
            decreases n - k,
        {
            if cells[idx + 10 * k] != ship_type {
                ok = false;
                k = n;
            } else {
                k = k + 1;
            }
        }
        if ok {
            assert(v_run_at(cells@, ship_type, idx as int, n as int));
            let mut j: usize = 0;
            while j < n
                invariant
                    old(matched)@.len() == 100,
                    matched@.len() == 100,
                    idx < 100,
                    1 <= n <= 10,
                    idx / 10 + n <= 10,
                    j <= n,
                    forall|q: int|
                        0 <= q < 100 ==> matched@[q] == (old(matched)@[q] || (idx <= q < idx + 10
                            * j && (q - idx) % 10 == 0)),
                decreases n - j,
            {
                assert(idx + 10 * j < 100);
                matched[idx + 10 * j] = true;
                assert(((idx + 10 * j) - idx) % 10 == 0);
                j = j + 1;
            }
            return true;
        }
    }
    assert(!v_run_at(cells@, ship_type, idx as int, n as int));
    false
}

/// A second, disconnected cell of an already-placed ship rejects the board.
proof fn lemma_reject_duplicate(s: Seq<u8>, t: u8, st: int, d: bool, i: int)
    requires
        s.len() == 100,
        is_ship_type(t),
        run_at(s, t, st, d),
        0 <= i < 100,
        s[i] == t,
        !run_cell(st, d, size_of(t), i),
    ensures
        !spec_valid_setup(s),
{
    let n = size_of(t);
    if spec_valid_setup(s) {
        let (st2, d2) = choose|st2: int, d2: bool| ship_placed_at(s, t, st2, d2);
        lemma_run_at_cells(s, t, st, d);
        assert forall|j: int| run_cell(st, d, n, j) implies run_cell(st2, d2, n, j) by {
            assert(0 <= j < 100 && s[j] == t);
        }
        lemma_run_subset_eq(st, d, st2, d2, n);
        assert(run_cell(st2, d2, n, i));
        assert(run_cell(st, d, n, i));
        assert(false);
    }
}

/// If the first cell holding `t` starts no straight run of the right
/// length, the board is rejected.
proof fn lemma_reject_not_found(s: Seq<u8>, t: u8, i: int)
    requires
        s.len() == 100,
        is_ship_type(t),
        0 <= i < 100,
        s[i] == t,
        forall|j: int| 0 <= j < i ==> s[j] != t,
        !h_run_at(s, t, i, size_of(t)),
        !v_run_at(s, t, i, size_of(t)),
    ensures
        !spec_valid_setup(s),
{
    let n = size_of(t);
    if spec_valid_setup(s) {
        let (st2, d2) = choose|st2: int, d2: bool| ship_placed_at(s, t, st2, d2);
        assert(run_cell(st2, d2, n, st2));
        assert(s[st2] == t);
        assert(st2 >= i);
        assert(run_cell(st2, d2, n, i));
        assert(st2 <= i);
        assert forall|j: int| #[trigger] run_cell(i, d2, n, j) implies s[j] == t by {
            if d2 {
                assert(0 <= j < 100);
            } else {
                assert(run_ok(i, false, n));
                assert(j < i + 10 * n);
                assert(0 <= j < 100) by {
                    assert(i == 10 * (i / 10) + i % 10) by {
                        vstd::arithmetic::div_mod::lemma_fundamental_div_mod(i, 10);
                    }
                }
            }
        }
        lemma_cells_run_at(s, t, i, d2);
        assert(false);
    }
}

/// A ship that appears nowhere rejects the board.
proof fn lemma_reject_missing(s: Seq<u8>, t: u8)
    requires
        s.len() == 100,
        is_ship_type(t),
        forall|j: int| 0 <= j < 100 ==> s[j] != t,
    ensures
        !spec_valid_setup(s),
{
    let n = size_of(t);
    if spec_valid_setup(s) {
        let (st2, d2) = choose|st2: int, d2: bool| ship_placed_at(s, t, st2, d2);
        assert(run_cell(st2, d2, n, st2));
        assert(s[st2] == t);
        assert(false);
    }
}

/// When the scan finishes with one recorded run per ship and every
/// occupied cell inside a recorded run, the board is valid.
proof fn lemma_scan_success(s: Seq<u8>, runs: Map<u8, (int, bool)>)
    requires
        s.len() == 100,
        forall|t: u8| #[trigger] runs.contains_key(t) ==> is_ship_type(t) && run_at(
            s,
            t,
            runs[t].0,
            runs[t].1,
        ) && 0 <= runs[t].0 < 100,
        forall|t: u8| is_ship_type(t) ==> #[trigger] runs.contains_key(t),
        forall|j: int|
            0 <= j < 100 && s[j] != 0 ==> exists|t: u8| #[trigger] runs.contains_key(t)
                && run_cell(runs[t].0, runs[t].1, size_of(t), j),
    ensures
        spec_valid_setup(s),
{
    assert forall|j: int| 0 <= j < 100 implies (s[j] == 0 || is_ship_type(#[trigger] s[j])) by {
        if s[j] != 0 {
            let t = choose|t: u8| #[trigger] runs.contains_key(t) && run_cell(
                runs[t].0,
                runs[t].1,
                size_of(t),
                j,
            );
            lemma_run_at_cells(s, t, runs[t].0, runs[t].1);
            assert(s[j] == t);
        }
    }
    assert forall|t: u8| is_ship_type(t) implies ship_placed(s, t) by {
        assert(runs.contains_key(t));
        let st = runs[t].0;
        let d = runs[t].1;
        let n = size_of(t);
        assert(run_at(s, t, st, d));
        lemma_run_at_cells(s, t, st, d);
        assert forall|j: int| 0 <= j < 100 implies (s[j] == t <==> run_cell(st, d, n, j)) by {
            if s[j] == t {
                let t2 = choose|t2: u8| #[trigger] runs.contains_key(t2) && run_cell(
                    runs[t2].0,
                    runs[t2].1,
                    size_of(t2),
                    j,
                );
                lemma_run_at_cells(s, t2, runs[t2].0, runs[t2].1);
                assert(s[j] == t2);
            }
        }
        assert(run_ok(st, d, n));
        assert(ship_placed_at(s, t, st, d));
    }
}

/// Decide whether `cells` is a valid submitted layout: exactly the five
/// ships, each one straight contiguous run, nothing else occupied.
#[verifier::loop_isolation(false)]
#[verifier::rlimit(60)]
pub fn valid_setup(cells: &Vec<u8>) -> (r: bool)
    ensures
        r == spec_valid_setup(cells@),
{
    if cells.len() != BOARD_SIZE {
        return false;
    }

    let mut matched: Vec<bool> = Vec::new();
    let mut z: usize = 0;
    while z < BOARD_SIZE
        invariant
            matched@.len() == z,
            z <= 100,
            forall|j: int| 0 <= j < z ==> !matched@[j],
        decreases 100 - z,
    {
        matched.push(false);
        z = z + 1;
    }

    let mut carrier_found = false;
    let mut battleship_found = false;
    let mut cruiser_found = false;
    let mut submarine_found = false;
    let mut destroyer_found = false;
    let ghost mut runs: Map<u8, (int, bool)> = Map::empty();

    let mut i: usize = 0;
    while i < BOARD_SIZE
        invariant
            matched@.len() == 100,
            i <= 100,
            carrier_found == runs.contains_key(2u8),
            battleship_found == runs.contains_key(3u8),
            cruiser_found == runs.contains_key(4u8),
            submarine_found == runs.contains_key(5u8),
            destroyer_found == runs.contains_key(6u8),
            forall|t: u8| #[trigger] runs.contains_key(t) ==> is_ship_type(t) && run_at(
                cells@,
                t,
                runs[t].0,
                runs[t].1,
            ) && 0 <= runs[t].0 < i,
            forall|j: int|
                0 <= j < 100 ==> (matched@[j] <==> ((j < i && cells@[j] == 0) || exists|t: u8|
                    #[trigger] runs.contains_key(t) && run_cell(
                    runs[t].0,
                    runs[t].1,
                    size_of(t),
                    j,
                ))),
            forall|j: int|
                0 <= j < i && cells@[j] != 0 ==> exists|t: u8| #[trigger] runs.contains_key(t)
                    && run_cell(runs[t].0, runs[t].1, size_of(t), j),
        decreases 100 - i,
    {
        if !matched[i] {
            let cell = cells[i];
            if cell != 0 {
                let ship_size: usize;
                let already_found: bool;
                if cell == 2 {
                    ship_size = CARRIER_SIZE as usize;
                    already_found = carrier_found;
                    carrier_found = true;
                } else if cell == 3 {
                    ship_size = BATTLESHIP_SIZE as usize;
                    already_found = battleship_found;
                    battleship_found = true;
                } else if cell == 4 {
                    ship_size = CRUISER_SIZE as usize;
                    already_found = cruiser_found;
                    cruiser_found = true;
                } else if cell == 5 {
                    ship_size = SUBMARINE_SIZE as usize;
                    already_found = submarine_found;
                    submarine_found = true;
                } else if cell == 6 {
                    ship_size = DESTROYER_SIZE as usize;
                    already_found = destroyer_found;
                    destroyer_found = true;
                } else {
                    // neither empty nor a bare ship marker
                    return false;
                }
                assert(ship_size as int == size_of(cell));
                if already_found {
                    proof {
                        lemma_reject_duplicate(
                            cells@,
                            cell,
                            runs[cell].0,
                            runs[cell].1,
                            i as int,
                        );
                    }
                    return false;
                }
                let ghost m0 = matched@;
                let found = ship_found(cells, &mut matched, &i, cell, ship_size);
                if !found {
                    proof {
                        assert forall|j: int| 0 <= j < i implies cells@[j] != cell by {
                            if cells@[j] == cell {
                                let t2 = choose|t2: u8| #[trigger] runs.contains_key(t2)
                                    && run_cell(runs[t2].0, runs[t2].1, size_of(t2), j);
                                lemma_run_at_cells(cells@, t2, runs[t2].0, runs[t2].1);
                                assert(t2 == cell);
                            }
                        }
                        lemma_reject_not_found(cells@, cell, i as int);
                    }
                    return false;
                }
                proof {
                    let r0 = runs;
                    let d = h_run_at(cells@, cell, i as int, ship_size as int);
                    runs = runs.insert(cell, (i as int, d));
                    assert(run_at(cells@, cell, i as int, d));
                    let n = size_of(cell);
                    assert forall|j: int| 0 <= j < 100 implies (matched@[j] <==> ((j < i + 1
                        && cells@[j] == 0) || exists|t2: u8| #[trigger] runs.contains_key(t2)
                        && run_cell(runs[t2].0, runs[t2].1, size_of(t2), j))) by {
                        assert(matched@[j] == (m0[j] || run_cell(i as int, d, n, j)));
                        if m0[j] && !(j < i && cells@[j] == 0) {
                            let t2 = choose|t2: u8| #[trigger] r0.contains_key(t2) && run_cell(
                                r0[t2].0,
                                r0[t2].1,
                                size_of(t2),
                                j,
                            );
                            assert(runs.contains_key(t2) && run_cell(
                                runs[t2].0,
                                runs[t2].1,
                                size_of(t2),
                                j,
                            ));
                        }
                        if run_cell(i as int, d, n, j) {
                            assert(runs.contains_key(cell) && run_cell(
                                runs[cell].0,
                                runs[cell].1,
                                size_of(cell),
                                j,
                            ));
                        }
                        if !matched@[j] {
                            if j < i + 1 && cells@[j] == 0 {
                                if j < i {
                                    assert(m0[j]);
                                } else {
                                    assert(j == i && cells@[i as int] != 0);
                                }
                            }
                            if exists|t2: u8| #[trigger] runs.contains_key(t2) && run_cell(
                                runs[t2].0,
                                runs[t2].1,
                                size_of(t2),
                                j,
                            ) {
                                let t2 = choose|t2: u8| #[trigger] runs.contains_key(t2)
                                    && run_cell(runs[t2].0, runs[t2].1, size_of(t2), j);
                                if t2 == cell {
                                    assert(run_cell(i as int, d, n, j));
                                } else {
                                    assert(r0.contains_key(t2));
                                    assert(m0[j]);
                                }
                            }
                        }
                    }
                    assert forall|j: int| 0 <= j < i + 1 && cells@[j] != 0 implies exists|t2: u8|
                        #[trigger] runs.contains_key(t2) && run_cell(
                        runs[t2].0,
                        runs[t2].1,
                        size_of(t2),
                        j,
                    ) by {
                        if j == i {
                            assert(runs.contains_key(cell) && run_cell(
                                runs[cell].0,
                                runs[cell].1,
                                size_of(cell),
                                i as int,
                            ));
                        } else {
                            let t2 = choose|t2: u8| #[trigger] r0.contains_key(t2) && run_cell(
                                r0[t2].0,
                                r0[t2].1,
                                size_of(t2),
                                j,
                            );
                            assert(runs.contains_key(t2) && run_cell(
                                runs[t2].0,
                                runs[t2].1,
                                size_of(t2),
                                j,
                            ));
                        }
                    }
                    assert forall|t2: u8| #[trigger] runs.contains_key(t2) implies is_ship_type(t2)
                        && run_at(cells@, t2, runs[t2].0, runs[t2].1) && 0 <= runs[t2].0 < i + 1 by {
                        if t2 != cell {
                            assert(r0.contains_key(t2));
                        }
                    }
                }
            } else {
                matched[i] = true;
                assert(cells@[i as int] == 0);
            }
        } else {
            proof {
                if cells@[i as int] != 0 {
                    assert(exists|t: u8| #[trigger] runs.contains_key(t) && run_cell(
                        runs[t].0,
                        runs[t].1,
                        size_of(t),
                        i as int,
                    ));
                }
            }
        }
        i = i + 1;
    }

    if !(carrier_found && battleship_found && cruiser_found && submarine_found
        && destroyer_found) {
        proof {
            if !carrier_found {
                lemma_reject_missing_scan(cells@, runs, 2u8);
            } else if !battleship_found {
                lemma_reject_missing_scan(cells@, runs, 3u8);
            } else if !cruiser_found {
                lemma_reject_missing_scan(cells@, runs, 4u8);
            } else if !submarine_found {
                lemma_reject_missing_scan(cells@, runs, 5u8);
            } else {
                lemma_reject_missing_scan(cells@, runs, 6u8);
            }
        }
        return false;
    }
    proof {
        assert forall|t: u8| is_ship_type(t) implies #[trigger] runs.contains_key(t) by {
            assert(t == 2 || t == 3 || t == 4 || t == 5 || t == 6);
        }
        lemma_scan_success(cells@, runs);
    }
    true
}

/// At the end of the scan a missing ship marker means no cell holds it.
proof fn lemma_reject_missing_scan(s: Seq<u8>, runs: Map<u8, (int, bool)>, t: u8)
    requires
        s.len() == 100,
        is_ship_type(t),
        !runs.contains_key(t),
        forall|t2: u8| #[trigger] runs.contains_key(t2) ==> is_ship_type(t2) && run_at(
            s,
            t2,
            runs[t2].0,
            runs[t2].1,
        ) && 0 <= runs[t2].0 < 100,
        forall|j: int|
            0 <= j < 100 && s[j] != 0 ==> exists|t2: u8| #[trigger] runs.contains_key(t2)
                && run_cell(runs[t2].0, runs[t2].1, size_of(t2), j),
    ensures
        !spec_valid_setup(s),
{
    assert forall|j: int| 0 <= j < 100 implies s[j] != t by {
        if s[j] == t {
            let t2 = choose|t2: u8| #[trigger] runs.contains_key(t2) && run_cell(
                runs[t2].0,
                runs[t2].1,
                size_of(t2),
                j,
            );
            lemma_run_at_cells(s, t2, runs[t2].0, runs[t2].1);
            assert(t2 == t);
        }
    }
    lemma_reject_missing(s, t);
}

/// How many cells at index `lo` or later hold the byte `v`.
pub open spec fn count_val_from(s: Seq<u8>, v: u8, lo: int) -> int
    decreases 100 - lo,
{
    if lo < 0 || lo >= 100 {
        0
    } else {
        (if s[lo] == v {
            1int
        } else {
            0int
        }) + count_val_from(s, v, lo + 1)
    }
}

/// How many cells at index `lo` or later hold a bare ship marker.
pub open spec fn count_ship_from(s: Seq<u8>, lo: int) -> int
    decreases 100 - lo,
{
    if lo < 0 || lo >= 100 {
        0
    } else {
        (if is_ship_type(s[lo]) {
            1int
        } else {
            0int
        }) + count_ship_from(s, lo + 1)
    }
}

/// How many cells at index `lo` or later hold a hit ship marker.
pub open spec fn count_hitmark_from(s: Seq<u8>, lo: int) -> int
    decreases 100 - lo,
{
    if lo < 0 || lo >= 100 {
        0
    } else {
        (if 130 <= s[lo] <= 134 {
            1int
        } else {
            0int
        }) + count_hitmark_from(s, lo + 1)
    }
}

/// How many cells at index `lo` or later belong to the given run.
spec fn run_count_from(start: int, horiz: bool, n: int, lo: int) -> int
    decreases 100 - lo,
{
    if lo < 0 || lo >= 100 {
        0
    } else {
        (if run_cell(start, horiz, n, lo) {
            1int
        } else {
            0int
        }) + run_count_from(start, horiz, n, lo + 1)
    }
}

/// An empty run has no cells anywhere.
proof fn lemma_run_count_nil(start: int, horiz: bool, lo: int)
    ensures
        run_count_from(start, horiz, 0, lo) == 0,
    decreases 100 - lo,
{
    if 0 <= lo < 100 {
        lemma_run_count_nil(start, horiz, lo + 1);
    }
}

/// Extending a run by one cell adds that cell to the count when it lies at
/// `lo` or later.
proof fn lemma_run_count_step(start: int, horiz: bool, n: int, lo: int)
    requires
        n >= 1,
        0 <= start,
        0 <= lo,
        start + (if horiz {
            1int
        } else {
            10int
        }) * (n - 1) < 100,
    ensures
        run_count_from(start, horiz, n, lo) == run_count_from(start, horiz, n - 1, lo) + (
        if start + (if horiz {
            1int
        } else {
            10int
        }) * (n - 1) >= lo {
            1int
        } else {
            0int
        }),
    decreases 100 - lo,
{
    let step: int = if horiz {
        1
    } else {
        10
    };
    let last = start + step * (n - 1);
    if lo >= 100 {
    } else {
        lemma_run_count_step(start, horiz, n, lo + 1);
        // the cell at lo belongs to the longer run exactly when it belongs
        // to the shorter one or is the newly added last cell
        assert(run_cell(start, horiz, n, lo) == (run_cell(start, horiz, n - 1, lo) || lo
            == last)) by {
            if run_cell(start, horiz, n, lo) && lo != last && !run_cell(
                start,
                horiz,
                n - 1,
                lo,
            ) {
                if horiz {
                    assert(lo == start + (n - 1));
                } else {
                    assert((lo - start) % 10 == 0);
                    let k = (lo - start) / 10;
                    assert(lo - start == 10 * k) by {
                        vstd::arithmetic::div_mod::lemma_fundamental_div_mod(lo - start, 10);
                    }
                    assert(k == n - 1);
                }
            }
            if run_cell(start, horiz, n - 1, lo) {
                assert(run_cell(start, horiz, n, lo));
            }
            if lo == last {
                assert(run_cell(start, horiz, n, lo)) by {
                    if !horiz {
                        assert((last - start) % 10 == 0) by {
                            assert(last - start == 10 * (n - 1));
                        }
                    }
                }
                assert(!run_cell(start, horiz, n - 1, lo)) by {
                    if !horiz && run_cell(start, horiz, n - 1, lo) {
                        let k = (lo - start) / 10;
                        assert(lo - start == 10 * k) by {
                            vstd::arithmetic::div_mod::lemma_fundamental_div_mod(lo - start, 10);
                        }
                        assert(k <= n - 2);
                        assert(lo - start == 10 * (n - 1));
                    }
                }
            }
        }
    }
}

/// A whole run on the board counts exactly its length.
proof fn lemma_run_count_full(start: int, horiz: bool, n: int)
    requires
        0 <= n <= 10,
        run_ok(start, horiz, n) || n == 0,
    ensures
        run_count_from(start, horiz, n, 0) == n,
    decreases n,
{
    if n == 0 {
        lemma_run_count_nil(start, horiz, 0);
    } else {
        let step: int = if horiz {
            1
        } else {
            10
        };
        assert(start + step * (n - 1) < 100) by {
            assert(start == 10 * (start / 10) + start % 10) by {
                vstd::arithmetic::div_mod::lemma_fundamental_div_mod(start, 10);
            }
        }
        if n == 1 {
            lemma_run_count_step(start, horiz, 1, 0);
            lemma_run_count_nil(start, horiz, 0);
        } else {
            assert(run_ok(start, horiz, n - 1));
            lemma_run_count_full(start, horiz, n - 1);
            lemma_run_count_step(start, horiz, n, 0);
        }
    }
}

/// On a board where `t`'s cells are exactly one run, counting `t` counts
/// the run.
proof fn lemma_count_val_eq_run(s: Seq<u8>, t: u8, start: int, horiz: bool, lo: int)
    requires
        s.len() == 100,
        ship_placed_at(s, t, start, horiz),
    ensures
        count_val_from(s, t, lo) == run_count_from(start, horiz, size_of(t), lo),
    decreases 100 - lo,
{
    if 0 <= lo < 100 {
        lemma_count_val_eq_run(s, t, start, horiz, lo + 1);
    }
}

/// A placed ship puts exactly its length in cells on the board.
proof fn lemma_placed_count(s: Seq<u8>, t: u8)
    requires
        s.len() == 100,
        is_ship_type(t),
        ship_placed(s, t),
    ensures
        count_val_from(s, t, 0) == size_of(t),
{
    let (start, horiz) = choose|start: int, horiz: bool| ship_placed_at(s, t, start, horiz);
    lemma_count_val_eq_run(s, t, start, horiz, 0);
    lemma_run_count_full(start, horiz, size_of(t));
}

/// Counting ship cells splits into counting the five markers.
proof fn lemma_ship_count_split(s: Seq<u8>, lo: int)
    ensures
        count_ship_from(s, lo) == count_val_from(s, 2, lo) + count_val_from(s, 3, lo)
            + count_val_from(s, 4, lo) + count_val_from(s, 5, lo) + count_val_from(s, 6, lo),
    decreases 100 - lo,
{
    if 0 <= lo < 100 {
        lemma_ship_count_split(s, lo + 1);
    }
}

/// A valid layout occupies exactly the seventeen cells of the fleet.
pub proof fn lemma_valid_setup_ship_count(s: Seq<u8>)
    requires
        spec_valid_setup(s),
    ensures
        count_ship_from(s, 0) == 17,
{
    lemma_ship_count_split(s, 0);
    assert(is_ship_type(2u8) && is_ship_type(3u8) && is_ship_type(4u8) && is_ship_type(5u8)
        && is_ship_type(6u8));
    lemma_placed_count(s, 2);
    lemma_placed_count(s, 3);
    lemma_placed_count(s, 4);
    lemma_placed_count(s, 5);
    lemma_placed_count(s, 6);
}

/// A board without ship cells past `lo` counts zero there, and conversely.
pub proof fn lemma_ship_count_none(s: Seq<u8>, lo: int)
    requires
        0 <= lo,
        count_ship_from(s, lo) == 0,
    ensures
        forall|j: int| lo <= j < 100 ==> !is_ship_type(#[trigger] s[j]),
    decreases 100 - lo,
{
    if 0 <= lo < 100 {
        lemma_ship_count_nonneg(s, lo + 1);
        lemma_ship_count_none(s, lo + 1);
    }
}

/// Ship counts are never negative.
pub proof fn lemma_ship_count_nonneg(s: Seq<u8>, lo: int)
    ensures
        count_ship_from(s, lo) >= 0,
    decreases 100 - lo,
{
    if 0 <= lo < 100 {
        lemma_ship_count_nonneg(s, lo + 1);
    }
}

} // verus!
