use vstd::prelude::*;

verus! {

/// The label that marks the empty cell.
pub const BLANK: u8 = 9;

/// A label that may stand in a cell: a tile `1..=8` or the blank.
pub open spec fn is_label(x: u8) -> bool {
    (1 <= x && x <= 8) || x == BLANK
}

/// The nine cells of a grid in row-major order.
pub open spec fn grid_cells(g: [[u8; 3]; 3]) -> Seq<u8> {
    seq![
        g@[0]@[0], g@[0]@[1], g@[0]@[2],
        g@[1]@[0], g@[1]@[1], g@[1]@[2],
        g@[2]@[0], g@[2]@[1], g@[2]@[2],
    ]
}

/// Nine cells holding each label exactly once, the blank included.
pub open spec fn valid_cells(c: Seq<u8>) -> bool {
    &&& c.len() == 9
    &&& forall|k: int| 0 <= k < 9 ==> is_label(#[trigger] c[k])
    &&& forall|a: int, b: int| 0 <= a < 9 && 0 <= b < 9 && a != b ==> c[a] != c[b]
    &&& exists|k: int| 0 <= k < 9 && c[k] == BLANK
}

/// Where the blank stands (a row-major index).
pub open spec fn blank_index(c: Seq<u8>) -> int {
    choose|k: int| 0 <= k < 9 && c[k] == BLANK
}

/// The cells with the values at `a` and `b` exchanged.
pub open spec fn exchange(c: Seq<u8>, a: int, b: int) -> Seq<u8> {
    c.update(a, c[b]).update(b, c[a])
}

/// Sliding the tile above the blank down into it.
pub open spec fn up(c: Seq<u8>) -> Option<Seq<u8>> {
    let b = blank_index(c);
    if b >= 3 {
        Some(exchange(c, b, b - 3))
    } else {
        None
    }
}

/// Sliding the tile below the blank up into it.
pub open spec fn down(c: Seq<u8>) -> Option<Seq<u8>> {
    let b = blank_index(c);
    if b < 6 {
        Some(exchange(c, b, b + 3))
    } else {
        None
    }
}

/// Sliding the tile left of the blank into it.
pub open spec fn left(c: Seq<u8>) -> Option<Seq<u8>> {
    let b = blank_index(c);
    if b % 3 > 0 {
        Some(exchange(c, b, b - 1))
    } else {
        None
    }
}

/// Sliding the tile right of the blank into it.
pub open spec fn right(c: Seq<u8>) -> Option<Seq<u8>> {
    let b = blank_index(c);
    if b % 3 < 2 {
        Some(exchange(c, b, b + 1))
    } else {
        None
    }
}

/// The value held, as a sequence of at most one.
pub open spec fn option_seq(o: Option<Seq<u8>>) -> Seq<Seq<u8>> {
    match o {
        Some(x) => seq![x],
        None => Seq::empty(),
    }
}

/// The grids one legal move away, in the order up, down, left, right.
pub open spec fn neighbors(c: Seq<u8>) -> Seq<Seq<u8>> {
    option_seq(up(c)) + option_seq(down(c)) + option_seq(left(c)) + option_seq(right(c))
}

/// `b` is one legal move away from `a`.
pub open spec fn adjacent(a: Seq<u8>, b: Seq<u8>) -> bool {
    neighbors(a).contains(b)
}

/// A non-empty sequence of grids in which each follows from the one before by one move.
pub open spec fn is_move_path(p: Seq<Seq<u8>>) -> bool {
    &&& p.len() >= 1
    &&& forall|i: int| 0 <= i < p.len() - 1 ==> adjacent(#[trigger] p[i], p[i + 1])
}

/// Some sequence of moves leads from `a` to `b`.
pub open spec fn reachable(a: Seq<u8>, b: Seq<u8>) -> bool {
    exists|p: Seq<Seq<u8>>| #[trigger] is_move_path(p) && p[0] == a && p.last() == b
}

/// The blank's index is the one position that holds it.
pub proof fn lemma_blank_at(c: Seq<u8>, k: int)
    requires
        valid_cells(c),
        0 <= k < 9,
        c[k] == BLANK,
    ensures
        blank_index(c) == k,
{
    let b = blank_index(c);
    assert(0 <= b < 9 && c[b] == BLANK);
}

/// Exchanging the blank with another cell keeps the cells a permutation.
pub proof fn lemma_exchange_valid(c: Seq<u8>, a: int, b: int)
    requires
        valid_cells(c),
        0 <= a < 9,
        0 <= b < 9,
        c[a] == BLANK,
    ensures
        valid_cells(exchange(c, a, b)),
        exchange(c, a, b)[b] == BLANK,
        blank_index(exchange(c, a, b)) == b,
{
    let t = exchange(c, a, b);
    assert(t[b] == BLANK);
    assert forall|k: int| 0 <= k < 9 implies is_label(#[trigger] t[k]) by {
        if k == a || k == b {
        } else {
            assert(t[k] == c[k]);
        }
    }
    lemma_blank_at(t, b);
}

/// A grid's neighbours are grids of the same kind.
pub proof fn lemma_neighbors_valid(c: Seq<u8>)
    requires
        valid_cells(c),
    ensures
        forall|i: int| 0 <= i < neighbors(c).len() ==> valid_cells(#[trigger] neighbors(c)[i]),
{
    let b = blank_index(c);
    assert(0 <= b < 9 && c[b] == BLANK);
    if b >= 3 {
        lemma_exchange_valid(c, b, b - 3);
    }
    if b < 6 {
        lemma_exchange_valid(c, b, b + 3);
    }
    if b % 3 > 0 {
        lemma_exchange_valid(c, b, b - 1);
    }
    if b % 3 < 2 {
        lemma_exchange_valid(c, b, b + 1);
    }
}

/// A legal move followed by the move in the opposite direction gives back the
/// grid it started from; the opposite move is always legal there.
pub proof fn lemma_move_inverse(c: Seq<u8>)
    requires
        valid_cells(c),
    ensures
        up(c) matches Some(t) ==> down(t) == Some(c),
        down(c) matches Some(t) ==> up(t) == Some(c),
        left(c) matches Some(t) ==> right(t) == Some(c),
        right(c) matches Some(t) ==> left(t) == Some(c),
{
    let b = blank_index(c);
    assert(0 <= b < 9 && c[b] == BLANK);
    if b >= 3 {
        lemma_exchange_valid(c, b, b - 3);
        assert(exchange(exchange(c, b, b - 3), b - 3, b) =~= c);
    }
    if b < 6 {
        lemma_exchange_valid(c, b, b + 3);
        assert(exchange(exchange(c, b, b + 3), b + 3, b) =~= c);
    }
    if b % 3 > 0 {
        lemma_exchange_valid(c, b, b - 1);
        assert(exchange(exchange(c, b, b - 1), b - 1, b) =~= c);
    }
    if b % 3 < 2 {
        lemma_exchange_valid(c, b, b + 1);
        assert(exchange(exchange(c, b, b + 1), b + 1, b) =~= c);
    }
}

/// A number that names a grid: its cells read as the digits of a base-ten
/// numeral, the first cell lowest.
pub open spec fn key_of(c: Seq<u8>) -> u64 {
    key_value(c) as u64
}

/// The numeral of `key_of`, as an integer.
pub open spec fn key_value(c: Seq<u8>) -> int {
    c[0] + 10 * (c[1] + 10 * (c[2] + 10 * (c[3] + 10 * (c[4] + 10 * (c[5] + 10 * (c[6] + 10 * (
    c[7] + 10 * c[8])))))))
}

/// Every key is below this bound.
pub const KEY_BOUND: u64 = 1_000_000_000;

proof fn lemma_digit(x: int, xs: int, y: int, ys: int)
    requires
        0 <= x < 10,
        0 <= y < 10,
        x + 10 * xs == y + 10 * ys,
    ensures
        x == y,
        xs == ys,
{
}

/// Two grids with the same key are the same grid.
pub proof fn lemma_key_injective(a: Seq<u8>, b: Seq<u8>)
    requires
        valid_cells(a),
        valid_cells(b),
        key_of(a) == key_of(b),
    ensures
        a == b,
{
    assert(is_label(a[0]) && is_label(a[1]) && is_label(a[2]) && is_label(a[3]) && is_label(a[4]));
    assert(is_label(a[5]) && is_label(a[6]) && is_label(a[7]) && is_label(a[8]));
    assert(is_label(b[0]) && is_label(b[1]) && is_label(b[2]) && is_label(b[3]) && is_label(b[4]));
    assert(is_label(b[5]) && is_label(b[6]) && is_label(b[7]) && is_label(b[8]));
    let a8 = a[8] as int;
    let a7 = a[7] + 10 * a8;
    let a6 = a[6] + 10 * a7;
    let a5 = a[5] + 10 * a6;
    let a4 = a[4] + 10 * a5;
    let a3 = a[3] + 10 * a4;
    let a2 = a[2] + 10 * a3;
    let a1 = a[1] + 10 * a2;
    let b8 = b[8] as int;
    let b7 = b[7] + 10 * b8;
    let b6 = b[6] + 10 * b7;
    let b5 = b[5] + 10 * b6;
    let b4 = b[4] + 10 * b5;
    let b3 = b[3] + 10 * b4;
    let b2 = b[2] + 10 * b3;
    let b1 = b[1] + 10 * b2;
    assert(key_value(a) == a[0] + 10 * a1);
    assert(key_value(b) == b[0] + 10 * b1);
    assert(0 <= key_value(a) < KEY_BOUND);
    assert(0 <= key_value(b) < KEY_BOUND);
    lemma_digit(a[0] as int, a1, b[0] as int, b1);
    lemma_digit(a[1] as int, a2, b[1] as int, b2);
    lemma_digit(a[2] as int, a3, b[2] as int, b3);
    lemma_digit(a[3] as int, a4, b[3] as int, b4);
    lemma_digit(a[4] as int, a5, b[4] as int, b5);
    lemma_digit(a[5] as int, a6, b[5] as int, b6);
    lemma_digit(a[6] as int, a7, b[6] as int, b7);
    lemma_digit(a[7] as int, a8, b[7] as int, b8);
    assert(a =~= b);
}

/// The view of an optional state.
pub open spec fn view_of(o: Option<State>) -> Option<Seq<u8>> {
    match o {
        Some(s) => Some(s@),
        None => None,
    }
}

/// Exchanges the values at `i` and `j`.
pub(crate) fn swap(x: &mut [u8; 9], i: usize, j: usize)
    requires
        i < 9,
        j < 9,
    ensures
        final(x)@ == exchange(old(x)@, i as int, j as int),
{
    let t = x[i];
    x[i] = x[j];
    x[j] = t;
    assert(x@ =~= exchange(old(x)@, i as int, j as int));
}

/// A 3x3 sliding-puzzle configuration: each label exactly once.
#[derive(Clone, Copy, Debug, Hash)]
pub struct State {
    cells: [u8; 9],
    blank: usize,
}

impl View for State {
    type V = Seq<u8>;

    closed spec fn view(&self) -> Seq<u8> {
        self.cells@
    }
}

impl State {
    #[verifier::type_invariant]
    closed spec fn inv(self) -> bool {
        &&& valid_cells(self.cells@)
        &&& self.blank < 9
        &&& self.cells@[self.blank as int] == BLANK
    }

    /// Builds a state from a grid of rows; `None` unless the grid holds each
    /// label exactly once.
    pub fn new(grid: [[u8; 3]; 3]) -> (r: Option<State>)
        ensures
            r is Some <==> valid_cells(grid_cells(grid)),
            r matches Some(s) ==> s@ == grid_cells(grid),
    {
        let cells: [u8; 9] = [
            grid[0][0], grid[0][1], grid[0][2],
            grid[1][0], grid[1][1], grid[1][2],
            grid[2][0], grid[2][1], grid[2][2],
        ];
        assert(cells@ =~= grid_cells(grid));
        let mut used: [bool; 10] = [false, false, false, false, false, false, false, false, false, false];
        let mut blank: usize = 9;
        let mut k: usize = 0;
        while k < 9
            invariant
                k <= 9,
                cells@ == grid_cells(grid),
                forall|a: int| 0 <= a < k ==> is_label(#[trigger] cells@[a]),
                forall|a: int, b: int| 0 <= a < k && 0 <= b < k && a != b ==> cells@[a] != cells@[b],
                forall|x: int| 0 <= x < 10 ==> (#[trigger] used@[x] <==> exists|a: int| 0 <= a < k && cells@[a] == x),
                blank == 9 <==> forall|a: int| 0 <= a < k ==> cells@[a] != BLANK,
                blank <= 9,
                blank < 9 ==> blank < k && cells@[blank as int] == BLANK,
            decreases 9 - k,
        {
            let x = cells[k];
            if !State::is_valid_cell_value(x) {
                return None;
            }
            if used[x as usize] {
                assert(used@[x as int]);
                return None;
            }
            if x == BLANK {
                blank = k;
            }
            used[x as usize] = true;
            k += 1;
        }
        if blank == 9 {
            return None;
        }
        assert(cells@[blank as int] == BLANK);
        Some(State { cells, blank })
    }

    /// The state with the blank exchanged with the cell at `target`.
    fn slide(&self, target: usize) -> (r: State)
        requires
            target < 9,
        ensures
            r@ == exchange(self@, blank_index(self@), target as int),
    {
        proof {
            use_type_invariant(self);
            lemma_blank_at(self@, self.blank as int);
            lemma_exchange_valid(self@, self.blank as int, target as int);
        }
        let mut cells = self.cells;
        swap(&mut cells, self.blank, target);
        State { cells, blank: target }
    }

    /// Slides the tile above the blank into it; `None` on the top row.
    pub fn move_up(&self) -> (r: Option<State>)
        ensures
            view_of(r) == up(self@),
    {
        proof {
            use_type_invariant(self);
            lemma_blank_at(self@, self.blank as int);
        }
        if self.blank >= 3 {
            Some(self.slide(self.blank - 3))
        } else {
            None
        }
    }

    /// Slides the tile below the blank into it; `None` on the bottom row.
    pub fn move_down(&self) -> (r: Option<State>)
        ensures
            view_of(r) == down(self@),
    {
        proof {
            use_type_invariant(self);
            lemma_blank_at(self@, self.blank as int);
        }
        if self.blank < 6 {
            Some(self.slide(self.blank + 3))
        } else {
            None
        }
    }

    /// Slides the tile left of the blank into it; `None` in the left column.
    pub fn move_left(&self) -> (r: Option<State>)
        ensures
            view_of(r) == left(self@),
    {
        proof {
            use_type_invariant(self);
            lemma_blank_at(self@, self.blank as int);
        }
        if self.blank % 3 > 0 {
            Some(self.slide(self.blank - 1))
        } else {
            None
        }
    }

    /// Slides the tile right of the blank into it; `None` in the right column.
    pub fn move_right(&self) -> (r: Option<State>)
        ensures
            view_of(r) == right(self@),
    {
        proof {
            use_type_invariant(self);
            lemma_blank_at(self@, self.blank as int);
        }
        if self.blank % 3 < 2 {
            Some(self.slide(self.blank + 1))
        } else {
            None
        }
    }

    /// The nine cell values in row-major order.
    pub fn iter(&self) -> (r: StateIterator)
        ensures
            r@ == self@,
            r@.len() == 9,
    {
        proof {
            use_type_invariant(self);
        }
        let r = StateIterator { cells: self.cells, pos: 0 };
        assert(r@ =~= self@);
        r
    }

    /// The key of this state's grid; every state's grid is valid.
    pub fn key(&self) -> (r: u64)
        ensures
            r == key_of(self@),
            r < KEY_BOUND,
            valid_cells(self@),
    {
        proof {
            use_type_invariant(self);
            assert(is_label(self.cells@[0]) && is_label(self.cells@[1]) && is_label(self.cells@[2]));
            assert(is_label(self.cells@[3]) && is_label(self.cells@[4]) && is_label(self.cells@[5]));
            assert(is_label(self.cells@[6]) && is_label(self.cells@[7]) && is_label(self.cells@[8]));
        }
        let c = &self.cells;
        c[0] as u64 + 10 * (c[1] as u64 + 10 * (c[2] as u64 + 10 * (c[3] as u64 + 10 * (c[4] as u64
            + 10 * (c[5] as u64 + 10 * (c[6] as u64 + 10 * (c[7] as u64 + 10 * c[8] as u64)))))))
    }

    fn is_valid_cell_value(x: u8) -> (r: bool)
        ensures
            r == is_label(x),
    {
        x == BLANK || (1 <= x && x <= 8)
    }
}

/// The states one legal move away from `s`, in the order up, down, left, right.
pub fn immediate_neighbours(s: &State) -> (r: Vec<State>)
    ensures
        r@.map_values(|t: State| t@) == neighbors(s@),
        forall|i: int| 0 <= i < r@.len() ==> valid_cells(#[trigger] r@[i]@),
{
    let mut r: Vec<State> = Vec::new();
    let ghost c = s@;
    let u = s.move_up();
    if let Some(t) = u {
        r.push(t);
    }
    let d = s.move_down();
    if let Some(t) = d {
        r.push(t);
    }
    let l = s.move_left();
    if let Some(t) = l {
        r.push(t);
    }
    let g = s.move_right();
    if let Some(t) = g {
        r.push(t);
    }
    proof {
        use_type_invariant(s);
        lemma_neighbors_valid(c);
        assert(r@.map_values(|t: State| t@) =~= neighbors(c));
        assert forall|i: int| 0 <= i < r@.len() implies valid_cells(#[trigger] r@[i]@) by {
            assert(r@.map_values(|t: State| t@)[i] == r@[i]@);
        }
    }
    r
}

impl PartialEq for State {
    fn eq(&self, other: &State) -> (r: bool) {
        let mut k: usize = 0;
        while k < 9
            invariant
                k <= 9,
                self.cells@.len() == 9,
                other.cells@.len() == 9,
                forall|a: int| 0 <= a < k ==> self.cells@[a] == other.cells@[a],
            decreases 9 - k,
        {
            if self.cells[k] != other.cells[k] {
                return false;
            }
            k += 1;
        }
        assert(self.cells@ =~= other.cells@);
        true
    }
}

impl vstd::std_specs::cmp::PartialEqSpecImpl for State {
    open spec fn obeys_eq_spec() -> bool {
        true
    }

    open spec fn eq_spec(&self, other: &State) -> bool {
        self@ == other@
    }
}

impl Eq for State {}

/// Hands out a state's cell values one at a time, in row-major order.
pub struct StateIterator {
    cells: [u8; 9],
    pos: usize,
}

impl View for StateIterator {
    type V = Seq<u8>;

    /// The values not handed out yet.
    closed spec fn view(&self) -> Seq<u8> {
        if self.pos <= 9 {
            self.cells@.subrange(self.pos as int, 9)
        } else {
            Seq::empty()
        }
    }
}

impl StateIterator {
    /// The next value, or `None` once all nine were handed out.
    pub fn next(&mut self) -> (r: Option<u8>)
        ensures
            old(self)@.len() == 0 ==> r is None && final(self)@ == old(self)@,
            old(self)@.len() > 0 ==> r == Some(old(self)@[0]) && final(self)@ == old(self)@.drop_first(),
    {
        if self.pos < 9 {
            let x = self.cells[self.pos];
            self.pos = self.pos + 1;
            assert(self@ =~= old(self)@.drop_first());
            Some(x)
        } else {
            None
        }
    }
}

} // verus!
