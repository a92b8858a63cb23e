use vstd::prelude::*;
use crate::state::{
    BLANK,
    down,
    exchange,
    grid_cells,
    is_label,
    lemma_blank_at,
    lemma_exchange_valid,
    left,
    right,
    swap,
    up,
    valid_cells,
};

verus! {

/// A 3x3 grid of labels holding each label exactly once, with the moves of
/// the blank; a plain value with no search behind it.
#[derive(Clone, Copy, Debug)]
pub struct Configuration {
    cells: [u8; 9],
    blank: usize,
}

impl View for Configuration {
    type V = Seq<u8>;

    closed spec fn view(&self) -> Seq<u8> {
        self.cells@
    }
}

/// The view of an optional configuration.
pub open spec fn config_view_of(o: Option<Configuration>) -> Option<Seq<u8>> {
    match o {
        Some(c) => Some(c@),
        None => None,
    }
}

impl Configuration {
    #[verifier::type_invariant]
    closed spec fn inv(self) -> bool {
        &&& valid_cells(self.cells@)
        &&& self.blank < 9
        &&& self.cells@[self.blank as int] == BLANK
    }

    /// Builds a configuration from a grid of rows; `None` unless the grid
    /// holds each label exactly once.
    pub fn new(grid: [[u8; 3]; 3]) -> (r: Option<Configuration>)
        ensures
            r is Some <==> valid_cells(grid_cells(grid)),
            r matches Some(c) ==> c@ == grid_cells(grid),
    {
        let cells: [u8; 9] = [
            grid[0][0], grid[0][1], grid[0][2],
            grid[1][0], grid[1][1], grid[1][2],
            grid[2][0], grid[2][1], grid[2][2],
        ];
        assert(cells@ =~= grid_cells(grid));
        let mut used: [bool; 10] = [false, false, false, false, false, false, false, false, false, false];
        let mut blank: usize = 9;
        let mut k: usize = 0;
        while k < 9
            invariant
                k <= 9,
                cells@ == grid_cells(grid),
                forall|a: int| 0 <= a < k ==> is_label(#[trigger] cells@[a]),
                forall|a: int, b: int| 0 <= a < k && 0 <= b < k && a != b ==> cells@[a] != cells@[b],
                forall|x: int| 0 <= x < 10 ==> (#[trigger] used@[x] <==> exists|a: int| 0 <= a < k && cells@[a] == x),
                blank == 9 <==> forall|a: int| 0 <= a < k ==> cells@[a] != BLANK,
                blank <= 9,
                blank < 9 ==> blank < k && cells@[blank as int] == BLANK,
            decreases 9 - k,
        {
            let x = cells[k];
            if !Configuration::is_valid_cell_value(x) {
                return None;
            }
            if used[x as usize] {
                assert(used@[x as int]);
                return None;
            }
            if x == BLANK {
                blank = k;
            }
            used[x as usize] = true;
            k += 1;
        }
        if blank == 9 {
            return None;
        }
        assert(cells@[blank as int] == BLANK);
        Some(Configuration { cells, blank })
    }

    fn is_valid_cell_value(x: u8) -> (r: bool)
        ensures
            r == is_label(x),
    {
        x == BLANK || (1 <= x && x <= 8)
    }

    /// The configuration with the blank exchanged with the cell at `target`.
    fn slide(&self, target: usize) -> (r: Configuration)
        requires
            target < 9,
        ensures
            r@ == exchange(self@, crate::state::blank_index(self@), target as int),
    {
        proof {
            use_type_invariant(self);
            lemma_blank_at(self@, self.blank as int);
            lemma_exchange_valid(self@, self.blank as int, target as int);
        }
        let mut cells = self.cells;
        swap(&mut cells, self.blank, target);
        Configuration { cells, blank: target }
    }

    /// Slides the tile above the blank into it; `None` on the top row.
    pub fn move_up(&self) -> (r: Option<Configuration>)
        ensures
            config_view_of(r) == up(self@),
    {
        proof {
            use_type_invariant(self);
            lemma_blank_at(self@, self.blank as int);
        }
        if self.blank >= 3 {
            Some(self.slide(self.blank - 3))
        } else {
            None
        }
    }

    /// Slides the tile below the blank into it; `None` on the bottom row.
    pub fn move_down(&self) -> (r: Option<Configuration>)
        ensures
            config_view_of(r) == down(self@),
    {
        proof {
            use_type_invariant(self);
            lemma_blank_at(self@, self.blank as int);
        }
        if self.blank < 6 {
            Some(self.slide(self.blank + 3))
        } else {
            None
        }
    }

    /// Slides the tile left of the blank into it; `None` in the left column.
    pub fn move_left(&self) -> (r: Option<Configuration>)
        ensures
            config_view_of(r) == left(self@),
    {
        proof {
            use_type_invariant(self);
            lemma_blank_at(self@, self.blank as int);
        }
        if self.blank % 3 > 0 {
            Some(self.slide(self.blank - 1))
        } else {
            None
        }
    }

    /// Slides the tile right of the blank into it; `None` in the right column.
    pub fn move_right(&self) -> (r: Option<Configuration>)
        ensures
            config_view_of(r) == right(self@),
    {
        proof {
            use_type_invariant(self);
            lemma_blank_at(self@, self.blank as int);
        }
        if self.blank % 3 < 2 {
            Some(self.slide(self.blank + 1))
        } else {
            None
        }
    }
}

impl PartialEq for Configuration {
    fn eq(&self, other: &Configuration) -> (r: bool) {
        let mut k: usize = 0;
        while k < 9
            invariant
                k <= 9,
                self.cells@.len() == 9,
                other.cells@.len() == 9,
                forall|a: int| 0 <= a < k ==> self.cells@[a] == other.cells@[a],
            decreases 9 - k,
        {
            if self.cells[k] != other.cells[k] {
                return false;
            }
            k += 1;
        }
        assert(self.cells@ =~= other.cells@);
        true
    }
}

impl vstd::std_specs::cmp::PartialEqSpecImpl for Configuration {
    open spec fn obeys_eq_spec() -> bool {
        true
    }

    open spec fn eq_spec(&self, other: &Configuration) -> bool {
        self@ == other@
    }
}

impl Eq for Configuration {}

} // verus!
