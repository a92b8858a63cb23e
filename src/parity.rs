use vstd::prelude::*;
use crate::state::{
    BLANK,
    adjacent,
    blank_index,
    exchange,
    is_move_path,
    lemma_blank_at,
    lemma_neighbors_valid,
    neighbors,
    reachable,
    valid_cells,
};

verus! {

/// 1 when cells `i` and `j` hold two tiles, the larger one first; else 0.
pub open spec fn out_of_order(c: Seq<u8>, i: int, j: int) -> int {
    if c[i] != BLANK && c[j] != BLANK && c[i] > c[j] {
        1
    } else {
        0
    }
}

/// How many pairs of tiles stand out of order when the cells are read row by
/// row, the blank left out.
#[verifier::opaque]
pub open spec fn inversions(c: Seq<u8>) -> int {
    out_of_order(c, 0, 1) + out_of_order(c, 0, 2) + out_of_order(c, 0, 3)
    + out_of_order(c, 0, 4) + out_of_order(c, 0, 5) + out_of_order(c, 0, 6)
    + out_of_order(c, 0, 7) + out_of_order(c, 0, 8) + out_of_order(c, 1, 2)
    + out_of_order(c, 1, 3) + out_of_order(c, 1, 4) + out_of_order(c, 1, 5)
    + out_of_order(c, 1, 6) + out_of_order(c, 1, 7) + out_of_order(c, 1, 8)
    + out_of_order(c, 2, 3) + out_of_order(c, 2, 4) + out_of_order(c, 2, 5)
    + out_of_order(c, 2, 6) + out_of_order(c, 2, 7) + out_of_order(c, 2, 8)
    + out_of_order(c, 3, 4) + out_of_order(c, 3, 5) + out_of_order(c, 3, 6)
    + out_of_order(c, 3, 7) + out_of_order(c, 3, 8) + out_of_order(c, 4, 5)
    + out_of_order(c, 4, 6) + out_of_order(c, 4, 7) + out_of_order(c, 4, 8)
    + out_of_order(c, 5, 6) + out_of_order(c, 5, 7) + out_of_order(c, 5, 8)
    + out_of_order(c, 6, 7) + out_of_order(c, 6, 8) + out_of_order(c, 7, 8)
}

/// The side of the move graph a grid lies on. On a board three cells wide a
/// sideways move keeps the reading order of the tiles and a vertical move
/// carries one tile past two others, so no move changes it.
pub open spec fn tile_parity(c: Seq<u8>) -> int {
    inversions(c) % 2
}

/// Adding an even amount keeps the parity.
proof fn lemma_even_shift(x: int, y: int)
    ensures
        (x + 2 - 2 * y) % 2 == x % 2,
{
    assert((x + 2 - 2 * y) % 2 == x % 2) by (nonlinear_arith);
}

// One lemma per legal exchange of the blank: each pair counted for the new
// grid is matched with a pair of the old one. A sideways move keeps every
// pair; a vertical move turns round the two pairs of the moved tile with the
// tiles it passes.
proof fn lemma_exchange_parity_0_3(c: Seq<u8>)
    requires
        c.len() == 9,
        c[0] == BLANK,
        c[3] != BLANK,
        c[1] != BLANK,
        c[3] != c[1],
        c[2] != BLANK,
        c[3] != c[2],
    ensures
        tile_parity(exchange(c, 0, 3)) == tile_parity(c),
{
    let t = exchange(c, 0, 3);
    assert(t[1] == c[1] && t[2] == c[2] && t[0] == c[3] && t[3] == BLANK);
    lemma_exchange_parity_3_0(t);
    assert(exchange(t, 3, 0) =~= c);
}

#[verifier::spinoff_prover]
#[verifier::rlimit(60)]
proof fn lemma_exchange_parity_0_1(c: Seq<u8>)
    requires
        c.len() == 9,
        c[0] == BLANK,
        c[1] != BLANK,
    ensures
        tile_parity(exchange(c, 0, 1)) == tile_parity(c),
{
    reveal(inversions);
    let t = exchange(c, 0, 1);
    assert(t[0] == c[1]);
    assert(t[1] == BLANK);
    assert(t[2] == c[2]);
    assert(t[3] == c[3]);
    assert(t[4] == c[4]);
    assert(t[5] == c[5]);
    assert(t[6] == c[6]);
    assert(t[7] == c[7]);
    assert(t[8] == c[8]);
    assert(out_of_order(t, 0, 1) == out_of_order(c, 0, 1));
    assert(out_of_order(t, 0, 2) == out_of_order(c, 1, 2));
    assert(out_of_order(t, 0, 3) == out_of_order(c, 1, 3));
    assert(out_of_order(t, 0, 4) == out_of_order(c, 1, 4));
    assert(out_of_order(t, 0, 5) == out_of_order(c, 1, 5));
    assert(out_of_order(t, 0, 6) == out_of_order(c, 1, 6));
    assert(out_of_order(t, 0, 7) == out_of_order(c, 1, 7));
    assert(out_of_order(t, 0, 8) == out_of_order(c, 1, 8));
    assert(out_of_order(t, 1, 2) == out_of_order(c, 0, 2));
    assert(out_of_order(t, 1, 3) == out_of_order(c, 0, 3));
    assert(out_of_order(t, 1, 4) == out_of_order(c, 0, 4));
    assert(out_of_order(t, 1, 5) == out_of_order(c, 0, 5));
    assert(out_of_order(t, 1, 6) == out_of_order(c, 0, 6));
    assert(out_of_order(t, 1, 7) == out_of_order(c, 0, 7));
    assert(out_of_order(t, 1, 8) == out_of_order(c, 0, 8));
    assert(inversions(t) == inversions(c));
}

#[verifier::spinoff_prover]
#[verifier::rlimit(60)]
proof fn lemma_exchange_parity_1_4(c: Seq<u8>)
    requires
        c.len() == 9,
        c[1] == BLANK,
        c[4] != BLANK,
        c[2] != BLANK,
        c[4] != c[2],
        c[3] != BLANK,
        c[4] != c[3],
    ensures
        tile_parity(exchange(c, 1, 4)) == tile_parity(c),
{
    reveal(inversions);
    let t = exchange(c, 1, 4);
    assert(t[1] == c[4]);
    assert(t[4] == BLANK);
    assert(t[0] == c[0]);
    assert(t[2] == c[2]);
    assert(t[3] == c[3]);
    assert(t[5] == c[5]);
    assert(t[6] == c[6]);
    assert(t[7] == c[7]);
    assert(t[8] == c[8]);
    assert(out_of_order(t, 0, 1) == out_of_order(c, 0, 4));
    assert(out_of_order(t, 0, 4) == out_of_order(c, 0, 1));
    assert(out_of_order(t, 1, 2) == 1 - out_of_order(c, 2, 4));
    assert(out_of_order(t, 1, 3) == 1 - out_of_order(c, 3, 4));
    assert(out_of_order(t, 1, 4) == out_of_order(c, 1, 4));
    assert(out_of_order(t, 1, 5) == out_of_order(c, 4, 5));
    assert(out_of_order(t, 1, 6) == out_of_order(c, 4, 6));
    assert(out_of_order(t, 1, 7) == out_of_order(c, 4, 7));
    assert(out_of_order(t, 1, 8) == out_of_order(c, 4, 8));
    assert(out_of_order(t, 2, 4) == out_of_order(c, 1, 2));
    assert(out_of_order(t, 3, 4) == out_of_order(c, 1, 3));
    assert(out_of_order(t, 4, 5) == out_of_order(c, 1, 5));
    assert(out_of_order(t, 4, 6) == out_of_order(c, 1, 6));
    assert(out_of_order(t, 4, 7) == out_of_order(c, 1, 7));
    assert(out_of_order(t, 4, 8) == out_of_order(c, 1, 8));
    let y = out_of_order(c, 2, 4) + out_of_order(c, 3, 4);
    assert(inversions(t) == inversions(c) + 2 - 2 * y);
    lemma_even_shift(inversions(c), y);
}

#[verifier::spinoff_prover]
#[verifier::rlimit(60)]
proof fn lemma_exchange_parity_1_0(c: Seq<u8>)
    requires
        c.len() == 9,
        c[1] == BLANK,
        c[0] != BLANK,
    ensures
        tile_parity(exchange(c, 1, 0)) == tile_parity(c),
{
    reveal(inversions);
    let t = exchange(c, 1, 0);
    assert(t[1] == c[0]);
    assert(t[0] == BLANK);
    assert(t[2] == c[2]);
    assert(t[3] == c[3]);
    assert(t[4] == c[4]);
    assert(t[5] == c[5]);
    assert(t[6] == c[6]);
    assert(t[7] == c[7]);
    assert(t[8] == c[8]);
    assert(out_of_order(t, 0, 1) == out_of_order(c, 0, 1));
    assert(out_of_order(t, 0, 2) == out_of_order(c, 1, 2));
    assert(out_of_order(t, 0, 3) == out_of_order(c, 1, 3));
    assert(out_of_order(t, 0, 4) == out_of_order(c, 1, 4));
    assert(out_of_order(t, 0, 5) == out_of_order(c, 1, 5));
    assert(out_of_order(t, 0, 6) == out_of_order(c, 1, 6));
    assert(out_of_order(t, 0, 7) == out_of_order(c, 1, 7));
    assert(out_of_order(t, 0, 8) == out_of_order(c, 1, 8));
    assert(out_of_order(t, 1, 2) == out_of_order(c, 0, 2));
    assert(out_of_order(t, 1, 3) == out_of_order(c, 0, 3));
    assert(out_of_order(t, 1, 4) == out_of_order(c, 0, 4));
    assert(out_of_order(t, 1, 5) == out_of_order(c, 0, 5));
    assert(out_of_order(t, 1, 6) == out_of_order(c, 0, 6));
    assert(out_of_order(t, 1, 7) == out_of_order(c, 0, 7));
    assert(out_of_order(t, 1, 8) == out_of_order(c, 0, 8));
    assert(inversions(t) == inversions(c));
}

#[verifier::spinoff_prover]
#[verifier::rlimit(60)]
proof fn lemma_exchange_parity_1_2(c: Seq<u8>)
    requires
        c.len() == 9,
        c[1] == BLANK,
        c[2] != BLANK,
    ensures
        tile_parity(exchange(c, 1, 2)) == tile_parity(c),
{
    reveal(inversions);
    let t = exchange(c, 1, 2);
    assert(t[1] == c[2]);
    assert(t[2] == BLANK);
    assert(t[0] == c[0]);
    assert(t[3] == c[3]);
    assert(t[4] == c[4]);
    assert(t[5] == c[5]);
    assert(t[6] == c[6]);
    assert(t[7] == c[7]);
    assert(t[8] == c[8]);
    assert(out_of_order(t, 0, 1) == out_of_order(c, 0, 2));
    assert(out_of_order(t, 0, 2) == out_of_order(c, 0, 1));
    assert(out_of_order(t, 1, 2) == out_of_order(c, 1, 2));
    assert(out_of_order(t, 1, 3) == out_of_order(c, 2, 3));
    assert(out_of_order(t, 1, 4) == out_of_order(c, 2, 4));
    assert(out_of_order(t, 1, 5) == out_of_order(c, 2, 5));
    assert(out_of_order(t, 1, 6) == out_of_order(c, 2, 6));
    assert(out_of_order(t, 1, 7) == out_of_order(c, 2, 7));
    assert(out_of_order(t, 1, 8) == out_of_order(c, 2, 8));
    assert(out_of_order(t, 2, 3) == out_of_order(c, 1, 3));
    assert(out_of_order(t, 2, 4) == out_of_order(c, 1, 4));
    assert(out_of_order(t, 2, 5) == out_of_order(c, 1, 5));
    assert(out_of_order(t, 2, 6) == out_of_order(c, 1, 6));
    assert(out_of_order(t, 2, 7) == out_of_order(c, 1, 7));
    assert(out_of_order(t, 2, 8) == out_of_order(c, 1, 8));
    assert(inversions(t) == inversions(c));
}

#[verifier::spinoff_prover]
#[verifier::rlimit(60)]
proof fn lemma_exchange_parity_2_5(c: Seq<u8>)
    requires
        c.len() == 9,
        c[2] == BLANK,
        c[5] != BLANK,
        c[3] != BLANK,
        c[5] != c[3],
        c[4] != BLANK,
        c[5] != c[4],
    ensures
        tile_parity(exchange(c, 2, 5)) == tile_parity(c),
{
    reveal(inversions);
    let t = exchange(c, 2, 5);
    assert(t[2] == c[5]);
    assert(t[5] == BLANK);
    assert(t[0] == c[0]);
    assert(t[1] == c[1]);
    assert(t[3] == c[3]);
    assert(t[4] == c[4]);
    assert(t[6] == c[6]);
    assert(t[7] == c[7]);
    assert(t[8] == c[8]);
    assert(out_of_order(t, 0, 2) == out_of_order(c, 0, 5));
    assert(out_of_order(t, 0, 5) == out_of_order(c, 0, 2));
    assert(out_of_order(t, 1, 2) == out_of_order(c, 1, 5));
    assert(out_of_order(t, 1, 5) == out_of_order(c, 1, 2));
    assert(out_of_order(t, 2, 3) == 1 - out_of_order(c, 3, 5));
    assert(out_of_order(t, 2, 4) == 1 - out_of_order(c, 4, 5));
    assert(out_of_order(t, 2, 5) == out_of_order(c, 2, 5));
    assert(out_of_order(t, 2, 6) == out_of_order(c, 5, 6));
    assert(out_of_order(t, 2, 7) == out_of_order(c, 5, 7));
    assert(out_of_order(t, 2, 8) == out_of_order(c, 5, 8));
    assert(out_of_order(t, 3, 5) == out_of_order(c, 2, 3));
    assert(out_of_order(t, 4, 5) == out_of_order(c, 2, 4));
    assert(out_of_order(t, 5, 6) == out_of_order(c, 2, 6));
    assert(out_of_order(t, 5, 7) == out_of_order(c, 2, 7));
    assert(out_of_order(t, 5, 8) == out_of_order(c, 2, 8));
    let y = out_of_order(c, 3, 5) + out_of_order(c, 4, 5);
    assert(inversions(t) == inversions(c) + 2 - 2 * y);
    lemma_even_shift(inversions(c), y);
}

#[verifier::spinoff_prover]
#[verifier::rlimit(60)]
proof fn lemma_exchange_parity_2_1(c: Seq<u8>)
    requires
        c.len() == 9,
        c[2] == BLANK,
        c[1] != BLANK,
    ensures
        tile_parity(exchange(c, 2, 1)) == tile_parity(c),
{
    reveal(inversions);
    let t = exchange(c, 2, 1);
    assert(t[2] == c[1]);
    assert(t[1] == BLANK);
    assert(t[0] == c[0]);
    assert(t[3] == c[3]);
    assert(t[4] == c[4]);
    assert(t[5] == c[5]);
    assert(t[6] == c[6]);
    assert(t[7] == c[7]);
    assert(t[8] == c[8]);
    assert(out_of_order(t, 0, 1) == out_of_order(c, 0, 2));
    assert(out_of_order(t, 0, 2) == out_of_order(c, 0, 1));
    assert(out_of_order(t, 1, 2) == out_of_order(c, 1, 2));
    assert(out_of_order(t, 1, 3) == out_of_order(c, 2, 3));
    assert(out_of_order(t, 1, 4) == out_of_order(c, 2, 4));
    assert(out_of_order(t, 1, 5) == out_of_order(c, 2, 5));
    assert(out_of_order(t, 1, 6) == out_of_order(c, 2, 6));
    assert(out_of_order(t, 1, 7) == out_of_order(c, 2, 7));
    assert(out_of_order(t, 1, 8) == out_of_order(c, 2, 8));
    assert(out_of_order(t, 2, 3) == out_of_order(c, 1, 3));
    assert(out_of_order(t, 2, 4) == out_of_order(c, 1, 4));
    assert(out_of_order(t, 2, 5) == out_of_order(c, 1, 5));
    assert(out_of_order(t, 2, 6) == out_of_order(c, 1, 6));
    assert(out_of_order(t, 2, 7) == out_of_order(c, 1, 7));
    assert(out_of_order(t, 2, 8) == out_of_order(c, 1, 8));
    assert(inversions(t) == inversions(c));
}

#[verifier::spinoff_prover]
#[verifier::rlimit(100)]
proof fn lemma_exchange_parity_3_0(c: Seq<u8>)
    requires
        c.len() == 9,
        c[3] == BLANK,
        c[0] != BLANK,
        c[1] != BLANK,
        c[0] != c[1],
        c[2] != BLANK,
        c[0] != c[2],
    ensures
        tile_parity(exchange(c, 3, 0)) == tile_parity(c),
{
    reveal(inversions);
    let t = exchange(c, 3, 0);
    assert(t[3] == c[0]);
    assert(t[0] == BLANK);
    assert(t[1] == c[1]);
    assert(t[2] == c[2]);
    assert(t[4] == c[4]);
    assert(t[5] == c[5]);
    assert(t[6] == c[6]);
    assert(t[7] == c[7]);
    assert(t[8] == c[8]);
    assert(out_of_order(t, 0, 1) == out_of_order(c, 1, 3));
    assert(out_of_order(t, 0, 2) == out_of_order(c, 2, 3));
    assert(out_of_order(t, 0, 3) == out_of_order(c, 0, 3));
    assert(out_of_order(t, 0, 4) == out_of_order(c, 3, 4));
    assert(out_of_order(t, 0, 5) == out_of_order(c, 3, 5));
    assert(out_of_order(t, 0, 6) == out_of_order(c, 3, 6));
    assert(out_of_order(t, 0, 7) == out_of_order(c, 3, 7));
    assert(out_of_order(t, 0, 8) == out_of_order(c, 3, 8));
    assert(out_of_order(t, 1, 3) == 1 - out_of_order(c, 0, 1));
    assert(out_of_order(t, 2, 3) == 1 - out_of_order(c, 0, 2));
    assert(out_of_order(t, 3, 4) == out_of_order(c, 0, 4));
    assert(out_of_order(t, 3, 5) == out_of_order(c, 0, 5));
    assert(out_of_order(t, 3, 6) == out_of_order(c, 0, 6));
    assert(out_of_order(t, 3, 7) == out_of_order(c, 0, 7));
    assert(out_of_order(t, 3, 8) == out_of_order(c, 0, 8));
    let y = out_of_order(c, 0, 1) + out_of_order(c, 0, 2);
    assert(inversions(t) == inversions(c) + 2 - 2 * y);
    lemma_even_shift(inversions(c), y);
}

#[verifier::spinoff_prover]
#[verifier::rlimit(60)]
proof fn lemma_exchange_parity_3_6(c: Seq<u8>)
    requires
        c.len() == 9,
        c[3] == BLANK,
        c[6] != BLANK,
        c[4] != BLANK,
        c[6] != c[4],
        c[5] != BLANK,
        c[6] != c[5],
    ensures
        tile_parity(exchange(c, 3, 6)) == tile_parity(c),
{
    reveal(inversions);
    let t = exchange(c, 3, 6);
    assert(t[3] == c[6]);
    assert(t[6] == BLANK);
    assert(t[0] == c[0]);
    assert(t[1] == c[1]);
    assert(t[2] == c[2]);
    assert(t[4] == c[4]);
    assert(t[5] == c[5]);
    assert(t[7] == c[7]);
    assert(t[8] == c[8]);
    assert(out_of_order(t, 0, 3) == out_of_order(c, 0, 6));
    assert(out_of_order(t, 0, 6) == out_of_order(c, 0, 3));
    assert(out_of_order(t, 1, 3) == out_of_order(c, 1, 6));
    assert(out_of_order(t, 1, 6) == out_of_order(c, 1, 3));
    assert(out_of_order(t, 2, 3) == out_of_order(c, 2, 6));
    assert(out_of_order(t, 2, 6) == out_of_order(c, 2, 3));
    assert(out_of_order(t, 3, 4) == 1 - out_of_order(c, 4, 6));
    assert(out_of_order(t, 3, 5) == 1 - out_of_order(c, 5, 6));
    assert(out_of_order(t, 3, 6) == out_of_order(c, 3, 6));
    assert(out_of_order(t, 3, 7) == out_of_order(c, 6, 7));
    assert(out_of_order(t, 3, 8) == out_of_order(c, 6, 8));
    assert(out_of_order(t, 4, 6) == out_of_order(c, 3, 4));
    assert(out_of_order(t, 5, 6) == out_of_order(c, 3, 5));
    assert(out_of_order(t, 6, 7) == out_of_order(c, 3, 7));
    assert(out_of_order(t, 6, 8) == out_of_order(c, 3, 8));
    let y = out_of_order(c, 4, 6) + out_of_order(c, 5, 6);
    assert(inversions(t) == inversions(c) + 2 - 2 * y);
    lemma_even_shift(inversions(c), y);
}

#[verifier::spinoff_prover]
#[verifier::rlimit(60)]
proof fn lemma_exchange_parity_3_4(c: Seq<u8>)
    requires
        c.len() == 9,
        c[3] == BLANK,
        c[4] != BLANK,
    ensures
        tile_parity(exchange(c, 3, 4)) == tile_parity(c),
{
    reveal(inversions);
    let t = exchange(c, 3, 4);
    assert(t[3] == c[4]);
    assert(t[4] == BLANK);
    assert(t[0] == c[0]);
    assert(t[1] == c[1]);
    assert(t[2] == c[2]);
    assert(t[5] == c[5]);
    assert(t[6] == c[6]);
    assert(t[7] == c[7]);
    assert(t[8] == c[8]);
    assert(out_of_order(t, 0, 3) == out_of_order(c, 0, 4));
    assert(out_of_order(t, 0, 4) == out_of_order(c, 0, 3));
    assert(out_of_order(t, 1, 3) == out_of_order(c, 1, 4));
    assert(out_of_order(t, 1, 4) == out_of_order(c, 1, 3));
    assert(out_of_order(t, 2, 3) == out_of_order(c, 2, 4));
    assert(out_of_order(t, 2, 4) == out_of_order(c, 2, 3));
    assert(out_of_order(t, 3, 4) == out_of_order(c, 3, 4));
    assert(out_of_order(t, 3, 5) == out_of_order(c, 4, 5));
    assert(out_of_order(t, 3, 6) == out_of_order(c, 4, 6));
    assert(out_of_order(t, 3, 7) == out_of_order(c, 4, 7));
    assert(out_of_order(t, 3, 8) == out_of_order(c, 4, 8));
    assert(out_of_order(t, 4, 5) == out_of_order(c, 3, 5));
    assert(out_of_order(t, 4, 6) == out_of_order(c, 3, 6));
    assert(out_of_order(t, 4, 7) == out_of_order(c, 3, 7));
    assert(out_of_order(t, 4, 8) == out_of_order(c, 3, 8));
    assert(inversions(t) == inversions(c));
}

#[verifier::spinoff_prover]
#[verifier::rlimit(100)]
proof fn lemma_exchange_parity_4_1(c: Seq<u8>)
    requires
        c.len() == 9,
        c[4] == BLANK,
        c[1] != BLANK,
        c[2] != BLANK,
        c[1] != c[2],
        c[3] != BLANK,
        c[1] != c[3],
    ensures
        tile_parity(exchange(c, 4, 1)) == tile_parity(c),
{
    reveal(inversions);
    let t = exchange(c, 4, 1);
    assert(t[4] == c[1]);
    assert(t[1] == BLANK);
    assert(t[0] == c[0]);
    assert(t[2] == c[2]);
    assert(t[3] == c[3]);
    assert(t[5] == c[5]);
    assert(t[6] == c[6]);
    assert(t[7] == c[7]);
    assert(t[8] == c[8]);
    assert(out_of_order(t, 0, 1) == out_of_order(c, 0, 4));
    assert(out_of_order(t, 0, 4) == out_of_order(c, 0, 1));
    assert(out_of_order(t, 1, 2) == out_of_order(c, 2, 4));
    assert(out_of_order(t, 1, 3) == out_of_order(c, 3, 4));
    assert(out_of_order(t, 1, 4) == out_of_order(c, 1, 4));
    assert(out_of_order(t, 1, 5) == out_of_order(c, 4, 5));
    assert(out_of_order(t, 1, 6) == out_of_order(c, 4, 6));
    assert(out_of_order(t, 1, 7) == out_of_order(c, 4, 7));
    assert(out_of_order(t, 1, 8) == out_of_order(c, 4, 8));
    assert(out_of_order(t, 2, 4) == 1 - out_of_order(c, 1, 2));
    assert(out_of_order(t, 3, 4) == 1 - out_of_order(c, 1, 3));
    assert(out_of_order(t, 4, 5) == out_of_order(c, 1, 5));
    assert(out_of_order(t, 4, 6) == out_of_order(c, 1, 6));
    assert(out_of_order(t, 4, 7) == out_of_order(c, 1, 7));
    assert(out_of_order(t, 4, 8) == out_of_order(c, 1, 8));
    let y = out_of_order(c, 1, 2) + out_of_order(c, 1, 3);
    assert(inversions(t) == inversions(c) + 2 - 2 * y);
    lemma_even_shift(inversions(c), y);
}

#[verifier::spinoff_prover]
#[verifier::rlimit(60)]
proof fn lemma_exchange_parity_4_7(c: Seq<u8>)
    requires
        c.len() == 9,
        c[4] == BLANK,
        c[7] != BLANK,
        c[5] != BLANK,
        c[7] != c[5],
        c[6] != BLANK,
        c[7] != c[6],
    ensures
        tile_parity(exchange(c, 4, 7)) == tile_parity(c),
{
    reveal(inversions);
    let t = exchange(c, 4, 7);
    assert(t[4] == c[7]);
    assert(t[7] == BLANK);
    assert(t[0] == c[0]);
    assert(t[1] == c[1]);
    assert(t[2] == c[2]);
    assert(t[3] == c[3]);
    assert(t[5] == c[5]);
    assert(t[6] == c[6]);
    assert(t[8] == c[8]);
    assert(out_of_order(t, 0, 4) == out_of_order(c, 0, 7));
    assert(out_of_order(t, 0, 7) == out_of_order(c, 0, 4));
    assert(out_of_order(t, 1, 4) == out_of_order(c, 1, 7));
    assert(out_of_order(t, 1, 7) == out_of_order(c, 1, 4));
    assert(out_of_order(t, 2, 4) == out_of_order(c, 2, 7));
    assert(out_of_order(t, 2, 7) == out_of_order(c, 2, 4));
    assert(out_of_order(t, 3, 4) == out_of_order(c, 3, 7));
    assert(out_of_order(t, 3, 7) == out_of_order(c, 3, 4));
    assert(out_of_order(t, 4, 5) == 1 - out_of_order(c, 5, 7));
    assert(out_of_order(t, 4, 6) == 1 - out_of_order(c, 6, 7));
    assert(out_of_order(t, 4, 7) == out_of_order(c, 4, 7));
    assert(out_of_order(t, 4, 8) == out_of_order(c, 7, 8));
    assert(out_of_order(t, 5, 7) == out_of_order(c, 4, 5));
    assert(out_of_order(t, 6, 7) == out_of_order(c, 4, 6));
    assert(out_of_order(t, 7, 8) == out_of_order(c, 4, 8));
    let y = out_of_order(c, 5, 7) + out_of_order(c, 6, 7);
    assert(inversions(t) == inversions(c) + 2 - 2 * y);
    lemma_even_shift(inversions(c), y);
}

#[verifier::spinoff_prover]
#[verifier::rlimit(60)]
proof fn lemma_exchange_parity_4_3(c: Seq<u8>)
    requires
        c.len() == 9,
        c[4] == BLANK,
        c[3] != BLANK,
    ensures
        tile_parity(exchange(c, 4, 3)) == tile_parity(c),
{
    reveal(inversions);
    let t = exchange(c, 4, 3);
    assert(t[4] == c[3]);
    assert(t[3] == BLANK);
    assert(t[0] == c[0]);
    assert(t[1] == c[1]);
    assert(t[2] == c[2]);
    assert(t[5] == c[5]);
    assert(t[6] == c[6]);
    assert(t[7] == c[7]);
    assert(t[8] == c[8]);
    assert(out_of_order(t, 0, 3) == out_of_order(c, 0, 4));
    assert(out_of_order(t, 0, 4) == out_of_order(c, 0, 3));
    assert(out_of_order(t, 1, 3) == out_of_order(c, 1, 4));
    assert(out_of_order(t, 1, 4) == out_of_order(c, 1, 3));
    assert(out_of_order(t, 2, 3) == out_of_order(c, 2, 4));
    assert(out_of_order(t, 2, 4) == out_of_order(c, 2, 3));
    assert(out_of_order(t, 3, 4) == out_of_order(c, 3, 4));
    assert(out_of_order(t, 3, 5) == out_of_order(c, 4, 5));
    assert(out_of_order(t, 3, 6) == out_of_order(c, 4, 6));
    assert(out_of_order(t, 3, 7) == out_of_order(c, 4, 7));
    assert(out_of_order(t, 3, 8) == out_of_order(c, 4, 8));
    assert(out_of_order(t, 4, 5) == out_of_order(c, 3, 5));
    assert(out_of_order(t, 4, 6) == out_of_order(c, 3, 6));
    assert(out_of_order(t, 4, 7) == out_of_order(c, 3, 7));
    assert(out_of_order(t, 4, 8) == out_of_order(c, 3, 8));
    assert(inversions(t) == inversions(c));
}

#[verifier::spinoff_prover]
#[verifier::rlimit(60)]
proof fn lemma_exchange_parity_4_5(c: Seq<u8>)
    requires
        c.len() == 9,
        c[4] == BLANK,
        c[5] != BLANK,
    ensures
        tile_parity(exchange(c, 4, 5)) == tile_parity(c),
{
    reveal(inversions);
    let t = exchange(c, 4, 5);
    assert(t[4] == c[5]);
    assert(t[5] == BLANK);
    assert(t[0] == c[0]);
    assert(t[1] == c[1]);
    assert(t[2] == c[2]);
    assert(t[3] == c[3]);
    assert(t[6] == c[6]);
    assert(t[7] == c[7]);
    assert(t[8] == c[8]);
    assert(out_of_order(t, 0, 4) == out_of_order(c, 0, 5));
    assert(out_of_order(t, 0, 5) == out_of_order(c, 0, 4));
    assert(out_of_order(t, 1, 4) == out_of_order(c, 1, 5));
    assert(out_of_order(t, 1, 5) == out_of_order(c, 1, 4));
    assert(out_of_order(t, 2, 4) == out_of_order(c, 2, 5));
    assert(out_of_order(t, 2, 5) == out_of_order(c, 2, 4));
    assert(out_of_order(t, 3, 4) == out_of_order(c, 3, 5));
    assert(out_of_order(t, 3, 5) == out_of_order(c, 3, 4));
    assert(out_of_order(t, 4, 5) == out_of_order(c, 4, 5));
    assert(out_of_order(t, 4, 6) == out_of_order(c, 5, 6));
    assert(out_of_order(t, 4, 7) == out_of_order(c, 5, 7));
    assert(out_of_order(t, 4, 8) == out_of_order(c, 5, 8));
    assert(out_of_order(t, 5, 6) == out_of_order(c, 4, 6));
    assert(out_of_order(t, 5, 7) == out_of_order(c, 4, 7));
    assert(out_of_order(t, 5, 8) == out_of_order(c, 4, 8));
    assert(inversions(t) == inversions(c));
}

proof fn lemma_exchange_parity_5_2(c: Seq<u8>)
    requires
        c.len() == 9,
        c[5] == BLANK,
        c[2] != BLANK,
        c[3] != BLANK,
        c[2] != c[3],
        c[4] != BLANK,
        c[2] != c[4],
    ensures
        tile_parity(exchange(c, 5, 2)) == tile_parity(c),
{
    let t = exchange(c, 5, 2);
    assert(t[3] == c[3] && t[4] == c[4] && t[5] == c[2] && t[2] == BLANK);
    lemma_exchange_parity_2_5(t);
    assert(exchange(t, 2, 5) =~= c);
}

#[verifier::spinoff_prover]
#[verifier::rlimit(60)]
proof fn lemma_exchange_parity_5_8(c: Seq<u8>)
    requires
        c.len() == 9,
        c[5] == BLANK,
        c[8] != BLANK,
        c[6] != BLANK,
        c[8] != c[6],
        c[7] != BLANK,
        c[8] != c[7],
    ensures
        tile_parity(exchange(c, 5, 8)) == tile_parity(c),
{
    reveal(inversions);
    let t = exchange(c, 5, 8);
    assert(t[5] == c[8]);
    assert(t[8] == BLANK);
    assert(t[0] == c[0]);
    assert(t[1] == c[1]);
    assert(t[2] == c[2]);
    assert(t[3] == c[3]);
    assert(t[4] == c[4]);
    assert(t[6] == c[6]);
    assert(t[7] == c[7]);
    assert(out_of_order(t, 0, 5) == out_of_order(c, 0, 8));
    assert(out_of_order(t, 0, 8) == out_of_order(c, 0, 5));
    assert(out_of_order(t, 1, 5) == out_of_order(c, 1, 8));
    assert(out_of_order(t, 1, 8) == out_of_order(c, 1, 5));
    assert(out_of_order(t, 2, 5) == out_of_order(c, 2, 8));
    assert(out_of_order(t, 2, 8) == out_of_order(c, 2, 5));
    assert(out_of_order(t, 3, 5) == out_of_order(c, 3, 8));
    assert(out_of_order(t, 3, 8) == out_of_order(c, 3, 5));
    assert(out_of_order(t, 4, 5) == out_of_order(c, 4, 8));
    assert(out_of_order(t, 4, 8) == out_of_order(c, 4, 5));
    assert(out_of_order(t, 5, 6) == 1 - out_of_order(c, 6, 8));
    assert(out_of_order(t, 5, 7) == 1 - out_of_order(c, 7, 8));
    assert(out_of_order(t, 5, 8) == out_of_order(c, 5, 8));
    assert(out_of_order(t, 6, 8) == out_of_order(c, 5, 6));
    assert(out_of_order(t, 7, 8) == out_of_order(c, 5, 7));
    let y = out_of_order(c, 6, 8) + out_of_order(c, 7, 8);
    assert(inversions(t) == inversions(c) + 2 - 2 * y);
    lemma_even_shift(inversions(c), y);
}

#[verifier::spinoff_prover]
#[verifier::rlimit(60)]
proof fn lemma_exchange_parity_5_4(c: Seq<u8>)
    requires
        c.len() == 9,
        c[5] == BLANK,
        c[4] != BLANK,
    ensures
        tile_parity(exchange(c, 5, 4)) == tile_parity(c),
{
    reveal(inversions);
    let t = exchange(c, 5, 4);
    assert(t[5] == c[4]);
    assert(t[4] == BLANK);
    assert(t[0] == c[0]);
    assert(t[1] == c[1]);
    assert(t[2] == c[2]);
    assert(t[3] == c[3]);
    assert(t[6] == c[6]);
    assert(t[7] == c[7]);
    assert(t[8] == c[8]);
    assert(out_of_order(t, 0, 4) == out_of_order(c, 0, 5));
    assert(out_of_order(t, 0, 5) == out_of_order(c, 0, 4));
    assert(out_of_order(t, 1, 4) == out_of_order(c, 1, 5));
    assert(out_of_order(t, 1, 5) == out_of_order(c, 1, 4));
    assert(out_of_order(t, 2, 4) == out_of_order(c, 2, 5));
    assert(out_of_order(t, 2, 5) == out_of_order(c, 2, 4));
    assert(out_of_order(t, 3, 4) == out_of_order(c, 3, 5));
    assert(out_of_order(t, 3, 5) == out_of_order(c, 3, 4));
    assert(out_of_order(t, 4, 5) == out_of_order(c, 4, 5));
    assert(out_of_order(t, 4, 6) == out_of_order(c, 5, 6));
    assert(out_of_order(t, 4, 7) == out_of_order(c, 5, 7));
    assert(out_of_order(t, 4, 8) == out_of_order(c, 5, 8));
    assert(out_of_order(t, 5, 6) == out_of_order(c, 4, 6));
    assert(out_of_order(t, 5, 7) == out_of_order(c, 4, 7));
    assert(out_of_order(t, 5, 8) == out_of_order(c, 4, 8));
    assert(inversions(t) == inversions(c));
}

#[verifier::spinoff_prover]
#[verifier::rlimit(60)]
proof fn lemma_exchange_parity_6_3(c: Seq<u8>)
    requires
        c.len() == 9,
        c[6] == BLANK,
        c[3] != BLANK,
        c[4] != BLANK,
        c[3] != c[4],
        c[5] != BLANK,
        c[3] != c[5],
    ensures
        tile_parity(exchange(c, 6, 3)) == tile_parity(c),
{
    reveal(inversions);
    let t = exchange(c, 6, 3);
    assert(t[6] == c[3]);
    assert(t[3] == BLANK);
    assert(t[0] == c[0]);
    assert(t[1] == c[1]);
    assert(t[2] == c[2]);
    assert(t[4] == c[4]);
    assert(t[5] == c[5]);
    assert(t[7] == c[7]);
    assert(t[8] == c[8]);
    assert(out_of_order(t, 0, 3) == out_of_order(c, 0, 6));
    assert(out_of_order(t, 0, 6) == out_of_order(c, 0, 3));
    assert(out_of_order(t, 1, 3) == out_of_order(c, 1, 6));
    assert(out_of_order(t, 1, 6) == out_of_order(c, 1, 3));
    assert(out_of_order(t, 2, 3) == out_of_order(c, 2, 6));
    assert(out_of_order(t, 2, 6) == out_of_order(c, 2, 3));
    assert(out_of_order(t, 3, 4) == out_of_order(c, 4, 6));
    assert(out_of_order(t, 3, 5) == out_of_order(c, 5, 6));
    assert(out_of_order(t, 3, 6) == out_of_order(c, 3, 6));
    assert(out_of_order(t, 3, 7) == out_of_order(c, 6, 7));
    assert(out_of_order(t, 3, 8) == out_of_order(c, 6, 8));
    assert(out_of_order(t, 4, 6) == 1 - out_of_order(c, 3, 4));
    assert(out_of_order(t, 5, 6) == 1 - out_of_order(c, 3, 5));
    assert(out_of_order(t, 6, 7) == out_of_order(c, 3, 7));
    assert(out_of_order(t, 6, 8) == out_of_order(c, 3, 8));
    let y = out_of_order(c, 3, 4) + out_of_order(c, 3, 5);
    assert(inversions(t) == inversions(c) + 2 - 2 * y);
    lemma_even_shift(inversions(c), y);
}

#[verifier::spinoff_prover]
#[verifier::rlimit(60)]
proof fn lemma_exchange_parity_6_7(c: Seq<u8>)
    requires
        c.len() == 9,
        c[6] == BLANK,
        c[7] != BLANK,
    ensures
        tile_parity(exchange(c, 6, 7)) == tile_parity(c),
{
    reveal(inversions);
    let t = exchange(c, 6, 7);
    assert(t[6] == c[7]);
    assert(t[7] == BLANK);
    assert(t[0] == c[0]);
    assert(t[1] == c[1]);
    assert(t[2] == c[2]);
    assert(t[3] == c[3]);
    assert(t[4] == c[4]);
    assert(t[5] == c[5]);
    assert(t[8] == c[8]);
    assert(out_of_order(t, 0, 6) == out_of_order(c, 0, 7));
    assert(out_of_order(t, 0, 7) == out_of_order(c, 0, 6));
    assert(out_of_order(t, 1, 6) == out_of_order(c, 1, 7));
    assert(out_of_order(t, 1, 7) == out_of_order(c, 1, 6));
    assert(out_of_order(t, 2, 6) == out_of_order(c, 2, 7));
    assert(out_of_order(t, 2, 7) == out_of_order(c, 2, 6));
    assert(out_of_order(t, 3, 6) == out_of_order(c, 3, 7));
    assert(out_of_order(t, 3, 7) == out_of_order(c, 3, 6));
    assert(out_of_order(t, 4, 6) == out_of_order(c, 4, 7));
    assert(out_of_order(t, 4, 7) == out_of_order(c, 4, 6));
    assert(out_of_order(t, 5, 6) == out_of_order(c, 5, 7));
    assert(out_of_order(t, 5, 7) == out_of_order(c, 5, 6));
    assert(out_of_order(t, 6, 7) == out_of_order(c, 6, 7));
    assert(out_of_order(t, 6, 8) == out_of_order(c, 7, 8));
    assert(out_of_order(t, 7, 8) == out_of_order(c, 6, 8));
    assert(inversions(t) == inversions(c));
}

#[verifier::spinoff_prover]
#[verifier::rlimit(60)]
proof fn lemma_exchange_parity_7_4(c: Seq<u8>)
    requires
        c.len() == 9,
        c[7] == BLANK,
        c[4] != BLANK,
        c[5] != BLANK,
        c[4] != c[5],
        c[6] != BLANK,
        c[4] != c[6],
    ensures
        tile_parity(exchange(c, 7, 4)) == tile_parity(c),
{
    reveal(inversions);
    let t = exchange(c, 7, 4);
    assert(t[7] == c[4]);
    assert(t[4] == BLANK);
    assert(t[0] == c[0]);
    assert(t[1] == c[1]);
    assert(t[2] == c[2]);
    assert(t[3] == c[3]);
    assert(t[5] == c[5]);
    assert(t[6] == c[6]);
    assert(t[8] == c[8]);
    assert(out_of_order(t, 0, 4) == out_of_order(c, 0, 7));
    assert(out_of_order(t, 0, 7) == out_of_order(c, 0, 4));
    assert(out_of_order(t, 1, 4) == out_of_order(c, 1, 7));
    assert(out_of_order(t, 1, 7) == out_of_order(c, 1, 4));
    assert(out_of_order(t, 2, 4) == out_of_order(c, 2, 7));
    assert(out_of_order(t, 2, 7) == out_of_order(c, 2, 4));
    assert(out_of_order(t, 3, 4) == out_of_order(c, 3, 7));
    assert(out_of_order(t, 3, 7) == out_of_order(c, 3, 4));
    assert(out_of_order(t, 4, 5) == out_of_order(c, 5, 7));
    assert(out_of_order(t, 4, 6) == out_of_order(c, 6, 7));
    assert(out_of_order(t, 4, 7) == out_of_order(c, 4, 7));
    assert(out_of_order(t, 4, 8) == out_of_order(c, 7, 8));
    assert(out_of_order(t, 5, 7) == 1 - out_of_order(c, 4, 5));
    assert(out_of_order(t, 6, 7) == 1 - out_of_order(c, 4, 6));
    assert(out_of_order(t, 7, 8) == out_of_order(c, 4, 8));
    let y = out_of_order(c, 4, 5) + out_of_order(c, 4, 6);
    assert(inversions(t) == inversions(c) + 2 - 2 * y);
    lemma_even_shift(inversions(c), y);
}

#[verifier::spinoff_prover]
#[verifier::rlimit(60)]
proof fn lemma_exchange_parity_7_6(c: Seq<u8>)
    requires
        c.len() == 9,
        c[7] == BLANK,
        c[6] != BLANK,
    ensures
        tile_parity(exchange(c, 7, 6)) == tile_parity(c),
{
    reveal(inversions);
    let t = exchange(c, 7, 6);
    assert(t[7] == c[6]);
    assert(t[6] == BLANK);
    assert(t[0] == c[0]);
    assert(t[1] == c[1]);
    assert(t[2] == c[2]);
    assert(t[3] == c[3]);
    assert(t[4] == c[4]);
    assert(t[5] == c[5]);
    assert(t[8] == c[8]);
    assert(out_of_order(t, 0, 6) == out_of_order(c, 0, 7));
    assert(out_of_order(t, 0, 7) == out_of_order(c, 0, 6));
    assert(out_of_order(t, 1, 6) == out_of_order(c, 1, 7));
    assert(out_of_order(t, 1, 7) == out_of_order(c, 1, 6));
    assert(out_of_order(t, 2, 6) == out_of_order(c, 2, 7));
    assert(out_of_order(t, 2, 7) == out_of_order(c, 2, 6));
    assert(out_of_order(t, 3, 6) == out_of_order(c, 3, 7));
    assert(out_of_order(t, 3, 7) == out_of_order(c, 3, 6));
    assert(out_of_order(t, 4, 6) == out_of_order(c, 4, 7));
    assert(out_of_order(t, 4, 7) == out_of_order(c, 4, 6));
    assert(out_of_order(t, 5, 6) == out_of_order(c, 5, 7));
    assert(out_of_order(t, 5, 7) == out_of_order(c, 5, 6));
    assert(out_of_order(t, 6, 7) == out_of_order(c, 6, 7));
    assert(out_of_order(t, 6, 8) == out_of_order(c, 7, 8));
    assert(out_of_order(t, 7, 8) == out_of_order(c, 6, 8));
    assert(inversions(t) == inversions(c));
}

#[verifier::spinoff_prover]
#[verifier::rlimit(60)]
proof fn lemma_exchange_parity_7_8(c: Seq<u8>)
    requires
        c.len() == 9,
        c[7] == BLANK,
        c[8] != BLANK,
    ensures
        tile_parity(exchange(c, 7, 8)) == tile_parity(c),
{
    reveal(inversions);
    let t = exchange(c, 7, 8);
    assert(t[7] == c[8]);
    assert(t[8] == BLANK);
    assert(t[0] == c[0]);
    assert(t[1] == c[1]);
    assert(t[2] == c[2]);
    assert(t[3] == c[3]);
    assert(t[4] == c[4]);
    assert(t[5] == c[5]);
    assert(t[6] == c[6]);
    assert(out_of_order(t, 0, 7) == out_of_order(c, 0, 8));
    assert(out_of_order(t, 0, 8) == out_of_order(c, 0, 7));
    assert(out_of_order(t, 1, 7) == out_of_order(c, 1, 8));
    assert(out_of_order(t, 1, 8) == out_of_order(c, 1, 7));
    assert(out_of_order(t, 2, 7) == out_of_order(c, 2, 8));
    assert(out_of_order(t, 2, 8) == out_of_order(c, 2, 7));
    assert(out_of_order(t, 3, 7) == out_of_order(c, 3, 8));
    assert(out_of_order(t, 3, 8) == out_of_order(c, 3, 7));
    assert(out_of_order(t, 4, 7) == out_of_order(c, 4, 8));
    assert(out_of_order(t, 4, 8) == out_of_order(c, 4, 7));
    assert(out_of_order(t, 5, 7) == out_of_order(c, 5, 8));
    assert(out_of_order(t, 5, 8) == out_of_order(c, 5, 7));
    assert(out_of_order(t, 6, 7) == out_of_order(c, 6, 8));
    assert(out_of_order(t, 6, 8) == out_of_order(c, 6, 7));
    assert(out_of_order(t, 7, 8) == out_of_order(c, 7, 8));
    assert(inversions(t) == inversions(c));
}

#[verifier::spinoff_prover]
#[verifier::rlimit(60)]
proof fn lemma_exchange_parity_8_5(c: Seq<u8>)
    requires
        c.len() == 9,
        c[8] == BLANK,
        c[5] != BLANK,
        c[6] != BLANK,
        c[5] != c[6],
        c[7] != BLANK,
        c[5] != c[7],
    ensures
        tile_parity(exchange(c, 8, 5)) == tile_parity(c),
{
    reveal(inversions);
    let t = exchange(c, 8, 5);
    assert(t[8] == c[5]);
    assert(t[5] == BLANK);
    assert(t[0] == c[0]);
    assert(t[1] == c[1]);
    assert(t[2] == c[2]);
    assert(t[3] == c[3]);
    assert(t[4] == c[4]);
    assert(t[6] == c[6]);
    assert(t[7] == c[7]);
    assert(out_of_order(t, 0, 5) == out_of_order(c, 0, 8));
    assert(out_of_order(t, 0, 8) == out_of_order(c, 0, 5));
    assert(out_of_order(t, 1, 5) == out_of_order(c, 1, 8));
    assert(out_of_order(t, 1, 8) == out_of_order(c, 1, 5));
    assert(out_of_order(t, 2, 5) == out_of_order(c, 2, 8));
    assert(out_of_order(t, 2, 8) == out_of_order(c, 2, 5));
    assert(out_of_order(t, 3, 5) == out_of_order(c, 3, 8));
    assert(out_of_order(t, 3, 8) == out_of_order(c, 3, 5));
    assert(out_of_order(t, 4, 5) == out_of_order(c, 4, 8));
    assert(out_of_order(t, 4, 8) == out_of_order(c, 4, 5));
    assert(out_of_order(t, 5, 6) == out_of_order(c, 6, 8));
    assert(out_of_order(t, 5, 7) == out_of_order(c, 7, 8));
    assert(out_of_order(t, 5, 8) == out_of_order(c, 5, 8));
    assert(out_of_order(t, 6, 8) == 1 - out_of_order(c, 5, 6));
    assert(out_of_order(t, 7, 8) == 1 - out_of_order(c, 5, 7));
    let y = out_of_order(c, 5, 6) + out_of_order(c, 5, 7);
    assert(inversions(t) == inversions(c) + 2 - 2 * y);
    lemma_even_shift(inversions(c), y);
}

#[verifier::spinoff_prover]
#[verifier::rlimit(60)]
proof fn lemma_exchange_parity_8_7(c: Seq<u8>)
    requires
        c.len() == 9,
        c[8] == BLANK,
        c[7] != BLANK,
    ensures
        tile_parity(exchange(c, 8, 7)) == tile_parity(c),
{
    reveal(inversions);
    let t = exchange(c, 8, 7);
    assert(t[8] == c[7]);
    assert(t[7] == BLANK);
    assert(t[0] == c[0]);
    assert(t[1] == c[1]);
    assert(t[2] == c[2]);
    assert(t[3] == c[3]);
    assert(t[4] == c[4]);
    assert(t[5] == c[5]);
    assert(t[6] == c[6]);
    assert(out_of_order(t, 0, 7) == out_of_order(c, 0, 8));
    assert(out_of_order(t, 0, 8) == out_of_order(c, 0, 7));
    assert(out_of_order(t, 1, 7) == out_of_order(c, 1, 8));
    assert(out_of_order(t, 1, 8) == out_of_order(c, 1, 7));
    assert(out_of_order(t, 2, 7) == out_of_order(c, 2, 8));
    assert(out_of_order(t, 2, 8) == out_of_order(c, 2, 7));
    assert(out_of_order(t, 3, 7) == out_of_order(c, 3, 8));
    assert(out_of_order(t, 3, 8) == out_of_order(c, 3, 7));
    assert(out_of_order(t, 4, 7) == out_of_order(c, 4, 8));
    assert(out_of_order(t, 4, 8) == out_of_order(c, 4, 7));
    assert(out_of_order(t, 5, 7) == out_of_order(c, 5, 8));
    assert(out_of_order(t, 5, 8) == out_of_order(c, 5, 7));
    assert(out_of_order(t, 6, 7) == out_of_order(c, 6, 8));
    assert(out_of_order(t, 6, 8) == out_of_order(c, 6, 7));
    assert(out_of_order(t, 7, 8) == out_of_order(c, 7, 8));
    assert(inversions(t) == inversions(c));
}

proof fn lemma_exchange_parity_from_0(c: Seq<u8>, target: int)
    requires
        valid_cells(c),
        c[0] == BLANK,
        target == 3 || target == 1,
    ensures
        tile_parity(exchange(c, 0, target)) == tile_parity(c),
{
    assert(c[3] != BLANK && c[3] != c[0]);
    if target == 3 {
        lemma_exchange_parity_0_3(c);
    } else if target == 1 {
        lemma_exchange_parity_0_1(c);
    } else {
        lemma_exchange_parity_0_1(c);
    }
}

proof fn lemma_exchange_parity_from_1(c: Seq<u8>, target: int)
    requires
        valid_cells(c),
        c[1] == BLANK,
        target == 4 || target == 0 || target == 2,
    ensures
        tile_parity(exchange(c, 1, target)) == tile_parity(c),
{
    assert(c[4] != BLANK && c[4] != c[1]);
    if target == 4 {
        lemma_exchange_parity_1_4(c);
    } else if target == 0 {
        lemma_exchange_parity_1_0(c);
    } else if target == 2 {
        lemma_exchange_parity_1_2(c);
    } else {
        lemma_exchange_parity_1_2(c);
    }
}

proof fn lemma_exchange_parity_from_2(c: Seq<u8>, target: int)
    requires
        valid_cells(c),
        c[2] == BLANK,
        target == 5 || target == 1,
    ensures
        tile_parity(exchange(c, 2, target)) == tile_parity(c),
{
    assert(c[5] != BLANK && c[5] != c[2]);
    if target == 5 {
        lemma_exchange_parity_2_5(c);
    } else if target == 1 {
        lemma_exchange_parity_2_1(c);
    } else {
        lemma_exchange_parity_2_1(c);
    }
}

proof fn lemma_exchange_parity_from_3(c: Seq<u8>, target: int)
    requires
        valid_cells(c),
        c[3] == BLANK,
        target == 0 || target == 6 || target == 4,
    ensures
        tile_parity(exchange(c, 3, target)) == tile_parity(c),
{
    assert(c[0] != BLANK && c[0] != c[3]);
    if target == 0 {
        lemma_exchange_parity_3_0(c);
    } else if target == 6 {
        lemma_exchange_parity_3_6(c);
    } else if target == 4 {
        lemma_exchange_parity_3_4(c);
    } else {
        lemma_exchange_parity_3_4(c);
    }
}

proof fn lemma_exchange_parity_from_4(c: Seq<u8>, target: int)
    requires
        valid_cells(c),
        c[4] == BLANK,
        target == 1 || target == 7 || target == 3 || target == 5,
    ensures
        tile_parity(exchange(c, 4, target)) == tile_parity(c),
{
    assert(c[1] != BLANK && c[1] != c[4]);
    if target == 1 {
        lemma_exchange_parity_4_1(c);
    } else if target == 7 {
        lemma_exchange_parity_4_7(c);
    } else if target == 3 {
        lemma_exchange_parity_4_3(c);
    } else if target == 5 {
        lemma_exchange_parity_4_5(c);
    } else {
        lemma_exchange_parity_4_5(c);
    }
}

proof fn lemma_exchange_parity_from_5(c: Seq<u8>, target: int)
    requires
        valid_cells(c),
        c[5] == BLANK,
        target == 2 || target == 8 || target == 4,
    ensures
        tile_parity(exchange(c, 5, target)) == tile_parity(c),
{
    assert(c[2] != BLANK && c[2] != c[5]);
    if target == 2 {
        lemma_exchange_parity_5_2(c);
    } else if target == 8 {
        lemma_exchange_parity_5_8(c);
    } else if target == 4 {
        lemma_exchange_parity_5_4(c);
    } else {
        lemma_exchange_parity_5_4(c);
    }
}

proof fn lemma_exchange_parity_from_6(c: Seq<u8>, target: int)
    requires
        valid_cells(c),
        c[6] == BLANK,
        target == 3 || target == 7,
    ensures
        tile_parity(exchange(c, 6, target)) == tile_parity(c),
{
    assert(c[3] != BLANK && c[3] != c[6]);
    if target == 3 {
        lemma_exchange_parity_6_3(c);
    } else if target == 7 {
        lemma_exchange_parity_6_7(c);
    } else {
        lemma_exchange_parity_6_7(c);
    }
}

proof fn lemma_exchange_parity_from_7(c: Seq<u8>, target: int)
    requires
        valid_cells(c),
        c[7] == BLANK,
        target == 4 || target == 6 || target == 8,
    ensures
        tile_parity(exchange(c, 7, target)) == tile_parity(c),
{
    assert(c[4] != BLANK && c[4] != c[7]);
    if target == 4 {
        lemma_exchange_parity_7_4(c);
    } else if target == 6 {
        lemma_exchange_parity_7_6(c);
    } else if target == 8 {
        lemma_exchange_parity_7_8(c);
    } else {
        lemma_exchange_parity_7_8(c);
    }
}

proof fn lemma_exchange_parity_from_8(c: Seq<u8>, target: int)
    requires
        valid_cells(c),
        c[8] == BLANK,
        target == 5 || target == 7,
    ensures
        tile_parity(exchange(c, 8, target)) == tile_parity(c),
{
    assert(c[5] != BLANK && c[5] != c[8]);
    if target == 5 {
        lemma_exchange_parity_8_5(c);
    } else if target == 7 {
        lemma_exchange_parity_8_7(c);
    } else {
        lemma_exchange_parity_8_7(c);
    }
}

/// Exchanging the blank with a cell next to it keeps the parity.
proof fn lemma_exchange_parity(c: Seq<u8>, b: int, target: int)
    requires
        valid_cells(c),
        0 <= b < 9,
        c[b] == BLANK,
        (target == b - 3 && b >= 3) || (target == b + 3 && b < 6) || (target == b - 1 && b % 3 > 0)
            || (target == b + 1 && b % 3 < 2),
    ensures
        tile_parity(exchange(c, b, target)) == tile_parity(c),
{
    if b == 0 {
        lemma_exchange_parity_from_0(c, target);
    } else if b == 1 {
        lemma_exchange_parity_from_1(c, target);
    } else if b == 2 {
        lemma_exchange_parity_from_2(c, target);
    } else if b == 3 {
        lemma_exchange_parity_from_3(c, target);
    } else if b == 4 {
        lemma_exchange_parity_from_4(c, target);
    } else if b == 5 {
        lemma_exchange_parity_from_5(c, target);
    } else if b == 6 {
        lemma_exchange_parity_from_6(c, target);
    } else if b == 7 {
        lemma_exchange_parity_from_7(c, target);
    } else {
        lemma_exchange_parity_from_8(c, target);
    }
}

/// One move keeps the parity.
pub proof fn lemma_move_parity(c: Seq<u8>, t: Seq<u8>)
    requires
        valid_cells(c),
        adjacent(c, t),
    ensures
        tile_parity(t) == tile_parity(c),
        valid_cells(t),
{
    let b = blank_index(c);
    assert(0 <= b < 9 && c[b] == BLANK);
    lemma_blank_at(c, b);
    lemma_neighbors_valid(c);
    let j = choose|j: int| 0 <= j < neighbors(c).len() && #[trigger] neighbors(c)[j] == t;
    assert(valid_cells(neighbors(c)[j]));
    if b >= 3 && t == exchange(c, b, b - 3) {
        lemma_exchange_parity(c, b, b - 3);
    } else if b < 6 && t == exchange(c, b, b + 3) {
        lemma_exchange_parity(c, b, b + 3);
    } else if b % 3 > 0 && t == exchange(c, b, b - 1) {
        lemma_exchange_parity(c, b, b - 1);
    } else {
        lemma_exchange_parity(c, b, b + 1);
    }
}

proof fn lemma_path_parity(p: Seq<Seq<u8>>, i: int)
    requires
        is_move_path(p),
        0 <= i < p.len(),
        valid_cells(p[0]),
    ensures
        valid_cells(p[i]),
        tile_parity(p[i]) == tile_parity(p[0]),
    decreases i,
{
    if i > 0 {
        lemma_path_parity(p, i - 1);
        lemma_move_parity(p[i - 1], p[i]);
    }
}

/// Grids of different parity cannot be reached from one another.
pub proof fn lemma_parity_separates(a: Seq<u8>, b: Seq<u8>)
    requires
        valid_cells(a),
        tile_parity(a) != tile_parity(b),
    ensures
        !reachable(a, b),
{
    if reachable(a, b) {
        let p = choose|p: Seq<Seq<u8>>| #[trigger] is_move_path(p) && p[0] == a && p.last() == b;
        lemma_path_parity(p, p.len() - 1);
    }
}

} // verus!
