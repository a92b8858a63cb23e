use eight_puzzle::heuristics::num_misplaced_tiles;
use eight_puzzle::state::{State, BLANK};

#[test]
fn num_misplaced_tiles_is_correct() {
    let goal = State::new([
        [1, 2, 3],
        [4, BLANK, 5],
        [6, 7, 8],
    ])
    .unwrap();
    let state = State::new([
        [1, 2, BLANK],
        [4, 8, 5],
        [3, 6, 7],
    ])
    .unwrap();

    assert!(num_misplaced_tiles(&goal, &goal) == 0);
    assert!(num_misplaced_tiles(&state, &goal) == 5);
}

#[test]
fn num_misplaced_tiles_counts_the_blank_too() {
    let goal = State::new([
        [1, 2, 3],
        [4, 5, 6],
        [7, 8, BLANK],
    ])
    .unwrap();
    let state = goal.move_left().unwrap();
    assert_eq!(num_misplaced_tiles(&state, &goal), 2);
}
