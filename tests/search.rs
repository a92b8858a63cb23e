use eight_puzzle::a_star::search;
use eight_puzzle::heuristics::num_misplaced_tiles;
use eight_puzzle::state::{immediate_neighbours, State, BLANK};

fn is_move_sequence(states: &[&State]) -> bool {
    states
        .windows(2)
        .all(|w| immediate_neighbours(w[0]).iter().any(|n| n == w[1]))
}

#[test]
fn trivial_paths_are_found() {
    let h = |_: &State, _: &State| 1;
    let s = State::new([
        [1, 2, BLANK],
        [4, 8, 5],
        [3, 6, 7],
    ])
    .unwrap();
    assert!(search(&s, &s, &h).is_some());
}

#[test]
fn one_move_away_paths_are_found() {
    let goal = State::new([
        [1, 2, 3],
        [4, BLANK, 5],
        [6, 7, 8],
    ])
    .unwrap();
    let state = State::new([
        [1, 2, 3],
        [4, 5, BLANK],
        [6, 7, 8],
    ])
    .unwrap();

    assert!(search(&state, &goal, &num_misplaced_tiles).is_some());
}

#[test]
fn two_moves_away_paths_are_found() {
    let goal = State::new([
        [1, 2, 3],
        [4, BLANK, 5],
        [6, 7, 8],
    ])
    .unwrap();
    let state = State::new([
        [1, 2, BLANK],
        [4, 5, 3],
        [6, 7, 8],
    ])
    .unwrap();

    assert!(search(&state, &goal, &num_misplaced_tiles).is_some());
}

#[test]
fn long_paths_are_found() {
    let goal = State::new([
        [1, 2, 3],
        [4, BLANK, 5],
        [6, 7, 8],
    ])
    .unwrap();
    let state = State::new([
        [8, 5, BLANK],
        [6, 2, 4],
        [3, 7, 1],
    ])
    .unwrap();

    assert!(search(&state, &goal, &num_misplaced_tiles).is_some());
}

#[test]
fn search_on_a_no_solution_case_returns_none() {
    let goal = State::new([
        [1, 2, 3],
        [4, 5, 6],
        [7, 8, BLANK],
    ])
    .unwrap();

    let state = State::new([
        [8, 1, 2],
        [BLANK, 4, 3],
        [7, 6, 5],
    ])
    .unwrap();

    assert!(search(&state, &goal, &num_misplaced_tiles).is_none());
}

#[test]
fn searching_from_the_goal_gives_the_goal_alone() {
    let h = |_: &State, _: &State| 1;
    let s = State::new([
        [1, 2, BLANK],
        [4, 8, 5],
        [3, 6, 7],
    ])
    .unwrap();
    let path = search(&s, &s, &h).unwrap();
    let states = path.to_vec_states();
    assert_eq!(states.len(), 1);
    assert!(*states[0] == s);
}

#[test]
fn one_swap_from_the_goal_gives_two_states() {
    let goal = State::new([
        [1, 2, 3],
        [4, BLANK, 5],
        [6, 7, 8],
    ])
    .unwrap();
    let start = State::new([
        [1, 2, 3],
        [4, 5, BLANK],
        [6, 7, 8],
    ])
    .unwrap();
    let path = search(&start, &goal, &num_misplaced_tiles).unwrap();
    let states = path.to_vec_states();
    assert_eq!(states.len(), 2);
    assert!(*states[0] == start);
    assert!(*states[1] == goal);
}

#[test]
fn two_moves_give_three_states() {
    let goal = State::new([
        [1, 2, 3],
        [4, BLANK, 5],
        [6, 7, 8],
    ])
    .unwrap();
    let start = State::new([
        [1, 2, BLANK],
        [4, 5, 3],
        [6, 7, 8],
    ])
    .unwrap();
    let path = search(&start, &goal, &num_misplaced_tiles).unwrap();
    let states = path.to_vec_states();
    assert_eq!(states.len(), 3);
    assert!(*states[0] == start);
    assert!(*states[2] == goal);
    assert!(is_move_sequence(&states));
}

#[test]
fn long_paths_are_move_sequences_with_costs_counting_moves() {
    let goal = State::new([
        [1, 2, 3],
        [4, BLANK, 5],
        [6, 7, 8],
    ])
    .unwrap();
    let start = State::new([
        [8, 5, BLANK],
        [6, 2, 4],
        [3, 7, 1],
    ])
    .unwrap();
    let path = search(&start, &goal, &num_misplaced_tiles).unwrap();
    let states = path.to_vec_states();
    assert!(*states[0] == start);
    assert!(**states.last().unwrap() == goal);
    assert!(is_move_sequence(&states));
    let nodes = path.to_vec_nodes();
    for (i, n) in nodes.iter().enumerate() {
        assert_eq!(n.g, i as u64);
    }
}

#[test]
fn a_zero_estimate_finds_a_shortest_path() {
    let h = |_: &State, _: &State| 0;
    let goal = State::new([
        [1, 2, 3],
        [4, 5, 6],
        [7, 8, BLANK],
    ])
    .unwrap();
    let start = goal
        .move_up()
        .unwrap()
        .move_left()
        .unwrap()
        .move_up()
        .unwrap()
        .move_right()
        .unwrap();
    let path = search(&start, &goal, &h).unwrap();
    assert_eq!(path.to_vec_states().len(), 5);
}

#[test]
fn swapped_tiles_cannot_be_solved() {
    let goal = State::new([
        [1, 2, 3],
        [4, 5, 6],
        [7, 8, BLANK],
    ])
    .unwrap();
    let start = State::new([
        [2, 1, 3],
        [4, 5, 6],
        [7, 8, BLANK],
    ])
    .unwrap();
    assert!(search(&start, &goal, &num_misplaced_tiles).is_none());
}
