use drills::collatz::{collatz_iterative, collatz_recursive};

const COLLATZ_ANSWERS: [usize; 10] = [0, 1, 7, 2, 5, 8, 16, 3, 19, 6];

#[test]
fn collatz_recursive_test() {
    for (n, answer) in COLLATZ_ANSWERS
        .into_iter()
        .enumerate()
        .map(|(i, a)| (i + 1, a))
    {
        assert_eq!(collatz_recursive(n), answer, "n = {}", n);
    }
}

#[test]
fn collatz_iterative_test() {
    for (n, answer) in COLLATZ_ANSWERS
        .into_iter()
        .enumerate()
        .map(|(i, a)| (i + 1, a))
    {
        assert_eq!(collatz_iterative(n), answer, "n = {}", n);
    }
}

#[test]
fn seed_one_takes_no_steps() {
    assert_eq!(collatz_recursive(1), 0);
    assert_eq!(collatz_iterative(1), 0);
}

#[test]
fn counters_agree_on_many_seeds() {
    for n in 1..2000usize {
        assert_eq!(collatz_recursive(n), collatz_iterative(n), "n = {}", n);
    }
}

#[test]
fn long_trajectory_from_twenty_seven() {
    assert_eq!(collatz_recursive(27), 111);
    assert_eq!(collatz_iterative(27), 111);
}

#[test]
fn power_of_two_halves_down() {
    assert_eq!(collatz_iterative(1024), 10);
    assert_eq!(collatz_recursive(1024), 10);
}
