use flatten_adaptor::{custom_flatten, Flatten, IteratorExt, Ranges, Unbounded};
use std::collections::VecDeque;

#[test]
fn empty() {
    assert_eq!(custom_flatten(Vec::<Vec<()>>::new()).count(), 0)
}

#[test]
fn empty_wide() {
    assert_eq!(custom_flatten(vec![Vec::<()>::new(), vec![], vec![]]).count(), 0)
}

#[test]
fn one() {
    assert_eq!(custom_flatten(vec![vec!["a"]]).count(), 1)
}

#[test]
fn two() {
    assert_eq!(custom_flatten(vec![vec!["a", "b"]]).count(), 2)
}

#[test]
fn two_wide() {
    assert_eq!(custom_flatten(vec![vec!["a"], vec!["b"]]).count(), 2)
}

#[test]
fn reverse() {
    assert_eq!(custom_flatten(vec![vec!["a", "b"]]).collect_rev(), vec!["b", "a"])
}

#[test]
fn reverse_wide() {
    assert_eq!(custom_flatten(vec![vec!["a"], vec!["b"]]).collect_rev(), vec!["b", "a"])
}

#[test]
fn both_ends() {
    let mut iter = custom_flatten(vec![vec!["a1", "a2", "a3"], vec!["b1", "b2", "b3"]]);
    assert_eq!(iter.next(), Some("a1"));
    assert_eq!(iter.next_back(), Some("b3"));
    assert_eq!(iter.next(), Some("a2"));
    assert_eq!(iter.next_back(), Some("b2"));
    assert_eq!(iter.next(), Some("a3"));
    assert_eq!(iter.next_back(), Some("b1"));
    assert_eq!(iter.next(), None);
    assert_eq!(iter.next_back(), None);
}

#[test]
fn inf() {
    let mut iter = Unbounded::new(Ranges);
    assert_eq!(iter.next(), Some(0));
    assert_eq!(iter.next(), Some(0));
    assert_eq!(iter.next(), Some(1));
    assert_eq!(iter.next(), Some(0));
    assert_eq!(iter.next(), Some(1));
    assert_eq!(iter.next(), Some(2));
    // can go on, it's infinite
}

#[test]
fn inf_many_pulls() {
    let mut iter = Unbounded::new(Ranges);
    let mut expected = Vec::new();
    let mut i: u64 = 0;
    while expected.len() < 5000 {
        expected.extend(0..i);
        i += 1;
    }
    for want in expected.iter().take(5000) {
        assert_eq!(iter.next(), Some(*want));
    }
}

#[test]
fn first_outer_elements_of_inf() {
    // The first outer elements of the unbounded outer sequence in which
    // element i holds 0..i; the pulls below never reach past them.
    let outer: Vec<Vec<u64>> = (0..64u64).map(|i| (0..i).collect()).collect();
    let mut iter = custom_flatten(outer);
    assert_eq!(iter.next(), Some(0));
    assert_eq!(iter.next(), Some(0));
    assert_eq!(iter.next(), Some(1));
    assert_eq!(iter.next(), Some(0));
    assert_eq!(iter.next(), Some(1));
    assert_eq!(iter.next(), Some(2));
    // can go on
}

#[test]
fn ext() {
    assert_eq!(vec![vec![0, 1]].custom_flatten().count(), 2);
}

#[test]
fn forward_drain_keeps_order() {
    let it = custom_flatten(vec![vec![1, 2], vec![], vec![3], vec![4, 5, 6]]);
    assert_eq!(it.collect(), vec![1, 2, 3, 4, 5, 6]);
}

#[test]
fn backward_drain_is_reversed() {
    let it = custom_flatten(vec![vec![1, 2], vec![], vec![3], vec![4, 5, 6]]);
    assert_eq!(it.collect_rev(), vec![6, 5, 4, 3, 2, 1]);
}

#[test]
fn empty_inners_from_the_back() {
    let mut it = custom_flatten(vec![Vec::<u8>::new(), vec![], vec![], vec![]]);
    assert_eq!(it.next_back(), None);
    assert_eq!(it.next(), None);
}

#[test]
fn converge_inside_one_inner() {
    let mut it = custom_flatten(vec![vec![1, 2, 3, 4, 5]]);
    assert_eq!(it.next_back(), Some(5));
    assert_eq!(it.next(), Some(1));
    assert_eq!(it.next(), Some(2));
    assert_eq!(it.next_back(), Some(4));
    assert_eq!(it.next(), Some(3));
    assert_eq!(it.next(), None);
    assert_eq!(it.next_back(), None);
}

#[test]
fn front_takes_over_back_cursor() {
    let mut it = custom_flatten(vec![vec!["x"], vec!["a", "b", "c"]]);
    assert_eq!(it.next_back(), Some("c"));
    assert_eq!(it.next(), Some("x"));
    assert_eq!(it.next(), Some("a"));
    assert_eq!(it.next(), Some("b"));
    assert_eq!(it.next(), None);
    assert_eq!(it.next_back(), None);
}

#[test]
fn back_takes_over_front_cursor() {
    let mut it = custom_flatten(vec![vec![1, 2, 3], vec![], vec![4]]);
    assert_eq!(it.next(), Some(1));
    assert_eq!(it.next_back(), Some(4));
    assert_eq!(it.next_back(), Some(3));
    assert_eq!(it.next_back(), Some(2));
    assert_eq!(it.next_back(), None);
    assert_eq!(it.next(), None);
}

#[test]
fn interleaved_front_and_back_lists() {
    let all = vec![vec![1, 2, 3], vec![], vec![4, 5], vec![6], vec![7, 8, 9, 10]];
    let pattern = [false, true, true, false, false, true, false, true, true, false, true, false];
    let mut it = custom_flatten(all);
    let mut fronts = Vec::new();
    let mut backs = Vec::new();
    for from_back in pattern {
        if from_back {
            if let Some(x) = it.next_back() {
                backs.push(x);
            }
        } else if let Some(x) = it.next() {
            fronts.push(x);
        }
    }
    assert_eq!(fronts, vec![1, 2, 3, 4, 5]);
    assert_eq!(backs, vec![10, 9, 8, 7, 6]);
    backs.reverse();
    fronts.extend(backs);
    assert_eq!(fronts, (1..=10).collect::<Vec<i32>>());
}

#[test]
fn new_from_deque() {
    let outer: VecDeque<Vec<char>> = VecDeque::from(vec![vec!['p'], vec!['q', 'r']]);
    let mut it = Flatten::new(outer);
    assert_eq!(it.next_back(), Some('r'));
    assert_eq!(it.collect(), vec!['p', 'q']);
}

#[test]
fn ext_on_deque() {
    let outer: VecDeque<Vec<i32>> = VecDeque::from(vec![vec![], vec![7, 8]]);
    assert_eq!(outer.custom_flatten().collect_rev(), vec![8, 7]);
}
