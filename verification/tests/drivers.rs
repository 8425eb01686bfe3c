use lup::all::all_list;
use lup::all::all_table;
use lup::any::any_list;
use lup::any::any_table;
use lup::max::max_list;
use lup::max::max_table;
use lup::min::min_list;
use lup::min::min_table;
use lup::prod::prod_list;
use lup::prod::prod_table;
use lup::sum::sum_list;
use lup::sum::sum_table;
use lup::{Any, For, Lup, Max, Prod, Secret, Sum, Vector};

#[test]
fn sum_of_list() {
    assert_eq!(sum_list(&vec![1, 2, 3]), 6);
    assert_eq!(sum_list(&vec![-5, 5, 7]), 7);
    assert_eq!(sum_list(&vec![]), 0);
}

#[test]
fn prod_of_list() {
    assert_eq!(prod_list(&vec![2, 3, 4]), 24);
    assert_eq!(prod_list(&vec![2, -3]), -6);
    assert_eq!(prod_list(&vec![]), 1);
}

#[test]
fn any_of_list() {
    let r = any_list(&vec![false, true, true]);
    assert_eq!(r.value, true);
    assert_eq!(r.evidence, Some(1));

    let r = any_list(&vec![false, false]);
    assert_eq!(r.value, false);
    assert_eq!(r.evidence, None);

    let r = any_list(&vec![]);
    assert_eq!(r.value, false);
    assert_eq!(r.evidence, None);
}

#[test]
fn all_of_list() {
    let r = all_list(&vec![true, true]);
    assert_eq!(r.value, true);
    assert_eq!(r.evidence, None);

    let r = all_list(&vec![true, false, false]);
    assert_eq!(r.value, false);
    assert_eq!(r.evidence, Some(1));

    // Vacuous truth on an empty input.
    let r = all_list(&vec![]);
    assert_eq!(r.value, true);
    assert_eq!(r.evidence, None);
}

#[test]
fn max_of_list() {
    let r = max_list(&vec![3, 9, 2, 9]);
    assert_eq!(r.value, 9);
    assert_eq!(r.evidence, Some(1));

    let r = max_list(&vec![]);
    assert_eq!(r.evidence, None);
}

#[test]
fn min_of_list() {
    let r = min_list(&vec![3, 1, 2, 1]);
    assert_eq!(r.value, 1);
    assert_eq!(r.evidence, Some(1));

    let r = min_list(&vec![]);
    assert_eq!(r.evidence, None);
}

#[test]
fn any_of_table() {
    let r = any_table(&vec![vec![false, false], vec![], vec![false, true]]);
    assert_eq!(r.value, true);
    assert_eq!(r.evidence, Some((2, 1)));

    let r = any_table(&vec![vec![false], vec![false, false]]);
    assert_eq!(r.value, false);
    assert_eq!(r.evidence, None);
}

#[test]
fn all_of_table() {
    let r = all_table(&vec![vec![true], vec![true, false, false]]);
    assert_eq!(r.value, false);
    assert_eq!(r.evidence, Some((1, 1)));

    let r = all_table(&vec![vec![true], vec![], vec![true, true]]);
    assert_eq!(r.value, true);
    assert_eq!(r.evidence, None);
}

#[test]
fn max_of_table() {
    let r = max_table(&vec![vec![], vec![5, 7], vec![7]]);
    assert_eq!(r.value, 7);
    assert_eq!(r.evidence, Some((1, 1)));

    let r = max_table(&vec![vec![], vec![]]);
    assert_eq!(r.evidence, None);
}

#[test]
fn min_of_table() {
    let r = min_table(&vec![vec![], vec![5, 2], vec![2]]);
    assert_eq!(r.value, 2);
    assert_eq!(r.evidence, Some((1, 1)));

    let r = min_table(&vec![vec![], vec![]]);
    assert_eq!(r.evidence, None);
}

#[test]
fn rows_with_small_maximum() {
    let data = vec![vec![1i64, 2, 6, 4, 5, 3], vec![4i64, 6, 9, 3, 2, 1]];

    // Find out whether any list has a maximum value less than or equal to 7.
    let search = {
        let mut outer: Any<(usize, usize)> = Lup::start();
        for i in 0..data.len() {
            if !outer.it(i, max_list(&data[i]).le(&7)) {
                break;
            }
        }
        outer.unwrap()
    };
    assert_eq!(search.value, true);
    assert_eq!(search.evidence, Some((0, 2)));
    let ev = search.evidence.unwrap();
    assert_eq!(data[ev.0][ev.1], 6);
}

#[test]
fn find_word() {
    let words = vec!["mary", "had", "a", "little", "lamb"];

    // Find the word "lamb".
    let lamb = {
        let mut acc: Any<usize> = Lup::start();
        for i in 0..words.len() {
            if !acc.it(i, words[i] == "lamb") {
                break;
            }
        }
        acc.unwrap()
    };
    assert_eq!(lamb.value, true);
    assert_eq!(lamb.evidence, Some(4));
    assert_eq!(words[lamb.evidence.unwrap()], "lamb");
}

#[test]
fn max_of_pair_components() {
    let data = vec![(1i64, 1i64), (2, 2), (3, 4), (4, 4)];

    let a = {
        let mut acc: Max<usize, i64> = Lup::start();
        for i in 0..data.len() {
            if !acc.it(i, data[i].0) {
                break;
            }
        }
        acc.unwrap()
    };
    let b = {
        let mut acc: Max<usize, i64> = Lup::start();
        for i in 0..data.len() {
            if !acc.it(i, data[i].1) {
                break;
            }
        }
        acc.unwrap()
    };
    assert_eq!(a.value, 4);
    assert_eq!(b.value, 4);
    // The evidence points to the first index attaining the maximum.
    assert_eq!(a.evidence, Some(3));
    assert_eq!(b.evidence, Some(2));
}

#[test]
fn rerun_is_identical() {
    let v = vec![4i64, 9, 1, 9, -3];
    let r1 = max_list(&v);
    let r2 = max_list(&v);
    assert_eq!(r1.value, r2.value);
    assert_eq!(r1.evidence, r2.evidence);

    let w = vec![false, true, false];
    let s1 = any_list(&w);
    let s2 = any_list(&w);
    assert_eq!(s1.value, s2.value);
    assert_eq!(s1.evidence, s2.evidence);
}

#[test]
fn secret_comparisons() {
    let s = Secret { evidence: Some(3usize), value: 5i64 };
    let r = s.lt(&7);
    assert_eq!(r.value, true);
    assert_eq!(r.evidence, Some(3));
    assert_eq!(s.le(&5).value, true);
    assert_eq!(s.gt(&5).value, false);
    assert_eq!(s.ge(&5).value, true);
    assert_eq!(s.eq(&5).value, true);
    assert_eq!(s.ne(&5).value, false);
    assert_eq!(s.neg().value, -5);
    assert_eq!(s.neg().evidence, Some(3));
    assert_eq!(s.eq(&5).not().value, false);
    assert_eq!(s.with_value("six").value, "six");
    assert_eq!(s.with_value("six").evidence, Some(3));
}

#[test]
fn sum_of_table() {
    assert_eq!(sum_table(&vec![vec![1, 2, 3], vec![], vec![10]]), 16);
    assert_eq!(sum_table(&vec![]), 0);
}

#[test]
fn prod_of_table() {
    assert_eq!(prod_table(&vec![vec![2, 3], vec![], vec![4]]), 24);
    assert_eq!(prod_table(&vec![]), 1);
}

#[test]
fn wide_accumulators() {
    let pairs = vec![[1i64, 10], [2i64, 20]];
    let quads = vec![[1i64, 2, 3, 4], [10i64, 20, 30, 40]];

    let s2 = {
        let mut acc: Sum<[i64; 2]> = Lup::start();
        for i in 0..pairs.len() {
            if !acc.it(i, pairs[i]) {
                break;
            }
        }
        acc.unwrap()
    };
    assert_eq!(s2, [3, 30]);

    let p4 = {
        let mut acc: Prod<[i64; 4]> = Lup::start();
        for i in 0..quads.len() {
            if !acc.it(i, quads[i]) {
                break;
            }
        }
        acc.unwrap()
    };
    assert_eq!(p4, [10, 40, 90, 160]);

    let p2 = {
        let mut acc: Prod<[i64; 2]> = Lup::start();
        for i in 0..pairs.len() {
            if !acc.it(i, pairs[i]) {
                break;
            }
        }
        acc.unwrap()
    };
    assert_eq!(p2, [2, 200]);

    let s4 = {
        let mut acc: Sum<[i64; 4]> = Lup::start();
        for i in 0..quads.len() {
            if !acc.it(i, quads[i]) {
                break;
            }
        }
        acc.unwrap()
    };
    assert_eq!(s4, [11, 22, 33, 44]);

    let v2 = {
        let mut acc: Vector<[i64; 2]> = Lup::start();
        for i in 0..2 {
            if !acc.it(i, pairs[i][0]) {
                break;
            }
        }
        acc.unwrap()
    };
    assert_eq!(v2, [1, 2]);

    let v3 = {
        let mut acc: Vector<[i64; 3]> = Lup::start();
        for i in 0..2 {
            if !acc.it(i, quads[i][1]) {
                break;
            }
        }
        acc.unwrap()
    };
    assert_eq!(v3, [2, 20, 0]);
}

#[test]
fn for_loop_runs() {
    let mut acc: For = Lup::start();
    for i in 0..3 {
        if !acc.it(i, ()) {
            break;
        }
    }
    acc.unwrap();
}

#[test]
fn table_matches_flattened() {
    let grid = vec![vec![3i64, 9], vec![], vec![2, 9, 1]];
    let flat: Vec<i64> = grid.iter().flatten().copied().collect();

    let rt = max_table(&grid);
    let rf = max_list(&flat);
    assert_eq!(rt.value, rf.value);
    assert_eq!(rt.evidence, Some((0, 1)));
    assert_eq!(rf.evidence, Some(1));

    let rt = min_table(&grid);
    let rf = min_list(&flat);
    assert_eq!(rt.value, rf.value);
    assert_eq!(rt.evidence, Some((2, 2)));
    assert_eq!(rf.evidence, Some(4));

    let cond: Vec<Vec<bool>> = grid.iter().map(|row| row.iter().map(|x| *x > 8).collect()).collect();
    let flat_cond: Vec<bool> = cond.iter().flatten().copied().collect();

    let rt = any_table(&cond);
    let rf = any_list(&flat_cond);
    assert_eq!(rt.value, rf.value);
    assert_eq!(rt.evidence, Some((0, 1)));
    assert_eq!(rf.evidence, Some(1));

    let rt = all_table(&cond);
    let rf = all_list(&flat_cond);
    assert_eq!(rt.value, rf.value);
    assert_eq!(rt.evidence, Some((0, 0)));
    assert_eq!(rf.evidence, Some(0));

    assert_eq!(sum_table(&grid), sum_list(&flat));
    assert_eq!(prod_table(&grid), prod_list(&flat));
}
