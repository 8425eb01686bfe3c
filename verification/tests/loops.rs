use lup::{All, Any, Lup, Max, Min, Prod, Sift, Sum, Vector};

#[test]
fn list() {
    type Num = i64;
    let list = vec![vec![vec![1, 2, 3]]];

    let sum = {
        let mut outer: Sum<Num> = Lup::start();
        for i in 0..list.len() {
            let mut mid: Sum<Num> = Lup::start();
            for j in 0..list[i].len() {
                let mut inner: Sum<Num> = Lup::start();
                for k in 0..list[i][j].len() {
                    if !inner.it(k, list[i][j][k]) {
                        break;
                    }
                }
                if !mid.it(j, inner.unwrap()) {
                    break;
                }
            }
            if !outer.it(i, mid.unwrap()) {
                break;
            }
        }
        outer.unwrap()
    };
    assert_eq!(sum, 6);

    let prod = {
        let mut outer: Prod<Num> = Lup::start();
        for i in 0..list.len() {
            let mut mid: Prod<Num> = Lup::start();
            for j in 0..list[i].len() {
                let mut inner: Prod<Num> = Lup::start();
                for k in 0..list[i][j].len() {
                    if !inner.it(k, list[i][j][k]) {
                        break;
                    }
                }
                if !mid.it(j, inner.unwrap()) {
                    break;
                }
            }
            if !outer.it(i, mid.unwrap()) {
                break;
            }
        }
        outer.unwrap()
    };
    assert_eq!(prod, 6);

    let any = {
        let mut acc: Any<usize> = Lup::start();
        for i in 0..list[0][0].len() {
            if !acc.it(i, list[0][0][i] > 2) {
                break;
            }
        }
        acc.unwrap()
    };
    assert_eq!(any.evidence, Some(2));

    let any = {
        let mut outer: Any<(usize, usize, usize)> = Lup::start();
        for i in 0..list.len() {
            let mut mid: Any<(usize, usize)> = Lup::start();
            for j in 0..list[i].len() {
                let mut inner: Any<usize> = Lup::start();
                for k in 0..list[i][j].len() {
                    if !inner.it(k, list[i][j][k] > 2) {
                        break;
                    }
                }
                if !mid.it(j, inner.unwrap()) {
                    break;
                }
            }
            if !outer.it(i, mid.unwrap()) {
                break;
            }
        }
        outer.unwrap()
    };
    assert_eq!(any.evidence, Some((0, 0, 2)));

    let all = {
        let mut outer: All<(usize, usize, usize)> = Lup::start();
        for i in 0..list.len() {
            let mut mid: All<(usize, usize)> = Lup::start();
            for j in 0..list[i].len() {
                let mut inner: All<usize> = Lup::start();
                for k in 0..list[i][j].len() {
                    if !inner.it(k, list[i][j][k] < 3) {
                        break;
                    }
                }
                if !mid.it(j, inner.unwrap()) {
                    break;
                }
            }
            if !outer.it(i, mid.unwrap()) {
                break;
            }
        }
        outer.unwrap()
    };
    assert_eq!(all.evidence, Some((0, 0, 2)));

    // Find a list where not all items are less than 3.
    let comb = {
        let mut outer: Any<(usize, usize, usize)> = Lup::start();
        for i in 0..list.len() {
            let mut mid: Any<(usize, usize)> = Lup::start();
            for j in 0..list[i].len() {
                let mut inner: All<usize> = Lup::start();
                for k in 0..list[i][j].len() {
                    if !inner.it(k, list[i][j][k] < 3) {
                        break;
                    }
                }
                if !mid.it(j, inner.unwrap().not()) {
                    break;
                }
            }
            if !outer.it(i, mid.unwrap()) {
                break;
            }
        }
        outer.unwrap()
    };
    assert_eq!(comb.value, true);
    assert_eq!(comb.evidence, Some((0, 0, 2)));

    let max = {
        let mut outer: Max<(usize, usize, usize), Num> = Lup::start();
        for i in 0..list.len() {
            let mut mid: Max<(usize, usize), Num> = Lup::start();
            for j in 0..list[i].len() {
                let mut inner: Max<usize, Num> = Lup::start();
                for k in 0..list[i][j].len() {
                    if !inner.it(k, list[i][j][k]) {
                        break;
                    }
                }
                if !mid.it(j, inner.unwrap()) {
                    break;
                }
            }
            if !outer.it(i, mid.unwrap()) {
                break;
            }
        }
        outer.unwrap()
    };
    assert_eq!(max.value, 3);
    assert_eq!(max.evidence, Some((0, 0, 2)));

    let min = {
        let mut outer: Min<(usize, usize, usize), Num> = Lup::start();
        for i in 0..list.len() {
            let mut mid: Min<(usize, usize), Num> = Lup::start();
            for j in 0..list[i].len() {
                let mut inner: Min<usize, Num> = Lup::start();
                for k in 0..list[i][j].len() {
                    if !inner.it(k, list[i][j][k]) {
                        break;
                    }
                }
                if !mid.it(j, inner.unwrap()) {
                    break;
                }
            }
            if !outer.it(i, mid.unwrap()) {
                break;
            }
        }
        outer.unwrap()
    };
    assert_eq!(min.value, 1);
    assert_eq!(min.evidence, Some((0, 0, 0)));

    // Find a list which maximum value is equal to 3.
    let comb = {
        let mut outer: Any<(usize, usize, usize)> = Lup::start();
        for i in 0..list.len() {
            let mut mid: Any<(usize, usize)> = Lup::start();
            for j in 0..list[i].len() {
                let mut inner: Max<usize, Num> = Lup::start();
                for k in 0..list[i][j].len() {
                    if !inner.it(k, list[i][j][k]) {
                        break;
                    }
                }
                if !mid.it(j, inner.unwrap().eq(&3)) {
                    break;
                }
            }
            if !outer.it(i, mid.unwrap()) {
                break;
            }
        }
        outer.unwrap()
    };
    assert_eq!(comb.value, true);
    assert_eq!(comb.evidence, Some((0, 0, 2)));
}

#[test]
fn vector() {
    let list = vec![[2i64, 3, 4], [1i64, 5, 7]];

    let sum = {
        let mut acc: Sum<[i64; 3]> = Lup::start();
        for i in 0..list.len() {
            if !acc.it(i, list[i]) {
                break;
            }
        }
        acc.unwrap()
    };
    assert_eq!(sum, [3, 8, 11]);

    let prod = {
        let mut acc: Prod<[i64; 3]> = Lup::start();
        for i in 0..list.len() {
            if !acc.it(i, list[i]) {
                break;
            }
        }
        acc.unwrap()
    };
    assert_eq!(prod, [2, 15, 28]);

    let v = {
        let mut acc: Vector<[i64; 4]> = Lup::start();
        for i in 0..3 {
            if !acc.it(i, list[0][i] + list[1][i]) {
                break;
            }
        }
        acc.unwrap()
    };
    assert_eq!(v, [3, 8, 11, 0]);
}

#[test]
fn sift() {
    let list = {
        let mut acc: Sift<Vec<i64>> = Lup::start();
        for i in 0..5 {
            if !acc.it(i, i as i64 + 1) {
                break;
            }
        }
        acc.unwrap()
    };
    assert_eq!(list, vec![1, 2, 3, 4, 5]);

    let list = {
        let mut outer: Sift<Vec<Vec<i64>>> = Lup::start();
        for i in 0..3 {
            let mut inner: Sift<Vec<i64>> = Lup::start();
            for j in 0..3 {
                if !inner.it(j, i as i64 + j as i64) {
                    break;
                }
            }
            if !outer.it(i, inner.unwrap()) {
                break;
            }
        }
        outer.unwrap()
    };
    assert_eq!(
        list,
        vec![vec![0, 1, 2], vec![1, 2, 3], vec![2, 3, 4]],
    );

    let symmetric = {
        let mut outer: All<(usize, usize)> = Lup::start();
        for i in 0..3 {
            let mut inner: All<usize> = Lup::start();
            for j in 0..3 {
                if !inner.it(j, list[i][j] == list[j][i]) {
                    break;
                }
            }
            if !outer.it(i, inner.unwrap()) {
                break;
            }
        }
        outer.unwrap()
    };
    assert_eq!(symmetric.value, true);
}

#[test]
fn short() {
    let list = {
        let mut l0: Sift<Vec<Vec<Vec<i64>>>> = Lup::start();
        for i in 0..3 {
            let mut l1: Sift<Vec<Vec<i64>>> = Lup::start();
            for j in 0..3 {
                let mut l2: Sift<Vec<i64>> = Lup::start();
                for k in 0..3 {
                    if !l2.it(k, i as i64 + j as i64 + k as i64) {
                        break;
                    }
                }
                if !l1.it(j, l2.unwrap()) {
                    break;
                }
            }
            if !l0.it(i, l1.unwrap()) {
                break;
            }
        }
        l0.unwrap()
    };
    let a = {
        let mut outer: Sum<i64> = Lup::start();
        for i in 0..list.len() {
            let mut mid: Sum<i64> = Lup::start();
            for j in 0..list[i].len() {
                let mut inner: Sum<i64> = Lup::start();
                for k in 0..list[i][j].len() {
                    if !inner.it(k, list[i][j][k]) {
                        break;
                    }
                }
                if !mid.it(j, inner.unwrap()) {
                    break;
                }
            }
            if !outer.it(i, mid.unwrap()) {
                break;
            }
        }
        outer.unwrap()
    };
    assert_eq!(a, 81);
}
