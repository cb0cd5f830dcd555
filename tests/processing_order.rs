use bimgo::processing_order::{Closest2D, VFirst2D};

fn all_cells(mut it: VFirst2D) -> Vec<(usize, usize)> {
    let mut v = Vec::new();
    while let Some(cell) = it.next() {
        v.push(cell);
    }
    v
}

fn all_closest(mut it: Closest2D) -> Vec<(usize, usize)> {
    let mut v = Vec::new();
    while let Some(cell) = it.next() {
        v.push(cell);
    }
    v
}

#[test]
fn vfirst2d_case_1() {
    let v: Vec<(usize, usize)> = all_cells(VFirst2D::new(0, 0, 3, 0, 0, 2));
    let truth: Vec<(usize, usize)> = vec![
        (0, 0),
        (0, 1),
        (0, 2),
        (1, 0),
        (1, 1),
        (1, 2),
        (2, 0),
        (2, 1),
        (2, 2),
        (3, 0),
        (3, 1),
        (3, 2),
    ];
    println!("{:?}", truth);
    println!("{:?}", v);
    assert_eq!(v, truth);
}

#[test]
fn vfirst2d_case_2() {
    let v: Vec<(usize, usize)> = all_cells(VFirst2D::new(2, 0, 3, 0, 0, 2));
    let truth: Vec<(usize, usize)> = vec![
        (2, 0),
        (2, 1),
        (2, 2),
        (3, 0),
        (3, 1),
        (3, 2),
        (0, 0),
        (0, 1),
        (0, 2),
        (1, 0),
        (1, 1),
        (1, 2),
    ];
    println!("{:?}", truth);
    println!("{:?}", v);
    assert_eq!(v, truth);
}

#[test]
fn vfirst2d_case_3() {
    let v: Vec<(usize, usize)> = all_cells(VFirst2D::new(0, 0, 3, 2, 0, 2));
    let truth: Vec<(usize, usize)> = vec![
        (0, 2),
        (1, 0),
        (1, 1),
        (1, 2),
        (2, 0),
        (2, 1),
        (2, 2),
        (3, 0),
        (3, 1),
        (3, 2),
        (0, 0),
        (0, 1),
    ];
    println!("{:?}", truth);
    println!("{:?}", v);
    assert_eq!(v, truth);
}

#[test]
fn vfirst2d_case_4() {
    let v: Vec<(usize, usize)> = all_cells(VFirst2D::new(6, 1, 6, 0, 0, 0));
    let truth: Vec<(usize, usize)> = vec![(6, 0), (1, 0), (2, 0), (3, 0), (4, 0), (5, 0)];
    println!("{:?}", truth);
    println!("{:?}", v);
    assert_eq!(v, truth);
}

#[test]
fn vfirst2d_single_cell() {
    let v = all_cells(VFirst2D::new(4, 4, 4, 7, 7, 7));
    assert_eq!(v, vec![(4, 7)]);
}

fn dist(c: (usize, usize), f: (usize, usize)) -> usize {
    c.0.abs_diff(f.0) + c.1.abs_diff(f.1)
}

#[test]
fn closest2d_corner_focus() {
    let v = all_closest(Closest2D::new(0, 0, 3, 0, 0, 2));
    assert_eq!(v.len(), 12);
    assert_eq!(v[0], (0, 0));
    let mut sorted = v.clone();
    sorted.sort();
    sorted.dedup();
    assert_eq!(sorted.len(), 12);
    for i in 0..=3 {
        for j in 0..=2 {
            assert!(v.contains(&(i, j)));
        }
    }
    let last_d1 = v.iter().rposition(|&c| dist(c, (0, 0)) == 1).unwrap();
    let first_d2 = v.iter().position(|&c| dist(c, (0, 0)) == 2).unwrap();
    assert!(last_d1 < first_d2);
    assert!(v[1..3].contains(&(0, 1)) && v[1..3].contains(&(1, 0)));
}

#[test]
fn closest2d_distances_never_decrease() {
    let v = all_closest(Closest2D::new(3, 0, 8, 5, 2, 9));
    assert_eq!(v.len(), 9 * 8);
    assert_eq!(v[0], (3, 5));
    for w in v.windows(2) {
        assert!(dist(w[0], (3, 5)) <= dist(w[1], (3, 5)));
    }
}

#[test]
fn closest2d_single_cell() {
    let v = all_closest(Closest2D::new(2, 2, 2, 0, 0, 0));
    assert_eq!(v, vec![(2, 0)]);
}
