use monopoly::map::{detail_line, owned_or_price, push_decimal, ring_index, short_name, SIZE};
use monopoly::space::{ColorGroup, Space};

#[test]
fn the_ring_runs_clockwise_from_go_in_the_bottom_right() {
    assert_eq!(ring_index(SIZE - 1, SIZE - 1, SIZE, SIZE), Some(0));
    assert_eq!(ring_index(SIZE - 1, 0, SIZE, SIZE), Some(10));
    assert_eq!(ring_index(0, 0, SIZE, SIZE), Some(20));
    assert_eq!(ring_index(0, SIZE - 1, SIZE, SIZE), Some(30));
    assert_eq!(ring_index(SIZE - 2, SIZE - 1, SIZE, SIZE), Some(39));
    assert_eq!(ring_index(5, 5, SIZE, SIZE), None);
}

#[test]
fn every_square_has_exactly_one_ring_cell() {
    let mut seen = vec![0; 40];
    for r in 0..SIZE {
        for c in 0..SIZE {
            if let Some(i) = ring_index(r, c, SIZE, SIZE) {
                seen[i] += 1;
            }
        }
    }
    assert!(seen.iter().all(|&n| n == 1));
}

#[test]
fn names_are_cut_to_the_cell() {
    let s = Space::street("Mediterranean Ave", ColorGroup::Brown, 60, [2, 10, 30, 90, 160, 250], 50);
    assert_eq!(short_name(&s, 10), "Mediterr");
    assert_eq!(short_name(&s, 40), "Mediterranean Ave");
    assert_eq!(short_name(&Space::Go, 1), "");
}

#[test]
fn the_detail_line_shows_the_owner_or_the_price() {
    let mut s = Space::railroad("Reading RR", 200);
    assert_eq!(detail_line(&s, None), "$200");
    s.set_owner(Some(2));
    assert_eq!(detail_line(&s, Some("🐕")), "P3 🐕");
    assert_eq!(detail_line(&Space::Tax(100), None), "-$100");
    assert_eq!(detail_line(&Space::Chance, None), "");
    assert_eq!(owned_or_price(Some(0), 60, None), "P1 ");
}

#[test]
fn numbers_print_in_decimal() {
    let mut s = String::new();
    push_decimal(&mut s, 0);
    assert_eq!(s, "0");
    let mut s = String::from("x");
    push_decimal(&mut s, 4_294_967_295);
    assert_eq!(s, "x4294967295");
}

#[test]
fn the_ring_shows_each_square_once_and_walks_cell_by_cell() {
    let mut cell_of: Vec<Option<(usize, usize)>> = vec![None; 40];
    for r in 0..11 {
        for c in 0..11 {
            match ring_index(r, c, 11, 11) {
                Some(i) => {
                    assert!(i < 40);
                    assert!(cell_of[i].is_none(), "square {} shown twice", i);
                    cell_of[i] = Some((r, c));
                }
                None => assert!(r > 0 && r < 10 && c > 0 && c < 10),
            }
        }
    }
    for i in 0..40 {
        let (r1, c1) = cell_of[i].expect("every square has a cell");
        let (r2, c2) = cell_of[(i + 1) % 40].expect("every square has a cell");
        let step = r1.abs_diff(r2) + c1.abs_diff(c2);
        assert_eq!(step, 1, "squares {} and {} are side by side", i, (i + 1) % 40);
    }
}
