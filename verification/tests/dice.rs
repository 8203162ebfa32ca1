use monopoly::ui::dice::{die_box, die_row, pips, Clip, Roll, FRAME_TIME};

#[test]
fn a_clip_advances_one_frame_per_frame_time() {
    let mut clip = Clip::new();
    clip.tick(10, FRAME_TIME * 3 + 5);
    assert_eq!(clip.frame, 3);
    assert_eq!(clip.elapsed, 5);
    assert!(!clip.finished(10));
    clip.tick(10, FRAME_TIME * 100);
    assert_eq!(clip.frame, 9);
    assert!(clip.finished(10));
}

#[test]
fn a_roll_settles_on_two_dice_once_the_clip_ends() {
    let mut roll = Roll::new();
    assert!(roll.animating());
    roll.tick(4, FRAME_TIME * 10);
    let (a, b) = roll.result().expect("settled");
    assert!((1..=6).contains(&a) && (1..=6).contains(&b));
    assert!(!roll.animating());
}

#[test]
fn a_five_shows_the_corners_and_the_centre() {
    let grid = pips(5);
    assert!(grid[0][0] && grid[0][2] && grid[1][1] && grid[2][0] && grid[2][2]);
    assert!(!grid[0][1] && !grid[1][0]);
    assert_eq!(die_row(5, 1), "  ●  ");
    let lines = die_box(1);
    assert_eq!(lines.len(), 5);
    assert_eq!(lines[2], "│  ●  │");
}

#[test]
fn the_dice_show_more_than_one_face() {
    let mut seen = [false; 7];
    for _ in 0..300 {
        let mut roll = Roll::new();
        roll.tick(2, FRAME_TIME);
        let (a, b) = roll.result().expect("settled");
        seen[a as usize] = true;
        seen[b as usize] = true;
    }
    assert!(seen[1..].iter().all(|&s| s), "every face comes up in 600 throws");
}
