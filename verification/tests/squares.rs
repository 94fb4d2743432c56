use linkus::square::Square;

#[test]
fn index_conversions() {
    let sq = Square::new(36);
    assert_eq!(sq.to_index(), 36);
    assert_eq!(sq.to_int(), 36);
}

#[test]
fn file_and_rank_follow_the_layout() {
    // index 0 is a8: file a, rank 8
    assert_eq!(Square::new(0).file(), 0);
    assert_eq!(Square::new(0).rank(), 8);
    // index 63 is h1
    assert_eq!(Square::new(63).file(), 7);
    assert_eq!(Square::new(63).rank(), 1);
    // index 36 is e4
    assert_eq!(Square::new(36).file(), 4);
    assert_eq!(Square::new(36).rank(), 4);
}

#[test]
fn from_alg_accepts_coordinates() {
    assert_eq!(Square::from_alg("a8").unwrap().to_int(), 0);
    assert_eq!(Square::from_alg("h8").unwrap().to_int(), 7);
    assert_eq!(Square::from_alg("a1").unwrap().to_int(), 56);
    assert_eq!(Square::from_alg("h1").unwrap().to_int(), 63);
    assert_eq!(Square::from_alg("e4").unwrap().to_int(), 36);
    // trailing characters are ignored
    assert_eq!(Square::from_alg("e4xx").unwrap().to_int(), 36);
}

#[test]
fn from_alg_rejects_bad_coordinates() {
    assert!(Square::from_alg("").is_none());
    assert!(Square::from_alg("e").is_none());
    assert!(Square::from_alg("i4").is_none());
    assert!(Square::from_alg("e9").is_none());
    assert!(Square::from_alg("e0").is_none());
    assert!(Square::from_alg("44").is_none());
}

#[test]
fn steps_move_one_square() {
    let e4 = Square::new(36);
    assert_eq!(e4.due_n().unwrap().to_int(), 28);
    assert_eq!(e4.due_s().unwrap().to_int(), 44);
    assert_eq!(e4.due_w().unwrap().to_int(), 35);
    assert_eq!(e4.due_e().unwrap().to_int(), 37);
    assert_eq!(e4.due_nw().unwrap().to_int(), 27);
    assert_eq!(e4.due_ne().unwrap().to_int(), 29);
    assert_eq!(e4.due_sw().unwrap().to_int(), 43);
    assert_eq!(e4.due_se().unwrap().to_int(), 45);
}

#[test]
fn steps_stop_at_the_edges() {
    let a8 = Square::new(0);
    assert!(a8.due_n().is_none());
    assert!(a8.due_w().is_none());
    assert!(a8.due_nw().is_none());
    assert!(a8.due_ne().is_none());
    assert!(a8.due_sw().is_none());
    assert_eq!(a8.due_s().unwrap().to_int(), 8);
    assert_eq!(a8.due_e().unwrap().to_int(), 1);
    assert_eq!(a8.due_se().unwrap().to_int(), 9);

    let h1 = Square::new(63);
    assert!(h1.due_s().is_none());
    assert!(h1.due_e().is_none());
    assert!(h1.due_se().is_none());
    assert!(h1.due_sw().is_none());
    assert!(h1.due_ne().is_none());
    assert_eq!(h1.due_n().unwrap().to_int(), 55);
    assert_eq!(h1.due_w().unwrap().to_int(), 62);
    assert_eq!(h1.due_nw().unwrap().to_int(), 54);
}
