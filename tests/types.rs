use tetris_core::{
    can_move, Countdown, GridPos, GridSize, HardDropOccurred, Heap, HeapEntry, Input, Inputs, MoveNeutral, MoveOffset,
    MoveX, MoveY, ResetLockDelay, input,
};

fn row(cells: &[(i16, i16)]) -> [GridPos; 4] {
    [
        GridPos { x: cells[0].0, y: cells[0].1 },
        GridPos { x: cells[1].0, y: cells[1].1 },
        GridPos { x: cells[2].0, y: cells[2].1 },
        GridPos { x: cells[3].0, y: cells[3].1 },
    ]
}

#[test]
fn reset_lock_delay_flag() {
    let mut r = ResetLockDelay::new();
    assert!(!r.get());
    r.set_to(true);
    assert!(r.get());
    r.set_to(false);
    assert!(!r.get());
}

#[test]
fn hard_drop_flag() {
    let mut h = HardDropOccurred::new();
    assert!(!h.get());
    h.set();
    assert!(h.get());
    h.reset();
    assert!(!h.get());
}

#[test]
fn move_y_down_and_up() {
    let mut m = MoveY::Neutral;
    m.move_down();
    assert!(m == MoveY::Down1);
    m.move_down();
    assert!(m == MoveY::Down2);
    m.move_down();
    assert!(m == MoveY::Down2);
    m.move_up();
    assert!(m == MoveY::Down1);
    m.move_up();
    assert!(m == MoveY::Neutral);
    m.move_up();
    assert!(m == MoveY::Neutral);
}

#[test]
fn offsets_of_moves() {
    assert_eq!(MoveX::Left.to_offset(), (-1, 0));
    assert_eq!(MoveX::Right.to_offset(), (1, 0));
    assert_eq!(MoveX::Neutral.to_offset(), (0, 0));
    assert_eq!(MoveY::Down1.to_offset(), (0, -1));
    assert_eq!(MoveY::Down2.to_offset(), (0, -2));
    assert_eq!((MoveX::Right, MoveY::Down2).to_offset(), (1, -2));
    assert_eq!(MoveNeutral.to_offset(), (0, 0));
    assert!(MoveY::Neutral.is_neutral());
    assert!(!MoveY::Down1.is_neutral());
    assert!(!(MoveX::Left, MoveY::Neutral).is_neutral());
    let mut m = MoveX::Left;
    m.set_neutral();
    assert!(m == MoveX::Neutral);
}

#[test]
fn grid_pos_arithmetic() {
    let p = GridPos { x: 3, y: 7 };
    let q = p.add((-2, 1));
    assert_eq!((q.x, q.y), (1, 8));
    let mut r = p;
    r.add_assign((1, -7));
    assert_eq!((r.x, r.y), (4, 0));
}

#[test]
fn empty_heap_has_one_vacant_entry_per_cell() {
    let heap = Heap::new(GridSize { width: 10, height: 22 });
    assert_eq!(heap.blocks.len(), 220);
    assert!(heap.blocks.iter().all(|c| *c == HeapEntry::Vacant));
}

#[test]
fn can_move_respects_walls_and_floor() {
    let heap = Heap::new(GridSize { width: 10, height: 22 });
    let blocks = row(&[(0, 0), (1, 0), (2, 0), (3, 0)]);
    assert!(can_move(&blocks, 10, MoveNeutral, &heap));
    assert!(!can_move(&blocks, 10, MoveX::Left, &heap));
    assert!(can_move(&blocks, 10, MoveX::Right, &heap));
    assert!(!can_move(&blocks, 10, MoveY::Down1, &heap));
    let right_edge = row(&[(6, 5), (7, 5), (8, 5), (9, 5)]);
    assert!(!can_move(&right_edge, 10, MoveX::Right, &heap));
    assert!(can_move(&right_edge, 10, MoveY::Down2, &heap));
}

#[test]
fn can_move_treats_cells_above_the_playfield_as_vacant() {
    let heap = Heap::new(GridSize { width: 10, height: 4 });
    let blocks = row(&[(0, 5), (1, 5), (2, 5), (3, 5)]);
    assert!(can_move(&blocks, 10, MoveNeutral, &heap));
    assert!(can_move(&blocks, 10, MoveY::Down1, &heap));
}

#[test]
fn can_move_never_aliases_an_index_across_the_wall() {
    // (10, 0) would have index 10, the cell (0, 1)
    let mut heap = Heap::new(GridSize { width: 10, height: 4 });
    let blocks = row(&[(6, 0), (7, 0), (8, 0), (9, 0)]);
    assert!(!can_move(&blocks, 10, MoveX::Right, &heap));
    heap.blocks[8] = HeapEntry::Occupied;
    let above = row(&[(5, 1), (6, 1), (7, 1), (8, 1)]);
    assert!(!can_move(&above, 10, MoveY::Down1, &heap));
    assert!(can_move(&above, 10, MoveX::Left, &heap));
}

#[test]
fn countdown_fires_when_time_runs_out() {
    let mut c = Countdown::new(100);
    assert!(!c.tick(40));
    assert_eq!(c.remaining, 60);
    assert!(!c.tick(59));
    assert_eq!(c.remaining, 1);
    assert!(c.tick(1));
    assert_eq!(c.remaining, 100);
    assert!(c.tick(250));
    assert_eq!(c.remaining, 100);
    c.tick(30);
    c.reset();
    assert_eq!(c.remaining, 100);
}

#[test]
fn zero_length_countdown_fires_every_tick() {
    let mut c = Countdown::new(0);
    assert!(c.tick(0));
    assert!(c.tick(5));
}

#[test]
fn inputs_set_and_get() {
    let mut i = Inputs::new();
    assert!(!i.get_action_state(Input::LeftPressed));
    i.set_action_state(Input::LeftPressed, true);
    i.set_action_state(Input::HardDropJustPressed, true);
    assert!(i.get_action_state(Input::LeftPressed));
    assert!(i.get_action_state(Input::HardDropJustPressed));
    assert!(!i.get_action_state(Input::RightPressed));
    assert_eq!(i.bitflags, 0b1_0000_0001);
    i.set_action_state(Input::LeftPressed, false);
    assert!(!i.get_action_state(Input::LeftPressed));
    assert_eq!(i.bitflags, 0b1_0000_0000);
}

#[test]
fn input_marks_keys_that_went_down() {
    let mut i = Inputs::new();
    input(&mut i, &vec![(Input::HardDropPressed, true), (Input::LeftPressed, true), (Input::ClkwPressed, true)]);
    assert!(i.get_action_state(Input::HardDropPressed));
    assert!(i.get_action_state(Input::HardDropJustPressed));
    assert!(i.get_action_state(Input::ClkwJustPressed));
    assert!(!i.get_action_state(Input::CclwJustPressed));
    assert!(i.get_action_state(Input::LeftPressed));
    // the key is still held on the next step: no longer just pressed
    input(&mut i, &vec![]);
    assert!(i.get_action_state(Input::HardDropPressed));
    assert!(!i.get_action_state(Input::HardDropJustPressed));
    assert!(!i.get_action_state(Input::ClkwJustPressed));
    // released and pressed again within one step: the last event counts
    input(&mut i, &vec![(Input::LeftPressed, false), (Input::CclwPressed, true), (Input::CclwPressed, false)]);
    assert!(!i.get_action_state(Input::LeftPressed));
    assert!(!i.get_action_state(Input::CclwPressed));
    assert!(!i.get_action_state(Input::CclwJustPressed));
}
