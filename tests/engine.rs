use snake::game::{App, Item, ItemType, Segment, ITEM_INTERVAL};
use snake::grid::{wrap_decrement, wrap_increment, opposite_of, forward, backward, Direction};

fn seg(x: i32, y: i32, direction: Direction) -> Segment {
    Segment { x, y, direction }
}

fn item(item_type: ItemType, x: i32, y: i32) -> Item {
    Item { item_type, x, y }
}

fn wide_game() -> App {
    let mut app = App::new();
    app.resize_canvas(80, 24);
    app
}

fn head(app: &App) -> Segment {
    app.segments[app.segments.len() - 1]
}

#[test]
fn wrap_increment_steps_and_mirrors() {
    assert_eq!(wrap_increment(3, 10), 4);
    assert_eq!(wrap_increment(9, 10), 10);
    assert_eq!(wrap_increment(10, 10), -1);
    assert_eq!(wrap_increment(12, 10), -3);
    assert_eq!(wrap_increment(-1, 10), 0);
}

#[test]
fn wrap_decrement_steps_and_wraps() {
    assert_eq!(wrap_decrement(5, 10), 4);
    assert_eq!(wrap_decrement(1, 10), 0);
    assert_eq!(wrap_decrement(0, 10), 10);
    assert_eq!(wrap_decrement(-1, 10), 9);
}

#[test]
fn wrap_round_trips_inside_the_axis() {
    let b: u16 = 10;
    for v in 0..10 {
        assert_eq!(wrap_decrement(wrap_increment(v, b), b), v);
    }
    for v in 1..10 {
        assert_eq!(wrap_increment(wrap_decrement(v, b), b), v);
    }
    assert_eq!(wrap_increment(wrap_decrement(0, b), b), -1);
    for v in -1..=10 {
        let up = wrap_increment(v, b);
        let down = wrap_decrement(v, b);
        assert!(-1 <= up && up <= 10);
        assert!(-1 <= down && down <= 10);
    }
}

#[test]
fn forward_and_backward_cells() {
    assert_eq!(forward(3, 4, Direction::Up, 10, 10), (3, 5));
    assert_eq!(forward(3, 4, Direction::Right, 10, 10), (4, 4));
    assert_eq!(forward(3, 4, Direction::Down, 10, 10), (3, 3));
    assert_eq!(forward(3, 4, Direction::Left, 10, 10), (2, 4));
    assert_eq!(backward(3, 4, Direction::Up, 10, 10), (3, 3));
    assert_eq!(backward(3, 0, Direction::Up, 10, 10), (3, 10));
    assert_eq!(backward(0, 4, Direction::Right, 10, 10), (10, 4));
}

#[test]
fn default_segment() {
    assert_eq!(Segment::default(), seg(1, 0, Direction::Right));
}

#[test]
fn new_game_layout() {
    let app = App::new();
    assert_eq!(app.segments.len(), 13);
    for (i, s) in app.segments.iter().enumerate() {
        assert_eq!(*s, seg(i as i32 + 1, 0, Direction::Right));
    }
    assert!(app.items.is_empty());
    assert!(!app.playing);
    assert_eq!(app.need_items_in, 0);
    assert_eq!((app.canvas_x_length, app.canvas_y_length), (10, 10));
}

#[test]
fn resize_sets_bounds() {
    let mut app = App::new();
    app.resize_canvas(120, 40);
    assert_eq!((app.canvas_x_length, app.canvas_y_length), (120, 40));
    assert_eq!(app.segments.len(), 13);
}

#[test]
fn reversal_is_ignored_for_every_heading() {
    let all = [Direction::Up, Direction::Right, Direction::Down, Direction::Left];
    for d in all.iter() {
        let mut app = wide_game();
        app.set_heading(*d);
        let before = app.segments.clone();
        app.steer(opposite_of(*d));
        assert_eq!(app.segments, before);
        assert_eq!(head(&app).direction, *d);
    }
}

#[test]
fn steer_turns_the_head_only() {
    let mut app = wide_game();
    app.steer(Direction::Up);
    assert_eq!(head(&app), seg(13, 0, Direction::Up));
    for s in &app.segments[..12] {
        assert_eq!(s.direction, Direction::Right);
    }
    app.steer(Direction::Up);
    assert_eq!(head(&app).direction, Direction::Up);
    app.steer(Direction::Left);
    assert_eq!(head(&app).direction, Direction::Left);
}

#[test]
fn set_heading_ignores_the_reversal_rule() {
    let mut app = wide_game();
    app.set_heading(Direction::Left);
    assert_eq!(head(&app), seg(13, 0, Direction::Left));
}

#[test]
fn three_ticks_shift_the_body_right() {
    let mut app = wide_game();
    for _ in 0..3 {
        app.update();
    }
    assert_eq!(app.segments.len(), 13);
    for (i, s) in app.segments.iter().enumerate() {
        assert_eq!(*s, seg(i as i32 + 4, 0, Direction::Right));
    }
}

#[test]
fn turn_ripples_back_one_segment_per_tick() {
    let mut app = wide_game();
    app.steer(Direction::Up);
    app.update();
    assert_eq!(head(&app), seg(13, 1, Direction::Up));
    assert_eq!(app.segments[11], seg(13, 0, Direction::Up));
    assert_eq!(app.segments[10], seg(12, 0, Direction::Right));
    app.update();
    assert_eq!(head(&app), seg(13, 2, Direction::Up));
    assert_eq!(app.segments[11], seg(13, 1, Direction::Up));
    assert_eq!(app.segments[10], seg(13, 0, Direction::Up));
    assert_eq!(app.segments[9], seg(12, 0, Direction::Right));
}

#[test]
fn small_canvas_mirrors_the_body() {
    let mut app = App::new();
    app.update();
    assert_eq!(app.segments[8], seg(10, 0, Direction::Right));
    assert_eq!(app.segments[9], seg(-1, 0, Direction::Right));
    assert_eq!(app.segments[12], seg(-4, 0, Direction::Right));
}

#[test]
fn apple_grows_the_tail() {
    let mut app = wide_game();
    app.items.push(item(ItemType::Apple, 14, 0));
    app.update();
    assert_eq!(app.segments.len(), 14);
    assert_eq!(app.segments[0], seg(1, 0, Direction::Right));
    for (i, s) in app.segments.iter().enumerate() {
        assert_eq!(*s, seg(i as i32 + 1, 0, Direction::Right));
    }
    assert!(app.items.is_empty());
}

#[test]
fn mushroom_grows_behind_a_turned_tail() {
    let mut app = wide_game();
    app.segments = vec![seg(5, 5, Direction::Up), seg(5, 6, Direction::Up), seg(5, 7, Direction::Up)];
    app.items.push(item(ItemType::Mushroom, 5, 8));
    app.update();
    assert_eq!(
        app.segments,
        vec![
            seg(5, 5, Direction::Up),
            seg(5, 6, Direction::Up),
            seg(5, 7, Direction::Up),
            seg(5, 8, Direction::Up)
        ]
    );
}

#[test]
fn hedgehog_shrinks_the_tail() {
    let mut app = wide_game();
    app.items.push(item(ItemType::Hedgehog, 14, 0));
    app.update();
    assert_eq!(app.segments.len(), 12);
    assert_eq!(head(&app), seg(14, 0, Direction::Right));
    assert_eq!(app.segments[0], seg(3, 0, Direction::Right));
    assert!(app.items.is_empty());
}

#[test]
fn hedgehog_leaves_a_lone_head() {
    let mut app = wide_game();
    app.segments = vec![seg(4, 4, Direction::Left)];
    app.items.push(item(ItemType::Hedgehog, 3, 4));
    app.update();
    assert_eq!(app.segments, vec![seg(3, 4, Direction::Left)]);
    assert!(app.items.is_empty());
}

#[test]
fn only_the_first_item_on_the_cell_is_taken() {
    let mut app = wide_game();
    app.items.push(item(ItemType::Apple, 30, 3));
    app.items.push(item(ItemType::Hedgehog, 14, 0));
    app.items.push(item(ItemType::Apple, 14, 0));
    app.update();
    assert_eq!(app.segments.len(), 12);
    assert_eq!(app.items, vec![item(ItemType::Apple, 30, 3), item(ItemType::Apple, 14, 0)]);
}

#[test]
fn boulder_knocks_the_head_aside_and_stays() {
    let mut app = wide_game();
    app.items.push(item(ItemType::Apple, 30, 3));
    app.items.push(item(ItemType::Boulder, 14, 0));
    app.update();
    assert_eq!(app.items.len(), 2);
    assert_eq!(app.items[1], item(ItemType::Boulder, 14, 0));
    assert_eq!(app.segments.len(), 13);
    let h = head(&app);
    assert!(h == seg(13, 1, Direction::Up) || h == seg(13, 24, Direction::Down));
    assert_eq!(app.segments[11].direction, h.direction);
    assert_eq!(app.segments[11].x, 13);
}

#[test]
fn deflect_head_exact_cells() {
    let mut app = wide_game();
    app.deflect_head(Direction::Down);
    assert_eq!(head(&app), seg(12, 24, Direction::Down));
    assert_eq!(app.segments[11], seg(12, 0, Direction::Down));
    assert_eq!(app.segments[10], seg(11, 0, Direction::Right));
}

#[test]
fn deflect_lone_head_uses_its_own_heading() {
    let mut app = wide_game();
    app.segments = vec![seg(4, 4, Direction::Left)];
    app.deflect_head(Direction::Up);
    assert_eq!(app.segments, vec![seg(5, 5, Direction::Up)]);
}

#[test]
fn biting_cuts_the_body_behind_the_bite() {
    let mut app = wide_game();
    app.segments = vec![
        seg(5, 3, Direction::Up),
        seg(5, 4, Direction::Up),
        seg(5, 5, Direction::Up),
        seg(5, 6, Direction::Up),
        seg(5, 7, Direction::Right),
        seg(6, 7, Direction::Down),
        seg(6, 6, Direction::Down),
        seg(6, 5, Direction::Left),
    ];
    app.update();
    assert_eq!(app.segments.len(), 8 - 1 - 1);
    assert_eq!(
        app.segments,
        vec![
            seg(5, 6, Direction::Up),
            seg(5, 7, Direction::Right),
            seg(6, 7, Direction::Down),
            seg(6, 6, Direction::Down),
            seg(6, 5, Direction::Left),
            seg(5, 5, Direction::Left),
        ]
    );
}

#[test]
fn biting_the_tail_keeps_all_but_it() {
    let mut app = wide_game();
    app.segments = vec![
        seg(5, 5, Direction::Up),
        seg(5, 6, Direction::Up),
        seg(5, 7, Direction::Right),
        seg(6, 7, Direction::Down),
        seg(6, 6, Direction::Left),
    ];
    app.update();
    assert_eq!(app.segments.len(), 4);
    assert_eq!(head(&app), seg(5, 6, Direction::Left));
}

#[test]
fn an_item_is_taken_before_a_bite() {
    let mut app = wide_game();
    app.segments = vec![
        seg(5, 5, Direction::Up),
        seg(5, 6, Direction::Up),
        seg(5, 7, Direction::Right),
        seg(6, 7, Direction::Down),
        seg(6, 6, Direction::Left),
    ];
    app.items.push(item(ItemType::Apple, 5, 6));
    app.update();
    assert_eq!(app.segments.len(), 6);
    assert!(app.items.is_empty());
}

#[test]
fn generated_items_follow_the_spawn_rules() {
    for _ in 0..50 {
        let mut app = wide_game();
        app.items.push(item(ItemType::Apple, 0, 0));
        app.generate_item();
        assert!(app.items.len() >= 2);
        assert_eq!(app.items[0], item(ItemType::Apple, 0, 0));
        let first = app.items[1].item_type;
        assert!(first == ItemType::Apple || first == ItemType::Mushroom);
        for it in &app.items[2..] {
            assert!(it.item_type == ItemType::Hedgehog || it.item_type == ItemType::Boulder);
        }
        for it in &app.items[1..] {
            assert!(2 <= it.x && it.x < 79);
            assert!(1 <= it.y && it.y < 23);
        }
    }
}

#[test]
fn narrowest_canvas_places_on_one_column() {
    let mut app = App::new();
    app.resize_canvas(4, 3);
    app.generate_item();
    for it in &app.items {
        assert_eq!((it.x, it.y), (2, 1));
    }
}

#[test]
fn a_free_cell_is_kept() {
    let app = wide_game();
    let mut rng = rand::thread_rng();
    assert_eq!(app.settle_cell(&mut rng, 40, 10), (40, 10));
}

#[test]
fn a_taken_cell_is_redrawn_in_the_spawn_area() {
    let mut app = wide_game();
    app.items.push(item(ItemType::Mushroom, 40, 10));
    let mut rng = rand::thread_rng();
    let (x, y) = app.settle_cell(&mut rng, 40, 10);
    assert!(2 <= x && x < 79);
    assert!(1 <= y && y < 23);
}

#[test]
fn countdown_places_items_every_interval() {
    let mut app = wide_game();
    app.maybe_generate_item();
    assert!(!app.items.is_empty());
    assert_eq!(app.need_items_in, ITEM_INTERVAL - 1);
    let placed = app.items.len();
    for _ in 0..14 {
        app.maybe_generate_item();
    }
    assert_eq!(app.items.len(), placed);
    assert_eq!(app.need_items_in, 0);
    app.maybe_generate_item();
    assert!(app.items.len() > placed);
    assert_eq!(app.need_items_in, 14);
}

#[test]
fn settle_with_keeps_a_free_cell() {
    let app = wide_game();
    let fresh = vec![(50, 5); 13];
    assert_eq!(app.settle_cell_with(40, 10, &fresh), (40, 10));
}

#[test]
fn settle_with_takes_the_draw_of_the_taken_cell() {
    let mut app = wide_game();
    app.segments = vec![seg(5, 5, Direction::Up), seg(5, 6, Direction::Up)];
    app.items.push(item(ItemType::Apple, 9, 9));
    let fresh = vec![(20, 2), (21, 3), (22, 4)];
    assert_eq!(app.settle_cell_with(5, 6, &fresh), (21, 3));
    assert_eq!(app.settle_cell_with(9, 9, &fresh), (22, 4));
}

#[test]
fn settle_with_checks_a_redraw_only_against_later_cells() {
    let mut app = wide_game();
    app.segments = vec![seg(5, 5, Direction::Up), seg(5, 6, Direction::Up)];
    app.items.push(item(ItemType::Apple, 9, 9));
    // The redraw at the tail lands on the tail again, which is not checked
    // anew; the redraw at the second segment moves on to the item's cell,
    // which is then taken and redrawn once more.
    let fresh = vec![(5, 5), (0, 0), (7, 7)];
    assert_eq!(app.settle_cell_with(5, 5, &fresh), (5, 5));
    let fresh = vec![(1, 1), (9, 9), (7, 7)];
    assert_eq!(app.settle_cell_with(5, 6, &fresh), (7, 7));
}

#[test]
fn place_round_places_and_follows_the_draw() {
    let mut app = wide_game();
    app.items.push(item(ItemType::Apple, 9, 9));
    let mut fresh = vec![(30, 3); 13];
    fresh.push((31, 4));
    assert!(app.place_round(9, 9, &fresh, ItemType::Boulder, true));
    assert_eq!(app.items, vec![item(ItemType::Apple, 9, 9), item(ItemType::Boulder, 31, 4)]);
    let fresh = vec![(0, 0); 15];
    assert!(!app.place_round(40, 10, &fresh, ItemType::Mushroom, false));
    assert_eq!(app.items[2], item(ItemType::Mushroom, 40, 10));
    assert_eq!(app.segments.len(), 13);
}

#[test]
fn a_lone_spawn_cell_under_the_body_is_still_used() {
    let mut app = App::new();
    app.resize_canvas(4, 3);
    app.segments = vec![seg(2, 1, Direction::Right)];
    app.generate_item();
    assert_eq!((app.items[0].x, app.items[0].y), (2, 1));
}
