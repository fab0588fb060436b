use foxterm::cursor::{update_pos, update_x, update_y};
use foxterm::drawable::{Drawable, RenderItem};
use foxterm::geometry::{clamp, Vector2, Vector4, ONE, PIXEL};

fn cell(x: i64, y: i64) -> Drawable {
    Drawable::new(RenderItem::Space, Vector2::new(x, y))
}

#[test]
fn constants_are_a_million_ticks_and_a_thousand_per_pixel() {
    assert_eq!(ONE, 1_000_000);
    assert_eq!(PIXEL, 1_000);
}

#[test]
fn clamp_keeps_what_fits() {
    assert_eq!(clamp(0), 0);
    assert_eq!(clamp(-42), -42);
    assert_eq!(clamp(i64::MAX as i128), i64::MAX);
    assert_eq!(clamp(i64::MIN as i128), i64::MIN);
}

#[test]
fn clamp_saturates_at_both_ends() {
    assert_eq!(clamp(i64::MAX as i128 + 1), i64::MAX);
    assert_eq!(clamp(i64::MIN as i128 - 1), i64::MIN);
    assert_eq!(clamp(i128::MAX), i64::MAX);
    assert_eq!(clamp(i128::MIN), i64::MIN);
}

#[test]
fn vectors_hold_their_components() {
    assert_eq!(Vector2::new(3, -4), Vector2 { x: 3, y: -4 });
    assert_eq!(Vector2::from_value(-ONE), Vector2 { x: -ONE, y: -ONE });
    assert_eq!(Vector4::new(1, 2, 3, 4), Vector4 { x: 1, y: 2, z: 3, w: 4 });
    assert_eq!(Vector4::zero(), Vector4 { x: 0, y: 0, z: 0, w: 0 });
}

#[test]
fn update_x_leaves_a_cursor_in_the_row_alone() {
    let mut pos = Vector2::new(-ONE, 0);
    update_x(&mut pos, 100_000);
    assert_eq!(pos, Vector2::new(-ONE, 0));
    let mut pos = Vector2::new(900_000, 0);
    update_x(&mut pos, 100_000);
    assert_eq!(pos, Vector2::new(900_000, 0));
}

#[test]
fn update_x_wraps_forward_by_the_row_width() {
    let mut pos = Vector2::new(900_001, -ONE);
    update_x(&mut pos, 100_000);
    assert_eq!(pos, Vector2::new(-999_999, -900_000));
    let mut pos = Vector2::new(ONE, 200_000);
    update_x(&mut pos, 100_000);
    assert_eq!(pos, Vector2::new(-900_000, 300_000));
}

#[test]
fn update_x_wraps_backward_by_the_row_width() {
    let mut pos = Vector2::new(-1_000_001, 0);
    update_x(&mut pos, 100_000);
    assert_eq!(pos, Vector2::new(899_999, -100_000));
    let mut pos = Vector2::new(-1_050_000, -900_000);
    update_x(&mut pos, 100_000);
    assert_eq!(pos, Vector2::new(850_000, -ONE));
}

#[test]
fn update_x_wraps_only_once() {
    let mut pos = Vector2::new(5_000_000, 0);
    update_x(&mut pos, 100_000);
    assert_eq!(pos, Vector2::new(3_100_000, 100_000));
}

#[test]
fn update_x_saturates_at_the_end_of_the_range() {
    let mut pos = Vector2::new(ONE, i64::MAX);
    update_x(&mut pos, 100_000);
    assert_eq!(pos, Vector2::new(-900_000, i64::MAX));
    let mut pos = Vector2::new(i64::MIN, i64::MIN);
    update_x(&mut pos, 100_000);
    assert_eq!(pos, Vector2::new(i64::MIN + 1_900_000, i64::MIN));
}

#[test]
fn update_y_leaves_a_cursor_on_the_last_row_alone() {
    let mut pos = Vector2::new(0, 900_000);
    let mut screen = vec![cell(0, -ONE), cell(0, 900_000)];
    update_y(&mut pos, 100_000, &mut screen);
    assert_eq!(pos, Vector2::new(0, 900_000));
    assert_eq!(screen, vec![cell(0, -ONE), cell(0, 900_000)]);
}

#[test]
fn update_y_reflects_and_scrolls_below_the_last_row() {
    let mut pos = Vector2::new(-900_000, ONE);
    let mut screen = vec![
        cell(1, -ONE),
        cell(2, -900_000),
        cell(3, -899_999),
        cell(4, 0),
        cell(5, -950_000),
        cell(6, 900_000),
    ];
    update_y(&mut pos, 100_000, &mut screen);
    assert_eq!(pos, Vector2::new(-900_000, 900_000));
    assert_eq!(screen, vec![cell(3, -999_999), cell(4, -100_000), cell(6, 800_000)]);
}

#[test]
fn update_y_reflects_a_cursor_between_rows() {
    let mut pos = Vector2::new(0, 950_000);
    let mut screen = Vec::new();
    update_y(&mut pos, 100_000, &mut screen);
    assert_eq!(pos, Vector2::new(0, 950_000));
    let mut pos = Vector2::new(0, 1_200_000);
    update_y(&mut pos, 100_000, &mut screen);
    assert_eq!(pos, Vector2::new(0, 700_000));
}

#[test]
fn update_y_drops_a_drawable_at_the_lowest_coordinate() {
    let mut pos = Vector2::new(0, ONE);
    let mut screen = vec![cell(0, i64::MIN), cell(0, 0)];
    update_y(&mut pos, 100_000, &mut screen);
    assert_eq!(screen, vec![cell(0, -100_000)]);
}

#[test]
fn update_pos_wraps_before_it_scrolls() {
    let mut pos = Vector2::new(ONE, 900_000);
    let mut screen = vec![cell(0, -ONE), cell(0, 900_000)];
    update_pos(&mut pos, 100_000, &mut screen);
    assert_eq!(pos, Vector2::new(-900_000, 900_000));
    assert_eq!(screen, vec![cell(0, 800_000)]);
}

#[test]
fn update_pos_with_scale_zero_only_wraps_past_the_edges() {
    let mut pos = Vector2::new(ONE, ONE);
    let mut screen = vec![cell(0, -ONE), cell(0, -999_999)];
    update_pos(&mut pos, 0, &mut screen);
    assert_eq!(pos, Vector2::new(ONE, ONE));
    assert_eq!(screen, vec![cell(0, -ONE), cell(0, -999_999)]);
    let mut pos = Vector2::new(ONE + 1, ONE);
    update_pos(&mut pos, 0, &mut screen);
    assert_eq!(pos, Vector2::new(-999_999, ONE));
}
