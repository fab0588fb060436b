use foxterm::drawable::{Drawable, RenderItem};
use foxterm::geometry::{Vector2, ONE};
use foxterm::loaded_font::{Chr, LoadedFont, FIRST_GLYPH};
use foxterm::performer::Performer;
use vte::{Params, Parser, Perform};

const SCALE: u32 = 100_000;
const WIDTH: i64 = 40_000;

/// Hands the parser's callbacks to the interpreter.
struct Bridge {
    performer: Performer,
    seen: Vec<(Vec<Vec<u16>>, Vec<u8>, bool, char)>,
}

impl Perform for Bridge {
    fn print(&mut self, c: char) {
        self.performer.print(c);
    }

    fn csi_dispatch(&mut self, params: &Params, intermediates: &[u8], ignore: bool, action: char) {
        let mut list = Vec::new();
        for param in params.iter().take(40) {
            list.push(param.to_vec());
        }
        self.seen.push((list, intermediates.to_vec(), ignore, action));
        self.performer.csi_dispatch(params, intermediates, ignore, action);
    }
}

fn glyph(id: u8) -> Chr {
    Chr::new(id, Vector2::new(WIDTH, WIDTH), Vector2::new(0, 0))
}

fn drawn(id: u8, x: i64, y: i64) -> Drawable {
    Drawable::new(RenderItem::Chr(glyph(id)), Vector2::new(x, y))
}

fn bridge() -> Bridge {
    let mut chrs = Vec::new();
    for i in 0..94u8 {
        chrs.push(glyph(FIRST_GLYPH + i));
    }
    Bridge { performer: Performer::default(LoadedFont::new(chrs, SCALE), Vec::new()), seen: Vec::new() }
}

fn feed(bridge: &mut Bridge, parser: &mut Parser, bytes: &[u8]) {
    for byte in bytes {
        if !bridge.performer.advance(*byte) {
            parser.advance(bridge, *byte);
        }
    }
}

#[test]
fn printable_bytes_reach_the_screen_in_order() {
    let mut bridge = bridge();
    let mut parser = Parser::new();
    feed(&mut bridge, &mut parser, b"ls");
    assert_eq!(bridge.performer.screen, vec![drawn(b'l', -ONE, -ONE), drawn(b's', -960_000, -ONE)]);
    assert_eq!(bridge.performer.pos, Vector2::new(-920_000, -ONE));
}

#[test]
fn a_space_has_no_glyph_and_is_dropped() {
    let mut bridge = bridge();
    let mut parser = Parser::new();
    feed(&mut bridge, &mut parser, b"a b");
    assert_eq!(bridge.performer.screen, vec![drawn(b'a', -ONE, -ONE), drawn(b'b', -960_000, -ONE)]);
}

#[test]
fn erase_in_line_from_the_parser_homes_the_cursor() {
    let mut bridge = bridge();
    let mut parser = Parser::new();
    feed(&mut bridge, &mut parser, b"abc\x1b[K");
    assert_eq!(bridge.seen, vec![(vec![vec![0]], vec![], false, 'K')]);
    assert_eq!(bridge.performer.pos, Vector2::new(-ONE, -ONE));
    assert_eq!(bridge.performer.screen.len(), 3);
    feed(&mut bridge, &mut parser, b"d\x1b[0K");
    assert_eq!(bridge.performer.pos, Vector2::new(-ONE, -ONE));
    assert_eq!(bridge.performer.screen.len(), 4);
}

#[test]
fn erase_in_line_with_one_or_two_from_the_parser_does_nothing() {
    let mut bridge = bridge();
    let mut parser = Parser::new();
    feed(&mut bridge, &mut parser, b"abc\x1b[1K\x1b[2K");
    assert_eq!(bridge.seen.len(), 2);
    assert_eq!(bridge.performer.pos, Vector2::new(-880_000, -ONE));
}

#[test]
fn cursor_forward_from_the_parser_moves_by_its_number() {
    let mut bridge = bridge();
    let mut parser = Parser::new();
    feed(&mut bridge, &mut parser, b"\x1b[3C");
    assert_eq!(bridge.seen, vec![(vec![vec![3]], vec![], false, 'C')]);
    assert_eq!(bridge.performer.pos, Vector2::new(-700_000, -ONE));
    feed(&mut bridge, &mut parser, b"\x1b[12;7C");
    assert_eq!(bridge.seen[1], (vec![vec![12], vec![7]], vec![], false, 'C'));
    assert_eq!(bridge.performer.pos, Vector2::new(500_000, -ONE));
}

#[test]
fn cursor_forward_without_a_number_comes_as_zero_from_the_parser() {
    let mut bridge = bridge();
    let mut parser = Parser::new();
    feed(&mut bridge, &mut parser, b"\x1b[C");
    assert_eq!(bridge.seen, vec![(vec![vec![0]], vec![], false, 'C')]);
    assert_eq!(bridge.performer.pos, Vector2::new(-ONE, -ONE));
}

#[test]
fn cursor_forward_with_sub_parameters_from_the_parser_does_nothing() {
    let mut bridge = bridge();
    let mut parser = Parser::new();
    feed(&mut bridge, &mut parser, b"\x1b[2:5C");
    assert_eq!(bridge.seen, vec![(vec![vec![2, 5]], vec![], false, 'C')]);
    assert_eq!(bridge.performer.pos, Vector2::new(-ONE, -ONE));
}

#[test]
fn a_private_sequence_from_the_parser_does_nothing() {
    let mut bridge = bridge();
    let mut parser = Parser::new();
    feed(&mut bridge, &mut parser, b"ab\x1b[?K\x1b[?3C");
    assert_eq!(bridge.seen.len(), 2);
    assert_eq!(bridge.seen[0].1, vec![b'?']);
    assert_eq!(bridge.performer.pos, Vector2::new(-920_000, -ONE));
}

#[test]
fn other_sequences_from_the_parser_do_nothing() {
    let mut bridge = bridge();
    let mut parser = Parser::new();
    feed(&mut bridge, &mut parser, b"ab\x1b[1;31m\x1b[2J\x1b[H\x1b[5A");
    assert_eq!(bridge.seen.len(), 4);
    assert_eq!(bridge.performer.pos, Vector2::new(-920_000, -ONE));
    assert_eq!(bridge.performer.screen.len(), 2);
}

#[test]
fn backspace_is_taken_before_the_parser() {
    let mut bridge = bridge();
    let mut parser = Parser::new();
    feed(&mut bridge, &mut parser, b"ab\x08");
    assert_eq!(bridge.performer.screen, vec![drawn(b'a', -ONE, -ONE)]);
    assert_eq!(bridge.performer.pos, Vector2::new(-960_000, -ONE));
    // half a step left of the cursor is now left of the viewport: the
    // boundary wraps to the row above, which holds nothing
    feed(&mut bridge, &mut parser, b"\x08");
    assert_eq!(bridge.performer.screen, vec![drawn(b'a', -ONE, -ONE)]);
    assert_eq!(bridge.performer.pos, Vector2::new(-960_000, -ONE));
}

#[test]
fn the_advance_byte_is_taken_inside_a_sequence() {
    let mut bridge = bridge();
    let mut parser = Parser::new();
    feed(&mut bridge, &mut parser, b"\x1b[\x14\x142C");
    assert_eq!(bridge.seen, vec![(vec![vec![2]], vec![], false, 'C')]);
    assert_eq!(bridge.performer.pos, Vector2::new(-600_000, -ONE));
}

#[test]
fn a_sequence_may_come_in_pieces() {
    let mut bridge = bridge();
    let mut parser = Parser::new();
    feed(&mut bridge, &mut parser, b"\x1b");
    feed(&mut bridge, &mut parser, b"[");
    feed(&mut bridge, &mut parser, b"1");
    feed(&mut bridge, &mut parser, b"0C");
    assert_eq!(bridge.performer.pos, Vector2::new(0, -ONE));
}

#[test]
fn an_overlong_parameter_list_is_cut_and_still_acts_on_its_first() {
    let mut bridge = bridge();
    let mut parser = Parser::new();
    let mut bytes = b"\x1b[2".to_vec();
    for _ in 0..40 {
        bytes.extend_from_slice(b";1");
    }
    bytes.push(b'C');
    feed(&mut bridge, &mut parser, &bytes);
    assert_eq!(bridge.seen.len(), 1);
    assert!(bridge.seen[0].2);
    assert_eq!(bridge.seen[0].0[0], vec![2]);
    assert_eq!(bridge.performer.pos, Vector2::new(-800_000, -ONE));
}

#[test]
fn empty_parameters_hold_nothing() {
    let mut performer = bridge().performer;
    performer.csi_dispatch(&Params::default(), &[], false, 'C');
    assert_eq!(performer.pos, Vector2::new(-900_000, -ONE));
    performer.csi_dispatch(&Params::default(), &[], false, 'K');
    assert_eq!(performer.pos, Vector2::new(-ONE, -ONE));
    performer.csi_dispatch(&Params::default(), &[b'?'], false, 'C');
    assert_eq!(performer.pos, Vector2::new(-ONE, -ONE));
}
