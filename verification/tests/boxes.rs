use term_games::screen::boxes::BoxPrint;
use term_games::screen::text::TextPrint;
use term_games::screen::util::{
    can_be_centred, caption_below, decimal_text, get_centered_coords, repeat_str, rows_to_clear,
};
use term_games::screen::{Color, TextAt};

fn plain(x: u16, y: u16, text: &str) -> TextAt {
    TextAt { x, y, text: text.to_owned(), bg: None, fg: None }
}

fn tinted(x: u16, y: u16, text: &str, bg: Option<Color>, fg: Option<Color>) -> TextAt {
    TextAt { x, y, text: text.to_owned(), bg, fg }
}

#[test]
fn centred_coords_are_half_the_terminal_less_half_the_size() {
    assert_eq!(get_centered_coords((10, 4), (80, 24)), (35, 10));
    assert_eq!(get_centered_coords((0, 0), (80, 24)), (40, 12));
    assert_eq!(get_centered_coords((80, 24), (80, 24)), (0, 0));
    assert_eq!(get_centered_coords((81, 25), (80, 24)), (0, 0));
    assert_eq!(get_centered_coords((7, 3), (9, 5)), (1, 1));
}

#[test]
fn rows_to_clear_are_all_but_the_last() {
    assert_eq!(rows_to_clear(5), vec![1, 2, 3, 4]);
    assert_eq!(rows_to_clear(2), vec![1]);
    assert_eq!(rows_to_clear(1), vec![]);
}

#[test]
fn decimal_text_writes_numbers_in_digits() {
    assert_eq!(decimal_text(0), "0");
    assert_eq!(decimal_text(7), "7");
    assert_eq!(decimal_text(10), "10");
    assert_eq!(decimal_text(109), "109");
    assert_eq!(decimal_text(1234567890), "1234567890");
    assert_eq!(decimal_text(u32::MAX), "4294967295");
}

#[test]
fn caption_below_centres_under_the_field() {
    // column: 25 + 30 / 2 - 8 / 2, row: 7 + 10 + 1
    assert_eq!(caption_below("Score: 0", (25, 7), (30, 10), 1), Some(plain(36, 18, "Score: 0")));
    assert_eq!(caption_below("Score: 0", (25, 7), (30, 10), 2), Some(plain(36, 19, "Score: 0")));
    assert_eq!(caption_below("", (0, 0), (0, 0), 0), Some(plain(0, 0, "")));
    assert_eq!(caption_below("odd", (4, 0), (9, 0), 0), Some(plain(7, 0, "odd")));
}

#[test]
fn caption_below_gives_nothing_where_it_does_not_fit() {
    // half the text is longer than what is left of the middle
    assert_eq!(caption_below("a long caption", (2, 7), (8, 10), 1), None);
    assert_eq!(caption_below("a long caption", (3, 7), (8, 10), 1), Some(plain(0, 18, "a long caption")));
    // the row leaves sixteen bits
    assert_eq!(caption_below("x", (5, 65000), (8, 535), 1), None);
    assert_eq!(caption_below("x", (5, 65000), (8, 534), 1), Some(plain(9, 65535, "x")));
    // the middle leaves sixteen bits
    assert_eq!(caption_below("x", (65535, 0), (2, 0), 0), None);
}

#[test]
fn box_print_new_is_centred_and_no_larger_than_the_terminal() {
    let made = BoxPrint::new((10, 4), (80, 24));
    assert_eq!(
        made,
        BoxPrint {
            coords: (35, 10),
            size: (10, 4),
            has_border: true,
            fill_col: None,
            border_col: None
        }
    );
    let large = BoxPrint::new((81, 25), (80, 24));
    assert_eq!(large.size, (80, 24));
    assert_eq!(large.coords, (0, 0));
}

#[test]
fn box_print_builders_set_one_field_each() {
    let mut made = BoxPrint::new((10, 4), (80, 24));
    made.at_coords((3, 5)).set_border(false).set_fill(Color::Blue).set_border_col(Color::Red);
    assert_eq!(
        made,
        BoxPrint {
            coords: (3, 5),
            size: (10, 4),
            has_border: false,
            fill_col: Some(Color::Blue),
            border_col: Some(Color::Red)
        }
    );
    made.remove_fill();
    assert_eq!(made.fill_col, None);
    assert_eq!(made.border_col, Some(Color::Red));
    made.set_border(true);
    assert!(made.has_border);
}

#[test]
fn box_border_runs_along_the_outermost_columns_and_rows() {
    let mut made = BoxPrint::new((5, 4), (80, 24));
    made.at_coords((10, 20)).set_fill(Color::Blue).set_border_col(Color::Yellow);
    let bg = Some(Color::Blue);
    let fg = Some(Color::Yellow);
    assert_eq!(
        made.draw_border(),
        vec![
            tinted(10, 20, "┌", bg, fg),
            tinted(14, 20, "┐", bg, fg),
            tinted(10, 23, "└", bg, fg),
            tinted(14, 23, "┘", bg, fg),
            tinted(11, 20, "───", bg, fg),
            tinted(11, 23, "───", bg, fg),
            tinted(10, 21, "│", bg, fg),
            tinted(14, 21, "│", bg, fg),
            tinted(10, 22, "│", bg, fg),
            tinted(14, 22, "│", bg, fg),
        ]
    );
}

#[test]
fn box_border_of_the_smallest_box_is_four_corners() {
    let mut made = BoxPrint::new((2, 2), (80, 24));
    made.at_coords((1, 1));
    assert_eq!(
        made.draw_border(),
        vec![
            plain(1, 1, "┌"),
            plain(2, 1, "┐"),
            plain(1, 2, "└"),
            plain(2, 2, "┘"),
            plain(2, 1, ""),
            plain(2, 2, ""),
        ]
    );
}

#[test]
fn box_print_fills_its_rows_and_draws_its_border() {
    let mut made = BoxPrint::new((4, 3), (80, 24));
    made.at_coords((2, 6)).set_fill(Color::Green);
    let texts = made.print();
    let bg = Some(Color::Green);
    assert_eq!(texts.len(), 3 + 8);
    assert_eq!(texts[0], tinted(2, 6, "   ", bg, None));
    assert_eq!(texts[1], tinted(2, 7, "   ", bg, None));
    assert_eq!(texts[2], tinted(2, 8, "   ", bg, None));
    assert_eq!(&texts[3..], &made.draw_border()[..]);
    assert_eq!(texts[3], tinted(2, 6, "┌", bg, None));
    assert_eq!(texts[10], tinted(5, 7, "│", bg, None));
}

#[test]
fn box_print_without_border_is_its_filling() {
    let mut made = BoxPrint::new((1, 2), (80, 24));
    made.at_coords((9, 9)).set_border(false);
    assert_eq!(made.print(), vec![plain(9, 9, ""), plain(9, 10, "")]);
}

#[test]
fn text_print_new_is_plain() {
    let made = TextPrint::new("title", (4, 2));
    assert_eq!(made.text, "title");
    assert_eq!(made.coords, (4, 2));
    assert!(made.prefixes.is_empty());
    assert_eq!(made.fg_col, None);
    assert_eq!(made.bg_col, None);
    assert_eq!(made.print(), plain(4, 2, "title\x1b[m"));
}

#[test]
fn text_print_writes_prefixes_text_and_reset() {
    let mut made = TextPrint::new("title", (4, 2));
    made.add_prefix("\x1b[1m").add_prefix("\x1b[4m");
    assert_eq!(made.prefixes, vec!["\x1b[1m".to_owned(), "\x1b[4m".to_owned()]);
    assert_eq!(made.print(), plain(4, 2, "\x1b[1m\x1b[4mtitle\x1b[m"));
}

#[test]
fn text_print_carries_its_colours() {
    let mut made = TextPrint::new("t", (1, 1));
    made.color_fg(Color::Cyan).color_bg(Color::Black);
    assert_eq!(made.fg_col, Some(Color::Cyan));
    assert_eq!(made.bg_col, Some(Color::Black));
    assert_eq!(
        made.print(),
        tinted(1, 1, "t\x1b[m", Some(Color::Black), Some(Color::Cyan))
    );
}

#[test]
fn can_be_centred_compares_the_halves() {
    assert!(can_be_centred((80, 24), (80, 24)));
    assert!(can_be_centred((81, 25), (80, 24)));
    assert!(!can_be_centred((82, 24), (80, 24)));
    assert!(!can_be_centred((80, 26), (80, 24)));
    assert!(can_be_centred((0, 0), (0, 0)));
}

#[test]
fn box_checks_say_when_it_can_be_drawn() {
    let mut made = BoxPrint::new((2, 2), (80, 24));
    assert!(made.can_draw_border() && made.can_print());
    made.at_coords((65533, 65533));
    assert!(made.can_draw_border() && made.can_print());
    made.at_coords((65534, 0));
    assert!(!made.can_draw_border() && !made.can_print());
    made.set_border(false);
    assert!(made.can_print());
    made.at_coords((0, 65534));
    assert!(!made.can_print());
    let mut thin = BoxPrint::new((1, 1), (80, 24));
    assert!(!thin.can_draw_border() && !thin.can_print());
    thin.set_border(false);
    assert!(thin.can_print());
    let mut flat = BoxPrint::new((0, 3), (80, 24));
    flat.set_border(false);
    assert!(!flat.can_print());
}

#[test]
fn repeat_str_is_at_hand_beside_the_other_helpers() {
    assert_eq!(repeat_str(" ", 3), "   ");
}
