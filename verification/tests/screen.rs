use term_games::screen::{
    chosen_value, draw_border, draw_filled_box, draw_menu, draw_menu_render, fits_frame,
    longest_label_len, menu_fits_on, menu_label_text, repeat_str, text_at, text_at_with_bg_color,
    text_at_with_color, write_text, Color, MenuItem, MenuKey, MenuStep, TextAt,
};

fn plain(x: u16, y: u16, text: &str) -> TextAt {
    TextAt { x, y, text: text.to_owned(), bg: None, fg: None }
}

fn games() -> Vec<MenuItem<'static>> {
    vec![
        MenuItem::new("Snake", "snake"),
        MenuItem::new("Pong", "pong"),
        MenuItem::new("Quit", "quit"),
    ]
}

#[test]
fn repeat_str_writes_the_string_that_often() {
    assert_eq!(repeat_str("ab", 3), "ababab");
    assert_eq!(repeat_str("─", 2), "──");
    assert_eq!(repeat_str("x", 1), "x");
}

#[test]
fn repeat_str_of_nothing_or_no_times_is_empty() {
    assert_eq!(repeat_str("x", 0), "");
    assert_eq!(repeat_str("", 9), "");
}

#[test]
fn repeat_str_has_the_product_of_the_lengths() {
    assert_eq!(repeat_str("abc", 1000).len(), 3000);
}

#[test]
fn text_at_shifts_by_the_offset_of_the_frame() {
    // offset: ((80 - 10) / 2, (24 - 5) / 2 - 1) = (35, 8)
    assert_eq!(text_at("hi", (1, 1), (10, 5), (80, 24)), plain(36, 9, "hi"));
    assert_eq!(text_at("hi", (12, 7), (10, 5), (80, 24)), plain(47, 15, "hi"));
    assert_eq!(text_at("", (0, 0), (10, 5), (80, 24)), plain(35, 8, ""));
}

#[test]
fn text_at_keeps_to_the_first_column_and_row() {
    assert_eq!(text_at("hi", (-40, -20), (10, 5), (80, 24)), plain(1, 1, "hi"));
    assert_eq!(text_at("hi", (-35, -8), (10, 5), (80, 24)), plain(1, 1, "hi"));
    assert_eq!(text_at("hi", (-34, -7), (10, 5), (80, 24)), plain(1, 1, "hi"));
    assert_eq!(text_at("hi", (-33, -6), (10, 5), (80, 24)), plain(2, 2, "hi"));
}

#[test]
fn text_at_with_a_frame_as_large_as_can_be() {
    // offset: (0, (24 - 22) / 2 - 1) = (0, 0)
    assert_eq!(text_at("hi", (3, 4), (80, 22), (80, 24)), plain(3, 4, "hi"));
}

#[test]
fn text_at_with_color_sets_the_foreground() {
    let placed = text_at_with_color("hi", (1, 1), Color::Green, (10, 5), (80, 24));
    assert_eq!(
        placed,
        TextAt { x: 36, y: 9, text: "hi".to_owned(), bg: None, fg: Some(Color::Green) }
    );
}

#[test]
fn text_at_with_bg_color_sets_the_background() {
    let placed = text_at_with_bg_color("hi", (1, 1), Color::Blue, (10, 5), (80, 24));
    assert_eq!(
        placed,
        TextAt { x: 36, y: 9, text: "hi".to_owned(), bg: Some(Color::Blue), fg: None }
    );
}

#[test]
fn fits_frame_says_when_text_can_be_placed() {
    assert!(fits_frame((1, 1), (10, 5), (80, 24)));
    assert!(fits_frame((-32768, -32768), (10, 5), (80, 24)));
    // the frame is wider than the terminal
    assert!(!fits_frame((1, 1), (81, 5), (80, 24)));
    // fewer than two rows are left
    assert!(!fits_frame((1, 1), (10, 23), (80, 24)));
    assert!(fits_frame((1, 1), (10, 22), (80, 24)));
    assert!(!fits_frame((1, 1), (10, 5), (80, 1)));
    // the shifted column leaves sixteen signed bits
    assert!(fits_frame((32732, 1), (10, 5), (80, 24)));
    assert!(!fits_frame((32733, 1), (10, 5), (80, 24)));
    assert!(fits_frame((1, 32759), (10, 5), (80, 24)));
    assert!(!fits_frame((1, 32760), (10, 5), (80, 24)));
}

#[test]
fn write_text_centres_the_text_below_the_frame() {
    // frame coordinates: (10 / 2 - 5 / 2 + 1, 5 + 3) = (4, 8)
    assert_eq!(write_text("hello", (10, 5), (80, 24)), plain(39, 16, "hello"));
    // frame coordinates: (5 - 0 + 1, 8)
    assert_eq!(write_text("", (10, 5), (80, 24)), plain(41, 16, ""));
    // a text wider than the frame begins left of it
    assert_eq!(write_text("a text of 22 character", (10, 5), (80, 24)), plain(30, 16, "a text of 22 character"));
}

#[test]
fn write_text_counts_bytes_not_characters() {
    // six bytes: (5 - 3 + 1, 8)
    assert_eq!(write_text("──", (10, 5), (80, 24)), plain(38, 16, "──"));
}

#[test]
fn draw_border_draws_corners_lines_and_bars() {
    // offset: ((80 - 3) / 2, (24 - 2) / 2 - 1) = (38, 10)
    let pieces = draw_border((3, 2), (80, 24));
    assert_eq!(
        pieces,
        vec![
            plain(39, 11, "┌"),
            plain(43, 11, "┐"),
            plain(39, 14, "└"),
            plain(43, 14, "┘"),
            plain(40, 11, "───"),
            plain(40, 14, "───"),
            plain(39, 12, "│"),
            plain(43, 12, "│"),
            plain(39, 13, "│"),
            plain(43, 13, "│"),
        ]
    );
}

#[test]
fn draw_border_of_an_empty_frame_has_no_bars() {
    // offset: (40, 11)
    let pieces = draw_border((0, 0), (80, 24));
    assert_eq!(
        pieces,
        vec![
            plain(41, 12, "┌"),
            plain(42, 12, "┐"),
            plain(41, 13, "└"),
            plain(42, 13, "┘"),
            plain(42, 12, ""),
            plain(42, 13, ""),
        ]
    );
}

#[test]
fn draw_border_has_two_bars_per_row() {
    assert_eq!(draw_border((20, 9), (80, 24)).len(), 6 + 2 * 9);
}

#[test]
fn draw_filled_box_fills_each_row() {
    // offset: (39, 10)
    let rows = draw_filled_box((2, 2), Color::Red, (80, 24));
    let row = |y: u16| TextAt { x: 40, y, text: "██".to_owned(), bg: None, fg: Some(Color::Red) };
    assert_eq!(rows, vec![row(11), row(12)]);
    assert_eq!(draw_filled_box((2, 0), Color::Red, (80, 24)), vec![]);
}

#[test]
fn menu_item_keeps_label_and_value() {
    let item = MenuItem::new("Play again", "again");
    assert_eq!(item.label(), "Play again");
    assert_eq!(item.value(), "again");
}

#[test]
fn longest_label_len_is_the_greatest_byte_length() {
    assert_eq!(longest_label_len(&games()), 5);
    assert_eq!(longest_label_len(&vec![]), 0);
    assert_eq!(longest_label_len(&vec![MenuItem::new("││", "bars")]), 6);
}

#[test]
fn menu_label_text_marks_the_selected_entry_in_bold() {
    assert_eq!(menu_label_text("Pong", true), "\x1b[1m> Pong\x1b[m");
    assert_eq!(menu_label_text("Pong", false), "  Pong");
    assert_eq!(menu_label_text("", true), "\x1b[1m> \x1b[m");
}

#[test]
fn draw_menu_render_draws_border_title_and_entries() {
    // size: (min(6 + 2, 76), min(min(3, 24) + 1, 20)) = (8, 4), offset: (36, 9)
    let texts = draw_menu_render(&games(), "Select", 1, (80, 24));
    assert_eq!(texts.len(), 14 + 1 + 3);
    assert_eq!(&texts[..14], &draw_border((8, 4), (80, 24))[..]);
    assert_eq!(texts[0], plain(37, 10, "┌"));
    assert_eq!(texts[3], plain(46, 15, "┘"));
    assert_eq!(texts[4], plain(38, 10, "────────"));
    assert_eq!(texts[14], plain(40, 12, "Select"));
    assert_eq!(texts[15], plain(40, 13, "  Snake"));
    assert_eq!(texts[16], plain(40, 14, "\x1b[1m> Pong\x1b[m"));
    assert_eq!(texts[17], plain(40, 15, "  Quit"));
}

#[test]
fn draw_menu_render_is_as_wide_as_the_longest_label() {
    let items = vec![MenuItem::new("A much longer label", "long")];
    // size: (19 + 2, min(1 + 1, 20)) = (21, 2)
    let texts = draw_menu_render(&items, "Pick", 5, (80, 24));
    assert_eq!(texts.len(), 10 + 1 + 1);
    assert_eq!(texts[4].text, repeat_str("─", 21));
    assert_eq!(texts[11].text, "  A much longer label");
}

#[test]
fn draw_menu_render_without_entries_is_five_wide() {
    // size: (5 + 2, min(0 + 1, 20)) = (7, 1), offset: (36, 10)
    let texts = draw_menu_render(&vec![], "", 0, (80, 24));
    assert_eq!(texts.len(), 8 + 1);
    assert_eq!(texts[4].text, "───────");
    assert_eq!(texts[8], plain(37, 10, ""));
}

#[test]
fn draw_menu_render_keeps_to_a_small_terminal() {
    // size: (min(8, 6), min(4, 4)) = (6, 4), offset: (2, 1)
    let texts = draw_menu_render(&games(), "Select", 0, (10, 8));
    assert_eq!(texts[4].text, "──────");
    assert_eq!(texts[1], plain(10, 2, "┐"));
    assert_eq!(texts[17], plain(6, 7, "  Quit"));
}

#[test]
fn menu_fits_on_says_when_a_menu_can_be_drawn() {
    assert!(menu_fits_on(&games(), "Select", (80, 24)));
    assert!(menu_fits_on(&games(), "Select", (4, 4)));
    assert!(!menu_fits_on(&games(), "Select", (3, 24)));
    assert!(!menu_fits_on(&games(), "Select", (80, 3)));
    assert!(!menu_fits_on(&games(), "Select", (32768, 24)));
    assert!(!menu_fits_on(&games(), "Select", (80, 32765)));
    assert!(menu_fits_on(&games(), "Select", (80, 32764)));
}

#[test]
fn draw_menu_moves_the_selection_round_the_ends() {
    assert_eq!(draw_menu(1, MenuKey::Up, 3), MenuStep::Show(0));
    assert_eq!(draw_menu(0, MenuKey::Up, 3), MenuStep::Show(2));
    assert_eq!(draw_menu(1, MenuKey::Down, 3), MenuStep::Show(2));
    assert_eq!(draw_menu(2, MenuKey::Down, 3), MenuStep::Show(0));
    assert_eq!(draw_menu(0, MenuKey::Up, 1), MenuStep::Show(0));
    assert_eq!(draw_menu(0, MenuKey::Down, 1), MenuStep::Show(0));
}

#[test]
fn draw_menu_chooses_on_enter_and_ignores_other_keys() {
    assert_eq!(draw_menu(2, MenuKey::Enter, 3), MenuStep::Chosen(2));
    assert_eq!(draw_menu(2, MenuKey::Other, 3), MenuStep::Show(2));
}

#[test]
fn chosen_value_is_the_value_of_the_entry() {
    assert_eq!(chosen_value(&games(), 1), "pong");
    assert_eq!(chosen_value(&games(), 2), "quit");
}

#[test]
fn text_at_new_places_plain_text() {
    assert_eq!(TextAt::new("o", (7, 9)), plain(7, 9, "o"));
    assert_eq!(
        TextAt::with_cols("o", (7, 9), Some(Color::Red), Some(Color::LightWhite)),
        TextAt {
            x: 7,
            y: 9,
            text: "o".to_owned(),
            bg: Some(Color::Red),
            fg: Some(Color::LightWhite)
        }
    );
}
