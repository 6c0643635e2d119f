use term_games::screen::menu::{
    chosen_value, draw_menu, draw_menu_render, get_window_scroll_items_range, longest_label_len,
    menu_fits_on, MenuItem, MAX_WINDOW_ITEMS,
};
use term_games::screen::{MenuKey, MenuStep, TextAt};

fn plain(x: u16, y: u16, text: &str) -> TextAt {
    TextAt { x, y, text: text.to_owned(), bg: None, fg: None }
}

fn games() -> Vec<MenuItem<'static>> {
    vec![
        MenuItem::new("Snake", "snake"),
        MenuItem::new("Pong", "pong"),
        MenuItem::new("Quit", "quit"),
    ]
}

/// The window found by trying each window of the list in turn.
fn window_by_search(len: usize, selected: usize, max: usize) -> std::ops::Range<usize> {
    let offset = max / 2;
    let windows = if len >= max { len - max + 1 } else { 0 };
    for i in 0..windows {
        if selected < offset && i == 0 {
            return i..i + max;
        } else if selected >= offset && i == selected - offset {
            return i..i + max;
        } else if selected + offset >= len - 1 && i == windows - 1 {
            return i..i + max;
        }
    }
    0..len
}

#[test]
fn menu_scroll_item_keeps_label_and_value() {
    let item = MenuItem::new("Quit", "quit");
    assert_eq!(item.label(), "Quit");
    assert_eq!(item.value(), "quit");
}

#[test]
fn window_begins_at_the_top_for_early_selections() {
    let items = vec![0u8; 10];
    assert_eq!(get_window_scroll_items_range(&items, 0, 7), 0..7);
    assert_eq!(get_window_scroll_items_range(&items, 2, 7), 0..7);
    assert_eq!(get_window_scroll_items_range(&items, 3, 7), 0..7);
}

#[test]
fn window_follows_the_selection() {
    let items = vec![0u8; 10];
    assert_eq!(get_window_scroll_items_range(&items, 4, 7), 1..8);
    assert_eq!(get_window_scroll_items_range(&items, 5, 7), 2..9);
    assert_eq!(get_window_scroll_items_range(&items, 6, 7), 3..10);
}

#[test]
fn window_ends_at_the_bottom_for_late_selections() {
    let items = vec![0u8; 10];
    assert_eq!(get_window_scroll_items_range(&items, 7, 7), 3..10);
    assert_eq!(get_window_scroll_items_range(&items, 9, 7), 3..10);
    assert_eq!(get_window_scroll_items_range(&items, 400, 7), 3..10);
    assert_eq!(get_window_scroll_items_range(&items, usize::MAX, 7), 3..10);
}

#[test]
fn window_of_a_short_list_is_the_list() {
    assert_eq!(get_window_scroll_items_range(&vec![0u8; 5], 3, 7), 0..5);
    assert_eq!(get_window_scroll_items_range(&vec![0u8; 7], 6, 7), 0..7);
    assert_eq!(get_window_scroll_items_range(&Vec::<u8>::new(), 0, 7), 0..0);
}

#[test]
fn window_with_an_even_size_and_a_size_of_one() {
    // half of four is two
    assert_eq!(get_window_scroll_items_range(&vec![0u8; 9], 1, 4), 0..4);
    assert_eq!(get_window_scroll_items_range(&vec![0u8; 9], 5, 4), 3..7);
    assert_eq!(get_window_scroll_items_range(&vec![0u8; 9], 8, 4), 5..9);
    assert_eq!(get_window_scroll_items_range(&vec![0u8; 3], 0, 1), 0..1);
    assert_eq!(get_window_scroll_items_range(&vec![0u8; 3], 2, 1), 2..3);
}

#[test]
fn window_is_the_one_found_by_search() {
    for len in 0..14usize {
        let items = vec![(); len];
        for max in 1..10usize {
            for selected in 0..16usize {
                assert_eq!(
                    get_window_scroll_items_range(&items, selected, max),
                    window_by_search(len, selected, max),
                    "len {} selected {} max {}",
                    len,
                    selected,
                    max
                );
            }
        }
    }
}

#[test]
fn scrolling_menu_draws_box_title_and_entries() {
    // size: (min(13 + 2 + 2, 76), min(min(7, 3) + 3, 24)) = (17, 6)
    // coords: (80 / 2 - 17 / 2, 24 / 2 - 6 / 2) = (32, 9)
    let texts = draw_menu_render(&games(), "Select a game", 0, (80, 24));
    assert_eq!(texts.len(), 6 + 14 + 1 + 3);
    for row in 0..6u16 {
        assert_eq!(texts[row as usize], plain(32, 9 + row, "                "));
    }
    assert_eq!(texts[6], plain(32, 9, "┌"));
    assert_eq!(texts[7], plain(48, 9, "┐"));
    assert_eq!(texts[8], plain(32, 14, "└"));
    assert_eq!(texts[9], plain(48, 14, "┘"));
    assert_eq!(texts[10], plain(33, 9, "───────────────"));
    assert_eq!(texts[11], plain(33, 14, "───────────────"));
    assert_eq!(texts[12], plain(32, 10, "│"));
    assert_eq!(texts[13], plain(48, 10, "│"));
    assert_eq!(texts[18], plain(32, 13, "│"));
    assert_eq!(texts[19], plain(48, 13, "│"));
    assert_eq!(texts[20], plain(34, 10, "\x1b[1m\x1b[4mSelect a game\x1b[m"));
    assert_eq!(texts[21], plain(34, 11, "\x1b[1m> Snake\x1b[m"));
    assert_eq!(texts[22], plain(34, 12, "  Pong"));
    assert_eq!(texts[23], plain(34, 13, "  Quit"));
}

#[test]
fn scrolling_menu_is_as_wide_as_label_and_mark() {
    // size: (min(5 + 4 + 2, 76), 6), coords: (40 - 5, 9)
    let texts = draw_menu_render(&games(), "Pick", 2, (80, 24));
    assert_eq!(texts[0], plain(35, 9, "          "));
    assert_eq!(texts[10].text, "─────────");
    assert_eq!(texts[23], plain(37, 13, "\x1b[1m> Quit\x1b[m"));
}

#[test]
fn scrolling_menu_shows_seven_entries_round_the_selection() {
    let labels = ["a", "b", "c", "d", "e", "f", "g", "h", "i", "j"];
    let items: Vec<MenuItem> = labels.iter().map(|l| MenuItem::new(l, l)).collect();
    // size: (min(5 + 2, 76), min(7 + 3, 24)) = (7, 10), coords: (40 - 3, 12 - 5) = (37, 7)
    let texts = draw_menu_render(&items, "", 5, (80, 24));
    assert_eq!(texts.len(), 10 + (6 + 16) + 1 + 7);
    let entries = &texts[33..];
    assert_eq!(entries[0], plain(39, 9, "  c"));
    assert_eq!(entries[3], plain(39, 12, "\x1b[1m> f\x1b[m"));
    assert_eq!(entries[6], plain(39, 15, "  i"));
}

#[test]
fn scrolling_menu_marks_nothing_when_the_selection_is_outside() {
    let texts = draw_menu_render(&games(), "Pick", 3, (80, 24));
    assert_eq!(texts[21].text, "  Snake");
    assert_eq!(texts[22].text, "  Pong");
    assert_eq!(texts[23].text, "  Quit");
}

#[test]
fn scrolling_menu_fits_from_six_columns_and_two_rows() {
    assert!(menu_fits_on(&games(), "Select", (6, 2)));
    assert!(!menu_fits_on(&games(), "Select", (5, 24)));
    assert!(!menu_fits_on(&games(), "Select", (80, 1)));
    assert!(!menu_fits_on(&vec![], "Select", (80, 24)));
    assert_eq!(MAX_WINDOW_ITEMS, 7);
    assert_eq!(longest_label_len(&games()), 5);
}

#[test]
fn scrolling_menu_on_the_smallest_terminal() {
    // size: (min(11, 2), min(6, 2)) = (2, 2), coords: (3 - 1, 1 - 1) = (2, 0)
    let texts = draw_menu_render(&games(), "Pick", 0, (6, 2));
    assert_eq!(texts.len(), 2 + 6 + 1 + 3);
    assert_eq!(texts[0], plain(2, 0, " "));
    assert_eq!(texts[2], plain(2, 0, "┌"));
    assert_eq!(texts[5], plain(3, 1, "┘"));
    assert_eq!(texts[6], plain(3, 0, ""));
    assert_eq!(texts[8].y, 1);
    assert_eq!(texts[11], plain(4, 4, "  Quit"));
}

#[test]
fn scrolling_menu_selection_stops_at_the_ends() {
    assert_eq!(draw_menu(1, MenuKey::Up, 3), MenuStep::Show(0));
    assert_eq!(draw_menu(0, MenuKey::Up, 3), MenuStep::Show(0));
    assert_eq!(draw_menu(1, MenuKey::Down, 3), MenuStep::Show(2));
    assert_eq!(draw_menu(2, MenuKey::Down, 3), MenuStep::Show(2));
    assert_eq!(draw_menu(0, MenuKey::Up, 0), MenuStep::Show(0));
}

#[test]
fn scrolling_menu_chooses_on_enter_and_ignores_other_keys() {
    assert_eq!(draw_menu(1, MenuKey::Enter, 3), MenuStep::Chosen(1));
    assert_eq!(draw_menu(1, MenuKey::Other, 3), MenuStep::Show(1));
    assert_eq!(chosen_value(&games(), 0), "snake");
}
