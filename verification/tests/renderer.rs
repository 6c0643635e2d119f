use term_games::renderer::{color_map, nearest_color, Rasterized, TerminalRenderer, PALETTE_LEN};
use term_games::screen::Color;

const PALETTE: [(Color, u8); 16] = [
    (Color::Black, 0b00000000),
    (Color::Blue, 0b00001100),
    (Color::Cyan, 0b00111100),
    (Color::Green, 0b00110000),
    (Color::Magenta, 0b11001100),
    (Color::Red, 0b11000000),
    (Color::White, 0b11111100),
    (Color::Yellow, 0b11110000),
    (Color::LightBlue, 0b10101100),
    (Color::LightBlack, 0b01010100),
    (Color::LightCyan, 0b10111100),
    (Color::LightGreen, 0b10111000),
    (Color::LightMagenta, 0b11101100),
    (Color::LightRed, 0b11101100),
    (Color::LightWhite, 0b11111100),
    (Color::LightYellow, 0b11111000),
];

/// The first colour of the palette at the least distance, found by search.
fn nearest_by_search(pixel: u8) -> Color {
    let channels = |v: u8| [(v & 0b11000000) >> 6, (v & 0b00110000) >> 4, (v & 0b00001100) >> 2];
    let [r, g, b] = channels(pixel);
    let mut color = PALETTE[0].0;
    let mut min_dist = 100;
    for (col, value) in PALETTE.iter() {
        let [cr, cg, cb] = channels(*value);
        let dist = cr.abs_diff(r) + cg.abs_diff(g) + cb.abs_diff(b);
        if dist < min_dist {
            min_dist = dist;
            color = *col;
        }
    }
    color
}

#[test]
fn nearest_color_of_a_palette_value_is_the_first_colour_with_it() {
    assert_eq!(PALETTE_LEN, 16);
    assert_eq!(nearest_color(0b00000000), Color::Black);
    assert_eq!(nearest_color(0b11000000), Color::Red);
    assert_eq!(nearest_color(0b00110000), Color::Green);
    assert_eq!(nearest_color(0b00001100), Color::Blue);
    assert_eq!(nearest_color(0b11111100), Color::White);
    assert_eq!(nearest_color(0b11101100), Color::LightMagenta);
    assert_eq!(nearest_color(0b01010100), Color::LightBlack);
}

#[test]
fn nearest_color_ignores_the_two_lowest_bits() {
    assert_eq!(nearest_color(0b00000011), Color::Black);
    assert_eq!(nearest_color(0b11000010), Color::Red);
}

#[test]
fn nearest_color_of_a_value_between_colours() {
    // one step of red from black: nothing is nearer than black
    assert_eq!(nearest_color(0b01000000), Color::Black);
    // two steps of red: red is one step away
    assert_eq!(nearest_color(0b10000000), Color::Red);
    assert_eq!(nearest_color(0b11010000), Color::Red);
    // yellow and light yellow are one step away each, yellow comes first
    assert_eq!(nearest_color(0b11110100), Color::Yellow);
}

#[test]
fn color_map_holds_the_nearest_colour_of_each_pixel() {
    let map = color_map();
    assert_eq!(map.len(), 256);
    for pixel in 0..=255u8 {
        assert_eq!(map[pixel as usize], nearest_by_search(pixel), "pixel {}", pixel);
        assert_eq!(nearest_color(pixel), nearest_by_search(pixel), "pixel {}", pixel);
    }
}

#[test]
fn renderer_is_made_for_the_size_of_the_terminal() {
    let renderer = TerminalRenderer::new((80, 24));
    assert_eq!(renderer.screen_width, 80);
    assert_eq!(renderer.screen_height, 24);
    assert_eq!(renderer.color_map, color_map());
}

#[test]
fn image_buffer_has_a_zero_byte_per_cell() {
    let renderer = TerminalRenderer::new((80, 24));
    assert_eq!(renderer.image_buffer(), vec![0u8; 80 * 24]);
    assert_eq!(TerminalRenderer::new((0, 24)).image_buffer(), vec![]);
}

#[test]
fn rasterize_writes_only_the_places_of_columns_and_rows() {
    let renderer = TerminalRenderer::new((3, 2));
    // written: 0 + 0 * y, 1 + 1 * y, 2 + 2 * y for y in 0..2, that is 0, 1, 2, 4
    for _ in 0..50 {
        let mut buffer = vec![7u8; 6];
        renderer.rasterize(&mut buffer);
        assert_eq!(buffer.len(), 6);
        assert_eq!(buffer[3], 7);
        assert_eq!(buffer[5], 7);
    }
}

#[test]
fn rasterize_draws_bytes_at_random() {
    let renderer = TerminalRenderer::new((40, 20));
    let mut buffer = renderer.image_buffer();
    renderer.rasterize(&mut buffer);
    let mut other = renderer.image_buffer();
    renderer.rasterize(&mut other);
    assert!(buffer.iter().any(|byte| *byte != 0));
    assert_ne!(buffer, other);
}

#[test]
fn rasterize_on_an_empty_terminal_writes_nothing() {
    let mut buffer = vec![9u8; 4];
    TerminalRenderer::new((0, 5)).rasterize(&mut buffer);
    TerminalRenderer::new((5, 0)).rasterize(&mut buffer);
    assert_eq!(buffer, vec![9u8; 4]);
    let mut empty: Vec<u8> = vec![];
    TerminalRenderer::new((0, 0)).rasterize(&mut empty);
    assert!(empty.is_empty());
}

#[test]
fn rasterized_is_the_buffer_with_the_size_of_the_terminal() {
    let renderer = TerminalRenderer::new((3, 2));
    let buffer = vec![1u8, 2, 3, 4, 5, 6];
    let image = renderer.rasterized(&buffer);
    assert_eq!(image, Rasterized { screen_width: 3, screen_height: 2, image_data: &buffer[..] });
}

#[test]
fn render_maps_each_pixel_to_its_colour() {
    let renderer = TerminalRenderer::new((2, 2));
    let buffer = vec![0b00000000, 0b11000000, 0b11111100, 0b00001100];
    let colors = renderer.render(&renderer.rasterized(&buffer));
    assert_eq!(colors, vec![Color::Black, Color::Red, Color::White, Color::Blue]);
    assert_eq!(renderer.render(&renderer.rasterized(&vec![])), vec![]);
}

#[test]
fn can_rasterize_into_a_buffer_that_holds_the_last_place() {
    let renderer = TerminalRenderer::new((3, 2));
    // the last place written is (3 - 1) * 2
    assert!(renderer.can_rasterize_into(5));
    assert!(!renderer.can_rasterize_into(4));
    assert!(TerminalRenderer::new((0, 9)).can_rasterize_into(0));
    assert!(TerminalRenderer::new((1, 9)).can_rasterize_into(1));
    assert!(!TerminalRenderer::new((1, 9)).can_rasterize_into(0));
    // the place does not fit sixteen bits
    assert!(!TerminalRenderer::new((300, 300)).can_rasterize_into(1_000_000));
    assert!(TerminalRenderer::new((256, 257)).can_rasterize_into(1_000_000));
    assert!(!TerminalRenderer::new((257, 257)).can_rasterize_into(1_000_000));
}

#[test]
fn write_pixel_writes_the_place_of_column_and_row() {
    let renderer = TerminalRenderer::new((3, 2));
    let mut buffer = vec![0u8; 6];
    // the place of column x and row y is x + x * y
    renderer.write_pixel(&mut buffer, 2, 1, 9);
    assert_eq!(buffer, vec![0, 0, 0, 0, 9, 0]);
    renderer.write_pixel(&mut buffer, 1, 1, 7);
    assert_eq!(buffer, vec![0, 0, 7, 0, 9, 0]);
    renderer.write_pixel(&mut buffer, 2, 0, 5);
    assert_eq!(buffer, vec![0, 0, 5, 0, 9, 0]);
    renderer.write_pixel(&mut buffer, 0, 1, 3);
    assert_eq!(buffer, vec![3, 0, 5, 0, 9, 0]);
}
