use alacritty_core::cell::{
    Cell, CellExtra, Color, Flags, Hyperlink, NamedColor, BOLD, DIM, DIM_BOLD, INVERSE, STRIKEOUT,
    UNDERLINE, WIDE_CHAR, WIDE_CHAR_SPACER,
};
use alacritty_core::color::{CellRgb, List, Rgb};
use alacritty_core::config::{Colors, InvertedCellColors, PrimaryColors, UiConfig};
use alacritty_core::content::{
    point_to_viewport, BgAlpha, CursorShape, RenderableCell, RenderableContent, ViewportPoint,
};
use alacritty_core::grid::Scroll;
use alacritty_core::index::{Column, Line, Point};
use alacritty_core::term::Term;

fn at(line: i32, column: usize) -> Point {
    Point::new(Line(line), Column(column))
}

fn on_screen(line: usize, column: usize) -> ViewportPoint {
    ViewportPoint { line, column: Column(column) }
}

const PRIMARY_FG: Rgb = Rgb { r: 0xd8, g: 0xd8, b: 0xd8 };
const PRIMARY_BG: Rgb = Rgb { r: 0x18, g: 0x18, b: 0x18 };

fn config() -> UiConfig {
    UiConfig {
        colors: Colors {
            primary: PrimaryColors {
                foreground: PRIMARY_FG,
                background: PRIMARY_BG,
                bright_foreground: None,
            },
            cursor: InvertedCellColors {
                foreground: CellRgb::CellBackground,
                background: CellRgb::CellForeground,
            },
            vi_mode_cursor: InvertedCellColors {
                foreground: CellRgb::Rgb(Rgb { r: 1, g: 1, b: 1 }),
                background: CellRgb::Rgb(Rgb { r: 2, g: 2, b: 2 }),
            },
            transparent_background_colors: false,
        },
        draw_bold_text_with_bright_colors: false,
        window_opacity_is_zero: false,
    }
}

/// A palette in which the color of slot `i` has the red value `i % 256`
/// and the green value `i / 256`.
fn palette() -> List {
    let mut list = List::filled(Rgb::new(0, 0, 0));
    for slot in 0..alacritty_core::color::COUNT {
        list.set(slot, slot_color(slot));
    }
    list
}

fn slot_color(slot: usize) -> Rgb {
    Rgb::new((slot % 256) as u8, (slot / 256) as u8, 0)
}

fn flags(bits: u16) -> Flags {
    Flags::from_bits(bits)
}

fn all_cells(content: &mut RenderableContent<'_>) -> Vec<RenderableCell> {
    let mut cells = Vec::new();
    while let Some(cell) = content.next() {
        cells.push(cell);
    }
    cells
}

#[test]
fn foreground_follows_the_flags() {
    let term = Term::new(1, 1, 0);
    let list = palette();
    let plain = config();
    let content =
        RenderableContent::new(&term, &plain, &list, CursorShape::Block, on_screen(0, 0), false);
    let red = Color::Named(NamedColor::Red);
    assert_eq!(content.compute_fg_rgb(red, flags(0)), slot_color(1));
    assert_eq!(content.compute_fg_rgb(red, flags(DIM)), slot_color(260));
    // Bold is not drawn bright: dim and bold together are dim.
    assert_eq!(content.compute_fg_rgb(red, flags(BOLD)), slot_color(1));
    assert_eq!(content.compute_fg_rgb(red, flags(DIM_BOLD)), slot_color(260));
    assert_eq!(
        content.compute_fg_rgb(Color::Named(NamedColor::BrightRed), flags(DIM)),
        slot_color(1)
    );
    // Without a bright foreground, the dim and bold foreground is the dim
    // foreground.
    let fg = Color::Named(NamedColor::Foreground);
    assert_eq!(content.compute_fg_rgb(fg, flags(DIM_BOLD)), slot_color(268));
    assert_eq!(content.compute_fg_rgb(fg, flags(0)), slot_color(256));

    let mut bright = config();
    bright.draw_bold_text_with_bright_colors = true;
    bright.colors.primary.bright_foreground = Some(Rgb::new(255, 255, 255));
    let content =
        RenderableContent::new(&term, &bright, &list, CursorShape::Block, on_screen(0, 0), false);
    assert_eq!(content.compute_fg_rgb(red, flags(BOLD)), slot_color(9));
    assert_eq!(content.compute_fg_rgb(red, flags(DIM)), slot_color(260));
    assert_eq!(content.compute_fg_rgb(red, flags(DIM_BOLD)), slot_color(1));
    assert_eq!(content.compute_fg_rgb(fg, flags(BOLD)), slot_color(267));
    assert_eq!(content.compute_fg_rgb(fg, flags(DIM_BOLD)), slot_color(256));
    assert_eq!(
        content.compute_fg_rgb(Color::Named(NamedColor::DimRed), flags(BOLD)),
        slot_color(1)
    );
}

#[test]
fn indexed_foreground_follows_the_flags() {
    let term = Term::new(1, 1, 0);
    let list = palette();
    let plain = config();
    let content =
        RenderableContent::new(&term, &plain, &list, CursorShape::Block, on_screen(0, 0), false);
    assert_eq!(content.compute_fg_rgb(Color::Indexed(3), flags(0)), slot_color(3));
    assert_eq!(content.compute_fg_rgb(Color::Indexed(3), flags(BOLD)), slot_color(3));
    assert_eq!(content.compute_fg_rgb(Color::Indexed(3), flags(DIM)), slot_color(262));
    assert_eq!(content.compute_fg_rgb(Color::Indexed(11), flags(DIM)), slot_color(3));
    assert_eq!(content.compute_fg_rgb(Color::Indexed(16), flags(DIM)), slot_color(16));
    assert_eq!(content.compute_fg_rgb(Color::Indexed(255), flags(DIM_BOLD)), slot_color(255));
    let mut bright = config();
    bright.draw_bold_text_with_bright_colors = true;
    let content =
        RenderableContent::new(&term, &bright, &list, CursorShape::Block, on_screen(0, 0), false);
    assert_eq!(content.compute_fg_rgb(Color::Indexed(3), flags(BOLD)), slot_color(11));
    assert_eq!(content.compute_fg_rgb(Color::Indexed(8), flags(BOLD)), slot_color(8));
    assert_eq!(content.compute_fg_rgb(Color::Indexed(3), flags(DIM)), slot_color(3));
}

#[test]
fn spec_colors_are_dimmed() {
    let term = Term::new(1, 1, 0);
    let list = palette();
    let plain = config();
    let content =
        RenderableContent::new(&term, &plain, &list, CursorShape::Block, on_screen(0, 0), false);
    let color = Color::Spec(Rgb::new(100, 200, 50));
    assert_eq!(content.compute_fg_rgb(color, flags(0)), Rgb::new(100, 200, 50));
    assert_eq!(content.compute_fg_rgb(color, flags(BOLD)), Rgb::new(100, 200, 50));
    assert_eq!(content.compute_fg_rgb(color, flags(DIM)), Rgb::new(66, 132, 33));
    assert_eq!(content.compute_fg_rgb(color, flags(DIM_BOLD)), Rgb::new(66, 132, 33));
    assert_eq!(content.compute_bg_rgb(color), Rgb::new(100, 200, 50));
    assert_eq!(content.compute_bg_rgb(Color::Indexed(200)), slot_color(200));
    assert_eq!(content.compute_bg_rgb(Color::Named(NamedColor::Background)), slot_color(257));
}

#[test]
fn colors_of_the_program_come_first() {
    let mut term = Term::new(1, 1, 0);
    term.set_color(1, Some(Rgb::new(7, 7, 7)));
    let list = palette();
    let plain = config();
    let content =
        RenderableContent::new(&term, &plain, &list, CursorShape::Block, on_screen(0, 0), false);
    assert_eq!(content.color(1), Rgb::new(7, 7, 7));
    assert_eq!(content.color(2), slot_color(2));
    assert_eq!(content.compute_fg_rgb(Color::Named(NamedColor::Red), flags(0)), Rgb::new(7, 7, 7));
}

#[test]
fn background_alpha_goes_by_the_named_color() {
    let mut config = config();
    let default_bg = Color::Named(NamedColor::Background);
    // The same RGB value under another name is drawn.
    let same_value = Color::Spec(slot_color(257));
    assert_eq!(RenderableContent::compute_bg_alpha(&config, default_bg), BgAlpha::Transparent);
    assert_eq!(RenderableContent::compute_bg_alpha(&config, same_value), BgAlpha::Opaque);
    assert_eq!(RenderableContent::compute_bg_alpha(&config, Color::Indexed(0)), BgAlpha::Opaque);
    config.colors.transparent_background_colors = true;
    assert_eq!(RenderableContent::compute_bg_alpha(&config, default_bg), BgAlpha::Transparent);
    assert_eq!(RenderableContent::compute_bg_alpha(&config, same_value), BgAlpha::WindowOpacity);
}

#[test]
fn inverse_cells_are_swapped_and_opaque() {
    let term = Term::new(1, 1, 0);
    let list = palette();
    let mut config = config();
    config.colors.transparent_background_colors = true;
    let content =
        RenderableContent::new(&term, &config, &list, CursorShape::Block, on_screen(0, 0), false);
    let mut cell = Cell::with_char('x');
    cell.fg = Color::Indexed(1);
    let drawn = content.renderable_cell(&cell, on_screen(0, 0));
    assert_eq!(drawn.fg, slot_color(1));
    assert_eq!(drawn.bg, slot_color(257));
    assert_eq!(drawn.bg_alpha, BgAlpha::Transparent);
    assert_eq!(drawn.underline, slot_color(1));
    assert_eq!(drawn.character, 'x');
    assert!(drawn.extra.is_none());

    cell.flags = flags(INVERSE);
    let drawn = content.renderable_cell(&cell, on_screen(0, 0));
    assert_eq!(drawn.fg, slot_color(257));
    assert_eq!(drawn.bg, slot_color(1));
    // Never see-through, whatever the configuration says.
    assert_eq!(drawn.bg_alpha, BgAlpha::Opaque);
    assert_eq!(drawn.underline, slot_color(257));
}

#[test]
fn extra_is_carried_over() {
    let term = Term::new(1, 1, 0);
    let list = palette();
    let config = config();
    let content =
        RenderableContent::new(&term, &config, &list, CursorShape::Block, on_screen(0, 0), false);
    let mut cell = Cell::with_char('e');
    cell.extra = Some(CellExtra {
        zerowidth: vec!['\u{301}'],
        underline_color: Some(Color::Indexed(5)),
        hyperlink: Some(Hyperlink::new("id".into(), "uri".into())),
    });
    cell.flags = flags(UNDERLINE | DIM);
    let drawn = content.renderable_cell(&cell, on_screen(3, 4));
    assert_eq!(drawn.point, on_screen(3, 4));
    assert_eq!(drawn.underline, slot_color(264));
    let extra = drawn.extra.as_ref().unwrap();
    assert_eq!(extra.zerowidth, Some(vec!['\u{301}']));
    assert_eq!(extra.hyperlink.as_ref().unwrap().uri, "uri");
    assert!(!content.is_empty(&drawn));
}

#[test]
fn empty_cells_show_nothing() {
    let term = Term::new(1, 1, 0);
    let list = palette();
    let config = config();
    let content =
        RenderableContent::new(&term, &config, &list, CursorShape::Block, on_screen(0, 0), false);
    let blank = content.renderable_cell(&Cell::with_char(' '), on_screen(0, 0));
    assert!(content.is_empty(&blank));
    let letter = content.renderable_cell(&Cell::with_char('a'), on_screen(0, 0));
    assert!(!content.is_empty(&letter));
    let mut struck = Cell::with_char(' ');
    struck.flags = flags(STRIKEOUT);
    assert!(!content.is_empty(&content.renderable_cell(&struck, on_screen(0, 0))));
    let mut underlined = Cell::with_char(' ');
    underlined.flags = flags(UNDERLINE);
    assert!(!content.is_empty(&content.renderable_cell(&underlined, on_screen(0, 0))));
    let mut bold = Cell::with_char(' ');
    bold.flags = flags(BOLD);
    assert!(content.is_empty(&content.renderable_cell(&bold, on_screen(0, 0))));
    let mut colored = Cell::with_char(' ');
    colored.bg = Color::Indexed(4);
    assert!(!content.is_empty(&content.renderable_cell(&colored, on_screen(0, 0))));
    // A background that is drawn with no opacity shows nothing.
    let mut see_through = config;
    see_through.colors.transparent_background_colors = true;
    see_through.window_opacity_is_zero = true;
    let content = RenderableContent::new(
        &term,
        &see_through,
        &list,
        CursorShape::Block,
        on_screen(0, 0),
        false,
    );
    assert!(content.is_empty(&content.renderable_cell(&colored, on_screen(0, 0))));
}

#[test]
fn cursor_takes_the_colors_of_the_cell() {
    let term = Term::new(1, 1, 0);
    let list = palette();
    let config = config();
    let content =
        RenderableContent::new(&term, &config, &list, CursorShape::Beam, on_screen(0, 0), false);
    let mut cell = Cell::with_char('x');
    cell.fg = Color::Indexed(1);
    cell.bg = Color::Indexed(2);
    cell.flags = flags(WIDE_CHAR);
    let drawn = content.renderable_cell(&cell, on_screen(0, 0));
    let cursor = content.renderable_cursor(&drawn);
    assert_eq!(cursor.color(), slot_color(1));
    assert_eq!(cursor.text_color(), slot_color(2));
    assert_eq!(cursor.shape(), CursorShape::Beam);
    assert_eq!(cursor.point(), on_screen(0, 0));
    assert!(cursor.is_wide());
}

#[test]
fn cursor_with_low_contrast_takes_the_primary_colors() {
    let term = Term::new(1, 1, 0);
    let list = palette();
    let config = config();
    let content =
        RenderableContent::new(&term, &config, &list, CursorShape::Block, on_screen(0, 0), true);
    let mut cell = Cell::with_char('x');
    cell.fg = Color::Spec(Rgb::new(10, 10, 10));
    cell.bg = Color::Spec(Rgb::new(11, 11, 11));
    let drawn = content.renderable_cell(&cell, on_screen(0, 0));
    let cursor = content.renderable_cursor(&drawn);
    assert_eq!(cursor.color(), PRIMARY_FG);
    assert_eq!(cursor.text_color(), PRIMARY_BG);
    assert!(!cursor.is_wide());
}

#[test]
fn fixed_cursor_colors_fall_back_too() {
    let mut term = Term::new(1, 1, 0);
    term.set_vi_mode(true);
    let list = palette();
    let config = config();
    // With contrast enough, the cursor is drawn in its fixed colors.
    let content =
        RenderableContent::new(&term, &config, &list, CursorShape::Block, on_screen(0, 0), false);
    let drawn = content.renderable_cell(&Cell::with_char('x'), on_screen(0, 0));
    let cursor = content.renderable_cursor(&drawn);
    assert_eq!(cursor.color(), Rgb::new(2, 2, 2));
    assert_eq!(cursor.text_color(), Rgb::new(1, 1, 1));
    // Without, in the primary colors, though both colors are fixed.
    let content =
        RenderableContent::new(&term, &config, &list, CursorShape::Block, on_screen(0, 0), true);
    let cursor = content.renderable_cursor(&drawn);
    assert_eq!(cursor.color(), PRIMARY_FG);
    assert_eq!(cursor.text_color(), PRIMARY_BG);
    // The color that the program has set for the cursor comes first.
    term.set_color(258, Some(Rgb::new(9, 9, 9)));
    let content =
        RenderableContent::new(&term, &config, &list, CursorShape::Block, on_screen(0, 0), false);
    assert_eq!(content.renderable_cursor(&drawn).color(), Rgb::new(9, 9, 9));
    let content =
        RenderableContent::new(&term, &config, &list, CursorShape::Block, on_screen(0, 0), true);
    assert_eq!(content.renderable_cursor(&drawn).color(), PRIMARY_FG);
}

#[test]
fn cursor_colors_are_the_colors_before_the_fallback() {
    let mut term = Term::new(2, 2, 5);
    let mut cell = Cell::with_char('x');
    cell.fg = Color::Indexed(1);
    cell.bg = Color::Indexed(2);
    cell.flags = flags(INVERSE);
    term.grid_mut().set_cell(at(1, 1), cell);
    let list = palette();
    let config = config();
    // The cursor takes the foreground as it is drawn, its text the
    // background.
    assert_eq!(
        RenderableContent::cursor_colors(&term, &config, &list, on_screen(1, 1)),
        (slot_color(2), slot_color(1))
    );
    assert_eq!(
        RenderableContent::cursor_colors(&term, &config, &list, on_screen(0, 0)),
        (slot_color(256), slot_color(257))
    );
    // Fixed colors are the same on every cell.
    term.set_vi_mode(true);
    assert_eq!(
        RenderableContent::cursor_colors(&term, &config, &list, on_screen(1, 1)),
        (Rgb::new(2, 2, 2), Rgb::new(1, 1, 1))
    );
    term.set_color(258, Some(Rgb::new(9, 9, 9)));
    assert_eq!(
        RenderableContent::cursor_colors(&term, &config, &list, on_screen(0, 0)),
        (Rgb::new(9, 9, 9), Rgb::new(1, 1, 1))
    );
}

#[test]
fn block_cursor_with_low_contrast_draws_its_cell_in_the_primary_colors() {
    let mut term = Term::new(1, 2, 5);
    term.set_vi_mode(true);
    term.grid_mut().set_cell(at(0, 0), Cell::with_char('a'));
    let list = palette();
    let config = config();
    let mut content =
        RenderableContent::new(&term, &config, &list, CursorShape::Block, on_screen(0, 0), true);
    let cells = all_cells(&mut content);
    assert_eq!(cells.len(), 1);
    assert_eq!(cells[0].bg, PRIMARY_FG);
    assert_eq!(cells[0].fg, PRIMARY_BG);
    assert_eq!(cells[0].bg_alpha, BgAlpha::Opaque);
    assert_eq!(content.cursor().color(), PRIMARY_FG);
    assert_eq!(content.cursor().text_color(), PRIMARY_BG);
}

#[test]
fn cells_come_in_reading_order_without_the_empty_ones() {
    let mut term = Term::new(2, 3, 5);
    term.grid_mut().set_cell(at(0, 1), Cell::with_char('a'));
    term.grid_mut().set_cell(at(1, 0), Cell::with_char('b'));
    let mut wide = Cell::with_char('\u{5b57}');
    wide.flags = flags(WIDE_CHAR);
    term.grid_mut().set_cell(at(1, 1), wide);
    let mut spacer = Cell::with_char(' ');
    spacer.bg = Color::Indexed(3);
    spacer.flags = flags(WIDE_CHAR_SPACER);
    term.grid_mut().set_cell(at(1, 2), spacer);
    let list = palette();
    let config = config();
    // The cursor is on an empty cell, which is drawn for it.
    let mut content =
        RenderableContent::new(&term, &config, &list, CursorShape::Block, on_screen(0, 2), false);
    let cells = all_cells(&mut content);
    let seen: Vec<(char, ViewportPoint)> =
        cells.iter().map(|cell| (cell.character, cell.point)).collect();
    assert_eq!(
        seen,
        vec![
            ('a', on_screen(0, 1)),
            (' ', on_screen(0, 2)),
            ('b', on_screen(1, 0)),
            ('\u{5b57}', on_screen(1, 1)),
        ]
    );
    // The block cursor gives its cell the cursor's colors.
    assert_eq!(cells[1].bg, slot_color(256));
    assert_eq!(cells[1].fg, slot_color(257));
    assert_eq!(cells[1].bg_alpha, BgAlpha::Opaque);
    assert_eq!(content.cursor().point(), on_screen(0, 2));
    assert_eq!(content.cursor().color(), slot_color(256));
    // Nothing is left.
    assert!(content.next().is_none());
}

#[test]
fn other_cursor_shapes_leave_the_cell_alone() {
    let mut term = Term::new(1, 2, 5);
    term.grid_mut().set_cell(at(0, 0), Cell::with_char('a'));
    let list = palette();
    let config = config();
    let mut content =
        RenderableContent::new(&term, &config, &list, CursorShape::Underline, on_screen(0, 0), false);
    let cells = all_cells(&mut content);
    assert_eq!(cells.len(), 1);
    assert_eq!(cells[0].fg, slot_color(256));
    assert_eq!(cells[0].bg, slot_color(257));
    assert_eq!(cells[0].bg_alpha, BgAlpha::Transparent);
    assert_eq!(content.cursor().shape(), CursorShape::Underline);
}

#[test]
fn scrolled_back_viewport_shows_the_history() {
    let mut term = Term::new(2, 2, 5);
    term.grid_mut().set_cell(at(0, 0), Cell::with_char('a'));
    term.grid_mut().set_cell(at(1, 0), Cell::with_char('b'));
    term.grid_mut().scroll_up(2);
    term.grid_mut().set_cell(at(1, 1), Cell::with_char('c'));
    term.scroll_display(Scroll::Delta(1));
    let list = palette();
    let config = config();
    // No cursor on the viewport.
    let mut content = RenderableContent::new(
        &term,
        &config,
        &list,
        CursorShape::Hidden,
        on_screen(usize::MAX, 0),
        false,
    );
    let seen: Vec<(char, ViewportPoint)> =
        all_cells(&mut content).iter().map(|cell| (cell.character, cell.point)).collect();
    assert_eq!(seen, vec![('b', on_screen(0, 0))]);
}

#[test]
fn point_to_viewport_adds_the_offset() {
    assert_eq!(point_to_viewport(0, at(3, 4)), Some(on_screen(3, 4)));
    assert_eq!(point_to_viewport(5, at(-5, 1)), Some(on_screen(0, 1)));
    assert_eq!(point_to_viewport(5, at(-2, 1)), Some(on_screen(3, 1)));
    assert_eq!(point_to_viewport(5, at(-6, 1)), None);
}

#[test]
fn named_colors_have_their_variants() {
    assert_eq!(NamedColor::Red.to_bright(), NamedColor::BrightRed);
    assert_eq!(NamedColor::DimRed.to_bright(), NamedColor::Red);
    assert_eq!(NamedColor::BrightRed.to_bright(), NamedColor::BrightRed);
    assert_eq!(NamedColor::Foreground.to_bright(), NamedColor::BrightForeground);
    assert_eq!(NamedColor::DimForeground.to_bright(), NamedColor::Foreground);
    assert_eq!(NamedColor::Cursor.to_bright(), NamedColor::Cursor);
    assert_eq!(NamedColor::Red.to_dim(), NamedColor::DimRed);
    assert_eq!(NamedColor::BrightRed.to_dim(), NamedColor::Red);
    assert_eq!(NamedColor::DimRed.to_dim(), NamedColor::DimRed);
    assert_eq!(NamedColor::Foreground.to_dim(), NamedColor::DimForeground);
    assert_eq!(NamedColor::BrightForeground.to_dim(), NamedColor::Foreground);
    assert_eq!(NamedColor::Background.to_dim(), NamedColor::Background);
    assert_eq!(NamedColor::Black.index(), 0);
    assert_eq!(NamedColor::BrightWhite.index(), 15);
    assert_eq!(NamedColor::Foreground.index(), 256);
    assert_eq!(NamedColor::DimBlack.index(), 259);
    assert_eq!(NamedColor::DimForeground.index(), 268);
}

#[test]
fn flags_are_a_set_of_bits() {
    let mut set = Flags::empty();
    assert!(!set.contains(BOLD));
    set.insert(DIM_BOLD);
    assert!(set.contains(BOLD));
    assert!(set.contains(DIM));
    assert!(set.contains(DIM_BOLD));
    assert!(set.intersects(BOLD | UNDERLINE));
    assert!(!set.intersects(UNDERLINE));
    assert_eq!(set.masked(DIM), DIM);
    set.remove(BOLD);
    assert!(!set.contains(DIM_BOLD));
    assert_eq!(set.to_bits(), DIM);
    assert!(Flags::empty().contains(0));
}
