use console_engine::color::Color;
use console_engine::pixel::{pxl, pxl_bg, pxl_fbg, pxl_fg, Pixel};
use console_engine::rect_style::BorderStyle;
use console_engine::render::TermCommand;
use console_engine::screen::Screen;

fn rows(screen: &Screen) -> Vec<String> {
    let mut out = Vec::new();
    for y in 0..screen.get_height() as i32 {
        let mut row = String::new();
        for x in 0..screen.get_width() as i32 {
            row.push(screen.get_pxl(x, y).unwrap().chr);
        }
        out.push(row);
    }
    out
}

fn same(a: &Screen, b: &Screen) -> bool {
    if a.get_width() != b.get_width() || a.get_height() != b.get_height() {
        return false;
    }
    for y in 0..a.get_height() as i32 {
        for x in 0..a.get_width() as i32 {
            if a.get_pxl(x, y) != b.get_pxl(x, y) {
                return false;
            }
        }
    }
    true
}

#[test]
fn pixel_constructors() {
    assert_eq!(pxl('x'), Pixel { fg: Color::Reset, bg: Color::Reset, chr: 'x' });
    assert_eq!(pxl_fg('x', Color::Red), Pixel { fg: Color::Red, bg: Color::Reset, chr: 'x' });
    assert_eq!(pxl_bg('x', Color::Blue), Pixel { fg: Color::Reset, bg: Color::Blue, chr: 'x' });
    let p = pxl_fbg('x', Color::Red, Color::Rgb { r: 1, g: 2, b: 3 });
    assert_eq!(p.get_colors(), (Color::Red, Color::Rgb { r: 1, g: 2, b: 3 }));
}

#[test]
fn constructors_and_emptiness() {
    let mut scr = Screen::new(3, 2);
    assert_eq!(rows(&scr), vec!["   ", "   "]);
    assert!(!scr.is_empty());
    assert!(!scr.check_empty());
    let mut empty = Screen::new_empty(3, 2);
    assert!(empty.is_empty());
    assert_eq!(empty.get_pxl(2, 1).unwrap().chr, '\u{0}');
    empty.set_pxl(0, 0, pxl('a'));
    assert!(empty.is_empty());
    assert!(!empty.check_empty());
    assert!(!empty.is_empty());
    empty.fill(pxl('\u{0}'));
    assert!(empty.is_empty());
    empty.clear();
    assert!(!empty.is_empty());
    assert_eq!(rows(&empty), vec!["   ", "   "]);
    let zero = Screen::new(0, 5);
    assert_eq!(zero.get_width(), 0);
    scr.fill(pxl_fg('#', Color::Green));
    assert_eq!(scr.get_pxl(1, 1).unwrap(), pxl_fg('#', Color::Green));
}

#[test]
fn from_vec_and_from_string() {
    let scr = Screen::from_vec(vec![pxl('a'), pxl('b'), pxl('c'), pxl('d'), pxl('e'), pxl('f')], 3, 2);
    assert_eq!(rows(&scr), vec!["abc", "def"]);
    let scr = Screen::from_string(String::from("héllo!"), Color::Red, Color::Blue, 2, 3);
    assert_eq!(rows(&scr), vec!["hé", "ll", "o!"]);
    assert_eq!(scr.get_pxl(1, 0).unwrap(), pxl_fbg('é', Color::Red, Color::Blue));
}

#[test]
fn get_pxl_reports_out_of_bounds() {
    let scr = Screen::new(4, 3);
    assert_eq!(scr.get_pxl(3, 2), Ok(pxl(' ')));
    assert_eq!(
        scr.get_pxl(5, 7),
        Err(String::from(
            "Attempted to get_pxl out of bounds (coords: [5, 7], bounds: [3, 2])"
        ))
    );
    assert_eq!(
        scr.get_pxl(-1, 0),
        Err(String::from(
            "Attempted to get_pxl out of bounds (coords: [-1, 0], bounds: [3, 2])"
        ))
    );
    assert!(scr.get_pxl(4, 0).is_err());
    assert!(scr.get_pxl(0, 3).is_err());
}

#[test]
fn set_pxl_outside_is_dropped() {
    let mut scr = Screen::new(3, 3);
    let before = scr.clone();
    scr.set_pxl(-1, 0, pxl('x'));
    scr.set_pxl(3, 0, pxl('x'));
    scr.set_pxl(0, -1, pxl('x'));
    scr.set_pxl(0, 3, pxl('x'));
    scr.set_pxl(i32::MAX, i32::MIN, pxl('x'));
    assert!(same(&scr, &before));
    scr.set_pxl(2, 1, pxl('x'));
    assert_eq!(rows(&scr), vec!["   ", "  x", "   "]);
}

#[test]
fn lines_along_the_axes() {
    let mut scr = Screen::new(5, 4);
    scr.h_line(3, 1, 1, pxl('-'));
    scr.v_line(0, 3, 0, pxl('|'));
    assert_eq!(rows(&scr), vec!["|    ", "|--- ", "|    ", "|    "]);
    scr.h_line(-10, 3, 10, pxl('='));
    assert_eq!(rows(&scr)[3], "=====");
    scr.v_line(9, 0, 3, pxl('x'));
    scr.h_line(0, 9, 4, pxl('x'));
    assert_eq!(rows(&scr), vec!["|    ", "|--- ", "|    ", "====="]);
}

#[test]
fn line_follows_bresenham() {
    let mut scr = Screen::new(5, 3);
    scr.line(0, 0, 4, 2, pxl('#'));
    assert_eq!(rows(&scr), vec!["##   ", "  ## ", "    #"]);
    let mut scr = Screen::new(3, 5);
    scr.line(0, 0, 2, 4, pxl('#'));
    assert_eq!(rows(&scr), vec!["#  ", "#  ", " # ", " # ", "  #"]);
    let mut scr = Screen::new(4, 4);
    scr.line(3, 0, 0, 3, pxl('/'));
    assert_eq!(rows(&scr), vec!["   /", "  / ", " /  ", "/   "]);
}

#[test]
fn line_is_the_same_from_either_end() {
    let ends = [-3, 0, 2, 5, 9, 12];
    for &x0 in &ends {
        for &y0 in &ends {
            for &x1 in &ends {
                for &y1 in &ends {
                    let mut a = Screen::new(10, 10);
                    let mut b = Screen::new(10, 10);
                    a.line(x0, y0, x1, y1, pxl('#'));
                    b.line(x1, y1, x0, y0, pxl('#'));
                    assert!(same(&a, &b), "{} {} {} {}", x0, y0, x1, y1);
                }
            }
        }
    }
}

#[test]
fn line_is_clipped_to_the_screen() {
    let mut clipped = Screen::new(4, 4);
    clipped.line(-5, -5, 8, 8, pxl('#'));
    assert_eq!(rows(&clipped), vec!["#   ", " #  ", "  # ", "   #"]);
    // the visible part is the part of the same line on a larger screen
    let mut large = Screen::new(20, 20);
    large.line(2, 1, 17, 9, pxl('#'));
    let mut small = Screen::new(6, 5);
    small.line(2 - 5, 1 - 3, 17 - 5, 9 - 3, pxl('#'));
    let part = large.extract(5, 3, 10, 7, pxl('?'));
    assert!(same(&small, &part));
    let mut far = Screen::new(3, 3);
    far.line(i32::MIN, 1, i32::MIN + 5, 1, pxl('#'));
    far.rect(i32::MIN, i32::MIN, i32::MAX, i32::MAX, pxl('#'));
    far.fill_triangle(i32::MAX, i32::MAX, i32::MAX - 2, i32::MAX, i32::MAX, i32::MAX - 2, pxl('#'));
    far.fill_triangle(i32::MIN, i32::MIN, i32::MIN, -1, -1, i32::MIN, pxl('#'));
    far.circle(i32::MAX, i32::MIN, 3, pxl('#'));
    far.fill_circle(i32::MIN, i32::MAX, 3, pxl('#'));
    assert_eq!(rows(&far), vec!["   ", "   ", "   "]);
}

#[test]
fn rectangles() {
    let mut scr = Screen::new(5, 4);
    scr.rect(3, 2, 1, 0, pxl('#'));
    assert_eq!(rows(&scr), vec![" ### ", " # # ", " ### ", "     "]);
    let mut scr = Screen::new(5, 4);
    scr.fill_rect(3, 2, 1, 1, pxl('#'));
    assert_eq!(rows(&scr), vec!["     ", " ### ", " ### ", "     "]);
    let mut scr = Screen::new(5, 4);
    scr.fill_rect(-2, -2, 1, 9, pxl('#'));
    assert_eq!(rows(&scr), vec!["##   ", "##   ", "##   ", "##   "]);
    let mut scr = Screen::new(5, 4);
    scr.rect_border(0, 0, 4, 3, BorderStyle::new_light());
    assert_eq!(rows(&scr), vec!["┌───┐", "│   │", "│   │", "└───┘"]);
    let mut scr = Screen::new(3, 3);
    scr.rect_border(1, 1, 1, 1, BorderStyle::new_simple());
    assert_eq!(rows(&scr), vec!["   ", " + ", "   "]);
}

#[test]
fn border_styles() {
    assert_eq!(BorderStyle::new_simple().top_bottom, pxl('-'));
    assert_eq!(BorderStyle::new_simple().left_right, pxl('|'));
    assert_eq!(BorderStyle::new_solid().corner_top_left, pxl('█'));
    assert_eq!(BorderStyle::new_heavy().corner_bottom_right, pxl('┛'));
    assert_eq!(BorderStyle::new_double().corner_top_right, pxl('╗'));
    assert_eq!(BorderStyle::new_light().corner_bottom_left, pxl('└'));
    let mut style = BorderStyle::new(pxl('1'), pxl('2'), pxl('3'), pxl('4'), pxl('5'), pxl('6'));
    assert_eq!(style.corner_top_right, pxl('2'));
    style.with_colors(Color::Red, Color::Blue);
    assert_eq!(style.corner_top_left, pxl_fbg('1', Color::Red, Color::Blue));
    assert_eq!(style.left_right, pxl_fbg('6', Color::Red, Color::Blue));
}

#[test]
fn circles() {
    let mut scr = Screen::new(3, 3);
    scr.circle(1, 1, 1, pxl('o'));
    assert_eq!(rows(&scr), vec![" o ", "o o", " o "]);
    let mut scr = Screen::new(3, 3);
    scr.fill_circle(1, 1, 1, pxl('o'));
    assert_eq!(rows(&scr), vec![" o ", "ooo", " o "]);
    let mut scr = Screen::new(7, 7);
    scr.circle(3, 3, 3, pxl('o'));
    assert_eq!(
        rows(&scr),
        vec!["  ooo  ", " o   o ", "o     o", "o     o", "o     o", " o   o ", "  ooo  "]
    );
    let mut scr = Screen::new(7, 7);
    scr.fill_circle(3, 3, 3, pxl('o'));
    assert_eq!(
        rows(&scr),
        vec!["  ooo  ", " ooooo ", "ooooooo", "ooooooo", "ooooooo", " ooooo ", "  ooo  "]
    );
    let mut scr = Screen::new(3, 3);
    scr.circle(1, 1, 0, pxl('o'));
    scr.fill_circle(1, 1, 0, pxl('o'));
    assert_eq!(rows(&scr), vec!["   ", "   ", "   "]);
}

fn orient(a: (i64, i64), b: (i64, i64), c: (i64, i64)) -> i64 {
    (b.0 - a.0) * (c.1 - a.1) - (b.1 - a.1) * (c.0 - a.0)
}

fn edge(a: (i64, i64), b: (i64, i64), p: (i64, i64)) -> bool {
    let owns = a.1 > b.1 || (a.1 == b.1 && a.0 < b.0);
    orient(a, b, p) + if owns { 0 } else { -1 } >= 0
}

fn covers(v0: (i64, i64), v1: (i64, i64), v2: (i64, i64), p: (i64, i64)) -> bool {
    let (v1, v2) = if orient(v0, v1, v2) < 0 { (v2, v1) } else { (v1, v2) };
    edge(v1, v2, p) && edge(v2, v0, p) && edge(v0, v1, p)
}

#[test]
fn fill_triangle_paints_the_covered_cells() {
    let corners = [
        ((1, 1), (8, 2), (3, 7)),
        ((8, 2), (1, 1), (3, 7)),
        ((0, 0), (9, 0), (0, 9)),
        ((-3, 4), (12, 1), (5, 13)),
        ((2, 2), (2, 2), (2, 2)),
        ((1, 5), (8, 5), (4, 5)),
        ((0, 0), (0, 4), (8, 2)),
    ];
    for (a, b, c) in corners {
        let mut filled = Screen::new(10, 10);
        filled.fill_triangle(a.0, a.1, b.0, b.1, c.0, c.1, pxl('#'));
        for y in 0..10 {
            for x in 0..10 {
                let inside = covers(
                    (a.0 as i64, a.1 as i64),
                    (b.0 as i64, b.1 as i64),
                    (c.0 as i64, c.1 as i64),
                    (x as i64, y as i64),
                );
                assert_eq!(
                    filled.get_pxl(x, y).unwrap().chr == '#',
                    inside,
                    "{:?} {:?} {:?} at {} {}",
                    a,
                    b,
                    c,
                    x,
                    y
                );
            }
        }
    }
    let mut scr = Screen::new(5, 5);
    scr.fill_triangle(0, 0, 0, 4, 4, 2, pxl('#'));
    assert_eq!(rows(&scr), vec!["     ", "##   ", "#### ", "##   ", "     "]);
}

#[test]
fn fill_triangle_is_cut_to_the_screen() {
    // the cells of a small screen are those of a large one
    let mut small = Screen::new(3, 5);
    small.fill_triangle(0, 0, 0, 4, 8, 2, pxl('#'));
    assert_eq!(small.get_pxl(2, 2), Ok(pxl('#')));
    let mut large = Screen::new(9, 5);
    large.fill_triangle(0, 0, 0, 4, 8, 2, pxl('#'));
    assert!(same(&small, &large.extract(0, 0, 2, 4, pxl('?'))));
    let mut low = Screen::new(9, 3);
    low.fill_triangle(0, 0, 0, 4, 8, 2, pxl('#'));
    assert!(same(&low, &large.extract(0, 0, 8, 2, pxl('?'))));
}

#[test]
fn triangles_that_share_an_edge_cover_no_cell_twice() {
    // two triangles on either side of the edge from (1, 1) to (7, 6)
    let a = (1i64, 1i64);
    let b = (7i64, 6i64);
    let c = (8i64, 0i64);
    let d = (0i64, 8i64);
    for y in 0..9 {
        for x in 0..9 {
            let first = covers(a, b, c, (x, y));
            let second = covers(a, b, d, (x, y));
            assert!(!(first && second), "{} {}", x, y);
        }
    }
    let mut scr = Screen::new(9, 9);
    scr.fill(pxl('.'));
    scr.fill_triangle(1, 1, 7, 6, 8, 0, pxl('1'));
    let first = scr.clone();
    scr.fill_triangle(1, 1, 7, 6, 0, 8, pxl('2'));
    let mut ones = 0;
    let mut twos = 0;
    for y in 0..9 {
        for x in 0..9 {
            // what the first fill wrote, the second leaves
            if first.get_pxl(x, y) == Ok(pxl('1')) {
                assert_eq!(scr.get_pxl(x, y), Ok(pxl('1')), "{} {}", x, y);
                ones += 1;
            }
            if scr.get_pxl(x, y) == Ok(pxl('2')) {
                twos += 1;
            }
        }
    }
    assert!(ones > 0 && twos > 0);
    // two triangles on either side of a level edge: the cells on it are painted
    let mut level = Screen::new(5, 5);
    level.fill(pxl('.'));
    level.fill_triangle(0, 2, 2, 0, 4, 2, pxl('1'));
    let above = level.clone();
    level.fill_triangle(0, 2, 4, 2, 2, 4, pxl('2'));
    assert_eq!(rows(&above), vec![".....", ".11..", ".....", ".....", "....."]);
    assert_eq!(rows(&level), vec![".....", ".11..", "2222.", ".22..", "....."]);
    assert_eq!(level.get_pxl(2, 2), Ok(pxl('2')));
    // a quad cut in two along a diagonal: each cell strictly inside is painted once
    let mut quad = Screen::new(9, 9);
    quad.fill(pxl('.'));
    quad.fill_triangle(0, 0, 0, 8, 8, 8, pxl('1'));
    quad.fill_triangle(0, 0, 8, 8, 8, 0, pxl('2'));
    for y in 1..8 {
        for x in 1..8 {
            assert!(quad.get_pxl(x, y) != Ok(pxl('.')), "{} {}", x, y);
        }
    }
}

#[test]
fn scroll_moves_and_fills() {
    let start = Screen::from_string(String::from("abcdefghijkl"), Color::Reset, Color::Reset, 4, 3);
    let mut scr = start.clone();
    scr.scroll(1, 0, pxl('.'));
    assert_eq!(rows(&scr), vec!["bcd.", "fgh.", "jkl."]);
    let mut scr = start.clone();
    scr.scroll(-2, 0, pxl('.'));
    assert_eq!(rows(&scr), vec!["..ab", "..ef", "..ij"]);
    let mut scr = start.clone();
    scr.scroll(0, 1, pxl('.'));
    assert_eq!(rows(&scr), vec!["efgh", "ijkl", "...."]);
    let mut scr = start.clone();
    scr.scroll(0, -1, pxl('.'));
    assert_eq!(rows(&scr), vec!["....", "abcd", "efgh"]);
    let mut scr = start.clone();
    scr.scroll(1, -1, pxl('.'));
    assert_eq!(rows(&scr), vec!["....", "bcd.", "fgh."]);
    let mut scr = start.clone();
    scr.scroll(4, 0, pxl('.'));
    assert_eq!(rows(&scr), vec!["....", "....", "...."]);
    let mut scr = start.clone();
    scr.scroll(0, i32::MIN, pxl('\u{0}'));
    assert!(scr.is_empty());
    assert_eq!(scr.get_pxl(0, 0).unwrap().chr, '\u{0}');
    let mut scr = start.clone();
    scr.scroll(0, 0, pxl('.'));
    assert!(same(&scr, &start));
}

#[test]
fn scroll_there_and_back_loses_one_band() {
    let start = Screen::from_string(String::from("abcdefghijkl"), Color::Reset, Color::Reset, 4, 3);
    let mut scr = start.clone();
    scr.scroll(1, 0, pxl('.'));
    scr.scroll(-1, 0, pxl('.'));
    assert_eq!(rows(&scr), vec![".bcd", ".fgh", ".jkl"]);
    let mut scr = start.clone();
    scr.scroll(-3, 0, pxl('.'));
    scr.scroll(3, 0, pxl('.'));
    assert_eq!(rows(&scr), vec!["a...", "e...", "i..."]);
}

#[test]
fn extract_copies_mirrors_and_pads() {
    let scr = Screen::from_string(String::from("abcdefghijkl"), Color::Reset, Color::Reset, 4, 3);
    let whole = scr.extract(0, 0, 3, 2, pxl('?'));
    assert!(same(&whole, &scr));
    assert!(!whole.is_empty());
    assert_eq!(rows(&scr.extract(1, 1, 2, 2, pxl('?'))), vec!["fg", "jk"]);
    assert_eq!(rows(&scr.extract(2, 1, 1, 2, pxl('?'))), vec!["gf", "kj"]);
    assert_eq!(rows(&scr.extract(1, 2, 2, 1, pxl('?'))), vec!["jk", "fg"]);
    assert_eq!(rows(&scr.extract(3, 2, 0, 0, pxl('?'))), vec!["lkji", "hgfe", "dcba"]);
    assert_eq!(rows(&scr.extract(-1, -1, 1, 0, pxl('?'))), vec!["???", "?ab"]);
    assert_eq!(rows(&scr.extract(3, 2, 4, 3, pxl('?'))), vec!["l?", "??"]);
    assert_eq!(rows(&scr.extract(2, 2, 2, 2, pxl('?'))), vec!["k"]);
}

#[test]
fn resize_keeps_the_overlap() {
    let start = Screen::from_string(String::from("abcdefghijkl"), Color::Reset, Color::Reset, 4, 3);
    let mut scr = start.clone();
    scr.resize(2, 4);
    assert_eq!(rows(&scr), vec!["ab", "ef", "ij", "  "]);
    let mut scr = start.clone();
    scr.resize(5, 2);
    assert_eq!(rows(&scr), vec!["abcd ", "efgh "]);
    let mut scr = start.clone();
    scr.resize(0, 0);
    assert_eq!(scr.get_width(), 0);
    assert_eq!(scr.get_height(), 0);
    scr.resize(2, 1);
    assert_eq!(rows(&scr), vec!["  "]);
}

#[test]
fn print_screen_lays_one_screen_over_another() {
    let sprite = Screen::from_string(String::from("ab.d"), Color::Reset, Color::Reset, 2, 2);
    let mut scr = Screen::new(4, 3);
    scr.fill(pxl('-'));
    scr.print_screen(1, 1, &sprite);
    assert_eq!(rows(&scr), vec!["----", "-ab-", "-.d-"]);
    let mut scr = Screen::new(4, 3);
    scr.fill(pxl('-'));
    scr.print_screen_alpha(1, 1, &sprite, '.');
    assert_eq!(rows(&scr), vec!["----", "-ab-", "--d-"]);
    let mut scr = Screen::new(4, 3);
    scr.fill(pxl('-'));
    scr.print_screen(3, -1, &sprite);
    assert_eq!(rows(&scr), vec!["---.", "----", "----"]);
    scr.print_screen(i32::MAX, i32::MAX, &sprite);
    assert_eq!(rows(&scr), vec!["---.", "----", "----"]);
}

#[test]
fn print_writes_text() {
    let mut scr = Screen::new(6, 3);
    scr.print(1, 0, "ab\ncd");
    assert_eq!(rows(&scr), vec![" ab   ", " cd   ", "      "]);
    let mut scr = Screen::new(6, 3);
    scr.print_fbg(2, 1, "hello, world", Color::Red, Color::Blue);
    assert_eq!(rows(&scr), vec!["      ", "  hell", "      "]);
    assert_eq!(scr.get_pxl(2, 1).unwrap(), pxl_fbg('h', Color::Red, Color::Blue));
    let mut scr = Screen::new(6, 3);
    scr.print(0, 0, "abcd\rx\ty");
    assert_eq!(rows(&scr), vec!["x yd  ", "      ", "      "]);
    let mut scr = Screen::new(6, 3);
    scr.print(-2, 0, "abcd\nefgh");
    assert_eq!(rows(&scr), vec!["cd    ", "gh    ", "      "]);
    let mut scr = Screen::new(6, 3);
    scr.print(1, -1, "one\ntwo\nthree");
    assert_eq!(rows(&scr), vec![" two  ", " three", "      "]);
    let mut scr = Screen::new(6, 3);
    scr.print(0, -5, "one\ntwo");
    scr.print(6, 0, "off");
    scr.print(0, 3, "off");
    assert_eq!(rows(&scr), vec!["      ", "      ", "      "]);
    let mut scr = Screen::new(6, 3);
    scr.print(0, 1, "a\nb\nc\nd");
    assert_eq!(rows(&scr), vec!["      ", "a     ", "b     "]);
    let mut scr = Screen::new(6, 3);
    scr.print(-1, 0, "ab\rcd");
    assert_eq!(rows(&scr), vec!["cd    ", "      ", "      "]);
    let mut scr = Screen::new(0, 0);
    scr.print(-1, -1, "a\nb");
    assert_eq!(scr.get_width(), 0);
}

#[test]
fn draw_writes_every_cell() {
    let scr = Screen::from_vec(
        vec![pxl('a'), pxl_fg('b', Color::Red), pxl('c'), pxl('d')],
        2,
        2,
    );
    assert_eq!(
        scr.draw(),
        vec![
            TermCommand::Styled { fg: Color::Reset, bg: Color::Reset, chr: 'a' },
            TermCommand::Styled { fg: Color::Red, bg: Color::Reset, chr: 'b' },
            TermCommand::NewLine,
            TermCommand::Styled { fg: Color::Reset, bg: Color::Reset, chr: 'c' },
            TermCommand::Styled { fg: Color::Reset, bg: Color::Reset, chr: 'd' },
        ]
    );
}

#[test]
fn draw_steps_over_the_cell_after_a_wide_character() {
    let scr = Screen::from_vec(vec![pxl('中'), pxl('\u{0}'), pxl('x'), pxl('y')], 4, 1);
    assert_eq!(
        scr.try_draw(),
        Some(vec![
            TermCommand::Styled { fg: Color::Reset, bg: Color::Reset, chr: '中' },
            TermCommand::Styled { fg: Color::Reset, bg: Color::Reset, chr: 'x' },
            TermCommand::Styled { fg: Color::Reset, bg: Color::Reset, chr: 'y' },
        ])
    );
    // a wide character in the last column takes the new line with it
    let scr = Screen::from_vec(vec![pxl('a'), pxl('中'), pxl('b'), pxl('c')], 2, 2);
    assert_eq!(
        scr.try_draw(),
        Some(vec![
            TermCommand::Styled { fg: Color::Reset, bg: Color::Reset, chr: 'a' },
            TermCommand::Styled { fg: Color::Reset, bg: Color::Reset, chr: '中' },
            TermCommand::NewLine,
            TermCommand::Styled { fg: Color::Reset, bg: Color::Reset, chr: 'c' },
        ])
    );
}

#[test]
fn draw_has_no_plan_for_control_characters() {
    assert_eq!(Screen::new_empty(2, 2).try_draw(), None);
    let scr = Screen::from_vec(vec![pxl('a'), pxl('\n')], 2, 1);
    assert_eq!(scr.try_draw(), None);
    assert_eq!(Screen::new(0, 3).try_draw(), Some(vec![]));
}
