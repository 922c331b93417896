use console_engine::color::Color;
use console_engine::engine::ConsoleEngine;
use console_engine::events::{
    Event, KeyCode, KeyEvent, KeyEventKind, KeyModifiers, MouseButton, MouseEvent, MouseEventKind,
    CONTROL,
};
use console_engine::pixel::{pxl, pxl_fg};
use console_engine::render::TermCommand;
use console_engine::screen::Screen;

fn key(c: char) -> KeyEvent {
    KeyEvent::new(KeyCode::Char(c), KeyModifiers::none())
}

fn writes(commands: &[TermCommand]) -> usize {
    commands
        .iter()
        .filter(|c| matches!(c, TermCommand::Styled { .. } | TermCommand::Plain { .. }))
        .count()
}

#[test]
fn input_state_machine() {
    let mut engine = ConsoleEngine::init(4, 2, 30);
    let a = KeyCode::Char('a');
    // frame 1: the key goes down
    engine.wait_frame(vec![key('a')], vec![], vec![]);
    assert!(engine.is_key_pressed(a));
    assert!(engine.is_key_held(a));
    assert!(!engine.is_key_released(a));
    // frame 2: it stays down
    engine.wait_frame(vec![key('a')], vec![], vec![]);
    assert!(!engine.is_key_pressed(a));
    assert!(engine.is_key_held(a));
    assert!(!engine.is_key_released(a));
    // frame 3: it is let go
    engine.wait_frame(vec![], vec![], vec![]);
    assert!(!engine.is_key_pressed(a));
    assert!(!engine.is_key_held(a));
    assert!(engine.is_key_released(a));
    assert!(engine.is_key_released_with_modifier(
        a,
        KeyModifiers::none(),
        KeyEventKind::Press
    ));
    // frame 4: it goes down again
    engine.wait_frame(vec![key('a')], vec![], vec![]);
    assert!(engine.is_key_pressed(a));
    assert!(engine.is_key_held(a));
    assert!(!engine.is_key_released(a));
    assert_eq!(engine.frame_count, 4);
    // frame 5: let go, frame 6: released no more
    engine.wait_frame(vec![], vec![], vec![]);
    assert!(engine.is_key_released(a));
    engine.wait_frame(vec![], vec![], vec![]);
    assert!(!engine.is_key_released(a));
}

#[test]
fn keys_are_told_apart_by_modifier_and_kind() {
    let mut engine = ConsoleEngine::init(4, 2, 30);
    let ctrl_c = KeyEvent::new(KeyCode::Char('c'), KeyModifiers::from_bits(CONTROL));
    let release =
        KeyEvent::new_with_kind(KeyCode::Enter, KeyModifiers::none(), KeyEventKind::Release);
    engine.wait_frame(vec![ctrl_c, release, ctrl_c, key('b')], vec![], vec![]);
    assert!(!engine.is_key_pressed(KeyCode::Char('c')));
    assert!(engine.is_key_pressed_with_modifier(
        KeyCode::Char('c'),
        KeyModifiers::from_bits(CONTROL),
        KeyEventKind::Press
    ));
    assert!(engine.is_key_held_with_modifier(
        KeyCode::Enter,
        KeyModifiers::none(),
        KeyEventKind::Release
    ));
    assert!(!engine.is_key_held(KeyCode::Enter));
    engine.wait_frame(vec![key('b')], vec![], vec![]);
    assert!(engine.is_key_released_with_modifier(
        KeyCode::Enter,
        KeyModifiers::none(),
        KeyEventKind::Release
    ));
    assert!(!engine.is_key_released(KeyCode::Enter));
    assert!(!engine.is_key_released(KeyCode::Char('c')));
    assert!(engine.is_key_released_with_modifier(
        KeyCode::Char('c'),
        KeyModifiers::from_bits(CONTROL),
        KeyEventKind::Press
    ));
    assert!(engine.is_key_held(KeyCode::Char('b')));
    assert!(!engine.is_key_pressed(KeyCode::Char('b')));
}

#[test]
fn frame_count_wraps() {
    let mut engine = ConsoleEngine::init(1, 1, 30);
    engine.frame_count = usize::MAX;
    engine.wait_frame(vec![], vec![], vec![]);
    assert_eq!(engine.frame_count, 0);
    engine.frame_count = usize::MAX;
    assert!(matches!(engine.poll(None, true), Some(Event::Frame)));
    assert_eq!(engine.frame_count, 0);
}

#[test]
fn poll_hands_events_on() {
    let mut engine = ConsoleEngine::init(1, 1, 30);
    assert!(matches!(engine.poll(None, false), None));
    assert_eq!(engine.frame_count, 0);
    assert!(matches!(
        engine.poll(Some(Event::Resize(3, 4)), true),
        Some(Event::Resize(3, 4))
    ));
    assert!(matches!(engine.poll(Some(Event::Key(key('q'))), false), Some(Event::Key(_))));
    assert_eq!(engine.frame_count, 0);
    assert!(matches!(engine.poll(None, true), Some(Event::Frame)));
    assert_eq!(engine.frame_count, 1);
}

#[test]
fn wait_timeout_is_the_rest_of_the_frame() {
    let engine = ConsoleEngine::init(1, 1, 30);
    // a frame of 33 ms
    assert_eq!(engine.wait_timeout(0), Some(0));
    assert_eq!(engine.wait_timeout(10_000_000), Some(23));
    assert_eq!(engine.wait_timeout(10_000_001), Some(22));
    assert_eq!(engine.wait_timeout(32_999_999), Some(0));
    assert_eq!(engine.wait_timeout(33_000_000), None);
    assert_eq!(engine.wait_timeout(u128::MAX), None);
    let fast = ConsoleEngine::init(1, 1, 2000);
    assert_eq!(fast.wait_timeout(0), None);
}

#[test]
fn mouse_events_are_those_of_the_frame() {
    let mut engine = ConsoleEngine::init(4, 2, 30);
    let at = |kind, column, row, bits| MouseEvent {
        kind,
        column,
        row,
        modifiers: KeyModifiers::from_bits(bits),
    };
    engine.wait_frame(
        vec![],
        vec![
            at(MouseEventKind::Moved, 9, 9, 0),
            at(MouseEventKind::Down(MouseButton::Right), 1, 2, 0),
            at(MouseEventKind::Down(MouseButton::Left), 3, 4, CONTROL),
            at(MouseEventKind::Down(MouseButton::Left), 5, 6, 0),
            at(MouseEventKind::Down(MouseButton::Left), 7, 8, 0),
            at(MouseEventKind::Drag(MouseButton::Middle), 2, 1, 0),
            at(MouseEventKind::Up(MouseButton::Left), 6, 5, 0),
            at(MouseEventKind::ScrollDown, 0, 0, CONTROL),
            at(MouseEventKind::ScrollUp, 0, 0, 0),
        ],
        vec![(80, 24), (100, 30)],
    );
    assert_eq!(engine.get_mouse_press(MouseButton::Left), Some((5, 6)));
    assert_eq!(engine.get_mouse_press(MouseButton::Right), Some((1, 2)));
    assert_eq!(engine.get_mouse_press(MouseButton::Middle), None);
    assert_eq!(
        engine.get_mouse_press_with_modifier(MouseButton::Left, KeyModifiers::from_bits(CONTROL)),
        Some((3, 4))
    );
    assert_eq!(engine.get_mouse_held(MouseButton::Middle), Some((2, 1)));
    assert_eq!(engine.get_mouse_held(MouseButton::Left), None);
    assert_eq!(engine.get_mouse_released(MouseButton::Left), Some((6, 5)));
    assert_eq!(
        engine.get_mouse_released_with_modifier(MouseButton::Left, KeyModifiers::from_bits(CONTROL)),
        None
    );
    assert!(!engine.is_mouse_scrolled_down());
    assert!(engine.is_mouse_scrolled_down_with_modifier(KeyModifiers::from_bits(CONTROL)));
    assert!(engine.is_mouse_scrolled_up());
    assert!(!engine.is_mouse_scrolled_up_with_modifier(KeyModifiers::from_bits(CONTROL)));
    assert_eq!(engine.get_resize(), Some((80, 24)));
    engine.wait_frame(vec![], vec![], vec![]);
    assert_eq!(engine.get_mouse_press(MouseButton::Left), None);
    assert!(!engine.is_mouse_scrolled_up());
    assert_eq!(engine.get_resize(), None);
}

#[test]
fn first_draw_writes_everything_and_the_next_nothing() {
    let mut engine = ConsoleEngine::init(3, 2, 30);
    engine.print(0, 0, "ab");
    engine.set_pxl(1, 1, pxl_fg('c', Color::Red));
    let first = engine.draw();
    assert_eq!(
        first,
        vec![
            TermCommand::MoveTo { column: 0, row: 0 },
            TermCommand::Styled { fg: Color::Reset, bg: Color::Reset, chr: 'a' },
            TermCommand::Plain { chr: 'b' },
            TermCommand::Plain { chr: ' ' },
            TermCommand::MoveTo { column: 0, row: 1 },
            TermCommand::Plain { chr: ' ' },
            TermCommand::Styled { fg: Color::Red, bg: Color::Reset, chr: 'c' },
            TermCommand::Styled { fg: Color::Reset, bg: Color::Reset, chr: ' ' },
        ]
    );
    let second = engine.draw();
    assert_eq!(writes(&second), 0);
    assert_eq!(second, vec![TermCommand::MoveTo { column: 0, row: 0 }]);
}

#[test]
fn draw_writes_only_what_changed() {
    let mut engine = ConsoleEngine::init(4, 2, 30);
    engine.draw();
    engine.set_pxl(2, 1, pxl('x'));
    engine.set_pxl(3, 1, pxl('y'));
    assert_eq!(
        engine.draw(),
        vec![
            TermCommand::MoveTo { column: 0, row: 0 },
            TermCommand::MoveTo { column: 2, row: 1 },
            TermCommand::Styled { fg: Color::Reset, bg: Color::Reset, chr: 'x' },
            TermCommand::Plain { chr: 'y' },
        ]
    );
    engine.request_full_draw();
    assert_eq!(writes(&engine.draw()), 8);
    engine.resize(2, 1);
    assert_eq!(writes(&engine.draw()), 2);
}

#[test]
fn draw_steps_over_the_cell_after_a_wide_character_of_the_frame() {
    let mut engine = ConsoleEngine::init(3, 1, 30);
    engine.set_pxl(0, 0, pxl('中'));
    engine.set_pxl(1, 0, pxl('x'));
    engine.set_pxl(2, 0, pxl('y'));
    assert_eq!(
        engine.draw(),
        vec![
            TermCommand::MoveTo { column: 0, row: 0 },
            TermCommand::Styled { fg: Color::Reset, bg: Color::Reset, chr: '中' },
            TermCommand::Plain { chr: 'y' },
        ]
    );
}

#[test]
fn a_screen_of_nul_is_drawn_in_full_every_time() {
    let mut engine = ConsoleEngine::init(2, 1, 30);
    engine.fill(pxl('\u{0}'));
    assert_eq!(writes(&engine.draw()), 2);
    assert_eq!(writes(&engine.draw()), 2);
}

#[test]
fn engine_draws_on_its_screen() {
    let mut engine = ConsoleEngine::init(5, 3, 30);
    assert_eq!(engine.get_width(), 5);
    assert_eq!(engine.get_height(), 3);
    engine.fill(pxl('.'));
    engine.line(0, 0, 4, 2, pxl('#'));
    assert_eq!(engine.get_pxl(4, 2), Ok(pxl('#')));
    assert_eq!(engine.get_pxl(4, 0), Ok(pxl('.')));
    assert!(engine.get_pxl(5, 0).is_err());
    engine.clear_screen();
    assert_eq!(engine.get_pxl(0, 0), Ok(pxl(' ')));
    engine.rect(0, 0, 4, 2, pxl('r'));
    engine.fill_rect(1, 1, 3, 1, pxl('f'));
    engine.scroll(1, 0, pxl('s'));
    let part = engine.extract(0, 1, 4, 1, pxl('?'));
    assert_eq!(part.get_pxl(0, 0), Ok(pxl('f')));
    assert_eq!(part.get_pxl(3, 0), Ok(pxl('r')));
    assert_eq!(part.get_pxl(4, 0), Ok(pxl('s')));
    let mut other = Screen::new(2, 2);
    other.fill(pxl('o'));
    engine.print_screen(0, 0, &other);
    engine.print_screen_alpha(3, 0, &other, 'o');
    assert_eq!(engine.get_pxl(1, 1), Ok(pxl('o')));
    assert_eq!(engine.get_pxl(3, 0), Ok(pxl('r')));
    engine.set_screen(&other);
    assert_eq!(engine.get_width(), 2);
    assert_eq!(engine.get_screen().get_pxl(1, 1), Ok(pxl('o')));
    engine.circle(0, 0, 1, pxl('c'));
    engine.fill_circle(1, 1, 1, pxl('d'));
    engine.triangle(0, 0, 1, 0, 0, 1, pxl('t'));
    engine.fill_triangle(0, 0, 0, 2, 2, 0, pxl('u'));
    assert_eq!(engine.get_pxl(0, 1), Ok(pxl('u')));
    engine.print_fbg(0, 0, "z", Color::Red, Color::Blue);
    assert_eq!(engine.get_pxl(0, 0).unwrap().fg, Color::Red);
    engine.rect_border(0, 0, 1, 1, console_engine::rect_style::BorderStyle::new_simple());
    assert_eq!(engine.get_pxl(1, 1), Ok(pxl('+')));
}

#[test]
fn check_resize_follows_the_terminal() {
    let mut engine = ConsoleEngine::init(4, 2, 30);
    engine.fill(pxl('#'));
    engine.check_resize((4, 2));
    assert_eq!((engine.get_width(), engine.get_height()), (4, 2));
    engine.check_resize((6, 1));
    assert_eq!((engine.get_width(), engine.get_height()), (6, 1));
    assert_eq!(engine.get_pxl(3, 0), Ok(pxl('#')));
    assert_eq!(engine.get_pxl(5, 0), Ok(pxl(' ')));
    assert!(ConsoleEngine::needs_room((80, 24), 81, 1));
    assert!(ConsoleEngine::needs_room((80, 24), 1, 25));
    assert!(!ConsoleEngine::needs_room((80, 24), 80, 24));
    assert!(ConsoleEngine::needs_room((79, 100), 80, 24));
    assert!(ConsoleEngine::needs_room((80, 23), 80, 24));
    assert!(ConsoleEngine::needs_room((81, 1), 80, 24));
    assert!(!ConsoleEngine::needs_room((81, 25), 80, 24));
    assert!(!ConsoleEngine::needs_room((0, 0), 0, 0));
    assert!(ConsoleEngine::needs_room((u16::MAX, u16::MAX), 65536, 1));
}
