//! The engine: the screen that is drawn to, the frame that was drawn last, and
//! the keys and mouse events of the current frame.

use vstd::prelude::*;
use crate::color::Color;
use crate::events::{Event, KeyCode, KeyEvent, KeyEventKind, KeyModifiers, MouseButton, MouseEvent,
    MouseEventKind};
use crate::grid::Grid;
use crate::pixel::{blank, Pixel};
use crate::raster::{fill_rect_shape, fill_triangle_shape, h_line_shape, line_shape, rect_shape,
    triangle_shape, v_line_shape};
use crate::rect_style::BorderStyle;
use crate::render::{draw_plan, plan_frame, TermCommand};
use crate::screen::circle::{circle_shape, disc_shape};
use crate::screen::scroll::scroll_empty;
use crate::screen::text::printed;
use crate::screen::{out_of_bounds_text, Screen, NUL};
use crate::grid::span;
use crate::utils::{contains, eq_is_equivalence, faithful, member, intersect, intersect_spec,
    lemma_select_has, lemma_union_has, outersect_left, outersect_left_spec, union, union_spec};

verus! {

/// What an engine holds.
pub struct EngineView {
    /// The screen that is drawn to.
    pub screen: Grid,
    /// The cached emptiness of that screen.
    pub screen_empty: bool,
    /// The frame that was handed to the terminal last.
    pub last_frame: Grid,
    /// The cached emptiness of that frame.
    pub last_empty: bool,
    /// The number of frames that have passed, counted round the range of `usize`.
    pub frame_count: usize,
    /// The time a frame takes, in milliseconds.
    pub time_limit: u64,
    /// The keys that went down in this frame.
    pub pressed: Seq<KeyEvent>,
    /// The keys that are down in this frame.
    pub held: Seq<KeyEvent>,
    /// The keys that were down in the frame before and are not now.
    pub released: Seq<KeyEvent>,
    /// The mouse events of this frame.
    pub mouse: Seq<MouseEvent>,
    /// The sizes the terminal took in this frame.
    pub resizes: Seq<(u16, u16)>,
}

/// A screen with the frame drawn last beside it, and the input of the current
/// frame.
pub struct ConsoleEngine {
    time_limit: u64,
    /// The number of frames that have passed. The engine only counts it.
    pub frame_count: usize,
    width: u32,
    height: u32,
    screen: Screen,
    screen_last_frame: Screen,
    keys_pressed: Vec<KeyEvent>,
    keys_held: Vec<KeyEvent>,
    keys_released: Vec<KeyEvent>,
    mouse_events: Vec<MouseEvent>,
    resize_events: Vec<(u16, u16)>,
}

impl View for ConsoleEngine {
    type V = EngineView;

    closed spec fn view(&self) -> EngineView {
        EngineView {
            screen: self.screen@,
            screen_empty: self.screen.cached_empty(),
            last_frame: self.screen_last_frame@,
            last_empty: self.screen_last_frame.cached_empty(),
            frame_count: self.frame_count,
            time_limit: self.time_limit,
            pressed: self.keys_pressed@,
            held: self.keys_held@,
            released: self.keys_released@,
            mouse: self.mouse_events@,
            resizes: self.resize_events@,
        }
    }
}

/// The pixel of a cell nothing was ever drawn to.
pub open spec fn void() -> Pixel {
    Pixel { bg: Color::Reset, fg: Color::Reset, chr: NUL }
}

/// The frame that makes the next draw write every cell.
pub open spec fn no_frame(width: nat, height: nat) -> Grid {
    Grid::filled(width, height, void())
}

/// The count of frames after one more frame.
pub open spec fn next_count(count: usize) -> usize {
    if count == usize::MAX {
        0
    } else {
        (count + 1) as usize
    }
}

/// The keys that are still down: those that were pressed or held in the frame
/// before and are among the keys captured in this frame.
pub open spec fn still_down(pressed: Seq<KeyEvent>, held: Seq<KeyEvent>, captured: Seq<KeyEvent>)
    -> Seq<KeyEvent> {
    intersect_spec(union_spec(pressed, held), captured)
}

/// The keys that went down in this frame: the captured keys that are not still
/// down from the frame before.
pub open spec fn pressed_now(pressed: Seq<KeyEvent>, held: Seq<KeyEvent>, captured: Seq<KeyEvent>)
    -> Seq<KeyEvent> {
    outersect_left_spec(captured, still_down(pressed, held, captured))
}

/// The keys that are down in this frame: those still down, then those that
/// went down.
pub open spec fn held_now(pressed: Seq<KeyEvent>, held: Seq<KeyEvent>, captured: Seq<KeyEvent>)
    -> Seq<KeyEvent> {
    union_spec(still_down(pressed, held, captured), pressed_now(pressed, held, captured))
}

/// The keys that were held in the frame before and are not still down.
pub open spec fn released_now(pressed: Seq<KeyEvent>, held: Seq<KeyEvent>, captured: Seq<KeyEvent>)
    -> Seq<KeyEvent> {
    outersect_left_spec(held, still_down(pressed, held, captured))
}

/// The place of the first of `events` that is of the given kind with the given
/// modifiers.
pub open spec fn first_at(events: Seq<MouseEvent>, kind: MouseEventKind, modifier: KeyModifiers)
    -> Option<(u32, u32)>
    decreases events.len(),
{
    if events.len() == 0 {
        None
    } else if events[0].kind == kind && events[0].modifiers == modifier {
        Some((events[0].column as u32, events[0].row as u32))
    } else {
        first_at(events.drop_first(), kind, modifier)
    }
}

/// How long to wait for input before the frame is over, in milliseconds, when
/// `elapsed` nanoseconds of the frame have passed: the whole milliseconds that
/// remain, counted round the time of a frame. Nothing where the frame is over.
pub open spec fn wait_budget(time_limit: u64, elapsed: u128) -> Option<u64> {
    if time_limit * 1_000_000 > elapsed {
        Some((((time_limit * 1_000_000 - elapsed) / 1_000_000) % (time_limit as int)) as u64)
    } else {
        None
    }
}

impl ConsoleEngine {
    /// The two screens have the size of the engine.
    pub closed spec fn wf(&self) -> bool {
        &&& self.screen@.width == self.width
        &&& self.screen@.height == self.height
        &&& self.screen_last_frame@.width == self.width
        &&& self.screen_last_frame@.height == self.height
    }

    /// An engine with a blank screen of the given size that aims at `target_fps`
    /// frames per second. No frame was drawn yet and no input captured.
    pub fn init(width: u32, height: u32, target_fps: u32) -> (engine: ConsoleEngine)
        requires
            target_fps > 0,
            width * height <= usize::MAX,
        ensures
            engine.wf(),
            engine@ == (EngineView {
                screen: Grid::filled(width as nat, height as nat, blank()),
                screen_empty: false,
                last_frame: no_frame(width as nat, height as nat),
                last_empty: true,
                frame_count: 0,
                time_limit: (1000int / target_fps as int) as u64,
                pressed: Seq::empty(),
                held: Seq::empty(),
                released: Seq::empty(),
                mouse: Seq::empty(),
                resizes: Seq::empty(),
            }),
    {
        ConsoleEngine {
            time_limit: (1000 / target_fps) as u64,
            frame_count: 0,
            width,
            height,
            screen: Screen::new(width, height),
            screen_last_frame: Screen::new_empty(width, height),
            keys_pressed: Vec::new(),
            keys_held: Vec::new(),
            keys_released: Vec::new(),
            mouse_events: Vec::new(),
            resize_events: Vec::new(),
        }
    }

    /// The number of columns of the screen.
    pub fn get_width(&self) -> (w: u32)
        ensures
            w == self@.screen.width,
    {
        self.screen.get_width()
    }

    /// The number of rows of the screen.
    pub fn get_height(&self) -> (h: u32)
        ensures
            h == self@.screen.height,
    {
        self.screen.get_height()
    }

    /// Writes a blank to every cell of the screen.
    pub fn clear_screen(&mut self)
        requires
            old(self).wf(),
        ensures
            final(self).wf(),
            final(self)@ == (EngineView {
                screen: Grid::filled(old(self)@.screen.width, old(self)@.screen.height, blank()),
                screen_empty: false,
                ..old(self)@
            }),
    {
        self.screen.clear()
    }

    /// Writes `pixel` to every cell of the screen.
    pub fn fill(&mut self, pixel: Pixel)
        requires
            old(self).wf(),
        ensures
            final(self).wf(),
            final(self)@ == (EngineView {
                screen: Grid::filled(old(self)@.screen.width, old(self)@.screen.height, pixel),
                screen_empty: pixel.chr == NUL,
                ..old(self)@
            }),
    {
        self.screen.fill(pixel);
    }

    /// Prints `string` at `(x, y)` in the terminal's default colours.
    pub fn print(&mut self, x: i32, y: i32, string: &str)
        requires
            old(self).wf(),
        ensures
            final(self).wf(),
            final(self)@ == (EngineView {
                screen: printed(
                    old(self)@.screen,
                    string@,
                    x as int,
                    y as int,
                    Color::Reset,
                    Color::Reset,
                ),
                ..old(self)@
            }),
    {
        self.screen.print(x, y, string);
        proof {
            lemma_printed_size(old(self)@.screen, string@, x as int, y as int, Color::Reset, Color::Reset);
        }
    }

    /// Prints `string` at `(x, y)` in the colours `fg` on `bg`.
    pub fn print_fbg(&mut self, x: i32, y: i32, string: &str, fg: Color, bg: Color)
        requires
            old(self).wf(),
        ensures
            final(self).wf(),
            final(self)@ == (EngineView {
                screen: printed(old(self)@.screen, string@, x as int, y as int, fg, bg),
                ..old(self)@
            }),
    {
        self.screen.print_fbg(x, y, string, fg, bg);
        proof {
            lemma_printed_size(old(self)@.screen, string@, x as int, y as int, fg, bg);
        }
    }

    /// Prints another screen onto the screen with its top left corner at
    /// `(x, y)`.
    pub fn print_screen(&mut self, x: i32, y: i32, source: &Screen)
        requires
            old(self).wf(),
        ensures
            final(self).wf(),
            final(self)@ == (EngineView {
                screen: old(self)@.screen.overlaid(source@, x as int, y as int, None),
                ..old(self)@
            }),
    {
        self.screen.print_screen(x, y, source)
    }

    /// Prints another screen onto the screen with its top left corner at
    /// `(x, y)`, leaving out the cells of `source` that hold `alpha_character`.
    pub fn print_screen_alpha(&mut self, x: i32, y: i32, source: &Screen, alpha_character: char)
        requires
            old(self).wf(),
        ensures
            final(self).wf(),
            final(self)@ == (EngineView {
                screen: old(self)@.screen.overlaid(
                    source@,
                    x as int,
                    y as int,
                    Some(alpha_character),
                ),
                ..old(self)@
            }),
    {
        self.screen.print_screen_alpha(x, y, source, alpha_character)
    }

    /// Draws the line from `(start_x, start_y)` to `(end_x, end_y)`.
    pub fn line(&mut self, start_x: i32, start_y: i32, end_x: i32, end_y: i32, character: Pixel)
        requires
            old(self).wf(),
        ensures
            final(self).wf(),
            final(self)@ == (EngineView {
                screen: old(self)@.screen.paint(
                    line_shape(start_x as int, start_y as int, end_x as int, end_y as int),
                    character,
                ),
                ..old(self)@
            }),
    {
        self.screen.line(start_x, start_y, end_x, end_y, character)
    }

    /// Draws the four edges of the rectangle with the corners `(start_x,
    /// start_y)` and `(end_x, end_y)`.
    pub fn rect(&mut self, start_x: i32, start_y: i32, end_x: i32, end_y: i32, character: Pixel)
        requires
            old(self).wf(),
        ensures
            final(self).wf(),
            final(self)@ == (EngineView {
                screen: old(self)@.screen.paint(
                    rect_shape(start_x as int, start_y as int, end_x as int, end_y as int),
                    character,
                ),
                ..old(self)@
            }),
    {
        self.screen.rect(start_x, start_y, end_x, end_y, character)
    }

    /// Draws the rectangle with the corners `(start_x, start_y)` and `(end_x,
    /// end_y)` in a border style.
    pub fn rect_border(
        &mut self,
        start_x: i32,
        start_y: i32,
        end_x: i32,
        end_y: i32,
        rect_style: BorderStyle,
    )
        requires
            old(self).wf(),
        ensures
            final(self).wf(),
            final(self)@ == (EngineView {
                screen: old(self)@.screen.paint(
                    h_line_shape(start_x as int, start_y as int, end_x as int),
                    rect_style.top_bottom,
                ).paint(
                    v_line_shape(end_x as int, start_y as int, end_y as int),
                    rect_style.left_right,
                ).paint(
                    h_line_shape(end_x as int, end_y as int, start_x as int),
                    rect_style.top_bottom,
                ).paint(
                    v_line_shape(start_x as int, end_y as int, start_y as int),
                    rect_style.left_right,
                ).put(start_x as int, start_y as int, rect_style.corner_top_left).put(
                    end_x as int,
                    start_y as int,
                    rect_style.corner_top_right,
                ).put(start_x as int, end_y as int, rect_style.corner_bottom_left).put(
                    end_x as int,
                    end_y as int,
                    rect_style.corner_bottom_right,
                ),
                ..old(self)@
            }),
    {
        self.screen.rect_border(start_x, start_y, end_x, end_y, rect_style)
    }

    /// Paints every cell of the rectangle with the corners `(start_x, start_y)`
    /// and `(end_x, end_y)`.
    pub fn fill_rect(
        &mut self,
        start_x: i32,
        start_y: i32,
        end_x: i32,
        end_y: i32,
        character: Pixel,
    )
        requires
            old(self).wf(),
        ensures
            final(self).wf(),
            final(self)@ == (EngineView {
                screen: old(self)@.screen.paint(
                    fill_rect_shape(start_x as int, start_y as int, end_x as int, end_y as int),
                    character,
                ),
                ..old(self)@
            }),
    {
        self.screen.fill_rect(start_x, start_y, end_x, end_y, character)
    }

    /// Draws the circle of the given radius around `(x, y)`.
    pub fn circle(&mut self, x: i32, y: i32, radius: u32, character: Pixel)
        requires
            old(self).wf(),
        ensures
            final(self).wf(),
            final(self)@ == (EngineView {
                screen: old(self)@.screen.paint(
                    circle_shape(x as int, y as int, radius as int),
                    character,
                ),
                ..old(self)@
            }),
    {
        self.screen.circle(x, y, radius, character)
    }

    /// Fills the circle of the given radius around `(x, y)`.
    pub fn fill_circle(&mut self, x: i32, y: i32, radius: u32, character: Pixel)
        requires
            old(self).wf(),
        ensures
            final(self).wf(),
            final(self)@ == (EngineView {
                screen: old(self)@.screen.paint(
                    disc_shape(x as int, y as int, radius as int),
                    character,
                ),
                ..old(self)@
            }),
    {
        self.screen.fill_circle(x, y, radius, character)
    }

    /// Draws the three sides of the triangle with the given corners.
    pub fn triangle(
        &mut self,
        x1: i32,
        y1: i32,
        x2: i32,
        y2: i32,
        x3: i32,
        y3: i32,
        character: Pixel,
    )
        requires
            old(self).wf(),
        ensures
            final(self).wf(),
            final(self)@ == (EngineView {
                screen: old(self)@.screen.paint(
                    triangle_shape(
                        x1 as int,
                        y1 as int,
                        x2 as int,
                        y2 as int,
                        x3 as int,
                        y3 as int,
                    ),
                    character,
                ),
                ..old(self)@
            }),
    {
        self.screen.triangle(x1, y1, x2, y2, x3, y3, character)
    }

    /// Fills the triangle with the given corners.
    pub fn fill_triangle(
        &mut self,
        x1: i32,
        y1: i32,
        x2: i32,
        y2: i32,
        x3: i32,
        y3: i32,
        character: Pixel,
    )
        requires
            old(self).wf(),
        ensures
            final(self).wf(),
            final(self)@ == (EngineView {
                screen: old(self)@.screen.paint(
                    fill_triangle_shape(
                        x1 as int,
                        y1 as int,
                        x2 as int,
                        y2 as int,
                        x3 as int,
                        y3 as int,
                    ),
                    character,
                ),
                ..old(self)@
            }),
    {
        self.screen.fill_triangle(x1, y1, x2, y2, x3, y3, character)
    }

    /// Scrolls the screen by `h_scroll` columns to the left and then by
    /// `v_scroll` rows up.
    pub fn scroll(&mut self, h_scroll: i32, v_scroll: i32, background: Pixel)
        requires
            old(self).wf(),
        ensures
            final(self).wf(),
            final(self)@ == (EngineView {
                screen: old(self)@.screen.shifted(h_scroll as int, 0, background).shifted(
                    0,
                    v_scroll as int,
                    background,
                ),
                screen_empty: scroll_empty(
                    old(self)@.screen_empty,
                    old(self)@.screen.width,
                    old(self)@.screen.height,
                    h_scroll as int,
                    v_scroll as int,
                    background,
                ),
                ..old(self)@
            }),
    {
        self.screen.scroll(h_scroll, v_scroll, background);
    }

    /// Writes `character` at `(x, y)` of the screen. Does nothing where `(x, y)`
    /// names no cell.
    pub fn set_pxl(&mut self, x: i32, y: i32, character: Pixel)
        requires
            old(self).wf(),
        ensures
            final(self).wf(),
            final(self)@ == (EngineView {
                screen: old(self)@.screen.put(x as int, y as int, character),
                ..old(self)@
            }),
    {
        self.screen.set_pxl(x, y, character)
    }

    /// The pixel at `(x, y)` of the screen, or, where `(x, y)` names no cell, the
    /// text that reports the coordinates and the largest valid column and row.
    pub fn get_pxl(&self, x: i32, y: i32) -> (res: Result<Pixel, String>)
        ensures
            self@.screen.in_bounds(x as int, y as int) ==> res == Ok::<Pixel, String>(
                self@.screen.at(x as int, y as int),
            ),
            !self@.screen.in_bounds(x as int, y as int) ==> res is Err && res->Err_0@
                == out_of_bounds_text(
                x as int,
                y as int,
                self@.screen.width - 1,
                self@.screen.height - 1,
            ),
    {
        self.screen.get_pxl(x, y)
    }

    /// Gives the screen a new size, keeping its content from the top left
    /// corner, and forgets the frame drawn last, so that the next draw writes
    /// every cell.
    pub fn resize(&mut self, new_width: u32, new_height: u32)
        requires
            old(self).wf(),
            new_width * new_height <= usize::MAX,
        ensures
            final(self).wf(),
            final(self)@ == (EngineView {
                screen: old(self)@.screen.resized(new_width as nat, new_height as nat),
                last_frame: no_frame(new_width as nat, new_height as nat),
                last_empty: true,
                ..old(self)@
            }),
    {
        self.screen.resize(new_width, new_height);
        self.width = new_width;
        self.height = new_height;
        self.screen_last_frame = Screen::new_empty(new_width, new_height);
    }

    /// The rectangle between `(start_x, start_y)` and `(end_x, end_y)` of the
    /// screen as a screen of its own.
    pub fn extract(&self, start_x: i32, start_y: i32, end_x: i32, end_y: i32, default: Pixel) -> (part:
        Screen)
        requires
            span(start_x as int, end_x as int) < u32::MAX,
            span(start_y as int, end_y as int) < u32::MAX,
            (span(start_x as int, end_x as int) + 1) * (span(start_y as int, end_y as int) + 1)
                <= usize::MAX,
        ensures
            part@ == self@.screen.extracted(
                start_x as int,
                start_y as int,
                end_x as int,
                end_y as int,
                default,
            ),
            !part.cached_empty(),
    {
        self.screen.extract(start_x, start_y, end_x, end_y, default)
    }

    /// Makes a copy of `screen` the screen of the engine and forgets the frame
    /// drawn last.
    pub fn set_screen(&mut self, screen: &Screen)
        ensures
            final(self).wf(),
            final(self)@ == (EngineView {
                screen: screen@,
                screen_empty: screen.cached_empty(),
                last_frame: no_frame(screen@.width, screen@.height),
                last_empty: true,
                ..old(self)@
            }),
    {
        self.width = screen.get_width();
        self.height = screen.get_height();
        self.screen = screen.clone();
        self.screen_last_frame = Screen::new_empty(self.width, self.height);
    }

    /// A copy of the screen.
    pub fn get_screen(&self) -> (copy: Screen)
        ensures
            copy@ == self@.screen,
            copy.cached_empty() == self@.screen_empty,
    {
        self.screen.clone()
    }

    /// Plans the commands that bring the terminal from the frame drawn last to
    /// the screen, and takes the screen as the frame drawn last. Every cell is
    /// written where the frame drawn last holds NUL in every cell, as it does
    /// before the first draw; else only the cells that differ are.
    pub fn draw(&mut self) -> (commands: Vec<TermCommand>)
        requires
            old(self).wf(),
        ensures
            final(self).wf(),
            commands@ == draw_plan(
                old(self)@.screen,
                old(self)@.last_frame,
                old(self)@.last_frame.all_chr(NUL),
            ),
            final(self)@ == (EngineView {
                last_frame: old(self)@.screen,
                last_empty: old(self)@.screen_empty,
                ..old(self)@
            }),
    {
        let redraw = self.screen_last_frame.check_empty();
        let commands = plan_frame(&self.screen, &self.screen_last_frame, redraw);
        self.screen_last_frame = self.screen.clone();
        commands
    }

    /// Forgets the frame drawn last, so that the next draw writes every cell.
    pub fn request_full_draw(&mut self)
        requires
            old(self).wf(),
        ensures
            final(self).wf(),
            final(self)@ == (EngineView {
                last_frame: no_frame(old(self)@.screen.width, old(self)@.screen.height),
                last_empty: true,
                ..old(self)@
            }),
    {
        let width = self.screen.get_width();
        let height = self.screen.get_height();
        self.screen_last_frame = Screen::new_empty(width, height);
    }

    /// How long to wait for input before the frame is over, in milliseconds,
    /// when `elapsed_nanos` nanoseconds of the frame have passed; nothing where
    /// the frame is over.
    pub fn wait_timeout(&self, elapsed_nanos: u128) -> (timeout: Option<u64>)
        ensures
            timeout == wait_budget(self@.time_limit, elapsed_nanos),
    {
        let limit: u128 = (self.time_limit as u128) * 1_000_000;
        if limit > elapsed_nanos {
            let remaining: u128 = (limit - elapsed_nanos) / 1_000_000;
            Some((remaining % (self.time_limit as u128)) as u64)
        } else {
            None
        }
    }

    /// Ends a frame: counts it, and sorts the keys captured in it into pressed,
    /// held and released keys. The mouse events and sizes captured replace those
    /// of the frame before.
    pub fn wait_frame(
        &mut self,
        captured_keyboard: Vec<KeyEvent>,
        captured_mouse: Vec<MouseEvent>,
        captured_resize: Vec<(u16, u16)>,
    )
        requires
            old(self).wf(),
        ensures
            final(self).wf(),
            final(self)@ == (EngineView {
                frame_count: next_count(old(self)@.frame_count),
                pressed: pressed_now(old(self)@.pressed, old(self)@.held, captured_keyboard@),
                held: held_now(old(self)@.pressed, old(self)@.held, captured_keyboard@),
                released: released_now(old(self)@.pressed, old(self)@.held, captured_keyboard@),
                mouse: captured_mouse@,
                resizes: captured_resize@,
                ..old(self)@
            }),
    {
        proof {
            lemma_key_events_faithful();
        }
        self.frame_count = if self.frame_count == usize::MAX {
            0
        } else {
            self.frame_count + 1
        };
        let down = union(self.keys_pressed.as_slice(), self.keys_held.as_slice());
        let held = intersect(down.as_slice(), captured_keyboard.as_slice());
        self.keys_released = outersect_left(self.keys_held.as_slice(), held.as_slice());
        self.keys_pressed = outersect_left(captured_keyboard.as_slice(), held.as_slice());
        self.keys_held = union(held.as_slice(), self.keys_pressed.as_slice());
        self.mouse_events = captured_mouse;
        self.resize_events = captured_resize;
    }

    /// What a poll reports: an event that arrived is handed on as it is; with no
    /// event and the frame over, the frame is counted and reported; with no event
    /// and the frame not over, there is nothing to report yet.
    pub fn poll(&mut self, arrived: Option<Event>, frame_over: bool) -> (report: Option<Event>)
        requires
            old(self).wf(),
        ensures
            final(self).wf(),
            arrived is Some ==> report == arrived && final(self)@ == old(self)@,
            arrived is None && !frame_over ==> report is None && final(self)@ == old(self)@,
            arrived is None && frame_over ==> (report matches Some(Event::Frame)) && final(self)@
                == (EngineView { frame_count: next_count(old(self)@.frame_count), ..old(self)@ }),
    {
        match arrived {
            Some(event) => Some(event),
            None => {
                if frame_over {
                    self.frame_count = if self.frame_count == usize::MAX {
                        0
                    } else {
                        self.frame_count + 1
                    };
                    Some(Event::Frame)
                } else {
                    None
                }
            },
        }
    }

    /// Takes the size of the terminal: where it differs from the size of the
    /// screen, both taken as 16-bit numbers, the screen is resized to it.
    pub fn check_resize(&mut self, terminal: (u16, u16))
        requires
            old(self).wf(),
        ensures
            final(self).wf(),
            final(self)@ == if terminal.0 != old(self)@.screen.width as u16 || terminal.1 != old(
                self,
            )@.screen.height as u16 {
                EngineView {
                    screen: old(self)@.screen.resized(terminal.0 as nat, terminal.1 as nat),
                    last_frame: no_frame(terminal.0 as nat, terminal.1 as nat),
                    last_empty: true,
                    ..old(self)@
                }
            } else {
                old(self)@
            },
    {
        let columns = #[verifier::truncate] (self.width as u16);
        let rows = #[verifier::truncate] (self.height as u16);
        if terminal.0 != columns || terminal.1 != rows {
            assert((terminal.0 as u32) * (terminal.1 as u32) <= usize::MAX) by (nonlinear_arith)
                requires
                    terminal.0 <= 0xffff,
                    terminal.1 <= 0xffff,
                    usize::MAX >= 0xffff_ffff,
            ;
            self.resize(terminal.0 as u32, terminal.1 as u32);
        }
    }

    /// Whether a terminal of `size` columns and rows is too small to show a
    /// screen of `width` by `height`: it has fewer columns or fewer rows.
    pub fn needs_room(size: (u16, u16), width: u32, height: u32) -> (grow: bool)
        ensures
            grow == (size.0 < width || size.1 < height),
    {
        (size.0 as u32) < width || (size.1 as u32) < height
    }

    /// Whether `key` went down in this frame, with no modifier.
    pub fn is_key_pressed(&self, key: KeyCode) -> (pressed: bool)
        ensures
            pressed == member(
                self@.pressed,
                KeyEvent {
                    code: key,
                    modifiers: KeyModifiers::nothing(),
                    kind: KeyEventKind::Press,
                    state: 0,
                },
            ),
    {
        self.is_key_pressed_with_modifier(key, KeyModifiers::none(), KeyEventKind::Press)
    }

    /// Whether the key event of `key`, `modifier` and `kind` is among those that
    /// went down in this frame.
    pub fn is_key_pressed_with_modifier(
        &self,
        key: KeyCode,
        modifier: KeyModifiers,
        kind: KeyEventKind,
    ) -> (pressed: bool)
        ensures
            pressed == member(
                self@.pressed,
                KeyEvent { code: key, modifiers: modifier, kind, state: 0 },
            ),
    {
        let wanted = KeyEvent::new_with_kind(key, modifier, kind);
        contains(self.keys_pressed.as_slice(), &wanted)
    }

    /// Whether `key` is down in this frame, with no modifier.
    pub fn is_key_held(&self, key: KeyCode) -> (held: bool)
        ensures
            held == member(
                self@.held,
                KeyEvent {
                    code: key,
                    modifiers: KeyModifiers::nothing(),
                    kind: KeyEventKind::Press,
                    state: 0,
                },
            ),
    {
        self.is_key_held_with_modifier(key, KeyModifiers::none(), KeyEventKind::Press)
    }

    /// Whether the key event of `key`, `modifier` and `kind` is among those that
    /// are down in this frame.
    pub fn is_key_held_with_modifier(
        &self,
        key: KeyCode,
        modifier: KeyModifiers,
        kind: KeyEventKind,
    ) -> (held: bool)
        ensures
            held == member(self@.held, KeyEvent { code: key, modifiers: modifier, kind, state: 0 }),
    {
        let wanted = KeyEvent::new_with_kind(key, modifier, kind);
        contains(self.keys_held.as_slice(), &wanted)
    }

    /// Whether `key`, with no modifier, was down in the frame before and is not
    /// in this one. The key is looked up as [`ConsoleEngine::is_key_pressed`] and
    /// [`ConsoleEngine::is_key_held`] look it up, so that a key that was pressed
    /// and held is released in the frame after it was let go.
    pub fn is_key_released(&self, key: KeyCode) -> (released: bool)
        ensures
            released == member(
                self@.released,
                KeyEvent {
                    code: key,
                    modifiers: KeyModifiers::nothing(),
                    kind: KeyEventKind::Press,
                    state: 0,
                },
            ),
    {
        self.is_key_released_with_modifier(key, KeyModifiers::none(), KeyEventKind::Press)
    }

    /// Whether the key event of `key`, `modifier` and `kind` is among those that
    /// were down in the frame before and are not in this one.
    pub fn is_key_released_with_modifier(
        &self,
        key: KeyCode,
        modifier: KeyModifiers,
        kind: KeyEventKind,
    ) -> (released: bool)
        ensures
            released == member(
                self@.released,
                KeyEvent { code: key, modifiers: modifier, kind, state: 0 },
            ),
    {
        let wanted = KeyEvent::new_with_kind(key, modifier, kind);
        contains(self.keys_released.as_slice(), &wanted)
    }

    /// The place of the first mouse event of this frame of the given kind with
    /// the given modifiers.
    fn find_mouse(&self, kind: MouseEventKind, modifier: KeyModifiers) -> (place: Option<(u32, u32)>)
        ensures
            place == first_at(self@.mouse, kind, modifier),
    {
        let mut i: usize = 0;
        let len = self.mouse_events.len();
        proof {
            assert(self.mouse_events@.subrange(0, len as int) =~= self.mouse_events@);
        }
        while i < len
            invariant
                i <= len,
                len == self.mouse_events@.len(),
                first_at(self.mouse_events@, kind, modifier) == first_at(
                    self.mouse_events@.subrange(i as int, len as int),
                    kind,
                    modifier,
                ),
            decreases len - i,
        {
            let event = self.mouse_events[i];
            proof {
                let rest = self.mouse_events@.subrange(i as int, len as int);
                assert(rest[0] == event);
                assert(rest.drop_first() =~= self.mouse_events@.subrange(i + 1, len as int));
            }
            if event.kind == kind && event.modifiers == modifier {
                return Some((event.column as u32, event.row as u32));
            }
            i += 1;
        }
        None
    }

    /// Where `button` went down in this frame, with no modifier.
    pub fn get_mouse_press(&self, button: MouseButton) -> (place: Option<(u32, u32)>)
        ensures
            place == first_at(self@.mouse, MouseEventKind::Down(button), KeyModifiers::nothing()),
    {
        self.get_mouse_press_with_modifier(button, KeyModifiers::none())
    }

    /// Where `button` went down in this frame with `modifier`: the place of the
    /// first such event.
    pub fn get_mouse_press_with_modifier(&self, button: MouseButton, modifier: KeyModifiers) -> (place:
        Option<(u32, u32)>)
        ensures
            place == first_at(self@.mouse, MouseEventKind::Down(button), modifier),
    {
        self.find_mouse(MouseEventKind::Down(button), modifier)
    }

    /// The first size the terminal took in this frame.
    pub fn get_resize(&self) -> (size: Option<(u16, u16)>)
        ensures
            size == if self@.resizes.len() > 0 {
                Some(self@.resizes[0])
            } else {
                None
            },
    {
        if self.resize_events.len() > 0 {
            Some(self.resize_events[0])
        } else {
            None
        }
    }

    /// Where the mouse was dragged with `button` down in this frame, with no
    /// modifier.
    pub fn get_mouse_held(&self, button: MouseButton) -> (place: Option<(u32, u32)>)
        ensures
            place == first_at(self@.mouse, MouseEventKind::Drag(button), KeyModifiers::nothing()),
    {
        self.get_mouse_held_with_modifier(button, KeyModifiers::none())
    }

    /// Where the mouse was dragged with `button` down in this frame with
    /// `modifier`: the place of the first such event.
    pub fn get_mouse_held_with_modifier(&self, button: MouseButton, modifier: KeyModifiers) -> (place:
        Option<(u32, u32)>)
        ensures
            place == first_at(self@.mouse, MouseEventKind::Drag(button), modifier),
    {
        self.find_mouse(MouseEventKind::Drag(button), modifier)
    }

    /// Where `button` was let go in this frame, with no modifier.
    pub fn get_mouse_released(&self, button: MouseButton) -> (place: Option<(u32, u32)>)
        ensures
            place == first_at(self@.mouse, MouseEventKind::Up(button), KeyModifiers::nothing()),
    {
        self.get_mouse_released_with_modifier(button, KeyModifiers::none())
    }

    /// Where `button` was let go in this frame with `modifier`: the place of the
    /// first such event.
    pub fn get_mouse_released_with_modifier(&self, button: MouseButton, modifier: KeyModifiers) -> (place:
        Option<(u32, u32)>)
        ensures
            place == first_at(self@.mouse, MouseEventKind::Up(button), modifier),
    {
        self.find_mouse(MouseEventKind::Up(button), modifier)
    }

    /// Whether the wheel was turned towards the user in this frame, with no
    /// modifier.
    pub fn is_mouse_scrolled_down(&self) -> (scrolled: bool)
        ensures
            scrolled == first_at(
                self@.mouse,
                MouseEventKind::ScrollDown,
                KeyModifiers::nothing(),
            ) is Some,
    {
        self.is_mouse_scrolled_down_with_modifier(KeyModifiers::none())
    }

    /// Whether the wheel was turned towards the user in this frame with
    /// `modifier`.
    pub fn is_mouse_scrolled_down_with_modifier(&self, modifier: KeyModifiers) -> (scrolled: bool)
        ensures
            scrolled == first_at(self@.mouse, MouseEventKind::ScrollDown, modifier) is Some,
    {
        self.find_mouse(MouseEventKind::ScrollDown, modifier).is_some()
    }

    /// Whether the wheel was turned away from the user in this frame, with no
    /// modifier.
    pub fn is_mouse_scrolled_up(&self) -> (scrolled: bool)
        ensures
            scrolled == first_at(
                self@.mouse,
                MouseEventKind::ScrollUp,
                KeyModifiers::nothing(),
            ) is Some,
    {
        self.is_mouse_scrolled_up_with_modifier(KeyModifiers::none())
    }

    /// Whether the wheel was turned away from the user in this frame with
    /// `modifier`.
    pub fn is_mouse_scrolled_up_with_modifier(&self, modifier: KeyModifiers) -> (scrolled: bool)
        ensures
            scrolled == first_at(self@.mouse, MouseEventKind::ScrollUp, modifier) is Some,
    {
        self.find_mouse(MouseEventKind::ScrollUp, modifier).is_some()
    }
}

/// `==` on key events is what `same_key` says, and a copy of a key event is
/// the key event.
pub proof fn lemma_key_events_faithful()
    ensures
        faithful::<KeyEvent>(),
{
}

/// `==` on key events is reflexive, symmetric and transitive.
pub proof fn lemma_key_events_equivalence()
    ensures
        eq_is_equivalence::<KeyEvent>(),
{
}

/// Which keys are pressed, held and released after a frame. A key is held
/// exactly if it was captured in the frame. It is pressed exactly if it was
/// captured and was neither pressed nor held in the frame before. It is
/// released exactly if it was held in the frame before and was not captured.
/// So a key that stays down for some frames is pressed in the first of them
/// only, held in each of them, and released in the frame after the last.
pub proof fn lemma_frame_keys(
    pressed: Seq<KeyEvent>,
    held: Seq<KeyEvent>,
    captured: Seq<KeyEvent>,
    key: KeyEvent,
)
    ensures
        member(held_now(pressed, held, captured), key) <==> member(captured, key),
        member(pressed_now(pressed, held, captured), key) <==> member(captured, key) && !member(
            pressed,
            key,
        ) && !member(held, key),
        member(released_now(pressed, held, captured), key) <==> member(held, key) && !member(
            captured,
            key,
        ),
{
    lemma_key_events_equivalence();
    let down = union_spec(pressed, held);
    let still = still_down(pressed, held, captured);
    lemma_union_has(pressed, held, key);
    lemma_select_has(down, captured, true, key);
    lemma_select_has(captured, still, false, key);
    lemma_select_has(held, still, false, key);
    lemma_union_has(still, pressed_now(pressed, held, captured), key);
}

/// A key that was held and is not captured in a frame is released in that frame,
/// and is not released in the frame after it, whatever is captured then.
pub proof fn lemma_released_in_one_frame(
    pressed: Seq<KeyEvent>,
    held: Seq<KeyEvent>,
    captured: Seq<KeyEvent>,
    next: Seq<KeyEvent>,
    key: KeyEvent,
)
    requires
        member(held, key),
        !member(captured, key),
    ensures
        member(released_now(pressed, held, captured), key),
        !member(
            released_now(
                pressed_now(pressed, held, captured),
                held_now(pressed, held, captured),
                next,
            ),
            key,
        ),
{
    lemma_frame_keys(pressed, held, captured, key);
    lemma_frame_keys(
        pressed_now(pressed, held, captured),
        held_now(pressed, held, captured),
        next,
        key,
    );
}

/// Printing leaves the size of a grid as it is.
pub proof fn lemma_printed_size(g: Grid, text: Seq<char>, x: int, y: int, fg: Color, bg: Color)
    ensures
        printed(g, text, x, y, fg, bg).width == g.width,
        printed(g, text, x, y, fg, bg).height == g.height,
{
    if x < g.width && y < g.height {
        let rest = if y < 0 {
            crate::screen::text::skip_lines(text, -y)
        } else {
            text
        };
        let start = crate::screen::text::Cursor {
            row: vstd::math::max(y, 0),
            col: vstd::math::max(x, 0),
            skip: vstd::math::max(-x, 0),
            done: false,
        };
        lemma_typed_size(g, rest, rest.len(), start, x, fg, bg);
    }
}

/// Printing any number of characters leaves the size of a grid as it is.
proof fn lemma_typed_size(
    g: Grid,
    text: Seq<char>,
    k: nat,
    start: crate::screen::text::Cursor,
    x: int,
    fg: Color,
    bg: Color,
)
    ensures
        crate::screen::text::typed(g, text, k, start, x, fg, bg).width == g.width,
        crate::screen::text::typed(g, text, k, start, x, fg, bg).height == g.height,
    decreases k,
{
    if k > 0 {
        lemma_typed_size(g, text, (k - 1) as nat, start, x, fg, bg);
    }
}

} // verus!
