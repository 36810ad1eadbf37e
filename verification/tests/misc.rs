use alacritty_core::config::{
    AlphabetError, HintAction, HintContent, HintInternalAction, HintsAlphabet, LazyRegex, Program,
    URL_REGEX,
};
use alacritty_core::event::{
    dispatch, skip_event, wants_redraw, Dispatch, DisplayState, DisplayUpdate, EventQueue,
    PhysicalSize, RendererUpdate, WindowEvent, WinitEvent,
};
use alacritty_core::index::{Column, Direction, Line, Point};
use alacritty_core::ipc::{is_socket_name, socket_prefix};
use alacritty_core::message_bar::{Message, MessageType};
use alacritty_core::rects::{RectKind, NUM_KINDS};
use alacritty_core::row::Row;
use alacritty_core::scheduler::{Event, EventType};
use alacritty_core::search::RegexSearch;
use alacritty_core::text::{chars_of, string_of, strings_of};

fn window(event: WindowEvent) -> WinitEvent {
    WinitEvent::WindowEvent { window_id: 4, event }
}

#[test]
fn useless_events_are_skipped() {
    assert!(!skip_event(&WinitEvent::NewEvents { init: true }));
    assert!(skip_event(&WinitEvent::NewEvents { init: false }));
    assert!(skip_event(&WinitEvent::Suspended));
    assert!(skip_event(&window(WindowEvent::HoveredFileCancelled)));
    assert!(skip_event(&window(WindowEvent::Destroyed)));
    assert!(skip_event(&window(WindowEvent::HoveredFile)));
    assert!(skip_event(&window(WindowEvent::Moved)));
    assert!(!skip_event(&window(WindowEvent::Resized { width: 1, height: 1 })));
    assert!(!skip_event(&window(WindowEvent::RedrawRequested)));
    assert!(!skip_event(&WinitEvent::Resumed));
    assert!(!skip_event(&WinitEvent::AboutToWait));
    assert!(!skip_event(&WinitEvent::UserEvent(Event::new(EventType::Frame, None))));
}

#[test]
fn events_go_to_their_windows() {
    assert_eq!(dispatch(&WinitEvent::Resumed), Dispatch::CreateInitialWindow);
    assert_eq!(
        dispatch(&WinitEvent::UserEvent(Event::new(EventType::Frame, Some(2)))),
        Dispatch::FrameReady { window_id: 2 }
    );
    assert_eq!(
        dispatch(&WinitEvent::UserEvent(Event::new(EventType::SearchNext, Some(2)))),
        Dispatch::ToWindow { window_id: 2 }
    );
    assert_eq!(
        dispatch(&WinitEvent::UserEvent(Event::new(EventType::Frame, None))),
        Dispatch::ToAllWindows
    );
    assert_eq!(dispatch(&window(WindowEvent::RedrawRequested)), Dispatch::Redraw { window_id: 4 });
    assert_eq!(dispatch(&window(WindowEvent::Focused)), Dispatch::ToWindow { window_id: 4 });
    assert_eq!(dispatch(&window(WindowEvent::Moved)), Dispatch::Skip);
    assert_eq!(dispatch(&WinitEvent::AboutToWait), Dispatch::ProcessPending);
    assert_eq!(dispatch(&WinitEvent::NewEvents { init: true }), Dispatch::Skip);
    assert_eq!(dispatch(&WinitEvent::LoopExiting), Dispatch::Skip);
    assert_eq!(dispatch(&WinitEvent::MemoryWarning), Dispatch::Skip);
    assert_eq!(dispatch(&WinitEvent::Suspended), Dispatch::Skip);
}

#[test]
fn resize_to_nothing_is_ignored() {
    let mut update = DisplayUpdate::default();
    update.handle_event(&window(WindowEvent::Resized { width: 0, height: 10 }));
    assert_eq!(update, DisplayUpdate::default());
    update.handle_event(&window(WindowEvent::Resized { width: 10, height: 0 }));
    assert_eq!(update, DisplayUpdate::default());
    update.handle_event(&window(WindowEvent::Focused));
    assert_eq!(update, DisplayUpdate::default());
    update.handle_event(&window(WindowEvent::Resized { width: 10, height: 20 }));
    assert!(update.dirty);
    assert_eq!(update.dimensions(), Some(PhysicalSize { width: 10, height: 20 }));
    assert!(!update.cursor_dirty);
}

#[test]
fn events_wait_until_the_window_handles_them() {
    let mut queue = EventQueue::new();
    assert!(queue.stage(window(WindowEvent::Focused)).is_empty());
    assert!(queue.stage(window(WindowEvent::Resized { width: 1, height: 2 })).is_empty());
    assert_eq!(
        queue.stage(WinitEvent::AboutToWait),
        vec![window(WindowEvent::Focused), window(WindowEvent::Resized { width: 1, height: 2 })]
    );
    assert!(queue.stage(WinitEvent::AboutToWait).is_empty());
    assert!(queue.stage(window(WindowEvent::Occluded)).is_empty());
    assert_eq!(
        queue.stage(window(WindowEvent::RedrawRequested)),
        vec![window(WindowEvent::Occluded)]
    );
}

#[test]
fn a_window_asks_to_be_drawn_when_it_can_be() {
    let waiting = WinitEvent::AboutToWait;
    assert!(wants_redraw(true, true, false, &waiting));
    assert!(!wants_redraw(false, true, false, &waiting));
    assert!(!wants_redraw(true, false, false, &waiting));
    assert!(!wants_redraw(true, true, true, &waiting));
    assert!(!wants_redraw(true, true, false, &window(WindowEvent::RedrawRequested)));
    assert!(wants_redraw(true, true, false, &window(WindowEvent::Focused)));
}

#[test]
fn socket_names_follow_the_display() {
    assert_eq!(socket_prefix(Some("wayland-0"), Some(":0")), "Alacritty-wayland-0");
    assert_eq!(socket_prefix(None, Some(":0")), "Alacritty-:0");
    assert_eq!(socket_prefix(None, Some("/tmp/x/:1")), "Alacritty--tmp-x-:1");
    assert_eq!(socket_prefix(None, None), "Alacritty-");
    assert_eq!(socket_prefix(Some(""), Some(":0")), "Alacritty-");
    assert!(is_socket_name("Alacritty-:0-1234.sock", "Alacritty-:0"));
    assert!(is_socket_name("Alacritty-:0.sock", "Alacritty-:0"));
    assert!(!is_socket_name("Alacritty-:1-1234.sock", "Alacritty-:0"));
    assert!(!is_socket_name("Alacritty-:0-1234.lock", "Alacritty-:0"));
    assert!(!is_socket_name("Alacritty-:0", "Alacritty-:0"));
    assert!(!is_socket_name(".sock", "Alacritty-:0"));
    assert!(!is_socket_name("sock", ""));
    assert!(is_socket_name(".sock", ""));
}

#[test]
fn rect_kinds_have_numbers_and_shaders() {
    assert_eq!(NUM_KINDS, 4);
    let kinds = [
        RectKind::Normal,
        RectKind::Undercurl,
        RectKind::DottedUnderline,
        RectKind::DashedUnderline,
    ];
    for (index, kind) in kinds.iter().enumerate() {
        assert_eq!(kind.index(), index);
        assert_eq!(RectKind::from_index(index), Some(*kind));
    }
    assert_eq!(RectKind::from_index(4), None);
    assert_eq!(RectKind::Normal.shader_header(), None);
    assert_eq!(RectKind::Undercurl.shader_header(), Some("#define DRAW_UNDERCURL\n"));
    assert_eq!(RectKind::DottedUnderline.shader_header(), Some("#define DRAW_DOTTED\n"));
    assert_eq!(RectKind::DashedUnderline.shader_header(), Some("#define DRAW_DASHED\n"));
    assert_eq!(RectKind::DottedUnderline.fallback(), Some(RectKind::Normal));
    assert_eq!(RectKind::Undercurl.fallback(), None);
    assert_eq!(
        RectKind::draw_order(),
        vec![
            RectKind::DashedUnderline,
            RectKind::DottedUnderline,
            RectKind::Undercurl,
            RectKind::Normal
        ]
    );
}

#[test]
fn alphabet_needs_two_narrow_characters() {
    assert_eq!(HintsAlphabet::new("ab".into()).unwrap().as_str(), "ab");
    assert_eq!(HintsAlphabet::new("a".into()), Err(AlphabetError::TooShort));
    assert_eq!(HintsAlphabet::new("".into()), Err(AlphabetError::TooShort));
    assert_eq!(HintsAlphabet::new("aち".into()), Err(AlphabetError::CharacterWidth));
    assert_eq!(HintsAlphabet::new("a\tb".into()), Err(AlphabetError::CharacterWidth));
    // The width is looked at first.
    assert_eq!(HintsAlphabet::new("ち".into()), Err(AlphabetError::CharacterWidth));
    assert_eq!(HintsAlphabet::default_alphabet().as_str(), "jfkdls;ahgurieowpq");
}

#[test]
fn programs_have_names_and_arguments() {
    let just = Program::Just("vim".into());
    assert_eq!(just.program(), "vim");
    assert_eq!(just.args(), Vec::<String>::new());
    let with_args =
        Program::WithArgs { program: "cmd".into(), args: vec!["/c".into(), "start".into()] };
    assert_eq!(with_args.program(), "cmd");
    assert_eq!(with_args.args(), vec![String::from("/c"), String::from("start")]);
    assert_eq!(with_args.duplicate(), with_args);
    assert_eq!(just.duplicate(), just);
    let action = HintAction::Command(with_args);
    assert_eq!(action.duplicate(), action);
    let copy = HintAction::Action(HintInternalAction::Copy);
    assert_eq!(copy.duplicate(), copy);
}

#[test]
fn lazy_regex_compiles_once() {
    let mut regex = LazyRegex::new("fo+".into());
    assert!(regex.compiled().is_none());
    regex.compile();
    assert_eq!(regex.compiled().unwrap().pattern(), "fo+");
    regex.compile();
    assert_eq!(regex.compiled().unwrap().pattern(), "fo+");
    let mut invalid = LazyRegex::new("fo(".into());
    invalid.compile();
    assert!(invalid.compiled().is_none());
    invalid.compile();
    assert!(invalid.compiled().is_none());
    assert!(RegexSearch::new(URL_REGEX).is_ok());
}

#[test]
fn hint_content_needs_a_source() {
    assert!(HintContent::new(None, true).is_valid());
    assert!(HintContent::new(Some(LazyRegex::new("a".into())), false).is_valid());
    assert!(!HintContent::new(None, false).is_valid());
}

#[test]
fn texts_are_sequences_of_characters() {
    assert_eq!(chars_of("aちb"), vec!['a', 'ち', 'b']);
    assert_eq!(chars_of(""), Vec::<char>::new());
    assert_eq!(string_of(&vec!['a', 'ち', 'b']), "aちb");
    assert_eq!(
        strings_of(&vec![vec!['a'], vec![], vec!['b', 'c']]),
        vec![String::from("a"), String::new(), String::from("bc")]
    );
}

#[test]
fn rows_are_reset_and_resized() {
    let mut row: Row<char> = Row::new(3);
    assert_eq!(row.len(), 3);
    row.set(1, 'x');
    assert_eq!(*row.get(1), 'x');
    row.resize(5);
    assert_eq!(row.len(), 5);
    assert_eq!(*row.get(1), 'x');
    assert_eq!(*row.get(4), '\0');
    row.resize(2);
    assert_eq!(row.len(), 2);
    assert_eq!(*row.get(1), 'x');
    row.reset();
    assert_eq!(row.len(), 2);
    assert_eq!(*row.get(1), '\0');
    let numbers: Row<u8> = Row::new(2);
    assert_eq!(*numbers.get(0), 0);
}

#[test]
fn points_are_read_in_order() {
    let a = Point::new(Line(-1), Column(5));
    let b = Point::new(Line(0), Column(0));
    let c = Point::new(Line(0), Column(1));
    assert!(a.precedes(&b));
    assert!(b.precedes(&c));
    assert!(!c.precedes(&b));
    assert!(!b.precedes(&b));
    assert!(a < b && b < c);
    assert_eq!(Direction::Left.opposite(), Direction::Right);
    assert_eq!(Direction::Right.opposite(), Direction::Left);
}

#[test]
fn whitespace_is_what_trimming_takes_off() {
    // Every character with the property White_Space, and a few without.
    let white: Vec<u32> = (0x09..=0x0d)
        .chain([0x20, 0x85, 0xa0, 0x1680])
        .chain(0x2000..=0x200a)
        .chain([0x2028, 0x2029, 0x202f, 0x205f, 0x3000])
        .collect();
    for code in 0..=0x10ffffu32 {
        if let Some(c) = char::from_u32(code) {
            assert_eq!(c.is_whitespace(), white.contains(&code), "{code:x}");
        }
    }
    for code in white {
        let c = char::from_u32(code).unwrap();
        let lines = Message::new(format!("{c}a{c}"), MessageType::Error).text(1, 10);
        assert_eq!(lines, vec![String::from("a")], "{code:x}");
    }
    let lines = Message::new(String::from("\u{200b}a"), MessageType::Error).text(2, 10);
    assert_eq!(lines, vec![String::from("\u{200b}a")]);
}

#[test]
fn characters_take_one_to_four_bytes() {
    for code in 0..=0x10ffffu32 {
        if let Some(c) = char::from_u32(code) {
            let expected = if code < 0x80 {
                1
            } else if code < 0x800 {
                2
            } else if code < 0x1_0000 {
                3
            } else {
                4
            };
            assert_eq!(c.len_utf8(), expected, "{code:x}");
        }
    }
}

#[test]
fn first_line_makes_room_for_the_button_by_bytes() {
    // Six columns: the first line keeps what fits in three bytes.
    let lines = Message::new(String::from("ab\ncd"), MessageType::Error).text(6, 10);
    assert_eq!(lines, vec![String::from("ab [X]"), String::from("cd    ")]);
    let lines = Message::new(String::from("\u{e9}\u{e9}\ncd"), MessageType::Error).text(6, 10);
    assert_eq!(lines, vec![String::from("\u{e9}[X]"), String::from("cd    ")]);
    let lines = Message::new(String::from("a\u{5b57}\ncd"), MessageType::Error).text(7, 10);
    assert_eq!(lines, vec![String::from("a\u{5b57}[X]"), String::from("cd     ")]);
}

#[test]
fn a_new_size_is_handed_to_the_renderer() {
    let size = PhysicalSize { width: 100, height: 50 };
    let mut display = DisplayState {
        size,
        pending_update: DisplayUpdate::default(),
        pending_renderer_update: None,
    };
    display.handle_update();
    assert_eq!(display.pending_renderer_update, None);
    // The same size again is no new size.
    display.pending_update.set_dimensions(size);
    display.handle_update();
    assert_eq!(display.pending_renderer_update, None);
    assert_eq!(display.pending_update, DisplayUpdate::default());
    let larger = PhysicalSize { width: 120, height: 50 };
    display.pending_update.set_dimensions(larger);
    display.handle_update();
    assert_eq!(display.size, larger);
    assert_eq!(display.pending_update, DisplayUpdate::default());
    assert_eq!(display.take_renderer_update(), Some(RendererUpdate { resize: true }));
    assert_eq!(display.take_renderer_update(), None);
}
