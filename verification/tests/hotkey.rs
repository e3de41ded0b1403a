use evdev::{AttributeSet, Key};
use rewind::hotkey::accelerator::{mods_match, Accelerator, Mods};
use rewind::hotkey::keys::{is_keyboard, key_to_evdev, modifier_of_code, Modifier};
use rewind::hotkey::portal::{
    activation_fires, after_read_error, check_keyboards, input_dir_error, is_event_node,
    libc_ewouldblock, manager, nonblocking_flags, o_nonblock, on_input_event,
    shortcut_description, shortcut_id, Active, Held, PortalProbe, RawEvent, ReaderStep,
};
use rewind::hotkey::{create_manager, HotkeyError};

fn key(code: Key, value: i32) -> RawEvent {
    RawEvent { event_type: 1, code: code.code(), value }
}

#[test]
fn key_names_have_their_codes() {
    let letters = [
        Key::KEY_A, Key::KEY_B, Key::KEY_C, Key::KEY_D, Key::KEY_E, Key::KEY_F, Key::KEY_G,
        Key::KEY_H, Key::KEY_I, Key::KEY_J, Key::KEY_K, Key::KEY_L, Key::KEY_M, Key::KEY_N,
        Key::KEY_O, Key::KEY_P, Key::KEY_Q, Key::KEY_R, Key::KEY_S, Key::KEY_T, Key::KEY_U,
        Key::KEY_V, Key::KEY_W, Key::KEY_X, Key::KEY_Y, Key::KEY_Z,
    ];
    for (i, k) in letters.iter().enumerate() {
        let name = ((b'A' + i as u8) as char).to_string();
        assert_eq!(key_to_evdev(&name), Some(k.code()), "{name}");
    }
    let codes: Vec<u16> = [
        30, 48, 46, 32, 18, 33, 34, 35, 23, 36, 37, 38, 50, 49, 24, 25, 16, 19, 31, 20, 22, 47,
        17, 45, 21, 44,
    ]
    .to_vec();
    assert_eq!(letters.iter().map(|k| k.code()).collect::<Vec<u16>>(), codes);
    for (name, code) in [("0", 11), ("1", 2), ("2", 3), ("5", 6), ("9", 10)] {
        assert_eq!(key_to_evdev(name), Some(code), "{name}");
    }
    let named = [
        ("F1", Key::KEY_F1, 59),
        ("F2", Key::KEY_F2, 60),
        ("F10", Key::KEY_F10, 68),
        ("F11", Key::KEY_F11, 87),
        ("F12", Key::KEY_F12, 88),
        ("SPACE", Key::KEY_SPACE, 57),
        ("ENTER", Key::KEY_ENTER, 28),
        ("RETURN", Key::KEY_ENTER, 28),
        ("TAB", Key::KEY_TAB, 15),
        ("ESC", Key::KEY_ESC, 1),
        ("ESCAPE", Key::KEY_ESC, 1),
    ];
    for (name, k, code) in named {
        assert_eq!(key_to_evdev(name), Some(k.code()), "{name}");
        assert_eq!(k.code(), code, "{name}");
    }
    for name in ["", "a", "F13", "AB", "+", "\u{c4}"] {
        assert_eq!(key_to_evdev(name), None, "{name}");
    }
}

#[test]
fn modifier_keys_have_their_codes() {
    let table = [
        (Key::KEY_LEFTCTRL, 29, Modifier::Ctrl),
        (Key::KEY_RIGHTCTRL, 97, Modifier::Ctrl),
        (Key::KEY_LEFTALT, 56, Modifier::Alt),
        (Key::KEY_RIGHTALT, 100, Modifier::Alt),
        (Key::KEY_LEFTSHIFT, 42, Modifier::Shift),
        (Key::KEY_RIGHTSHIFT, 54, Modifier::Shift),
        (Key::KEY_LEFTMETA, 125, Modifier::Logo),
        (Key::KEY_RIGHTMETA, 126, Modifier::Logo),
    ];
    for (k, code, m) in table {
        assert_eq!(k.code(), code);
        assert_eq!(modifier_of_code(code), Some(m));
    }
    assert_eq!(modifier_of_code(Key::KEY_S.code()), None);
}

#[test]
fn a_keyboard_has_letters() {
    let mut keys = AttributeSet::<Key>::new();
    assert!(!is_keyboard(None));
    assert!(!is_keyboard(Some(&keys)));
    keys.insert(Key::KEY_A);
    assert!(!is_keyboard(Some(&keys)));
    keys.insert(Key::KEY_Z);
    assert!(is_keyboard(Some(&keys)));
    let mut buttons = AttributeSet::<Key>::new();
    buttons.insert(Key::BTN_LEFT);
    assert!(!is_keyboard(Some(&buttons)));
}

#[test]
fn accelerators_are_read() {
    let a = Accelerator::parse("Ctrl+Alt+S").unwrap();
    assert_eq!(a.mods, Mods { ctrl: true, alt: true, shift: false, logo: false });
    assert_eq!((a.key.as_str(), a.evdev_key), ("S", 31));
    let b = Accelerator::parse(" control + OPTION+shift+ cmd + f9 ").unwrap();
    assert_eq!(b.mods, Mods { ctrl: true, alt: true, shift: true, logo: true });
    assert_eq!((b.key.as_str(), b.evdev_key), ("F9", 67));
    for word in ["Super", "Meta", "Logo", "Win", "Cmd"] {
        let c = Accelerator::parse(&format!("{word}+1")).unwrap();
        assert_eq!(c.mods, Mods { ctrl: false, alt: false, shift: false, logo: true });
    }
}

#[test]
fn bad_accelerators_are_refused() {
    let said = |s: &str| match Accelerator::parse(s) {
        Err(HotkeyError::Backend(text)) => text,
        other => panic!("{s}: {other:?}"),
    };
    assert_eq!(said("Ctrl+A+B"), "accelerator `Ctrl+A+B` has more than one non-modifier key");
    assert_eq!(said("Ctrl+Alt"), "accelerator `Ctrl+Alt` has no key");
    assert_eq!(said(""), "accelerator `` has no key");
    assert_eq!(said("Ctrl+foo"), "unsupported key `FOO` in accelerator");
}

#[test]
fn portal_triggers_read_back() {
    for s in ["Ctrl+Alt+S", "Shift+F12", "Super+Space", "q"] {
        let a = Accelerator::parse(s).unwrap();
        let t = a.portal_trigger();
        let b = Accelerator::parse(&t).unwrap();
        assert_eq!((a.mods, &a.key, a.evdev_key), (b.mods, &b.key, b.evdev_key), "{t}");
    }
    let all = Accelerator::parse("Ctrl+Alt+Shift+Super+S").unwrap();
    assert_eq!(all.portal_trigger(), "CTRL+ALT+SHIFT+LOGO+s");
}

#[test]
fn the_save_fires_on_the_chord_alone() {
    let accel = Accelerator::parse("Ctrl+Alt+S").unwrap();
    let mut held = Held::none();
    assert!(!on_input_event(&mut held, &accel, key(Key::KEY_S, 1)));
    assert!(!on_input_event(&mut held, &accel, key(Key::KEY_LEFTCTRL, 1)));
    assert!(!on_input_event(&mut held, &accel, key(Key::KEY_S, 1)));
    assert!(!on_input_event(&mut held, &accel, key(Key::KEY_RIGHTALT, 1)));
    assert!(on_input_event(&mut held, &accel, key(Key::KEY_S, 1)));
    assert!(!on_input_event(&mut held, &accel, key(Key::KEY_S, 2)));
    assert!(!on_input_event(&mut held, &accel, key(Key::KEY_S, 0)));
    assert!(!on_input_event(&mut held, &accel, key(Key::KEY_A, 1)));
    // A press with one modifier too many does not fire.
    assert!(!on_input_event(&mut held, &accel, key(Key::KEY_LEFTSHIFT, 2)));
    assert!(!on_input_event(&mut held, &accel, key(Key::KEY_S, 1)));
    assert!(!on_input_event(&mut held, &accel, key(Key::KEY_LEFTSHIFT, 0)));
    // Events that are not of keys change nothing.
    let other = RawEvent { event_type: 2, code: Key::KEY_S.code(), value: 1 };
    assert!(!on_input_event(&mut held, &accel, other));
    assert!(on_input_event(&mut held, &accel, key(Key::KEY_S, 1)));
    assert!(!on_input_event(&mut held, &accel, key(Key::KEY_LEFTCTRL, 0)));
    assert_eq!(held.held_mods(), Mods { ctrl: false, alt: true, shift: false, logo: false });
    assert_eq!((held.left, held.right.alt), (Mods::none(), true));
}

#[test]
fn a_modifier_is_held_by_either_of_its_keys() {
    let accel = Accelerator::parse("Ctrl+Alt+S").unwrap();
    let mut held = Held::none();
    let mut fired = Vec::new();
    let events = [
        (Key::KEY_LEFTCTRL, 1),
        (Key::KEY_RIGHTCTRL, 1),
        (Key::KEY_LEFTCTRL, 0),
        (Key::KEY_LEFTALT, 1),
        (Key::KEY_S, 1),
        (Key::KEY_S, 2),
        (Key::KEY_S, 0),
    ];
    for (i, (k, value)) in events.into_iter().enumerate() {
        if on_input_event(&mut held, &accel, key(k, value)) {
            fired.push(i);
        }
    }
    assert_eq!(fired, vec![4]);
    // Once the other key is released too, the chord is broken.
    assert!(!on_input_event(&mut held, &accel, key(Key::KEY_RIGHTCTRL, 0)));
    assert!(!on_input_event(&mut held, &accel, key(Key::KEY_S, 1)));
    assert_eq!(held.held_mods(), Mods { alt: true, ..Mods::none() });
    for (left, right, m) in [
        (Key::KEY_LEFTALT, Key::KEY_RIGHTALT, Mods { alt: true, ..Mods::none() }),
        (Key::KEY_LEFTSHIFT, Key::KEY_RIGHTSHIFT, Mods { shift: true, ..Mods::none() }),
        (Key::KEY_LEFTMETA, Key::KEY_RIGHTMETA, Mods { logo: true, ..Mods::none() }),
    ] {
        let mut held = Held::none();
        on_input_event(&mut held, &accel, key(left, 1));
        on_input_event(&mut held, &accel, key(right, 1));
        assert_eq!(held, Held { left: m, right: m });
        on_input_event(&mut held, &accel, key(left, 0));
        assert_eq!(held, Held { left: Mods::none(), right: m });
        assert_eq!(held.held_mods(), m);
    }
}

#[test]
fn modifiers_match_exactly() {
    let none = Mods::none();
    let ctrl = Mods { ctrl: true, ..none };
    assert!(mods_match(&none, &none) && mods_match(&ctrl, &ctrl));
    assert!(!mods_match(&ctrl, &none) && !mods_match(&none, &ctrl));
    assert!(ctrl.any() && !none.any());
}

#[test]
fn readers_and_devices() {
    assert_eq!(after_read_error(Some(libc::EWOULDBLOCK)), ReaderStep::Retry);
    assert_eq!(after_read_error(Some(libc::ENODEV)), ReaderStep::Stop);
    assert_eq!(after_read_error(None), ReaderStep::Stop);
    assert_eq!((libc_ewouldblock(), o_nonblock()), (libc::EAGAIN, libc::O_NONBLOCK));
    assert_eq!(nonblocking_flags(libc::O_RDWR), Some(libc::O_RDWR | libc::O_NONBLOCK));
    assert_eq!(nonblocking_flags(-1), None);
    assert!(is_event_node("event0") && is_event_node("event"));
    assert!(!is_event_node("mouse0") && !is_event_node("even") && !is_event_node(""));
    assert!(check_keyboards(1).is_ok());
    assert_eq!(
        check_keyboards(0).unwrap_err().message(),
        "hotkey backend error: no readable keyboard devices in /dev/input (need `input` group access)"
    );
    assert_eq!(
        input_dir_error("denied").message(),
        "hotkey backend error: cannot read /dev/input: denied (need `input` group access)"
    );
}

#[test]
fn the_portal_listener_stops() {
    assert_eq!((shortcut_id(), shortcut_description()), ("save-clip", "Save the last clip"));
    assert!(activation_fires("save-clip", false));
    assert!(!activation_fires("save-clip", true) && !activation_fires("other", false));
}

#[test]
fn the_manager_prefers_the_portal() {
    let mut m = manager().unwrap();
    assert_eq!(m.name(), "uninitialized");
    let (before, accel) = m.begin_register("Ctrl+S");
    assert_eq!(before, Active::Idle);
    assert!(accel.is_ok());
    assert!(m.portal_tried(PortalProbe::Bound));
    assert_eq!(m.name(), "portal-global-shortcuts");
    let (before, accel) = m.begin_register("nonsense+");
    assert_eq!(before, Active::Portal);
    assert!(accel.is_err());
    assert!(!m.portal_tried(PortalProbe::Unavailable) && !m.portal_tried(PortalProbe::Failed));
    assert!(m.evdev_tried(Ok(())).is_ok());
    assert_eq!(m.name(), "evdev");
    assert_eq!(m.stop(), Active::Evdev);
    assert_eq!(m.stop(), Active::Idle);
    assert!(m.evdev_tried(Err(HotkeyError::Unsupported("x".to_string()))).is_err());
    assert_eq!(m.name(), "unavailable");
}

#[test]
fn without_a_backend_there_is_no_manager() {
    match create_manager(None) {
        Err(e) => assert_eq!(
            e.message(),
            "hotkey unsupported: no hotkey backend built (enable feature `hotkey`)"
        ),
        Ok(_) => panic!("a manager out of nothing"),
    }
}

#[test]
fn no_key_of_an_accelerator_is_a_modifier() {
    let mut names: Vec<String> = ('A'..='Z').chain('0'..='9').map(|c| c.to_string()).collect();
    names.extend((1..=12).map(|n| format!("F{n}")));
    names.extend(["SPACE", "ENTER", "TAB", "ESC"].map(str::to_string));
    for name in names {
        let code = key_to_evdev(&name).unwrap();
        assert_eq!(modifier_of_code(code), None, "{name}");
    }
}
