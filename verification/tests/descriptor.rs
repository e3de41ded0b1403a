use rewind::capture::descriptor::{
    describe_window, find_window, format_descriptor, get_text_property, parse_descriptor,
    trim_nuls, window_title, wm_class, WindowDescriptor,
};

fn desc(class: Option<&str>, instance: Option<&str>, title: Option<&str>) -> WindowDescriptor {
    WindowDescriptor {
        class: class.map(str::to_string),
        instance: instance.map(str::to_string),
        title: title.map(str::to_string),
    }
}

#[test]
fn descriptor_round_trips() {
    let d = desc(Some("steam_app_570"), Some("dota2"), Some("Dota 2"));
    assert_eq!(parse_descriptor(&format_descriptor(&d)), Some(d));
}

#[test]
fn descriptor_round_trips_partial() {
    // Only a class (no instance/title) is still enough to re-attach.
    let d = desc(Some("firefox"), None, None);
    assert_eq!(parse_descriptor(&format_descriptor(&d)), Some(d));
}

#[test]
fn parse_ignores_unknown_keys_and_blank_lines() {
    let text = "class=mpv\n\n# a comment line without '='\nfoo=bar\ntitle=video.mkv\n";
    assert_eq!(parse_descriptor(text), Some(desc(Some("mpv"), None, Some("video.mkv"))));
}

#[test]
fn parse_empty_is_none() {
    assert_eq!(parse_descriptor(""), None);
    assert_eq!(parse_descriptor("nonsense without equals\n"), None);
}

#[test]
fn value_may_contain_equals() {
    // Titles routinely contain '='; only the first '=' splits the line.
    let d = parse_descriptor("title=a=b=c\n").unwrap();
    assert_eq!(d.title.as_deref(), Some("a=b=c"));
}

#[test]
fn newlines_in_title_are_folded() {
    let d = desc(Some("term"), None, Some("line1\nline2"));
    // A folded title still round-trips as a single line (spaces for newlines).
    let parsed = parse_descriptor(&format_descriptor(&d)).unwrap();
    assert_eq!(parsed.title.as_deref(), Some("line1 line2"));
}

#[test]
fn a_descriptor_is_written_line_by_line() {
    let d = desc(Some("a"), Some("b"), Some("c\r\nd"));
    assert_eq!(format_descriptor(&d), "class=a\ninstance=b\ntitle=c  d\n");
    assert_eq!(format_descriptor(&desc(None, None, None)), "");
    assert_eq!(parse_descriptor(&format_descriptor(&desc(None, None, None))), None);
}

#[test]
fn keys_are_trimmed_and_the_last_line_counts() {
    assert_eq!(
        parse_descriptor(" class =one\r\nclass=two"),
        Some(desc(Some("two"), None, None))
    );
    assert_eq!(parse_descriptor("class="), Some(desc(Some(""), None, None)));
}

#[test]
fn class_and_instance_are_read() {
    assert_eq!(
        wm_class(&Some(b"navigator\0firefox\0".to_vec())),
        (Some("navigator".to_string()), Some("firefox".to_string()))
    );
    assert_eq!(wm_class(&Some(b"\0firefox\0".to_vec())), (None, Some("firefox".to_string())));
    assert_eq!(wm_class(&Some(b"lonely".to_vec())), (Some("lonely".to_string()), None));
    assert_eq!(wm_class(&Some(Vec::new())), (None, None));
    assert_eq!(wm_class(&None), (None, None));
    assert_eq!(
        wm_class(&Some(vec![0xff, b'a', 0])),
        (Some("\u{fffd}a".to_string()), None)
    );
}

#[test]
fn text_properties_are_read() {
    assert_eq!(get_text_property(&Some(b"Dota 2\0\0".to_vec())), Some("Dota 2".to_string()));
    assert_eq!(
        get_text_property(&Some("h\u{e9}llo".as_bytes().to_vec())),
        Some("h\u{e9}llo".to_string())
    );
    assert_eq!(get_text_property(&Some(b"a\xffb".to_vec())), Some("a\u{fffd}b".to_string()));
    assert_eq!(get_text_property(&Some(b"\0".to_vec())), None);
    assert_eq!(get_text_property(&Some(Vec::new())), None);
    assert_eq!(get_text_property(&None), None);
    assert_eq!(trim_nuls("a\0b\0\0"), "a\0b");
}

#[test]
fn the_modern_title_is_preferred() {
    let net = Some(b"net".to_vec());
    let old = Some(b"old".to_vec());
    assert_eq!(window_title(&net, &old), Some("net".to_string()));
    assert_eq!(window_title(&Some(Vec::new()), &old), Some("old".to_string()));
    assert_eq!(window_title(&None, &None), None);
    assert_eq!(
        describe_window(&Some(b"i\0c\0".to_vec()), &None, &old),
        desc(Some("c"), Some("i"), Some("old"))
    );
}

#[test]
fn the_best_window_is_found_again() {
    let saved = desc(Some("app"), Some("main"), Some("Level 1"));
    let windows = vec![
        (1, desc(Some("other"), Some("main"), Some("Level 1"))),
        (2, desc(Some("app"), Some("x"), None)),
        (3, desc(Some("app"), Some("main"), Some("Menu"))),
        (4, desc(Some("app"), Some("x"), Some("Level 1"))),
        (5, desc(Some("app"), Some("main"), Some("Level 1"))),
        (6, desc(Some("app"), Some("main"), Some("Level 1"))),
    ];
    assert_eq!(find_window(&windows, &saved), Some(5));
    assert_eq!(find_window(&windows, &desc(Some("app"), None, Some("Level 1"))), Some(4));
    assert_eq!(find_window(&windows, &desc(Some("app"), None, None)), Some(2));
    assert_eq!(find_window(&windows, &desc(Some("gone"), None, None)), None);
    assert_eq!(find_window(&windows, &desc(None, Some("main"), None)), None);
    assert_eq!(find_window(&Vec::new(), &saved), None);
}

#[test]
fn a_remembered_window_is_found_again() {
    let mine = desc(Some("game"), Some("main"), Some("Level = 1"));
    let saved = parse_descriptor(&format_descriptor(&mine)).unwrap();
    let windows = vec![
        (1, desc(Some("game"), Some("launcher"), Some("Launcher"))),
        (2, mine),
        (3, desc(Some("term"), None, Some("Level = 1"))),
    ];
    assert_eq!(find_window(&windows, &saved), Some(2));
}
