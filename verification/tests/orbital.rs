use winit::dpi::PhysicalSize;
use winit::orbital::{
    orbital_display, DeviceId, KeyEventExtra, FingerId, MonitorHandle, PlatformSpecificWindowAttributes,
    WindowId, WindowProperties,
};

/// What the properties of a path are, computed with std's own splitting and parsing.
fn by_std(path: &str) -> (String, i32, i32, u32, u32, String) {
    let body = path.strip_prefix("/scheme/orbital/").unwrap_or(path);
    let mut parts = body.splitn(6, '/');
    let flags = parts.next().unwrap_or("").to_string();
    let x = parts.next().map_or(0, |p| p.parse::<i32>().unwrap_or(0));
    let y = parts.next().map_or(0, |p| p.parse::<i32>().unwrap_or(0));
    let w = parts.next().map_or(0, |p| p.parse::<u32>().unwrap_or(0));
    let h = parts.next().map_or(0, |p| p.parse::<u32>().unwrap_or(0));
    let title = parts.next().unwrap_or("").to_string();
    (flags, x, y, w, h, title)
}

fn ours(path: &str) -> (String, i32, i32, u32, u32, String) {
    let p = WindowProperties::new(path);
    (p.flags.to_string(), p.x, p.y, p.w, p.h, p.title.to_string())
}

#[test]
fn properties_full_path() {
    let p = WindowProperties::new("abr/10/-20/640/480/My Window");
    assert_eq!(p.flags, "abr");
    assert_eq!(p.x, 10);
    assert_eq!(p.y, -20);
    assert_eq!(p.w, 640);
    assert_eq!(p.h, 480);
    assert_eq!(p.title, "My Window");
}

#[test]
fn properties_title_keeps_slashes() {
    let p = WindowProperties::new("f/1/2/3/4/a/b/c");
    assert_eq!(p.title, "a/b/c");
    assert_eq!(p.h, 4);
}

#[test]
fn properties_missing_parts_are_empty_or_zero() {
    let p = WindowProperties::new("r/5");
    assert_eq!(p.flags, "r");
    assert_eq!(p.x, 5);
    assert_eq!(p.y, 0);
    assert_eq!(p.w, 0);
    assert_eq!(p.h, 0);
    assert_eq!(p.title, "");
    let e = WindowProperties::new("");
    assert_eq!(e.flags, "");
    assert_eq!(e.x, 0);
    assert_eq!(e.title, "");
}

#[test]
fn properties_bad_numbers_are_zero() {
    let p = WindowProperties::new("f/x1/+/-5/99999999999/t");
    assert_eq!(p.x, 0);
    assert_eq!(p.y, 0);
    assert_eq!(p.w, 0);
    assert_eq!(p.h, 0);
}

#[test]
fn properties_number_edges() {
    let p = WindowProperties::new("f/-2147483648/2147483647/4294967295/+7/t");
    assert_eq!(p.x, i32::MIN);
    assert_eq!(p.y, i32::MAX);
    assert_eq!(p.w, u32::MAX);
    assert_eq!(p.h, 7);
    let q = WindowProperties::new("f/2147483648/-2147483649/4294967296/-0/t");
    assert_eq!(q.x, 0);
    assert_eq!(q.y, 0);
    assert_eq!(q.w, 0);
    assert_eq!(q.h, 0);
    let r = WindowProperties::new("f/-0/+0/007/0/t");
    assert_eq!(r.x, 0);
    assert_eq!(r.y, 0);
    assert_eq!(r.w, 7);
    assert_eq!(r.h, 0);
}

#[test]
fn properties_unicode() {
    let p = WindowProperties::new("é/3/4/5/6/héllo wörld/ü");
    assert_eq!(p.flags, "é");
    assert_eq!(p.x, 3);
    assert_eq!(p.title, "héllo wörld/ü");
    let q = WindowProperties::new("f/١٢/3/4/5/t");
    assert_eq!(q.x, 0);
}

#[test]
fn properties_agree_with_std() {
    let paths = [
        "",
        "/",
        "//////",
        "a",
        "a/b",
        "a/1/2/3/4",
        "a/1/2/3/4/",
        "a/1/2/3/4/t/u/v",
        "a/ 1/2 /3/4/t",
        "a/+-1/--2/-3/+4/t",
        "a/99999999999999999999999/-99999999999999999999999/1/2/t",
        "a/0000000000000000000000012/00/0/0000/t",
        "/-1/-1/1/1/",
        "x/2147483647/-2147483648/4294967295/4294967295/y",
        "x/2147483648/-2147483649/4294967296/-1/y",
        "ab/1e3/0x10/1.5/½/ok",
        "ü/ß/€/日本/🙂/🙂/🙂",
        "/scheme/orbital/abr/1/2/3/4/t",
        "/scheme/orbital",
        "/scheme/orbital/",
        "/scheme/",
        "/scheme",
        "/scheme//a/-1/-2/3/4/t/u",
        "/scheme/x/y/z",
        "/Scheme/orbital/a/1/2/3/4/t",
    ];
    for path in paths {
        assert_eq!(ours(path), by_std(path), "path {:?}", path);
    }
}

#[test]
fn properties_path_round_trip() {
    let cases: [(&str, i32, i32, u32, u32, &str); 5] = [
        ("", 0, 0, 0, 0, ""),
        ("abr", -1, 22, 640, 480, "Title/with/slashes"),
        ("t", i32::MIN, i32::MAX, u32::MAX, 0, "ü"),
        ("rh", 7, -7, 1, 10, ""),
        ("x", 100, 200, 300, 400, "a b c"),
    ];
    for (flags, x, y, w, h, title) in cases {
        let p = WindowProperties { flags, x, y, w, h, title };
        for display in ["/scheme/orbital"] {
            let path = p.to_path(display);
            let q = WindowProperties::new(&path);
            assert_eq!((q.flags, q.x, q.y, q.w, q.h, q.title), (flags, x, y, w, h, title));
        }
        let default_path = p.to_path(&orbital_display(None));
        let q = WindowProperties::new(&default_path);
        assert_eq!((q.flags, q.x, q.y, q.w, q.h, q.title), (flags, x, y, w, h, title));
    }
}

#[test]
fn properties_scheme_path() {
    let p = WindowProperties::new("/scheme/orbital/abc/1/2/3/4/title");
    assert_eq!(p.flags, "abc");
    assert_eq!(p.x, 1);
    assert_eq!(p.y, 2);
    assert_eq!(p.w, 3);
    assert_eq!(p.h, 4);
    assert_eq!(p.title, "title");
    // Other paths are split as they stand.
    let q = WindowProperties::new("/scheme/orbital");
    assert_eq!((q.flags, q.x, q.y, q.w, q.h, q.title), ("", 0, 0, 0, 0, ""));
    let r = WindowProperties::new("/scheme/x/a");
    assert_eq!((r.flags, r.x, r.y, r.w, r.h, r.title), ("", 0, 0, 0, 0, ""));
    let t = WindowProperties::new("/scheme/other/f/5/6/7/8");
    assert_eq!((t.flags, t.x, t.y, t.w, t.h, t.title), ("", 0, 0, 0, 5, "6/7/8"));
    let u = WindowProperties::new("/schemes/x/1");
    assert_eq!((u.flags, u.x, u.y, u.w, u.h, u.title), ("", 0, 0, 1, 0, ""));
}

#[test]
fn properties_to_path_text() {
    let p = WindowProperties { flags: "abr", x: -5, y: 0, w: 640, h: 480, title: "Hello" };
    assert_eq!(p.to_path("/scheme/orbital"), "/scheme/orbital/abr/-5/0/640/480/Hello");
    let q = WindowProperties { flags: "", x: i32::MIN, y: 10, w: u32::MAX, h: 9, title: "" };
    assert_eq!(q.to_path("d"), format!("d//{}/10/{}/9/", i32::MIN, u32::MAX));
}

#[test]
fn display_from_variable_or_default() {
    assert_eq!(orbital_display(None), "/scheme/orbital");
    assert_eq!(orbital_display(Some("/scheme/other".to_string())), "/scheme/other");
}

#[test]
fn window_id_conversions() {
    let id = WindowId::from(42u64);
    assert_eq!(u64::from(id), 42);
    assert_eq!(u64::from(WindowId::dummy()), u64::MAX);
    assert_eq!(WindowId::from(u64::from(id)), id);
    assert!(WindowId::from(1u64) < WindowId::from(2u64));
    assert_ne!(WindowId::from(0u64), WindowId::dummy());
}

#[test]
fn dummy_ids() {
    assert_eq!(DeviceId::dummy(), DeviceId);
    assert_eq!(FingerId::dummy(), FingerId);
    assert_eq!(PlatformSpecificWindowAttributes::default(), PlatformSpecificWindowAttributes);
}

#[test]
fn monitor_reports() {
    let m = MonitorHandle;
    assert_eq!(m.name(), None);
    assert!(m.position().is_none());
    let mode = m.current_video_mode().unwrap();
    assert_eq!(mode.monitor(), m);
    let modes = m.video_modes();
    assert_eq!(modes.len(), 1);
    assert_eq!(modes[0], mode);
}

#[test]
fn video_mode_reports() {
    let mode = MonitorHandle.current_video_mode().unwrap();
    assert_eq!(mode.size(), PhysicalSize::new(0u32, 0u32));
    assert_eq!(mode.size(), PhysicalSize::<u32>::default());
    assert_eq!(mode.bit_depth(), None);
    assert_eq!(mode.refresh_rate_millihertz(), None);
}

#[test]
fn key_event_extra_holds_its_text() {
    let extra = KeyEventExtra {
        key_without_modifiers: 'a',
        text_with_all_modifiers: Some(smol_str::SmolStr::new("A")),
    };
    let copy = extra.clone();
    assert_eq!(copy, extra);
    assert_eq!(copy.text_with_all_modifiers.as_deref(), Some("A"));
    assert_eq!(copy.key_without_modifiers, 'a');
}
