//! The Orbital backend: identifiers, monitors, video modes and the
//! window-property path of an Orbital window.

use vstd::prelude::*;

use crate::decimal::{
    i32_text, lemma_i32_text_parses, lemma_u32_text_parses, parse_i32_at, parse_i32_spec,
    parse_u32_at, parse_u32_spec, push_i32, push_u32, u32_text,
};
use crate::dpi::{PhysicalPosition, PhysicalSize};
use crate::split::{
    chars_of, lemma_splitn_head, range_texts, split_ranges, splitn,
};

verus! {

/// Event-loop attributes specific to Orbital (there are none).
#[derive(Default, Debug, Copy, Clone, PartialEq, Eq, Hash)]
pub struct PlatformSpecificEventLoopAttributes {}

/// Identifies an Orbital window by the file descriptor of its socket.
#[derive(Clone, Copy, Debug, Eq, Hash, Ord, PartialEq, PartialOrd, Structural)]
pub struct WindowId {
    fd: u64,
}

impl WindowId {
    /// The descriptor that a `WindowId` holds.
    pub closed spec fn spec_fd(self) -> u64 {
        self.fd
    }

    /// A placeholder id, which no real window has.
    pub fn dummy() -> (r: Self)
        ensures
            r.spec_fd() == u64::MAX,
            r == <WindowId as vstd::std_specs::convert::FromSpec<u64>>::from_spec(u64::MAX),
    {
        WindowId { fd: u64::MAX }
    }
}

impl From<WindowId> for u64 {
    fn from(id: WindowId) -> (r: u64)
        ensures
            r == id.spec_fd(),
    {
        id.fd
    }
}

impl vstd::std_specs::convert::FromSpecImpl<WindowId> for u64 {
    open spec fn obeys_from_spec() -> bool {
        true
    }

    open spec fn from_spec(id: WindowId) -> u64 {
        id.spec_fd()
    }
}

impl From<u64> for WindowId {
    fn from(fd: u64) -> (r: WindowId)
        ensures
            r.spec_fd() == fd,
    {
        Self { fd }
    }
}

impl vstd::std_specs::convert::FromSpecImpl<u64> for WindowId {
    open spec fn obeys_from_spec() -> bool {
        true
    }

    closed spec fn from_spec(fd: u64) -> WindowId {
        WindowId { fd }
    }
}

/// A window id made from a descriptor holds that descriptor, and turning an
/// id into its descriptor and back gives the same id.
pub proof fn lemma_window_id_round_trip(fd: u64, id: WindowId)
    ensures
        <WindowId as vstd::std_specs::convert::FromSpec<u64>>::from_spec(fd).spec_fd() == fd,
        <WindowId as vstd::std_specs::convert::FromSpec<u64>>::from_spec(
            <u64 as vstd::std_specs::convert::FromSpec<WindowId>>::from_spec(id),
        ) == id,
{
}

/// The order of window ids, as the derived `Ord` compares them: by the
/// descriptor field that the id stores.
pub closed spec fn window_id_precedes(a: WindowId, b: WindowId) -> bool {
    a.fd < b.fd
}

/// The descriptor that an id reports is the one it stores and is ordered by.
pub proof fn law_window_id_stores_descriptor(a: WindowId, b: WindowId)
    ensures
        window_id_precedes(a, b) == (a.spec_fd() < b.spec_fd()),
        (a.spec_fd() == b.spec_fd()) == (a == b),
{
}

/// Ids made from descriptors are ordered as the descriptors are, and the
/// placeholder id comes after every other id.
pub proof fn law_window_id_order(a: u64, b: u64, id: WindowId)
    ensures
        (a < b) == window_id_precedes(
            <WindowId as vstd::std_specs::convert::FromSpec<u64>>::from_spec(a),
            <WindowId as vstd::std_specs::convert::FromSpec<u64>>::from_spec(b),
        ),
        id.spec_fd() != u64::MAX ==> window_id_precedes(
            id,
            <WindowId as vstd::std_specs::convert::FromSpec<u64>>::from_spec(u64::MAX),
        ),
{
}

/// Identifies an input device (Orbital has only one).
#[derive(Clone, Copy, Debug, Eq, Hash, Ord, PartialEq, PartialOrd, Structural)]
pub struct DeviceId;

impl DeviceId {
    /// A placeholder device id.
    pub fn dummy() -> (r: Self)
        ensures
            r == DeviceId,
    {
        DeviceId
    }
}

/// Identifies a touch point (Orbital has only one).
#[derive(Clone, Copy, Debug, Eq, Hash, Ord, PartialEq, PartialOrd, Structural)]
pub struct FingerId;

impl FingerId {
    /// A placeholder finger id.
    pub fn dummy() -> (r: Self)
        ensures
            r == FingerId,
    {
        FingerId
    }
}

/// Window attributes specific to Orbital (there are none).
#[derive(Clone, Copy, Debug, Default, Eq, PartialEq, Structural)]
pub struct PlatformSpecificWindowAttributes;

/// The single Orbital display.
#[derive(Clone, Debug, Eq, Hash, Ord, PartialEq, PartialOrd, Structural)]
pub struct MonitorHandle;

impl MonitorHandle {
    /// Orbital gives its display no name.
    pub fn name(&self) -> (r: Option<String>)
        ensures
            r is None,
    {
        None
    }

    /// Orbital does not report where its display stands.
    pub fn position(&self) -> (r: Option<PhysicalPosition<i32>>)
        ensures
            r is None,
    {
        None
    }

    /// The one video mode of this display.
    pub fn current_video_mode(&self) -> (r: Option<VideoModeHandle>)
        ensures
            r matches Some(mode) && mode.spec_monitor() == *self,
    {
        Some(VideoModeHandle { monitor: self.clone() })
    }

    /// All video modes of this display: the current one alone.
    pub fn video_modes(&self) -> (r: Vec<VideoModeHandle>)
        ensures
            r@.len() == 1,
            r@[0].spec_monitor() == *self,
    {
        let mut modes: Vec<VideoModeHandle> = Vec::new();
        match self.current_video_mode() {
            Some(mode) => modes.push(mode),
            None => {},
        }
        modes
    }
}

/// A video mode of an Orbital display.
#[derive(Clone, Debug, Eq, Hash, PartialEq, Structural)]
pub struct VideoModeHandle {
    pub(crate) monitor: MonitorHandle,
}

impl VideoModeHandle {
    /// The display that this mode belongs to.
    pub closed spec fn spec_monitor(self) -> MonitorHandle {
        self.monitor
    }

    /// Orbital does not report the mode's size: it is zero.
    pub fn size(&self) -> (r: PhysicalSize<u32>)
        ensures
            r.width == 0,
            r.height == 0,
    {
        PhysicalSize::default()
    }

    /// Orbital does not report the bit depth.
    pub fn bit_depth(&self) -> (r: Option<u16>)
        ensures
            r is None,
    {
        None
    }

    /// Orbital does not report the refresh rate.
    pub fn refresh_rate_millihertz(&self) -> (r: Option<u32>)
        ensures
            r is None,
    {
        None
    }

    /// The display this mode belongs to.
    pub fn monitor(&self) -> (r: MonitorHandle)
        ensures
            r == self.spec_monitor(),
    {
        self.monitor.clone()
    }
}

/// The properties of an Orbital window, as its path
/// `flags/x/y/w/h/title` gives them.
pub struct WindowProperties<'a> {
    pub flags: &'a str,
    pub x: i32,
    pub y: i32,
    pub w: u32,
    pub h: u32,
    pub title: &'a str,
}

/// The `k`-th of the at most six `/`-separated parts of a window path; the
/// sixth holds the rest of the path.
pub open spec fn path_part(path: Seq<char>, k: int) -> Option<Seq<char>> {
    let parts = splitn(path, 6, '/');
    if 0 <= k < parts.len() {
        Some(parts[k])
    } else {
        None
    }
}

/// The `k`-th part of a window path as text; empty where there is no such part.
pub open spec fn part_text(path: Seq<char>, k: int) -> Seq<char> {
    match path_part(path, k) {
        Some(t) => t,
        None => Seq::empty(),
    }
}

/// The `k`-th part of a window path read as an `i32`; 0 where there is no
/// such part or it is no `i32`.
pub open spec fn part_i32(path: Seq<char>, k: int) -> i32 {
    match path_part(path, k) {
        Some(t) => match parse_i32_spec(t) {
            Some(v) => v,
            None => 0,
        },
        None => 0,
    }
}

/// The `k`-th part of a window path read as a `u32`; 0 where there is no
/// such part or it is no `u32`.
pub open spec fn part_u32(path: Seq<char>, k: int) -> u32 {
    match path_part(path, k) {
        Some(t) => match parse_u32_spec(t) {
            Some(v) => v,
            None => 0,
        },
        None => 0,
    }
}

/// The window path `flags/x/y/w/h/title` of the given properties.
pub open spec fn properties_text(
    flags: Seq<char>,
    x: i32,
    y: i32,
    w: u32,
    h: u32,
    title: Seq<char>,
) -> Seq<char> {
    flags + seq!['/'] + i32_text(x) + seq!['/'] + i32_text(y) + seq!['/'] + u32_text(w) + seq![
        '/',
    ] + u32_text(h) + seq!['/'] + title
}

/// The characters `/scheme/orbital/` that begin the path of an Orbital window.
pub open spec fn orbital_prefix() -> Seq<char> {
    seq!['/', 's', 'c', 'h', 'e', 'm', 'e', '/', 'o', 'r', 'b', 'i', 't', 'a', 'l', '/']
}

/// The part of a window path that names the window's properties: what follows
/// `/scheme/orbital/` where the path begins with it, else the whole path.
pub open spec fn window_path_body(path: Seq<char>) -> Seq<char> {
    if path.len() >= 16 && path.take(16) == orbital_prefix() {
        path.skip(16)
    } else {
        path
    }
}

/// Whether the characters begin with `/scheme/orbital/`.
fn has_orbital_prefix(chars: &Vec<char>) -> (b: bool)
    ensures
        b == (chars@.len() >= 16 && chars@.take(16) == orbital_prefix()),
{
    if chars.len() < 16 {
        return false;
    }
    let mut i: usize = 0;
    let prefix = ['/', 's', 'c', 'h', 'e', 'm', 'e', '/', 'o', 'r', 'b', 'i', 't', 'a', 'l', '/'];
    assert(prefix@ =~= orbital_prefix());
    while i < 16
        invariant
            i <= 16 <= chars@.len(),
            prefix@ == orbital_prefix(),
            forall|j: int| 0 <= j < i ==> chars@[j] == orbital_prefix()[j],
        decreases 16 - i,
    {
        if chars[i] != prefix[i] {
            proof {
                assert(chars@.take(16)[i as int] != orbital_prefix()[i as int]);
            }
            return false;
        }
        i = i + 1;
    }
    assert(chars@.take(16) =~= orbital_prefix());
    true
}

impl<'a> WindowProperties<'a> {
    /// Reads the properties from a window path
    /// `/scheme/orbital/flags/x/y/w/h/title`, or from `flags/x/y/w/h/title`
    /// where the path does not begin with `/scheme/orbital/`. A part that is
    /// missing is empty, or 0 for a number; a number that does not parse is 0;
    /// the title is all that follows the `/` after `h`.
    pub fn new(path: &'a str) -> (r: Self)
        ensures
            r.flags@ == part_text(window_path_body(path@), 0),
            r.x == part_i32(window_path_body(path@), 1),
            r.y == part_i32(window_path_body(path@), 2),
            r.w == part_u32(window_path_body(path@), 3),
            r.h == part_u32(window_path_body(path@), 4),
            r.title@ == part_text(window_path_body(path@), 5),
    {
        let chars = chars_of(path);
        let len = chars.len();
        if has_orbital_prefix(&chars) {
            let body = path.substring_char(16, len);
            assert(path@.skip(16) =~= path@.subrange(16, len as int));
            Self::from_body(body)
        } else {
            Self::from_body(path)
        }
    }

    /// Reads the properties from `flags/x/y/w/h/title`.
    fn from_body(path: &'a str) -> (r: Self)
        ensures
            r.flags@ == part_text(path@, 0),
            r.x == part_i32(path@, 1),
            r.y == part_i32(path@, 2),
            r.w == part_u32(path@, 3),
            r.h == part_u32(path@, 4),
            r.title@ == part_text(path@, 5),
    {
        let chars = chars_of(path);
        let parts = split_ranges(&chars, 6, '/');
        let n = parts.len();
        proof {
            assert forall|k: int| 0 <= k < n implies path_part(path@, k) == Some(
                path@.subrange(parts@[k].0 as int, parts@[k].1 as int),
            ) by {
                assert(range_texts(chars@, parts@)[k] == chars@.subrange(
                    parts@[k].0 as int,
                    parts@[k].1 as int,
                ));
            }
            reveal_strlit("");
        }
        let flags = if n > 0 {
            path.substring_char(parts[0].0, parts[0].1)
        } else {
            ""
        };
        let x = if n > 1 {
            match parse_i32_at(&chars, parts[1].0, parts[1].1) {
                Some(v) => v,
                None => 0,
            }
        } else {
            0
        };
        let y = if n > 2 {
            match parse_i32_at(&chars, parts[2].0, parts[2].1) {
                Some(v) => v,
                None => 0,
            }
        } else {
            0
        };
        let w = if n > 3 {
            match parse_u32_at(&chars, parts[3].0, parts[3].1) {
                Some(v) => v,
                None => 0,
            }
        } else {
            0
        };
        let h = if n > 4 {
            match parse_u32_at(&chars, parts[4].0, parts[4].1) {
                Some(v) => v,
                None => 0,
            }
        } else {
            0
        };
        let title = if n > 5 {
            path.substring_char(parts[5].0, parts[5].1)
        } else {
            ""
        };
        WindowProperties { flags, x, y, w, h, title }
    }

    /// The window path `display/flags/x/y/w/h/title` under the display's scheme path.
    pub fn to_path(&self, display: &str) -> (r: String)
        ensures
            r@ == display@ + seq!['/'] + properties_text(
                self.flags@,
                self.x,
                self.y,
                self.w,
                self.h,
                self.title@,
            ),
    {
        let mut out = String::new();
        out.append(display);
        out.append("/");
        out.append(self.flags);
        out.append("/");
        push_i32(&mut out, self.x);
        out.append("/");
        push_i32(&mut out, self.y);
        out.append("/");
        push_u32(&mut out, self.w);
        out.append("/");
        push_u32(&mut out, self.h);
        out.append("/");
        out.append(self.title);
        proof {
            reveal_strlit("/");
        }
        assert(out@ =~= display@ + seq!['/'] + properties_text(
            self.flags@,
            self.x,
            self.y,
            self.w,
            self.h,
            self.title@,
        ));
        out
    }
}

/// Reading back a window path that the properties make gives the same
/// properties, provided the flags hold no `/`.
pub proof fn lemma_properties_round_trip(
    flags: Seq<char>,
    x: i32,
    y: i32,
    w: u32,
    h: u32,
    title: Seq<char>,
)
    requires
        !flags.contains('/'),
    ensures
        ({
            let path = properties_text(flags, x, y, w, h, title);
            &&& part_text(path, 0) == flags
            &&& part_i32(path, 1) == x
            &&& part_i32(path, 2) == y
            &&& part_u32(path, 3) == w
            &&& part_u32(path, 4) == h
            &&& part_text(path, 5) == title
        }),
{
    let sl = seq!['/'];
    let tx = i32_text(x);
    let ty = i32_text(y);
    let tw = u32_text(w);
    let th = u32_text(h);
    lemma_i32_text_parses(x);
    lemma_i32_text_parses(y);
    lemma_u32_text_parses(w);
    lemma_u32_text_parses(h);
    let r4 = th + sl + title;
    let r3 = tw + sl + r4;
    let r2 = ty + sl + r3;
    let r1 = tx + sl + r2;
    let path = properties_text(flags, x, y, w, h, title);
    assert(path =~= flags + sl + r1);
    lemma_splitn_head(flags, r1, 6, '/');
    lemma_splitn_head(tx, r2, 5, '/');
    lemma_splitn_head(ty, r3, 4, '/');
    lemma_splitn_head(tw, r4, 3, '/');
    lemma_splitn_head(th, title, 2, '/');
    assert(splitn(title, 1, '/') == seq![title]);
    let parts = splitn(path, 6, '/');
    assert(parts =~= seq![flags, tx, ty, tw, th, title]);
}

/// The path that `to_path` writes under the display `/scheme/orbital`
/// reads back to the same properties, provided the flags hold no `/`.
pub proof fn lemma_window_path_round_trip(
    flags: Seq<char>,
    x: i32,
    y: i32,
    w: u32,
    h: u32,
    title: Seq<char>,
)
    requires
        !flags.contains('/'),
    ensures
        ({
            let body = properties_text(flags, x, y, w, h, title);
            let path = "/scheme/orbital"@ + seq!['/'] + body;
            &&& window_path_body(path) == body
            &&& part_text(window_path_body(path), 0) == flags
            &&& part_i32(window_path_body(path), 1) == x
            &&& part_i32(window_path_body(path), 2) == y
            &&& part_u32(window_path_body(path), 3) == w
            &&& part_u32(window_path_body(path), 4) == h
            &&& part_text(window_path_body(path), 5) == title
        }),
{
    reveal_strlit("/scheme/orbital");
    let body = properties_text(flags, x, y, w, h, title);
    let path = "/scheme/orbital"@ + seq!['/'] + body;
    assert(path.take(16) =~= orbital_prefix());
    assert(path.skip(16) =~= body);
    lemma_properties_round_trip(flags, x, y, w, h, title);
}

/// The scheme path of the Orbital display: the value of the
/// `ORBITAL_DISPLAY` variable where it is set, else `/scheme/orbital`.
pub fn orbital_display(var: Option<String>) -> (r: String)
    ensures
        var matches Some(v) ==> r@ == v@,
        var is None ==> r@ == "/scheme/orbital"@,
{
    match var {
        Some(v) => v,
        None => String::from_str("/scheme/orbital"),
    }
}

/// `SmolStr`, carried through as an opaque value.
#[verifier::external_type_specification]
#[verifier::external_body]
pub struct ExSmolStr(smol_str::SmolStr);

/// What an Orbital key event carries besides the key itself: the key as read
/// without modifiers, and the text that the key gives with all modifiers.
/// The key type is a parameter, as the keyboard's key type lives outside this
/// platform code.
#[derive(Debug, Clone, Eq, PartialEq, Hash)]
pub struct KeyEventExtra<K> {
    pub key_without_modifiers: K,
    pub text_with_all_modifiers: Option<smol_str::SmolStr>,
}

} // verus!
