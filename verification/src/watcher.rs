//! The clipboard watcher's decisions: when a copied text or image is new, and the note
//! that a capture becomes.
use vstd::prelude::*;
use crate::ids::{is_uuid_v4_text, new_uuid_text};
use crate::images::{bytes_hash, decode_image, decoded_size, image_hash};
use crate::palette::{is_palette_color, rand_offset, random_color};
use crate::text::same_text;
use crate::timestamp::{timestamp_now, timestamp_text};

verus! {

/// What the watcher remembers between two looks at the clipboard: the last text it
/// captured and the hash of the last image it saw (0 before the first image).
pub struct WatcherState {
    pub last_text: String,
    pub last_image_hash: u64,
}

/// The watcher's memory as plain values.
pub struct WatcherView {
    pub last_text: Seq<char>,
    pub last_image_hash: u64,
}

impl View for WatcherState {
    type V = WatcherView;

    open spec fn view(&self) -> WatcherView {
        WatcherView { last_text: self.last_text@, last_image_hash: self.last_image_hash }
    }
}

/// A look at a clipboard holding `text`: the memory afterwards, and whether the text is
/// captured.  A text is captured when it is not empty and differs from the last text
/// captured; it then becomes the last text captured.
pub open spec fn text_step(w: WatcherView, text: Seq<char>) -> (WatcherView, bool) {
    if text.len() > 0 && text != w.last_text {
        (WatcherView { last_text: text, last_image_hash: w.last_image_hash }, true)
    } else {
        (w, false)
    }
}

/// A look at a clipboard holding an image whose bytes hash to `hash`: the memory
/// afterwards, and whether the image is captured.  The first image seen (while the
/// remembered hash is 0) only sets the baseline; later, an image is captured when its hash
/// differs from the remembered one.  Either way the remembered hash becomes `hash`.
pub open spec fn image_step(w: WatcherView, hash: u64) -> (WatcherView, bool) {
    (
        WatcherView { last_text: w.last_text, last_image_hash: hash },
        hash != w.last_image_hash && w.last_image_hash != 0,
    )
}

impl WatcherState {
    /// A watcher that has seen nothing yet.
    pub fn new() -> (s: WatcherState)
        ensures
            s@.last_text == Seq::<char>::empty(),
            s@.last_image_hash == 0,
    {
        WatcherState { last_text: String::new(), last_image_hash: 0 }
    }

    /// Looks at a clipboard holding `text`; returns whether the text is captured.
    pub fn observe_text(&mut self, text: &str) -> (captured: bool)
        ensures
            (final(self)@, captured) == text_step(old(self)@, text@),
    {
        let t: String = text.to_owned();
        if !text.is_empty() && !(t == self.last_text) {
            self.last_text = t;
            true
        } else {
            assert(text@.len() == 0 ==> text@ =~= Seq::<char>::empty());
            false
        }
    }

    /// Looks at a clipboard holding an image whose bytes hash to `hash`; returns whether
    /// the image is captured.
    pub fn observe_image(&mut self, hash: u64) -> (captured: bool)
        ensures
            (final(self)@, captured) == image_step(old(self)@, hash),
    {
        let captured = hash != self.last_image_hash && self.last_image_hash != 0;
        self.last_image_hash = hash;
        captured
    }

    /// Looks at a clipboard holding an image with the bytes `bytes`: the image is captured
    /// when its hash makes it new (see `image_step`) and the bytes decode to an image; then
    /// the decoded image and its width and height in pixels are returned.
    pub fn look_at_image(&mut self, bytes: &[u8]) -> (r: Option<(image::DynamicImage, u32, u32)>)
        ensures
            final(self)@ == image_step(old(self)@, bytes_hash(bytes@)).0,
            r is Some <==> (image_step(old(self)@, bytes_hash(bytes@)).1 && decoded_size(bytes@) is Some),
            r matches Some((_, w, h)) ==> decoded_size(bytes@) == Some((w, h)),
    {
        let hash = image_hash(bytes);
        if self.observe_image(hash) {
            decode_image(bytes)
        } else {
            None
        }
    }
}

/// Which texts the watcher captures: exactly those that are not empty and differ from the
/// last text it captured, whatever that was (a shorter or longer text included).  A
/// captured text becomes the last text captured; a text not captured changes nothing.
pub proof fn new_texts_are_captured(w: WatcherView, text: Seq<char>)
    ensures
        text_step(w, text).1 <==> (text.len() > 0 && text != w.last_text),
        text_step(w, text).1 ==> text_step(w, text).0 == (WatcherView { last_text: text, ..w }),
        !text_step(w, text).1 ==> text_step(w, text).0 == w,
{
}

/// A text that was just captured is not captured again by the next look at the same text.
pub proof fn text_is_captured_once(w: WatcherView, text: Seq<char>)
    ensures
        !text_step(text_step(w, text).0, text).1,
{
}

/// An empty clipboard text is never captured and changes nothing.
pub proof fn empty_text_is_ignored(w: WatcherView)
    ensures
        text_step(w, Seq::empty()) == (w, false),
{
}

/// The first image the watcher sees is never captured, and an image just seen is not
/// captured again by the next look at the same image.
pub proof fn image_is_captured_once(w: WatcherView, hash: u64)
    ensures
        w.last_image_hash == 0 ==> !image_step(w, hash).1,
        !image_step(image_step(w, hash).0, hash).1,
{
}

/// Looking at images leaves the remembered text alone, and looking at texts leaves the
/// remembered image hash alone.
pub proof fn texts_and_images_are_watched_apart(w: WatcherView, text: Seq<char>, hash: u64)
    ensures
        image_step(w, hash).0.last_text == w.last_text,
        text_step(w, text).0.last_image_hash == w.last_image_hash,
{
}

/// A note made from a capture.  Its position `(x, y)` is in whole board units.
#[derive(Debug, Clone)]
pub struct CapturedNote {
    pub id: String,
    pub x: u32,
    pub y: u32,
    pub width: i32,
    pub height: i32,
    pub color: String,
    pub content_type: String,
    pub content_ref: Option<String>,
    pub file_name: Option<String>,
    pub created_at: String,
    pub z_index: i32,
}

/// A capture: the note stored on the board and the content announced with it.
#[derive(Debug, Clone)]
pub struct Capture {
    pub note: CapturedNote,
    pub content: Option<String>,
}

/// The parts of a note that every capture fills the same way: the id, colour and creation
/// time it is given, the position `200 + offset` on each axis, and the bottom layer.
pub open spec fn placed(n: CapturedNote, id: String, created_at: String, color: String,
    x_offset: u32, y_offset: u32) -> bool
{
    &&& n.id == id
    &&& n.created_at == created_at
    &&& n.color == color
    &&& n.x == 200 + x_offset
    &&& n.y == 200 + y_offset
    &&& n.z_index == 0
}

/// The parts of a note that a capture made now has: a fresh UUID, the current time, a
/// colour preset, a position in `200 .. 400` on each axis, and the bottom layer.
pub open spec fn freshly_placed(n: CapturedNote) -> bool {
    &&& is_uuid_v4_text(n.id@)
    &&& exists|t: i64| n.created_at@ == #[trigger] timestamp_text(t as int)
    &&& is_palette_color(n.color@)
    &&& 200 <= n.x < 400
    &&& 200 <= n.y < 400
    &&& n.z_index == 0
}

/// A capture of the copied text `text` made now: a fresh 220 by 180 text note that keeps
/// no reference, announced with the text.
pub open spec fn is_fresh_text_capture(c: Capture, text: String) -> bool {
    &&& freshly_placed(c.note)
    &&& c.note.width == 220
    &&& c.note.height == 180
    &&& c.note.content_type@ == "text"@
    &&& c.note.content_ref is None
    &&& c.note.file_name is None
    &&& c.content == Some(text)
}

/// A capture of the copied file at `path` whose file name is `file_name`, made now: a
/// fresh 220 by 120 file note that refers to the path and shows the file's name (`file`
/// when the path has none), announced with the path.
pub open spec fn is_fresh_file_capture(c: Capture, path: String, file_name: Option<String>) -> bool {
    &&& freshly_placed(c.note)
    &&& c.note.width == 220
    &&& c.note.height == 120
    &&& c.note.content_type@ == "file"@
    &&& c.note.content_ref == Some(path)
    &&& c.note.file_name matches Some(n) && n@ == shown_file_name(file_name.deep_view())
    &&& c.content == Some(path)
}

/// The capture of a copied text: a 220 by 180 text note that keeps no reference; the
/// text itself is announced with it.
pub fn text_capture(id: String, created_at: String, color: String, x_offset: u32, y_offset: u32,
    text: String) -> (c: Capture)
    requires
        x_offset <= u32::MAX - 200,
        y_offset <= u32::MAX - 200,
    ensures
        placed(c.note, id, created_at, color, x_offset, y_offset),
        c.note.width == 220,
        c.note.height == 180,
        c.note.content_type@ == "text"@,
        c.note.content_ref is None,
        c.note.file_name is None,
        c.content == Some(text),
{
    Capture {
        note: CapturedNote {
            id,
            x: 200 + x_offset,
            y: 200 + y_offset,
            width: 220,
            height: 180,
            color,
            content_type: "text".to_owned(),
            content_ref: None,
            file_name: None,
            created_at,
            z_index: 0,
        },
        content: Some(text),
    }
}

/// The name shown for a copied file: its file name, or `file` when the path has none.
pub open spec fn shown_file_name(file_name: Option<Seq<char>>) -> Seq<char> {
    match file_name {
        Some(n) => n,
        None => "file"@,
    }
}

/// The capture of a copied file at `path`: a 220 by 120 file note that refers to the
/// path and shows the file's name (`file` when the path has none); the path is announced
/// with it.
pub fn file_capture(id: String, created_at: String, color: String, x_offset: u32, y_offset: u32,
    path: String, file_name: Option<String>) -> (c: Capture)
    requires
        x_offset <= u32::MAX - 200,
        y_offset <= u32::MAX - 200,
    ensures
        placed(c.note, id, created_at, color, x_offset, y_offset),
        c.note.width == 220,
        c.note.height == 120,
        c.note.content_type@ == "file"@,
        c.note.content_ref == Some(path),
        c.note.file_name matches Some(n) && n@ == shown_file_name(file_name.deep_view()),
        c.content == Some(path),
{
    let name = match file_name {
        Some(n) => n,
        None => "file".to_owned(),
    };
    Capture {
        note: CapturedNote {
            id,
            x: 200 + x_offset,
            y: 200 + y_offset,
            width: 220,
            height: 120,
            color,
            content_type: "file".to_owned(),
            content_ref: Some(path.clone()),
            file_name: Some(name),
            created_at,
            z_index: 0,
        },
        content: Some(path),
    }
}

/// The capture of a copied image stored at `stored_path` under `file_name`: an image note
/// 40 wider and 60 taller than the image (its pixel sizes taken as `i32`), referring to
/// the stored file; nothing but the note is announced.
pub fn image_capture(id: String, created_at: String, color: String, x_offset: u32, y_offset: u32,
    stored_path: String, file_name: String, width_px: u32, height_px: u32) -> (c: Capture)
    requires
        x_offset <= u32::MAX - 200,
        y_offset <= u32::MAX - 200,
        (width_px as i32) <= i32::MAX - 40,
        (height_px as i32) <= i32::MAX - 60,
    ensures
        placed(c.note, id, created_at, color, x_offset, y_offset),
        c.note.width == (width_px as i32) + 40,
        c.note.height == (height_px as i32) + 60,
        c.note.content_type@ == "image"@,
        c.note.content_ref == Some(stored_path),
        c.note.file_name == Some(file_name),
        c.content is None,
{
    Capture {
        note: CapturedNote {
            id,
            x: 200 + x_offset,
            y: 200 + y_offset,
            width: width_px as i32 + 40,
            height: height_px as i32 + 60,
            color,
            content_type: "image".to_owned(),
            content_ref: Some(stored_path),
            file_name: Some(file_name),
            created_at,
            z_index: 0,
        },
        content: None,
    }
}

/// The id, creation time, offsets and colour of a note made now, drawn in that order;
/// `None` when the operating system's random source fails or the clock reads a time
/// before the Unix epoch.
fn fresh_placement() -> (r: Option<(String, String, u32, u32, String)>)
    ensures
        r matches Some((id, now, xo, yo, color)) ==> {
            &&& is_uuid_v4_text(id@)
            &&& exists|t: i64| now@ == #[trigger] timestamp_text(t as int)
            &&& xo < 200
            &&& yo < 200
            &&& is_palette_color(color@)
        },
{
    let id = match new_uuid_text() {
        Some(id) => id,
        None => return None,
    };
    let now = match timestamp_now() {
        Some(now) => now,
        None => return None,
    };
    let xo = match rand_offset() {
        Some(o) => o,
        None => return None,
    };
    let yo = match rand_offset() {
        Some(o) => o,
        None => return None,
    };
    let color = match random_color() {
        Some(c) => c,
        None => return None,
    };
    Some((id, now, xo, yo, color))
}

/// The capture of a copied text, made now; `None` when the operating system's random
/// source fails or the clock reads a time before the Unix epoch.
pub fn new_text_capture(text: String) -> (r: Option<Capture>)
    ensures
        r matches Some(c) ==> is_fresh_text_capture(c, text),
{
    match fresh_placement() {
        Some((id, now, xo, yo, color)) => Some(text_capture(id, now, color, xo, yo, text)),
        None => None,
    }
}

/// The capture of a copied file at `path` whose file name is `file_name`, made now;
/// `None` when the operating system's random source fails or the clock reads a time
/// before the Unix epoch.
pub fn new_file_capture(path: String, file_name: Option<String>) -> (r: Option<Capture>)
    ensures
        r matches Some(c) ==> is_fresh_file_capture(c, path, file_name),
{
    match fresh_placement() {
        Some((id, now, xo, yo, color)) => Some(file_capture(id, now, color, xo, yo, path, file_name)),
        None => None,
    }
}

/// The capture of a copied image of `width_px` by `height_px` pixels stored at
/// `stored_path` under `file_name`, made now; `None` when the operating system's random
/// source fails or the clock reads a time before the Unix epoch.
pub fn new_image_capture(stored_path: String, file_name: String, width_px: u32, height_px: u32)
    -> (r: Option<Capture>)
    requires
        (width_px as i32) <= i32::MAX - 40,
        (height_px as i32) <= i32::MAX - 60,
    ensures
        r matches Some(c) ==> {
            &&& freshly_placed(c.note)
            &&& c.note.width == (width_px as i32) + 40
            &&& c.note.height == (height_px as i32) + 60
            &&& c.note.content_type@ == "image"@
            &&& c.note.content_ref == Some(stored_path)
            &&& c.note.file_name == Some(file_name)
            &&& c.content is None
        },
{
    match fresh_placement() {
        Some((id, now, xo, yo, color)) => Some(
            image_capture(id, now, color, xo, yo, stored_path, file_name, width_px, height_px),
        ),
        None => None,
    }
}

/// Whether `id` differs from the id of every note among `earlier`.
fn id_is_new(earlier: &Vec<Capture>, id: &String) -> (r: bool)
    ensures
        r == forall|j: int| 0 <= j < earlier@.len() ==> #[trigger] earlier@[j].note.id@ != id@,
{
    let mut i: usize = 0;
    while i < earlier.len()
        invariant
            i <= earlier@.len(),
            forall|j: int| 0 <= j < i ==> #[trigger] earlier@[j].note.id@ != id@,
        decreases earlier@.len() - i,
    {
        if same_text(earlier[i].note.id.as_str(), id.as_str()) {
            return false;
        }
        i += 1;
    }
    true
}

/// The capture of a copied file made now, with an id that no note among `earlier` has:
/// an id that repeats one of theirs is drawn again, at most four draws in all.  `None`
/// when the random source fails, the clock reads a time before the Unix epoch, or every
/// draw repeats an earlier id.
fn new_file_capture_among(earlier: &Vec<Capture>, path: &String, file_name: &Option<String>)
    -> (r: Option<Capture>)
    ensures
        r matches Some(c) ==> {
            &&& is_fresh_file_capture(c, *path, *file_name)
            &&& forall|j: int| 0 <= j < earlier@.len() ==> #[trigger] earlier@[j].note.id@ != c.note.id@
        },
{
    let mut draws: usize = 0;
    while draws < 4
        invariant
            draws <= 4,
        decreases 4 - draws,
    {
        let name = match file_name {
            Some(n) => Some(n.clone()),
            None => None,
        };
        let c = match new_file_capture(path.clone(), name) {
            Some(c) => c,
            None => return None,
        };
        if id_is_new(earlier, &c.note.id) {
            return Some(c);
        }
        draws += 1;
    }
    None
}

/// The captures that a newly copied text makes now, given the files it names that exist
/// (each with its file name): one file capture per file, in order, each with an id of its
/// own, when there is any; otherwise one capture of the text itself.  `None` when the
/// operating system's random source fails or the clock reads a time before the Unix epoch.
pub fn captures_of_copied_text(text: String, files: Vec<(String, Option<String>)>)
    -> (r: Option<Vec<Capture>>)
    ensures
        r matches Some(cs) ==> if files@.len() > 0 {
            &&& cs@.len() == files@.len()
            &&& forall|i: int| 0 <= i < files@.len() ==> is_fresh_file_capture(
                #[trigger] cs@[i], files@[i].0, files@[i].1)
            &&& forall|i: int, j: int| 0 <= i < cs@.len() && 0 <= j < cs@.len() && i != j
                ==> #[trigger] cs@[i].note.id@ != #[trigger] cs@[j].note.id@
        } else {
            &&& cs@.len() == 1
            &&& is_fresh_text_capture(cs@[0], text)
        },
{
    let mut out: Vec<Capture> = Vec::new();
    if files.len() == 0 {
        match new_text_capture(text) {
            Some(c) => out.push(c),
            None => return None,
        }
        return Some(out);
    }
    let mut i: usize = 0;
    while i < files.len()
        invariant
            i <= files@.len(),
            out@.len() == i,
            forall|j: int| 0 <= j < i ==> is_fresh_file_capture(#[trigger] out@[j], files@[j].0, files@[j].1),
            forall|a: int, b: int| 0 <= a < out@.len() && 0 <= b < out@.len() && a != b
                ==> #[trigger] out@[a].note.id@ != #[trigger] out@[b].note.id@,
        decreases files@.len() - i,
    {
        match new_file_capture_among(&out, &files[i].0, &files[i].1) {
            Some(c) => out.push(c),
            None => return None,
        }
        i += 1;
    }
    Some(out)
}

} // verus!
