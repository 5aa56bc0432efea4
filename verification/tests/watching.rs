use charly::watcher::{
    file_capture, image_capture, new_file_capture, new_image_capture, new_text_capture,
    text_capture, Capture, WatcherState,
};

const PALETTE: [&str; 8] = [
    "#FEF08A", "#FECACA", "#BFDBFE", "#BBF7D0", "#DDD6FE", "#FED7AA", "#FBCFE8", "#A5F3FC",
];

fn check_fresh(c: &Capture) {
    assert!(uuid::Uuid::parse_str(&c.note.id).is_ok());
    assert_eq!(c.note.created_at.len(), 19);
    assert!(PALETTE.contains(&c.note.color.as_str()));
    assert!((200..400).contains(&c.note.x));
    assert!((200..400).contains(&c.note.y));
    assert_eq!(c.note.z_index, 0);
}

#[test]
fn text_is_captured_when_new_and_not_empty() {
    let mut w = WatcherState::new();
    assert!(!w.observe_text(""));
    assert!(w.observe_text("hello"));
    assert_eq!(w.last_text, "hello");
    assert!(!w.observe_text("hello"));
    assert!(!w.observe_text(""));
    assert_eq!(w.last_text, "hello");
    assert!(w.observe_text("world"));
    assert!(w.observe_text("hello"));
}

#[test]
fn first_image_only_sets_the_baseline() {
    let mut w = WatcherState::new();
    assert!(!w.observe_image(77));
    assert_eq!(w.last_image_hash, 77);
    assert!(!w.observe_image(77));
    assert!(w.observe_image(78));
    assert_eq!(w.last_image_hash, 78);
    assert!(!w.observe_image(78));
    assert!(w.observe_image(77));
}

#[test]
fn images_and_texts_are_watched_apart() {
    let mut w = WatcherState::new();
    assert!(w.observe_text("a"));
    assert!(!w.observe_image(5));
    assert_eq!(w.last_text, "a");
    assert!(!w.observe_text("a"));
    assert_eq!(w.last_image_hash, 5);
}

#[test]
fn text_capture_fields() {
    let c = text_capture("id".into(), "2024-01-01T00:00:00".into(), "#FECACA".into(), 5, 199, "note text".into());
    assert_eq!(c.note.id, "id");
    assert_eq!((c.note.x, c.note.y), (205, 399));
    assert_eq!((c.note.width, c.note.height), (220, 180));
    assert_eq!(c.note.content_type, "text");
    assert_eq!(c.note.content_ref, None);
    assert_eq!(c.note.file_name, None);
    assert_eq!(c.note.created_at, "2024-01-01T00:00:00");
    assert_eq!(c.note.color, "#FECACA");
    assert_eq!(c.note.z_index, 0);
    assert_eq!(c.content.as_deref(), Some("note text"));
}

#[test]
fn file_capture_fields() {
    let c = file_capture("id".into(), "t".into(), "#FEF08A".into(), 0, 0, "/tmp/a b.txt".into(), Some("a b.txt".into()));
    assert_eq!((c.note.x, c.note.y), (200, 200));
    assert_eq!((c.note.width, c.note.height), (220, 120));
    assert_eq!(c.note.content_type, "file");
    assert_eq!(c.note.content_ref.as_deref(), Some("/tmp/a b.txt"));
    assert_eq!(c.note.file_name.as_deref(), Some("a b.txt"));
    assert_eq!(c.content.as_deref(), Some("/tmp/a b.txt"));
    let d = file_capture("id".into(), "t".into(), "#FEF08A".into(), 0, 0, "/".into(), None);
    assert_eq!(d.note.file_name.as_deref(), Some("file"));
}

#[test]
fn image_capture_fields() {
    let c = image_capture("id".into(), "t".into(), "#A5F3FC".into(), 10, 20, "/blobs/x.png".into(), "x.png".into(), 640, 480);
    assert_eq!((c.note.x, c.note.y), (210, 220));
    assert_eq!((c.note.width, c.note.height), (680, 540));
    assert_eq!(c.note.content_type, "image");
    assert_eq!(c.note.content_ref.as_deref(), Some("/blobs/x.png"));
    assert_eq!(c.note.file_name.as_deref(), Some("x.png"));
    assert_eq!(c.content, None);
    let wide = image_capture("id".into(), "t".into(), "#A5F3FC".into(), 0, 0, "p".into(), "n".into(), u32::MAX, 0);
    assert_eq!(wide.note.width, 39);
}

#[test]
fn captures_made_now() {
    let t = new_text_capture("copied".into()).expect("clock after the epoch");
    check_fresh(&t);
    assert_eq!(t.note.content_type, "text");
    assert_eq!((t.note.width, t.note.height), (220, 180));
    assert_eq!(t.content.as_deref(), Some("copied"));

    let f = new_file_capture("/tmp/report.pdf".into(), Some("report.pdf".into())).expect("clock after the epoch");
    check_fresh(&f);
    assert_eq!(f.note.content_type, "file");
    assert_eq!(f.note.file_name.as_deref(), Some("report.pdf"));
    assert_eq!(f.content.as_deref(), Some("/tmp/report.pdf"));

    let i = new_image_capture("/blobs/a.png".into(), "a.png".into(), 100, 50).expect("clock after the epoch");
    check_fresh(&i);
    assert_eq!((i.note.width, i.note.height), (140, 110));
    assert_eq!(i.note.content_type, "image");
    assert_ne!(t.note.id, f.note.id);
}

#[test]
fn copied_text_makes_file_notes_when_files_exist() {
    let files = vec![
        ("/tmp/a.txt".to_string(), Some("a.txt".to_string())),
        ("/".to_string(), None),
    ];
    let cs = charly::watcher::captures_of_copied_text("file:///tmp/a.txt\nfile:///".into(), files)
        .expect("clock after the epoch");
    assert_eq!(cs.len(), 2);
    assert_eq!(cs[0].note.content_type, "file");
    assert_eq!(cs[0].note.file_name.as_deref(), Some("a.txt"));
    assert_eq!(cs[1].note.file_name.as_deref(), Some("file"));
    assert_eq!(cs[1].content.as_deref(), Some("/"));
    for c in &cs {
        check_fresh(c);
    }
}

#[test]
fn copied_text_makes_a_text_note_otherwise() {
    let cs = charly::watcher::captures_of_copied_text("file:///missing".into(), Vec::new())
        .expect("clock after the epoch");
    assert_eq!(cs.len(), 1);
    assert_eq!(cs[0].note.content_type, "text");
    assert_eq!(cs[0].content.as_deref(), Some("file:///missing"));
    check_fresh(&cs[0]);
}

fn png_bytes(w: u32, h: u32, shade: u8) -> Vec<u8> {
    let img = image::RgbaImage::from_pixel(w, h, image::Rgba([shade, 0, 0, 255]));
    let mut out = std::io::Cursor::new(Vec::new());
    img.write_to(&mut out, image::ImageFormat::Png).expect("png encoding");
    out.into_inner()
}

#[test]
fn images_are_captured_when_new_and_decodable() {
    let mut w = WatcherState::new();
    let first = png_bytes(3, 2, 1);
    assert!(w.look_at_image(&first).is_none());
    assert!(w.look_at_image(&first).is_none());
    let second = png_bytes(5, 4, 2);
    let (_, width, height) = w.look_at_image(&second).expect("a new decodable image");
    assert_eq!((width, height), (5, 4));
    assert!(w.look_at_image(&second).is_none());
}

#[test]
fn undecodable_image_bytes_are_not_captured() {
    let mut w = WatcherState::new();
    assert!(w.look_at_image(&[1, 2, 3]).is_none());
    let before = w.last_image_hash;
    assert!(w.look_at_image(&[0xff; 64]).is_none());
    assert_ne!(w.last_image_hash, before);
    let (_, width, height) = w.look_at_image(&png_bytes(1, 1, 9)).expect("decodable");
    assert_eq!((width, height), (1, 1));
}
