//! The verified core of a clipboard-driven notes board: decoding of copied `file://`
//! URIs, note timestamps, colours and placement, the clipboard watcher's decisions,
//! pairing codes for the mobile view, the relay of its socket messages, and the
//! addresses of the board's server and its peers.
pub mod board;
pub mod clock;
pub mod decode;
pub mod file_uris;
pub mod ids;
pub mod images;
pub mod json;
pub mod network;
pub mod pairing;
pub mod palette;
pub mod relay;
pub mod text;
pub mod timestamp;
pub mod timestamp_order;
pub mod watcher;

pub use decode::urlencoding_decode;
pub use palette::random_color;
pub use timestamp::timestamp_now;
