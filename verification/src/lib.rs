pub mod capturable;
pub mod choice;
pub mod corner;
pub mod display;
pub mod errors;
pub mod fill;
pub mod handshake;
pub mod launch;
pub mod mutter;
pub mod offsets;
pub mod pipeline;
pub mod portal;
pub mod positions;
pub mod probe;
pub mod recorder;
pub mod reply;
pub mod request_path;
pub mod session;
pub mod sort;
pub mod stage;
pub mod text;
