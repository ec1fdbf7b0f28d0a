//! Screen streaming engine: frame processing, payload encoding, the
//! length-prefixed wire protocol, the broadcast hub's decisions and the
//! receiving link's protocol reader.

pub mod caster;
pub mod client;
pub mod codec;
pub mod crop_blank;
pub mod receiver;
pub mod screen;
pub mod server;
pub mod screen_capture;
pub mod wire;
