pub mod util;
pub mod validate;
pub mod ipaddr;
pub mod error;
pub mod engine;
pub mod source;
pub mod sources;
pub mod order;
pub mod model;
pub mod verify;
pub mod http;
pub mod wasm;
