pub mod json;
pub mod jsonrpc;
pub mod meta;
pub mod server;
pub mod util;

pub use json::Json;
pub use meta::{BrowserVersion, Target};
pub use server::TLS;
pub use util::{Handler, HandlerBuilder};
