pub mod client;
pub mod discovery;
pub mod json;
pub mod offers;
pub mod pairing;
pub mod platform;
pub mod protocol;
pub mod rate_limit;
pub mod session;
pub mod text;
