pub mod connector;
pub mod header;
pub mod location;
mod random;
pub mod salt_checker;
pub mod shadowsocks;
