pub mod anubisdb;
pub mod crtsh;
pub mod wayback;
