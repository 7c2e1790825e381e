pub mod reader;
pub mod assets;
pub mod archives;
pub mod rijndael;
pub mod dispatch;
pub mod mapping;
pub mod manifest;
pub mod texture;
