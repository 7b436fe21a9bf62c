pub mod dir;
pub mod fat;
