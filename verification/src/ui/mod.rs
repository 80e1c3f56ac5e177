pub mod banner;
pub mod browser;
pub mod theme;
