pub mod quran;
pub mod reference;
