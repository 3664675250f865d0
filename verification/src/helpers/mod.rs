pub mod aur;
pub mod aur_pkgbuild;
pub mod elevated;
pub mod format;
pub mod installed;
pub mod search;
pub mod shortcuts;
