//! The decisions of the graphical interface: what the lists show and what
//! the dialogs say.
pub mod update_list;
pub mod panels;
pub mod theme;
