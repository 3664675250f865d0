pub mod app_settings;
pub mod aur_build;
pub mod aur_info;
pub mod aur_plan;
pub mod change_kind;
pub mod mirror_tool;
pub mod op;
pub mod package_list_kind;
pub mod package_source;
pub mod package_update;
pub mod pkgbuild_review;
pub mod request;
pub mod response;
pub mod review_file;
pub mod search_sources;
