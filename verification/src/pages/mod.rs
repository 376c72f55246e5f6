pub mod animation_page;
pub mod home_page;
pub mod layout_page;
pub mod typography_page;
pub mod main_page;
