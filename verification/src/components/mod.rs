pub mod button;
pub mod label;
pub mod segmented_control;
pub mod input_box;
pub mod combo_box;
pub mod sidebar;
