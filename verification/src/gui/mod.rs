pub mod add_wizard;
pub mod edit_dialog;
pub mod settings_window;
pub mod tag_group_manager;
pub mod widgets;
pub mod main_window;
