//! The verified core of a NUS3AUDIO / NUS3BANK sound-file editor.

pub mod add_audio_utils;
pub mod audio_controls;
pub mod audio_file_info;
pub mod audio_player;
pub mod audio_state;
pub mod bank;
pub mod columns;
pub mod confirm_modal;
pub mod dton_pending;
pub mod dton_tones_modal;
pub mod export_utils;
pub mod file_list;
pub mod grp_list_modal;
pub mod grp_pending;
pub mod main_area_actions;
pub mod main_area_core;
pub mod main_area_filtering;
pub mod nus3audio_file_utils;
pub mod nus3audio_check;
pub mod nus3audio_model;
pub mod paths;
pub mod prop_edit_modal;
pub mod prop_pending;
pub mod remove_utils;
pub mod replace_utils;
pub mod shortcuts;
pub mod store;
pub mod table_renderer;
pub mod text;
pub mod top_panel;
pub mod update_log;
pub mod wav;
