//! The Kitty terminal: its remote control protocol, and its windows as slots.
pub mod commands;
pub mod handler;
pub mod protocol;
pub mod windows;

pub use crate::kitty::commands::{
    close_args, launch_with_slot, parse_worktree_label, printed, set_background_color,
    set_window_color_and_env, KittyCommand, KittyPayload, WindowColors,
};
pub use crate::kitty::handler::{task_commands, KittyMultiSlotHandler, KittySetup, SlotTask};
pub use crate::kitty::protocol::{
    check_response, frame, get_kitty_socket_name, judge_data, judge_listing, judge_reply,
    list_kitty_windows, list_request, payload, KittyError,
};
pub use crate::kitty::windows::{
    find_available_slot, find_stentor_windows, free_slot, read_windows, stentor_windows,
    ClaudeWindow, KittyWindow,
};
