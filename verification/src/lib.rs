//! Verified core of a pointer-event listener that labels each event with the
//! process owning the foreground window and, for clicks inside a web browser,
//! with the URL shown in the browser's address bar.

pub mod controls;
pub mod get_browser_url;
pub mod listen_mouse_event;
pub mod monitor;
pub mod window_process;
