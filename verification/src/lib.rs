//! The logic of a desktop bar that lives in terminal panels: what the bar and
//! its menus show, how the parts of the program react to each other, and how
//! the values that travel between them are written down.
pub mod api;
pub mod assoc;
pub mod bar_states;
pub mod clock;
pub mod control;
pub mod ctrl_ipc;
pub mod data;
pub mod dates;
pub mod display_panel;
pub mod displays;
pub mod exit_code;
pub mod floats;
pub mod host;
pub mod hypr;
pub mod images;
pub mod inst;
pub mod logging;
pub mod modules;
pub mod monitor_inst;
pub mod monitors;
pub mod panels;
pub mod ppd;
pub mod procs;
pub mod pulse;
pub mod strs;
pub mod tags;
pub mod tray;
pub mod tui;
pub mod upower;
pub mod wire;
pub mod xtui;
