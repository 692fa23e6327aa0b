//! The controller core of an interactive terminal dashboard for live
//! operating-system state.
//!
//! The library owns the interactive state machine — navigation, tabs,
//! focus, input modes, modal popups, command parsing and the
//! confirm-then-execute kill protocol — together with the plain data
//! snapshot it reads and the parsing of the device and log text that
//! the data provider collects.  Terminal input and drawing, the
//! periodic refresh tasks, and every command the provider runs live
//! in the embedding program; the library hands values out and takes
//! plain values back.
//!
//! The `model` module gives the controller a ghost image and a
//! transition function; `app` holds the executable controller, proved
//! to follow that transition exactly; `laws` states the properties
//! that hold of every reachable state.

pub mod app;
pub mod devices;
pub mod json;
pub mod laws;
pub mod logs;
pub mod model;
pub mod node;
pub mod state;
pub mod system;
pub mod text;
