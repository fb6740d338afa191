//! Decision logic of PinWall, a tool that takes screenshots across several
//! displays, lets the user annotate them and pins them to the screen.

pub mod annotation;
pub mod bitmap;
pub mod capture;
pub mod compose;
pub mod decimal;
pub mod draw;
pub mod editor;
pub mod effect;
pub mod encode;
pub mod file_name;
pub mod fixed;
pub mod geom;
pub mod hotkeys;
pub mod image;
pub mod input;
pub mod overlay;
pub mod pin;
pub mod pin_view;
pub mod pin_window;
pub mod platform;
pub mod prototypes;
pub mod screen;
pub mod selection;
pub mod session;
pub mod text;
pub mod toolbar;
pub mod tools;
pub mod wide;
