//! Verified core of an interactive Lugiato–Lefever simulator: the state
//! machines, index plans and bookkeeping that drive the simulation and its
//! visualisation.

pub mod checkpoint;
pub mod mode_layout;
pub mod model;
pub mod colormap;
pub mod delay_line;
pub mod file;
pub mod gpu_plan;
pub mod history;
pub mod kinds;
pub mod play;
pub mod plot_range;
pub mod rf_cache;
pub mod spectrum;

pub use spectrum::{fft_shift, shifted, split_pos_spec};
