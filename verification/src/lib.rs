//! Verified core of a video clip assembly tool: the naming, validation and
//! planning rules behind frame export, sampling, merging, CLUT transfer,
//! GMIC processing and clip assembly.
pub mod text;
pub mod paths;
pub mod modes;
pub mod filename_parts;
pub mod filename_handling;
pub mod exporter;
pub mod output;
pub mod ordered;
pub mod random;
pub mod gmicer;
pub mod sampler;
pub mod clipper;
pub mod clutter;
pub mod merger;
pub mod audio;
pub mod settings;
pub mod duration;
pub mod cli;
pub mod logs;
