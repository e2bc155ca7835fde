//! What the web views may load, and the scripts they run.
pub mod js_injector;
pub mod navigation;
