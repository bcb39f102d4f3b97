pub mod region;
pub mod timeline;
pub mod edit;
pub mod history;
pub mod toolbar;
pub mod keybinds;
pub mod transport;
pub mod editor;
pub mod peaks;
pub mod crossing;
pub mod levels;
pub mod laws;
pub mod color;
