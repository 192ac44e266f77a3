//! Decision and text-processing core of a pocket barcode-scanner gadget: it
//! turns scanner key events into scan payloads, shapes payloads for a
//! Meshtastic radio and for posts on X, signs those posts with OAuth 1.0a,
//! and keeps the dashboard state of the terminal user interface.
pub mod action;
pub mod home;
pub mod mesh;
pub mod scanner;
pub mod text;
pub mod twitter;
