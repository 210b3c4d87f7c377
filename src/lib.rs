//! An on-demand image server's core: the canonical naming of derived image
//! variants, the commands that produce them, the cache of their bytes, and the
//! scanner that discovers which image paths a static site references.
pub mod cache;
pub mod filter;
pub mod image;
pub mod text;
pub mod whitelist;

pub use cache::{ImageCache, ResolveAction, ResolveEvent};
pub use filter::{cache_key, Filter};
pub use image::Image;
pub use text::{split_back, split_last};
pub use whitelist::Whitelist;
