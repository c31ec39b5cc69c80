//! An extraction pipeline engine over email, HTML, text, URL and pair elements,
//! driven by scripts of typed actions.
mod markup;
mod patterns;
mod weburl;

pub mod access;
pub mod api;
pub mod action;
pub mod cache;
pub mod config;
pub mod element;
pub mod engine;
pub mod error;
pub mod format;
pub mod laws;
pub mod shaper;
pub mod time;

pub use action::{Action, EmailAttribute, Macro, Script};
pub use error::Error;
pub use element::{Element, Email, Url};
pub use shaper::{SerdeElement, flatten_serde_pair};
pub use cache::{Cache, CacheEntry};
pub use engine::{run_script, Env, Need, Step, REDIRECT_CACHE_SIZE};
