//! The vision agent: answers a question that comes with images, documents and
//! videos by asking a vision-language model.

pub mod clean;
pub mod content;
pub mod hint;
pub mod media;
pub mod model;
pub mod parts;
pub mod prompts;
pub mod task;
