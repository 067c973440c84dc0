//! Weekly movie digest: turns friends' review feeds into one chat message.
//!
//! The pipeline runs from feed items to text: a title is split into a clean
//! movie title and a star rating, a review link is reduced to the movie's own
//! link, reviews are grouped by title, and the groups are rendered in title
//! order.

pub mod text;
pub mod title;
pub mod rating;
pub mod link;
pub mod order;
pub mod digest;
pub mod window;
pub mod feed;
pub mod roster;
pub mod ingest;
pub mod render;
pub mod delivery;
