//! Tiered ball catalog: the deterministic (color, radius) table of two hue
//! stages, the radius- and color-keyed caches that share one rendering asset
//! per distinct key, and the click detector that asks for new balls.
pub mod cache;
pub mod catalog;
pub mod geometry;
pub mod spawner;
