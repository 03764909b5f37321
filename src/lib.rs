//! Contributor heatmaps: calendar arithmetic, the per-year week/weekday
//! matrix, its colour scale, repository resolution and the year-by-year
//! activity fetch plan.

pub mod calendar;
pub mod heatmap;
pub mod palette;
pub mod repo;
pub mod fetch;
pub mod totals;

