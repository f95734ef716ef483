//! Report renderers: the self-contained HTML report and the terminal trend.

pub mod html;
pub mod markup;
pub mod trend;
