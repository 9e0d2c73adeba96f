//! What the chart's generators write.
pub mod chartdoc;
pub mod crdgen;
pub mod files;
