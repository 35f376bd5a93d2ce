pub mod bson_model;
pub mod chart;
pub mod data;
pub mod query;
pub mod pipeline;
pub mod report;
pub mod text;
pub mod api;
pub mod axes;
pub mod element;
pub mod keyed;
pub mod svg;
pub mod task;
