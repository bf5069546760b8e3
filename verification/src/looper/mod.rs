pub mod laws;
pub mod params;
pub mod track;
