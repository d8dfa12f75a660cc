pub mod optimizer;
pub mod regmap;
