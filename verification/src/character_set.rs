//! Character scoring: the public brightness evaluator.

pub mod calculate_character_brightness;
