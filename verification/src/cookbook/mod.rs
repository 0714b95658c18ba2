//! Worked examples: small parsers that are built from the matching steps.

pub mod ch_2_simple_example;
pub mod ch_3_binding_vars;
pub mod ch_4_enum_handcrafted;
pub mod ch_6_enum_variant;
pub mod ch_7_alternate;
pub mod ch_8_alternate_opt;
