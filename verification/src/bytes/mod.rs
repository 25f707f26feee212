pub mod any_bit_pattern_array;
