pub mod card;
pub mod digits;
pub mod generator;
pub mod luhn;
pub mod pattern;
mod rng;

pub use card::CardInfo;
pub use card::GeneratorOptions;
pub use generator::Generate_Cards;
pub use digits::format_fixed;
pub use luhn::complete_luhn;
pub use luhn::luhn_checksum;
pub use pattern::normalize_bin_pattern;
