//! Survey-row normalization: turns the free-text cells of a survey export
//! into structured respondent records by a fixed set of text-rewriting
//! rules. The row normalizer consumes cells 1 through 9 of each row and
//! delegates to eight independent field sanitizers, each a pure transform
//! from one text cell to its structured value; the pipeline driver maps
//! the normalizer over the rows in order. Reading the export and writing
//! the serialized records are left to the program around this library.

use vstd::prelude::*;

pub mod chars;
pub mod text;
pub mod tokens;
pub mod answers;
pub mod age;
pub mod cities;
pub mod colors;
pub mod marks;
pub mod record;

pub use answers::sanitize_interested;
pub use answers::sanitize_know;
pub use answers::sanitize_preference;
pub use age::sanitize_age;
pub use cities::sanitize_cities;
pub use colors::sanitize_colors;
pub use marks::marks_from_glued;
pub use marks::sanitize_marks;
pub use record::MixShoesData;
pub use record::RowTooShortError;
pub use record::clean_all;
pub use record::clean_data;
