//! Extraction and template composition for documentation tests.
//!
//! The library turns prose documents with annotated fenced code blocks into
//! named test units, and splices an extracted code body into a reusable
//! wrapper template by a brace-escaping substitution algorithm.  Locating
//! documents, reading and writing files, and invoking a toolchain are left
//! to the surrounding application.

pub mod annotation;
pub mod chars;
pub mod doc;
pub mod errors;
pub mod extract;
pub mod paths;
pub mod sanitize;
pub mod template;
pub mod testsrc;

pub use annotation::Annotation;
pub use annotation::parse_annotation;
pub use chars::string_from_chars;
pub use doc::DocTest;
pub use doc::Test;
pub use errors::SkepticError;
pub use extract::MdEvent;
pub use extract::extract_templates;
pub use extract::extract_tests;
pub use paths::target_dir_from_out_dir;
pub use sanitize::sanitize;
pub use template::compose_template;
pub use testsrc::build_test_src;
pub use testsrc::clean_omitted_line;
pub use testsrc::create_test_input;
pub use testsrc::get_template;
