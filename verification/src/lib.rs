//! The scan-spec report: the verified rendering of a versioned scan-spec tree
//! into the `[SCANSPEC-FFI]` text block that a test harness greps.
//!
//! `model` holds the tree, `text` the pieces of text (decimal numbers, booleans,
//! indentation, quoting, lists), `render` the lines of the report and the version check,
//! `laws` what holds of every report and of its pieces of text, and `fields` what each
//! line shows of its node's or filter's own fields.

pub mod fields;
pub mod laws;
pub mod model;
pub mod render;
pub mod text;

pub use model::{FilterJson, ScanSpecJson, ScanSpecRootJson, SCAN_SPEC_JSON_VERSION};
pub use render::{
    check_version, filter_text_from_quoted, parse_error_message, render_filter, render_spec,
    scan_spec_report, spec_text_from_quoted,
};
