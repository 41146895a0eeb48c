//! Verified core of a PDF reader.
//!
//! - `text_field`, `utf8_text`, `text_format`: single-line text editing over
//!   UTF-8 byte offsets, character boundaries, UTF-16 conversion and message text.
//! - `reader`: the reader's decisions over a plain-valued model of its state:
//!   search results and navigation, the table of contents, comments and their
//!   autosave, annotation requests, raster tiling and paint budgets, extension
//!   text snapshots, QA hooks, the QA feature and Fluid scenario phases and the
//!   QA status counts.
//! - `bridge`: document generations, page handles, snapshot revisions and the
//!   pending navigation of the extension capability bridge.
//! - `paths`: document paths compared by their components.
//! - `qa`, `qa_resources`, `system_resources`: the QA driver's decisions,
//!   allocation accounting and host capacity inputs.
//! - `theme`: the theme preference and window background choice.

pub mod bridge;
pub mod paths;
pub mod qa;
pub mod qa_resources;
pub mod reader;
pub mod system_resources;
pub mod text_field;
pub mod text_format;
pub mod theme;
pub mod utf8_text;
