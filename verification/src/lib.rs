//! An output-encoding library: given a raw text string and a target syntactic
//! context (a JavaScript string literal, a URI, or an XML construct), it
//! produces a new string that is lexically safe to embed in that context.
//!
//! The core is a generic rule-compilation-and-encoding engine (`encoder`):
//! declarative per-character or per-range rules are folded into a compact
//! lookup artifact, and a single `encode` routine walks the input once,
//! consulting that artifact.  The context profiles (`java_script_encoder`,
//! `uri_encoder`, `xml_encoder`) are thin configurations built atop it.

pub mod common;
pub mod encoder;
pub mod java_script_encoder;
pub mod uri_encoder;
pub mod xml_encoder;
