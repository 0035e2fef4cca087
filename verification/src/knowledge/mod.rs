//! Knowledge: notes in Markdown are cut into chunks, indexed and searched, and what was found
//! is handed on as evidence.
pub mod answer_laws;
pub mod blocks;
pub mod chunking;
pub mod chunking_laws;
pub mod eval;
pub mod eval_laws;
pub mod evidence;
pub mod frontmatter;
pub mod loading;
pub mod lookup;
pub mod note_laws;
pub mod ranking;
pub mod scan;
pub mod search_laws;
pub mod selection;
pub mod semantic;
pub mod splitting;
pub mod store;
pub mod store_laws;
pub mod term_laws;
pub mod terms;
pub mod tool;
pub mod vector_laws;
