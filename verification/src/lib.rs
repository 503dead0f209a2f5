//! Software architecture documents: the records of a document, how they are
//! read from the document's XML, stored in and retrieved from an SQLite
//! database, written back as XML and rendered as Markdown, and the state
//! machines of the terminal editor.

pub mod db;
pub mod models;
pub mod order;
pub mod queries;
pub mod retrieval;
pub mod text;
pub mod update;
pub mod menu;
pub mod text_area;
pub mod work_state;
pub mod work;
pub mod viewpacket_editor;
pub mod component_editor;
pub mod xml;
pub mod address;
pub mod populate;
pub mod dump;
pub mod md_models;
pub mod md_db;
pub mod md_retrieval;
pub mod md_populate;
pub mod md_text;
pub mod md_render;
