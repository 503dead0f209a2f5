[package]
name = "sad_xml_sql"
version = "0.1.0"
edition = "2021"
publish = false

[dependencies]
rusqlite = { version = "0.35.0", features = ["bundled"] }
xmltree = "*"
simple-xml-builder = "*"
ratatui = "0.29"
crossterm = "0.28"
tui-textarea = "0.7"
color-eyre = "*"
