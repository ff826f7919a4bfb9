pub mod events;
pub mod frontmatter;
pub mod identifiers;
pub mod markdown;
pub mod metadata;
pub mod paths;
pub mod plantuml;
pub mod service;
pub mod source_link;
pub mod target;
pub mod text;
pub mod viewer;
