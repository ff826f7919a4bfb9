pub mod browser;
pub mod known_documents;
pub mod page;
pub mod state;
pub mod catalog;
pub mod navigation;
pub mod rendering;
