//! The browsing session: editing, storage, cookies, requests, history.
pub mod animation;
pub mod controls;
pub mod cookies;
pub mod cors;
pub mod damage;
pub mod document;
pub mod editor;
pub mod forms;
pub mod history;
pub mod mutation;
pub mod navigation;
pub mod page_load;
pub mod request;
pub mod session;
pub mod storage;
pub mod string_map;
pub mod url;
