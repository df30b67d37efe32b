//! The admin panel's logic.
pub mod access;
pub mod assets;
pub mod attr;
pub mod audit;
pub mod bootstrap;
pub mod bulk;
pub mod cells;
pub mod clientip;
pub mod contributed;
pub mod cookies;
pub mod descriptor;
pub mod error;
pub mod export;
pub mod field;
pub mod field_view;
pub mod form;
pub mod grouping;
pub mod guard;
pub mod html;
pub mod http_cache;
pub mod icons;
pub mod json;
pub mod laws;
pub mod list;
pub mod list_query;
pub mod list_screen;
pub mod list_view;
pub mod list_work;
pub mod locale;
pub mod mount;
pub mod nav;
pub mod nums;
pub mod order;
pub mod panel;
pub mod persist;
pub mod picker;
pub mod plugins;
pub mod preferences;
pub mod repeater;
pub mod reply;
pub mod resource;
pub mod roles;
pub mod routemap;
pub mod routes;
pub mod screen;
pub mod session;
pub mod settings;
pub mod signin;
pub mod sources;
pub mod sql;
pub mod statements;
pub mod store;
pub mod strs;
pub mod table;
pub mod text;
pub mod unicode;
pub mod upload;
pub mod users;
pub mod zones;
