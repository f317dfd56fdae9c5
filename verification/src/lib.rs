//! broquest: the verified core of an HTTP API client.

pub mod text;
pub mod domain;
pub mod curl;
pub mod curl_roundtrip;
pub mod vars;
pub mod resolver;
pub mod format;
pub mod encoding;
pub mod client;
pub mod digest;
pub mod tokens;
pub mod json;
pub mod data;
pub mod history;
pub mod collection_types;
pub mod import;
pub mod openapi;
pub mod collection_tree;
pub mod opencollection;
pub mod oc_merge;
pub mod oc_env;
pub mod oc_collection;
pub mod oc_laws;
pub mod app_state;
