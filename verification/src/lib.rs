//! Verified manifest tooling: a typed manifest schema with a JSON codec,
//! a capability-component extractor, and a key-value manifest resolver.
mod extract;
mod json;
mod resolve;
mod schema;

pub use extract::extract_capability_components;
pub use extract::is_capability_model;
pub use extract::lemma_capability_condition;
pub use extract::lemma_extract_push;
pub use extract::lemma_extraction_exact;
pub use extract::count_capabilities;
pub use extract::lemma_extract_count;
pub use extract::spec_extract;
pub use json::Json;
pub use json::JsonModel;
pub use json::depth_at_most;
pub use json::fields_model;
pub use json::items_model;
pub use json::json_parse;
pub use json::lemma_depth_monotone;
pub use json::obj_get;
pub use json::obj_get_model;
pub use json::printable;
pub use resolve::LookupError;
pub use resolve::LookupErrorView;
pub use resolve::decode_index;
pub use resolve::derived_key;
pub use resolve::get_manifests;
pub use resolve::spec_derived_key;
pub use resolve::spec_index_doc;
pub use resolve::spec_index_lists_app;
pub use resolve::spec_lookup_message;
pub use schema::Annotations;
pub use schema::AnnotationsView;
pub use schema::CapabilityComponent;
pub use schema::CapabilityComponentView;
pub use schema::Config;
pub use schema::ConfigProperties;
pub use schema::ConfigPropertiesView;
pub use schema::ConfigView;
pub use schema::DecodeError;
pub use schema::DecodeErrorView;
pub use schema::Manifest;
pub use schema::ManifestView;
pub use schema::Manifests;
pub use schema::ManifestsView;
pub use schema::Metadata;
pub use schema::MetadataView;
pub use schema::Properties;
pub use schema::PropertiesView;
pub use schema::Root;
pub use schema::RootView;
pub use schema::Spec;
pub use schema::SpecView;
pub use schema::decode_result_view;
pub use schema::lemma_encode_decode_round_trip;
pub use schema::lemma_unsupported_version_rejected;
pub use schema::spec_decode_manifests;
pub use schema::spec_decode_root;
pub use schema::spec_encode_root;
