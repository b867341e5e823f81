//! The typed manifest schema: the document tree, its mathematical views, and
//! the verified codec between schema values and JSON trees.
use vstd::prelude::*;
use vstd::string::StringExecFns;

use crate::json::Json;
use crate::json::JsonModel;
use crate::json::fields_model;
use crate::json::items_model;
use crate::json::lemma_fields_model_index;
use crate::json::lemma_items_model_index;
use crate::json::obj_get;
use crate::json::obj_get_model;
use crate::json::lex_lt;
use crate::json::printable;
use crate::json::depth_at_most;
use crate::json::lemma_depth_monotone;

verus! {

/// Domain-specific parameters for one capability instance. Every field is
/// independently optional.
#[derive(Debug, PartialEq)]
pub struct ConfigProperties {
    pub uri: Option<String>,
    pub exchange_name: Option<String>,
    pub exchange: Option<String>,
    pub currency: Option<String>,
    pub instrument_kind: Option<String>,
}

/// One named configuration entry of a capability.
#[derive(Debug, PartialEq)]
pub struct Config {
    pub name: String,
    pub properties: Option<ConfigProperties>,
}

/// Artifact reference and optional configuration list of a component.
#[derive(Debug, PartialEq)]
pub struct Properties {
    pub image: String,
    pub config: Option<Vec<Config>>,
}

/// One named component of a manifest; the type tag `"capability"` is
/// semantically distinguished.
#[derive(Debug, PartialEq)]
pub struct CapabilityComponent {
    pub name: String,
    pub component_type: String,
    pub properties: Option<Properties>,
}

/// The ordered component list of a manifest.
#[derive(Debug, PartialEq)]
pub struct Spec {
    pub components: Vec<CapabilityComponent>,
}

/// Description and version strings of a manifest.
#[derive(Debug, PartialEq)]
pub struct Annotations {
    pub description: String,
    pub version: String,
}

/// Human-readable identification of a manifest.
#[derive(Debug, PartialEq)]
pub struct Metadata {
    pub name: String,
    pub annotations: Annotations,
}

/// One versioned manifest.
#[derive(Debug, PartialEq)]
pub struct Manifest {
    pub api_version: String,
    pub kind: String,
    pub metadata: Metadata,
    pub spec: Spec,
}

/// The version-keyed manifest mapping; exactly one supported version.
#[derive(Debug, PartialEq)]
pub struct Manifests {
    pub version: Manifest,
}

/// The top-level manifest document.
#[derive(Debug, PartialEq)]
pub struct Root {
    pub manifests: Manifests,
    pub deployed_version: Option<String>,
}

pub struct ConfigPropertiesView {
    pub uri: Option<Seq<char>>,
    pub exchange_name: Option<Seq<char>>,
    pub exchange: Option<Seq<char>>,
    pub currency: Option<Seq<char>>,
    pub instrument_kind: Option<Seq<char>>,
}

pub struct ConfigView {
    pub name: Seq<char>,
    pub properties: Option<ConfigPropertiesView>,
}

pub struct PropertiesView {
    pub image: Seq<char>,
    pub config: Option<Seq<ConfigView>>,
}

pub struct CapabilityComponentView {
    pub name: Seq<char>,
    pub component_type: Seq<char>,
    pub properties: Option<PropertiesView>,
}

pub struct SpecView {
    pub components: Seq<CapabilityComponentView>,
}

pub struct AnnotationsView {
    pub description: Seq<char>,
    pub version: Seq<char>,
}

pub struct MetadataView {
    pub name: Seq<char>,
    pub annotations: AnnotationsView,
}

pub struct ManifestView {
    pub api_version: Seq<char>,
    pub kind: Seq<char>,
    pub metadata: MetadataView,
    pub spec: SpecView,
}

pub struct ManifestsView {
    pub version: ManifestView,
}

pub struct RootView {
    pub manifests: ManifestsView,
    pub deployed_version: Option<Seq<char>>,
}

impl DeepView for ConfigProperties {
    type V = ConfigPropertiesView;

    open spec fn deep_view(&self) -> ConfigPropertiesView {
        ConfigPropertiesView {
            uri: self.uri.deep_view(),
            exchange_name: self.exchange_name.deep_view(),
            exchange: self.exchange.deep_view(),
            currency: self.currency.deep_view(),
            instrument_kind: self.instrument_kind.deep_view(),
        }
    }
}

impl DeepView for Config {
    type V = ConfigView;

    open spec fn deep_view(&self) -> ConfigView {
        ConfigView { name: self.name@, properties: self.properties.deep_view() }
    }
}

impl DeepView for Properties {
    type V = PropertiesView;

    open spec fn deep_view(&self) -> PropertiesView {
        PropertiesView { image: self.image@, config: self.config.deep_view() }
    }
}

impl DeepView for CapabilityComponent {
    type V = CapabilityComponentView;

    open spec fn deep_view(&self) -> CapabilityComponentView {
        CapabilityComponentView {
            name: self.name@,
            component_type: self.component_type@,
            properties: self.properties.deep_view(),
        }
    }
}

impl DeepView for Spec {
    type V = SpecView;

    open spec fn deep_view(&self) -> SpecView {
        SpecView { components: self.components.deep_view() }
    }
}

impl DeepView for Annotations {
    type V = AnnotationsView;

    open spec fn deep_view(&self) -> AnnotationsView {
        AnnotationsView { description: self.description@, version: self.version@ }
    }
}

impl DeepView for Metadata {
    type V = MetadataView;

    open spec fn deep_view(&self) -> MetadataView {
        MetadataView { name: self.name@, annotations: self.annotations.deep_view() }
    }
}

impl DeepView for Manifest {
    type V = ManifestView;

    open spec fn deep_view(&self) -> ManifestView {
        ManifestView {
            api_version: self.api_version@,
            kind: self.kind@,
            metadata: self.metadata.deep_view(),
            spec: self.spec.deep_view(),
        }
    }
}

impl DeepView for Manifests {
    type V = ManifestsView;

    open spec fn deep_view(&self) -> ManifestsView {
        ManifestsView { version: self.version.deep_view() }
    }
}

impl DeepView for Root {
    type V = RootView;

    open spec fn deep_view(&self) -> RootView {
        RootView {
            manifests: self.manifests.deep_view(),
            deployed_version: self.deployed_version.deep_view(),
        }
    }
}

/// A structured decode failure: what kind of malformation, and at which field.
#[derive(Debug, PartialEq)]
pub enum DecodeError {
    /// The text is not JSON at all; the detail is the parser's description.
    Syntax { detail: String },
    /// A required field is absent.
    MissingField { field: String },
    /// A field (or the document itself) has the wrong JSON type.
    TypeMismatch { field: String },
    /// The version mapping does not hold exactly the one supported version key.
    UnsupportedVersion,
}

pub enum DecodeErrorView {
    Syntax { detail: Seq<char> },
    MissingField { field: Seq<char> },
    TypeMismatch { field: Seq<char> },
    UnsupportedVersion,
}

impl DeepView for DecodeError {
    type V = DecodeErrorView;

    open spec fn deep_view(&self) -> DecodeErrorView {
        match self {
            DecodeError::Syntax { detail } => DecodeErrorView::Syntax { detail: detail@ },
            DecodeError::MissingField { field } => DecodeErrorView::MissingField { field: field@ },
            DecodeError::TypeMismatch { field } => DecodeErrorView::TypeMismatch { field: field@ },
            DecodeError::UnsupportedVersion => DecodeErrorView::UnsupportedVersion,
        }
    }
}

/// A decode result, seen through the views of its two sides.
pub open spec fn decode_result_view<T: DeepView>(r: Result<T, DecodeError>) -> Result<
    T::V,
    DecodeErrorView,
> {
    match r {
        Ok(x) => Ok(x.deep_view()),
        Err(e) => Err(e.deep_view()),
    }
}

/// An optional string field: absent and null both mean "no value".
pub open spec fn spec_opt_string(fields: Seq<(Seq<char>, JsonModel)>, key: Seq<char>) -> Result<
    Option<Seq<char>>,
    DecodeErrorView,
> {
    match obj_get_model(fields, key) {
        None => Ok(None),
        Some(JsonModel::Null) => Ok(None),
        Some(JsonModel::Str(s)) => Ok(Some(s)),
        Some(_) => Err(DecodeErrorView::TypeMismatch { field: key }),
    }
}

/// A required string field.
pub open spec fn spec_req_string(fields: Seq<(Seq<char>, JsonModel)>, key: Seq<char>) -> Result<
    Seq<char>,
    DecodeErrorView,
> {
    match obj_get_model(fields, key) {
        None => Err(DecodeErrorView::MissingField { field: key }),
        Some(JsonModel::Str(s)) => Ok(s),
        Some(_) => Err(DecodeErrorView::TypeMismatch { field: key }),
    }
}

fn opt_string(fields: &Vec<(String, Json)>, key: &String) -> (r: Result<
    Option<String>,
    DecodeError,
>)
    ensures
        decode_result_view(r) == spec_opt_string(fields_model(fields@), key@),
{
    match obj_get(fields, key) {
        None => Ok(None),
        Some(v) => match v {
            Json::Null => Ok(None),
            Json::Str(s) => Ok(Some(s.clone())),
            _ => Err(DecodeError::TypeMismatch { field: key.clone() }),
        },
    }
}

fn req_string(fields: &Vec<(String, Json)>, key: &String) -> (r: Result<String, DecodeError>)
    ensures
        decode_result_view(r) == spec_req_string(fields_model(fields@), key@),
{
    match obj_get(fields, key) {
        None => Err(DecodeError::MissingField { field: key.clone() }),
        Some(v) => match v {
            Json::Str(s) => Ok(s.clone()),
            _ => Err(DecodeError::TypeMismatch { field: key.clone() }),
        },
    }
}

/// The configuration-parameter bag, from a JSON value: an object whose five
/// known fields are each an optional string; unknown fields are ignored.
pub open spec fn spec_decode_config_properties(jm: JsonModel) -> Result<
    ConfigPropertiesView,
    DecodeErrorView,
> {
    match jm {
        JsonModel::Obj(fields) => match spec_opt_string(fields, "uri"@) {
            Err(e) => Err(e),
            Ok(uri) => match spec_opt_string(fields, "exchange_name"@) {
                Err(e) => Err(e),
                Ok(exchange_name) => match spec_opt_string(fields, "exchange"@) {
                    Err(e) => Err(e),
                    Ok(exchange) => match spec_opt_string(fields, "currency"@) {
                        Err(e) => Err(e),
                        Ok(currency) => match spec_opt_string(fields, "instrument_kind"@) {
                            Err(e) => Err(e),
                            Ok(instrument_kind) => Ok(
                                ConfigPropertiesView {
                                    uri,
                                    exchange_name,
                                    exchange,
                                    currency,
                                    instrument_kind,
                                },
                            ),
                        },
                    },
                },
            },
        },
        _ => Err(DecodeErrorView::TypeMismatch { field: "properties"@ }),
    }
}

pub fn decode_config_properties(j: &Json) -> (r: Result<ConfigProperties, DecodeError>)
    ensures
        decode_result_view(r) == spec_decode_config_properties(j.model()),
{
    match j {
        Json::Obj(fields) => {
            let uri = match opt_string(fields, &String::from_str("uri")) {
                Ok(v) => v,
                Err(e) => {
                    return Err(e);
                },
            };
            let exchange_name = match opt_string(fields, &String::from_str("exchange_name")) {
                Ok(v) => v,
                Err(e) => {
                    return Err(e);
                },
            };
            let exchange = match opt_string(fields, &String::from_str("exchange")) {
                Ok(v) => v,
                Err(e) => {
                    return Err(e);
                },
            };
            let currency = match opt_string(fields, &String::from_str("currency")) {
                Ok(v) => v,
                Err(e) => {
                    return Err(e);
                },
            };
            let instrument_kind = match opt_string(fields, &String::from_str("instrument_kind")) {
                Ok(v) => v,
                Err(e) => {
                    return Err(e);
                },
            };
            Ok(ConfigProperties { uri, exchange_name, exchange, currency, instrument_kind })
        },
        _ => Err(DecodeError::TypeMismatch { field: String::from_str("properties") }),
    }
}

/// An optional object-valued field decoded by `sub`: absent and null both
/// mean "no value"; any other non-object value is the sub-decoder's mismatch.
pub open spec fn spec_decode_config(jm: JsonModel) -> Result<ConfigView, DecodeErrorView> {
    match jm {
        JsonModel::Obj(fields) => match spec_req_string(fields, "name"@) {
            Err(e) => Err(e),
            Ok(name) => match obj_get_model(fields, "properties"@) {
                None => Ok(ConfigView { name, properties: None }),
                Some(JsonModel::Null) => Ok(ConfigView { name, properties: None }),
                Some(pjm) => match spec_decode_config_properties(pjm) {
                    Err(e) => Err(e),
                    Ok(p) => Ok(ConfigView { name, properties: Some(p) }),
                },
            },
        },
        _ => Err(DecodeErrorView::TypeMismatch { field: "config"@ }),
    }
}

pub fn decode_config(j: &Json) -> (r: Result<Config, DecodeError>)
    ensures
        decode_result_view(r) == spec_decode_config(j.model()),
{
    match j {
        Json::Obj(fields) => {
            let name = match req_string(fields, &String::from_str("name")) {
                Ok(v) => v,
                Err(e) => {
                    return Err(e);
                },
            };
            match obj_get(fields, &String::from_str("properties")) {
                None => Ok(Config { name, properties: None }),
                Some(v) => match v {
                    Json::Null => Ok(Config { name, properties: None }),
                    _ => match decode_config_properties(v) {
                        Ok(p) => Ok(Config { name, properties: Some(p) }),
                        Err(e) => Err(e),
                    },
                },
            }
        },
        _ => Err(DecodeError::TypeMismatch { field: String::from_str("config") }),
    }
}

/// The configuration entries from `start` onward, each decoded in order; the
/// first failure wins.
pub open spec fn spec_decode_configs_from(items: Seq<JsonModel>, start: int) -> Result<
    Seq<ConfigView>,
    DecodeErrorView,
>
    decreases items.len() - start,
{
    if start < 0 || start >= items.len() {
        Ok(Seq::empty())
    } else {
        match spec_decode_config(items[start]) {
            Err(e) => Err(e),
            Ok(c) => match spec_decode_configs_from(items, start + 1) {
                Err(e) => Err(e),
                Ok(rest) => Ok(seq![c] + rest),
            },
        }
    }
}

fn decode_configs_from(items: &Vec<Json>, start: usize) -> (r: Result<Vec<Config>, DecodeError>)
    requires
        start <= items@.len(),
    ensures
        decode_result_view(r) == spec_decode_configs_from(items_model(items@), start as int),
    decreases items@.len() - start,
{
    proof {
        lemma_items_model_index(items@);
    }
    if start == items.len() {
        let out: Vec<Config> = Vec::new();
        proof {
            assert(out.deep_view() =~= Seq::<ConfigView>::empty());
        }
        Ok(out)
    } else {
        match decode_config(&items[start]) {
            Err(e) => Err(e),
            Ok(c) => match decode_configs_from(items, start + 1) {
                Err(e) => Err(e),
                Ok(rest) => {
                    let mut out: Vec<Config> = Vec::new();
                    out.push(c);
                    let mut tail = rest;
                    out.append(&mut tail);
                    proof {
                        assert(out.deep_view() =~= spec_decode_configs_from(
                            items_model(items@),
                            start as int,
                        )->Ok_0);
                    }
                    Ok(out)
                },
            },
        }
    }
}

/// A component's properties: a required image string and an optional
/// configuration list.
pub open spec fn spec_decode_properties(jm: JsonModel) -> Result<PropertiesView, DecodeErrorView> {
    match jm {
        JsonModel::Obj(fields) => match spec_req_string(fields, "image"@) {
            Err(e) => Err(e),
            Ok(image) => match obj_get_model(fields, "config"@) {
                None => Ok(PropertiesView { image, config: None }),
                Some(JsonModel::Null) => Ok(PropertiesView { image, config: None }),
                Some(JsonModel::Arr(items)) => match spec_decode_configs_from(items, 0) {
                    Err(e) => Err(e),
                    Ok(cs) => Ok(PropertiesView { image, config: Some(cs) }),
                },
                Some(_) => Err(DecodeErrorView::TypeMismatch { field: "config"@ }),
            },
        },
        _ => Err(DecodeErrorView::TypeMismatch { field: "properties"@ }),
    }
}

pub fn decode_properties(j: &Json) -> (r: Result<Properties, DecodeError>)
    ensures
        decode_result_view(r) == spec_decode_properties(j.model()),
{
    match j {
        Json::Obj(fields) => {
            let image = match req_string(fields, &String::from_str("image")) {
                Ok(v) => v,
                Err(e) => {
                    return Err(e);
                },
            };
            match obj_get(fields, &String::from_str("config")) {
                None => Ok(Properties { image, config: None }),
                Some(v) => match v {
                    Json::Null => Ok(Properties { image, config: None }),
                    Json::Arr(items) => match decode_configs_from(items, 0) {
                        Ok(cs) => Ok(Properties { image, config: Some(cs) }),
                        Err(e) => Err(e),
                    },
                    _ => Err(DecodeError::TypeMismatch { field: String::from_str("config") }),
                },
            }
        },
        _ => Err(DecodeError::TypeMismatch { field: String::from_str("properties") }),
    }
}

/// One manifest component: a name, a type tag, and optional properties.
pub open spec fn spec_decode_component(jm: JsonModel) -> Result<
    CapabilityComponentView,
    DecodeErrorView,
> {
    match jm {
        JsonModel::Obj(fields) => match spec_req_string(fields, "name"@) {
            Err(e) => Err(e),
            Ok(name) => match spec_req_string(fields, "type"@) {
                Err(e) => Err(e),
                Ok(component_type) => match obj_get_model(fields, "properties"@) {
                    None => Ok(CapabilityComponentView { name, component_type, properties: None }),
                    Some(JsonModel::Null) => Ok(
                        CapabilityComponentView { name, component_type, properties: None },
                    ),
                    Some(pjm) => match spec_decode_properties(pjm) {
                        Err(e) => Err(e),
                        Ok(p) => Ok(
                            CapabilityComponentView { name, component_type, properties: Some(p) },
                        ),
                    },
                },
            },
        },
        _ => Err(DecodeErrorView::TypeMismatch { field: "components"@ }),
    }
}

pub fn decode_component(j: &Json) -> (r: Result<CapabilityComponent, DecodeError>)
    ensures
        decode_result_view(r) == spec_decode_component(j.model()),
{
    match j {
        Json::Obj(fields) => {
            let name = match req_string(fields, &String::from_str("name")) {
                Ok(v) => v,
                Err(e) => {
                    return Err(e);
                },
            };
            let component_type = match req_string(fields, &String::from_str("type")) {
                Ok(v) => v,
                Err(e) => {
                    return Err(e);
                },
            };
            match obj_get(fields, &String::from_str("properties")) {
                None => Ok(CapabilityComponent { name, component_type, properties: None }),
                Some(v) => match v {
                    Json::Null => Ok(CapabilityComponent { name, component_type, properties: None }),
                    _ => match decode_properties(v) {
                        Ok(p) => Ok(
                            CapabilityComponent { name, component_type, properties: Some(p) },
                        ),
                        Err(e) => Err(e),
                    },
                },
            }
        },
        _ => Err(DecodeError::TypeMismatch { field: String::from_str("components") }),
    }
}

/// The components from `start` onward, each decoded in order; the first
/// failure wins.
pub open spec fn spec_decode_components_from(items: Seq<JsonModel>, start: int) -> Result<
    Seq<CapabilityComponentView>,
    DecodeErrorView,
>
    decreases items.len() - start,
{
    if start < 0 || start >= items.len() {
        Ok(Seq::empty())
    } else {
        match spec_decode_component(items[start]) {
            Err(e) => Err(e),
            Ok(c) => match spec_decode_components_from(items, start + 1) {
                Err(e) => Err(e),
                Ok(rest) => Ok(seq![c] + rest),
            },
        }
    }
}

fn decode_components_from(items: &Vec<Json>, start: usize) -> (r: Result<
    Vec<CapabilityComponent>,
    DecodeError,
>)
    requires
        start <= items@.len(),
    ensures
        decode_result_view(r) == spec_decode_components_from(items_model(items@), start as int),
    decreases items@.len() - start,
{
    proof {
        lemma_items_model_index(items@);
    }
    if start == items.len() {
        let out: Vec<CapabilityComponent> = Vec::new();
        proof {
            assert(out.deep_view() =~= Seq::<CapabilityComponentView>::empty());
        }
        Ok(out)
    } else {
        match decode_component(&items[start]) {
            Err(e) => Err(e),
            Ok(c) => match decode_components_from(items, start + 1) {
                Err(e) => Err(e),
                Ok(rest) => {
                    let mut out: Vec<CapabilityComponent> = Vec::new();
                    out.push(c);
                    let mut tail = rest;
                    out.append(&mut tail);
                    proof {
                        assert(out.deep_view() =~= spec_decode_components_from(
                            items_model(items@),
                            start as int,
                        )->Ok_0);
                    }
                    Ok(out)
                },
            },
        }
    }
}

/// The component list holder.
pub open spec fn spec_decode_spec(jm: JsonModel) -> Result<SpecView, DecodeErrorView> {
    match jm {
        JsonModel::Obj(fields) => match obj_get_model(fields, "components"@) {
            None => Err(DecodeErrorView::MissingField { field: "components"@ }),
            Some(JsonModel::Arr(items)) => match spec_decode_components_from(items, 0) {
                Err(e) => Err(e),
                Ok(cs) => Ok(SpecView { components: cs }),
            },
            Some(_) => Err(DecodeErrorView::TypeMismatch { field: "components"@ }),
        },
        _ => Err(DecodeErrorView::TypeMismatch { field: "spec"@ }),
    }
}

pub fn decode_spec(j: &Json) -> (r: Result<Spec, DecodeError>)
    ensures
        decode_result_view(r) == spec_decode_spec(j.model()),
{
    match j {
        Json::Obj(fields) => match obj_get(fields, &String::from_str("components")) {
            None => Err(DecodeError::MissingField { field: String::from_str("components") }),
            Some(v) => match v {
                Json::Arr(items) => match decode_components_from(items, 0) {
                    Ok(cs) => Ok(Spec { components: cs }),
                    Err(e) => Err(e),
                },
                _ => Err(DecodeError::TypeMismatch { field: String::from_str("components") }),
            },
        },
        _ => Err(DecodeError::TypeMismatch { field: String::from_str("spec") }),
    }
}

/// The description and version annotations.
pub open spec fn spec_decode_annotations(jm: JsonModel) -> Result<
    AnnotationsView,
    DecodeErrorView,
> {
    match jm {
        JsonModel::Obj(fields) => match spec_req_string(fields, "description"@) {
            Err(e) => Err(e),
            Ok(description) => match spec_req_string(fields, "version"@) {
                Err(e) => Err(e),
                Ok(version) => Ok(AnnotationsView { description, version }),
            },
        },
        _ => Err(DecodeErrorView::TypeMismatch { field: "annotations"@ }),
    }
}

pub fn decode_annotations(j: &Json) -> (r: Result<Annotations, DecodeError>)
    ensures
        decode_result_view(r) == spec_decode_annotations(j.model()),
{
    match j {
        Json::Obj(fields) => {
            let description = match req_string(fields, &String::from_str("description")) {
                Ok(v) => v,
                Err(e) => {
                    return Err(e);
                },
            };
            let version = match req_string(fields, &String::from_str("version")) {
                Ok(v) => v,
                Err(e) => {
                    return Err(e);
                },
            };
            Ok(Annotations { description, version })
        },
        _ => Err(DecodeError::TypeMismatch { field: String::from_str("annotations") }),
    }
}

/// The manifest metadata: a name and its annotations.
pub open spec fn spec_decode_metadata(jm: JsonModel) -> Result<MetadataView, DecodeErrorView> {
    match jm {
        JsonModel::Obj(fields) => match spec_req_string(fields, "name"@) {
            Err(e) => Err(e),
            Ok(name) => match obj_get_model(fields, "annotations"@) {
                None => Err(DecodeErrorView::MissingField { field: "annotations"@ }),
                Some(ajm) => match spec_decode_annotations(ajm) {
                    Err(e) => Err(e),
                    Ok(annotations) => Ok(MetadataView { name, annotations }),
                },
            },
        },
        _ => Err(DecodeErrorView::TypeMismatch { field: "metadata"@ }),
    }
}

pub fn decode_metadata(j: &Json) -> (r: Result<Metadata, DecodeError>)
    ensures
        decode_result_view(r) == spec_decode_metadata(j.model()),
{
    match j {
        Json::Obj(fields) => {
            let name = match req_string(fields, &String::from_str("name")) {
                Ok(v) => v,
                Err(e) => {
                    return Err(e);
                },
            };
            match obj_get(fields, &String::from_str("annotations")) {
                None => Err(DecodeError::MissingField { field: String::from_str("annotations") }),
                Some(v) => match decode_annotations(v) {
                    Ok(annotations) => Ok(Metadata { name, annotations }),
                    Err(e) => Err(e),
                },
            }
        },
        _ => Err(DecodeError::TypeMismatch { field: String::from_str("metadata") }),
    }
}

/// One versioned manifest: api version, kind, metadata and component spec,
/// all required.
pub open spec fn spec_decode_manifest(jm: JsonModel) -> Result<ManifestView, DecodeErrorView> {
    match jm {
        JsonModel::Obj(fields) => match spec_req_string(fields, "apiVersion"@) {
            Err(e) => Err(e),
            Ok(api_version) => match spec_req_string(fields, "kind"@) {
                Err(e) => Err(e),
                Ok(kind) => match obj_get_model(fields, "metadata"@) {
                    None => Err(DecodeErrorView::MissingField { field: "metadata"@ }),
                    Some(mjm) => match spec_decode_metadata(mjm) {
                        Err(e) => Err(e),
                        Ok(metadata) => match obj_get_model(fields, "spec"@) {
                            None => Err(DecodeErrorView::MissingField { field: "spec"@ }),
                            Some(sjm) => match spec_decode_spec(sjm) {
                                Err(e) => Err(e),
                                Ok(s) => Ok(
                                    ManifestView { api_version, kind, metadata, spec: s },
                                ),
                            },
                        },
                    },
                },
            },
        },
        _ => Err(DecodeErrorView::TypeMismatch { field: "v0.0.1"@ }),
    }
}

pub fn decode_manifest(j: &Json) -> (r: Result<Manifest, DecodeError>)
    ensures
        decode_result_view(r) == spec_decode_manifest(j.model()),
{
    match j {
        Json::Obj(fields) => {
            let api_version = match req_string(fields, &String::from_str("apiVersion")) {
                Ok(v) => v,
                Err(e) => {
                    return Err(e);
                },
            };
            let kind = match req_string(fields, &String::from_str("kind")) {
                Ok(v) => v,
                Err(e) => {
                    return Err(e);
                },
            };
            let metadata = match obj_get(fields, &String::from_str("metadata")) {
                None => {
                    return Err(DecodeError::MissingField { field: String::from_str("metadata") });
                },
                Some(v) => match decode_metadata(v) {
                    Ok(m) => m,
                    Err(e) => {
                        return Err(e);
                    },
                },
            };
            match obj_get(fields, &String::from_str("spec")) {
                None => Err(DecodeError::MissingField { field: String::from_str("spec") }),
                Some(v) => match decode_spec(v) {
                    Ok(s) => Ok(Manifest { api_version, kind, metadata, spec: s }),
                    Err(e) => Err(e),
                },
            }
        },
        _ => Err(DecodeError::TypeMismatch { field: String::from_str("v0.0.1") }),
    }
}

/// The version mapping: exactly one entry, whose key must be the single
/// supported version literal; any other sole key, or several keys, is an
/// unsupported-version error.
pub open spec fn spec_decode_manifests(jm: JsonModel) -> Result<ManifestsView, DecodeErrorView> {
    match jm {
        JsonModel::Obj(fields) => if fields.len() != 1 {
            Err(DecodeErrorView::UnsupportedVersion)
        } else if fields[0].0 != "v0.0.1"@ {
            Err(DecodeErrorView::UnsupportedVersion)
        } else {
            match spec_decode_manifest(fields[0].1) {
                Err(e) => Err(e),
                Ok(m) => Ok(ManifestsView { version: m }),
            }
        },
        _ => Err(DecodeErrorView::TypeMismatch { field: "manifests"@ }),
    }
}

pub fn decode_manifests(j: &Json) -> (r: Result<Manifests, DecodeError>)
    ensures
        decode_result_view(r) == spec_decode_manifests(j.model()),
{
    match j {
        Json::Obj(fields) => {
            proof {
                lemma_fields_model_index(fields@);
            }
            if fields.len() != 1 {
                Err(DecodeError::UnsupportedVersion)
            } else if !fields[0].0.eq(&String::from_str("v0.0.1")) {
                Err(DecodeError::UnsupportedVersion)
            } else {
                match decode_manifest(&fields[0].1) {
                    Ok(m) => Ok(Manifests { version: m }),
                    Err(e) => Err(e),
                }
            }
        },
        _ => Err(DecodeError::TypeMismatch { field: String::from_str("manifests") }),
    }
}

/// Version-pinning law: a version mapping that does not hold exactly one
/// entry under the single supported version key is rejected, so no document
/// carrying it decodes and no components can be extracted from it.
pub proof fn lemma_unsupported_version_rejected(vfields: Seq<(Seq<char>, JsonModel)>)
    requires
        vfields.len() != 1 || vfields[0].0 != "v0.0.1"@,
    ensures
        spec_decode_manifests(JsonModel::Obj(vfields)) == Err::<ManifestsView, DecodeErrorView>(
            DecodeErrorView::UnsupportedVersion,
        ),
{
}

/// The whole document: a required version mapping and an optional deployed
/// version string.
pub open spec fn spec_decode_root(jm: JsonModel) -> Result<RootView, DecodeErrorView> {
    match jm {
        JsonModel::Obj(fields) => match obj_get_model(fields, "manifests"@) {
            None => Err(DecodeErrorView::MissingField { field: "manifests"@ }),
            Some(mjm) => match spec_decode_manifests(mjm) {
                Err(e) => Err(e),
                Ok(manifests) => match spec_opt_string(fields, "deployed_version"@) {
                    Err(e) => Err(e),
                    Ok(deployed_version) => Ok(RootView { manifests, deployed_version }),
                },
            },
        },
        _ => Err(DecodeErrorView::TypeMismatch { field: "document"@ }),
    }
}

pub fn decode_root(j: &Json) -> (r: Result<Root, DecodeError>)
    ensures
        decode_result_view(r) == spec_decode_root(j.model()),
{
    match j {
        Json::Obj(fields) => {
            let manifests = match obj_get(fields, &String::from_str("manifests")) {
                None => {
                    return Err(DecodeError::MissingField { field: String::from_str("manifests") });
                },
                Some(v) => match decode_manifests(v) {
                    Ok(m) => m,
                    Err(e) => {
                        return Err(e);
                    },
                },
            };
            match opt_string(fields, &String::from_str("deployed_version")) {
                Ok(deployed_version) => Ok(Root { manifests, deployed_version }),
                Err(e) => Err(e),
            }
        },
        _ => Err(DecodeError::TypeMismatch { field: String::from_str("document") }),
    }
}

/// An optional string encoded as a JSON value: explicit null when absent.
pub open spec fn spec_encode_opt_string(o: Option<Seq<char>>) -> JsonModel {
    match o {
        None => JsonModel::Null,
        Some(s) => JsonModel::Str(s),
    }
}

pub open spec fn spec_encode_config_properties(cp: ConfigPropertiesView) -> JsonModel {
    JsonModel::Obj(
        seq![
            ("currency"@, spec_encode_opt_string(cp.currency)),
            ("exchange"@, spec_encode_opt_string(cp.exchange)),
            ("exchange_name"@, spec_encode_opt_string(cp.exchange_name)),
            ("instrument_kind"@, spec_encode_opt_string(cp.instrument_kind)),
            ("uri"@, spec_encode_opt_string(cp.uri)),
        ],
    )
}

pub open spec fn spec_encode_config(c: ConfigView) -> JsonModel {
    JsonModel::Obj(
        seq![
            ("name"@, JsonModel::Str(c.name)),
            (
                "properties"@,
                match c.properties {
                    None => JsonModel::Null,
                    Some(p) => spec_encode_config_properties(p),
                },
            ),
        ],
    )
}

pub open spec fn spec_encode_configs(cs: Seq<ConfigView>) -> Seq<JsonModel> {
    Seq::new(cs.len(), |i: int| spec_encode_config(cs[i]))
}

pub open spec fn spec_encode_properties(p: PropertiesView) -> JsonModel {
    JsonModel::Obj(
        seq![
            (
                "config"@,
                match p.config {
                    None => JsonModel::Null,
                    Some(cs) => JsonModel::Arr(spec_encode_configs(cs)),
                },
            ),
            ("image"@, JsonModel::Str(p.image)),
        ],
    )
}

pub open spec fn spec_encode_component(c: CapabilityComponentView) -> JsonModel {
    JsonModel::Obj(
        seq![
            ("name"@, JsonModel::Str(c.name)),
            (
                "properties"@,
                match c.properties {
                    None => JsonModel::Null,
                    Some(p) => spec_encode_properties(p),
                },
            ),
            ("type"@, JsonModel::Str(c.component_type)),
        ],
    )
}

pub open spec fn spec_encode_components(cs: Seq<CapabilityComponentView>) -> Seq<JsonModel> {
    Seq::new(cs.len(), |i: int| spec_encode_component(cs[i]))
}

pub open spec fn spec_encode_spec(s: SpecView) -> JsonModel {
    JsonModel::Obj(seq![("components"@, JsonModel::Arr(spec_encode_components(s.components)))])
}

pub open spec fn spec_encode_annotations(a: AnnotationsView) -> JsonModel {
    JsonModel::Obj(
        seq![
            ("description"@, JsonModel::Str(a.description)),
            ("version"@, JsonModel::Str(a.version)),
        ],
    )
}

pub open spec fn spec_encode_metadata(m: MetadataView) -> JsonModel {
    JsonModel::Obj(
        seq![
            ("annotations"@, spec_encode_annotations(m.annotations)),
            ("name"@, JsonModel::Str(m.name)),
        ],
    )
}

pub open spec fn spec_encode_manifest(m: ManifestView) -> JsonModel {
    JsonModel::Obj(
        seq![
            ("apiVersion"@, JsonModel::Str(m.api_version)),
            ("kind"@, JsonModel::Str(m.kind)),
            ("metadata"@, spec_encode_metadata(m.metadata)),
            ("spec"@, spec_encode_spec(m.spec)),
        ],
    )
}

pub open spec fn spec_encode_manifests(m: ManifestsView) -> JsonModel {
    JsonModel::Obj(seq![("v0.0.1"@, spec_encode_manifest(m.version))])
}

pub open spec fn spec_encode_root(r: RootView) -> JsonModel {
    JsonModel::Obj(
        seq![
            ("deployed_version"@, spec_encode_opt_string(r.deployed_version)),
            ("manifests"@, spec_encode_manifests(r.manifests)),
        ],
    )
}

fn encode_opt_string(o: &Option<String>) -> (j: Json)
    ensures
        j.model() == spec_encode_opt_string(o.deep_view()),
{
    match o {
        None => Json::Null,
        Some(s) => Json::Str(s.clone()),
    }
}

fn encode_config_properties(cp: &ConfigProperties) -> (j: Json)
    ensures
        j.model() == spec_encode_config_properties(cp.deep_view()),
{
    let mut fields: Vec<(String, Json)> = Vec::new();
    fields.push((String::from_str("currency"), encode_opt_string(&cp.currency)));
    fields.push((String::from_str("exchange"), encode_opt_string(&cp.exchange)));
    fields.push((String::from_str("exchange_name"), encode_opt_string(&cp.exchange_name)));
    fields.push((String::from_str("instrument_kind"), encode_opt_string(&cp.instrument_kind)));
    fields.push((String::from_str("uri"), encode_opt_string(&cp.uri)));
    proof {
        lemma_fields_model_index(fields@);
        assert(fields_model(fields@) =~= spec_encode_config_properties(
            cp.deep_view(),
        )->Obj_0);
    }
    Json::Obj(fields)
}

fn encode_config(c: &Config) -> (j: Json)
    ensures
        j.model() == spec_encode_config(c.deep_view()),
{
    let mut fields: Vec<(String, Json)> = Vec::new();
    fields.push((String::from_str("name"), Json::Str(c.name.clone())));
    let p = match &c.properties {
        None => Json::Null,
        Some(cp) => encode_config_properties(cp),
    };
    fields.push((String::from_str("properties"), p));
    proof {
        lemma_fields_model_index(fields@);
        assert(fields_model(fields@) =~= spec_encode_config(c.deep_view())->Obj_0);
    }
    Json::Obj(fields)
}

fn encode_configs(cs: &Vec<Config>) -> (items: Vec<Json>)
    ensures
        items_model(items@) == spec_encode_configs(cs.deep_view()),
{
    let n = cs.len();
    let mut items: Vec<Json> = Vec::new();
    let mut i: usize = 0;
    while i < n
        invariant
            n == cs@.len(),
            0 <= i <= n,
            items@.len() == i,
            forall|t: int|
                0 <= t < i ==> items@[t].model() == spec_encode_config(cs.deep_view()[t]),
        decreases n - i,
    {
        items.push(encode_config(&cs[i]));
        i = i + 1;
    }
    proof {
        lemma_items_model_index(items@);
        assert(items_model(items@) =~= spec_encode_configs(cs.deep_view()));
    }
    items
}

fn encode_properties(p: &Properties) -> (j: Json)
    ensures
        j.model() == spec_encode_properties(p.deep_view()),
{
    let mut fields: Vec<(String, Json)> = Vec::new();
    let cfg = match &p.config {
        None => Json::Null,
        Some(cs) => Json::Arr(encode_configs(cs)),
    };
    fields.push((String::from_str("config"), cfg));
    fields.push((String::from_str("image"), Json::Str(p.image.clone())));
    proof {
        lemma_fields_model_index(fields@);
        assert(fields_model(fields@) =~= spec_encode_properties(p.deep_view())->Obj_0);
    }
    Json::Obj(fields)
}

fn encode_component(c: &CapabilityComponent) -> (j: Json)
    ensures
        j.model() == spec_encode_component(c.deep_view()),
{
    let mut fields: Vec<(String, Json)> = Vec::new();
    fields.push((String::from_str("name"), Json::Str(c.name.clone())));
    let p = match &c.properties {
        None => Json::Null,
        Some(cp) => encode_properties(cp),
    };
    fields.push((String::from_str("properties"), p));
    fields.push((String::from_str("type"), Json::Str(c.component_type.clone())));
    proof {
        lemma_fields_model_index(fields@);
        assert(fields_model(fields@) =~= spec_encode_component(c.deep_view())->Obj_0);
    }
    Json::Obj(fields)
}

fn encode_components(cs: &Vec<CapabilityComponent>) -> (items: Vec<Json>)
    ensures
        items_model(items@) == spec_encode_components(cs.deep_view()),
{
    let n = cs.len();
    let mut items: Vec<Json> = Vec::new();
    let mut i: usize = 0;
    while i < n
        invariant
            n == cs@.len(),
            0 <= i <= n,
            items@.len() == i,
            forall|t: int|
                0 <= t < i ==> items@[t].model() == spec_encode_component(cs.deep_view()[t]),
        decreases n - i,
    {
        items.push(encode_component(&cs[i]));
        i = i + 1;
    }
    proof {
        lemma_items_model_index(items@);
        assert(items_model(items@) =~= spec_encode_components(cs.deep_view()));
    }
    items
}

fn encode_spec(s: &Spec) -> (j: Json)
    ensures
        j.model() == spec_encode_spec(s.deep_view()),
{
    let mut fields: Vec<(String, Json)> = Vec::new();
    fields.push((String::from_str("components"), Json::Arr(encode_components(&s.components))));
    proof {
        lemma_fields_model_index(fields@);
        assert(fields_model(fields@) =~= spec_encode_spec(s.deep_view())->Obj_0);
    }
    Json::Obj(fields)
}

fn encode_annotations(a: &Annotations) -> (j: Json)
    ensures
        j.model() == spec_encode_annotations(a.deep_view()),
{
    let mut fields: Vec<(String, Json)> = Vec::new();
    fields.push((String::from_str("description"), Json::Str(a.description.clone())));
    fields.push((String::from_str("version"), Json::Str(a.version.clone())));
    proof {
        lemma_fields_model_index(fields@);
        assert(fields_model(fields@) =~= spec_encode_annotations(a.deep_view())->Obj_0);
    }
    Json::Obj(fields)
}

fn encode_metadata(m: &Metadata) -> (j: Json)
    ensures
        j.model() == spec_encode_metadata(m.deep_view()),
{
    let mut fields: Vec<(String, Json)> = Vec::new();
    fields.push((String::from_str("annotations"), encode_annotations(&m.annotations)));
    fields.push((String::from_str("name"), Json::Str(m.name.clone())));
    proof {
        lemma_fields_model_index(fields@);
        assert(fields_model(fields@) =~= spec_encode_metadata(m.deep_view())->Obj_0);
    }
    Json::Obj(fields)
}

fn encode_manifest(m: &Manifest) -> (j: Json)
    ensures
        j.model() == spec_encode_manifest(m.deep_view()),
{
    let mut fields: Vec<(String, Json)> = Vec::new();
    fields.push((String::from_str("apiVersion"), Json::Str(m.api_version.clone())));
    fields.push((String::from_str("kind"), Json::Str(m.kind.clone())));
    fields.push((String::from_str("metadata"), encode_metadata(&m.metadata)));
    fields.push((String::from_str("spec"), encode_spec(&m.spec)));
    proof {
        lemma_fields_model_index(fields@);
        assert(fields_model(fields@) =~= spec_encode_manifest(m.deep_view())->Obj_0);
    }
    Json::Obj(fields)
}

fn encode_manifests(m: &Manifests) -> (j: Json)
    ensures
        j.model() == spec_encode_manifests(m.deep_view()),
{
    let mut fields: Vec<(String, Json)> = Vec::new();
    fields.push((String::from_str("v0.0.1"), encode_manifest(&m.version)));
    proof {
        lemma_fields_model_index(fields@);
        assert(fields_model(fields@) =~= spec_encode_manifests(m.deep_view())->Obj_0);
    }
    Json::Obj(fields)
}

fn encode_root(r: &Root) -> (j: Json)
    ensures
        j.model() == spec_encode_root(r.deep_view()),
{
    let mut fields: Vec<(String, Json)> = Vec::new();
    fields.push((String::from_str("deployed_version"), encode_opt_string(&r.deployed_version)));
    fields.push((String::from_str("manifests"), encode_manifests(&r.manifests)));
    proof {
        lemma_fields_model_index(fields@);
        assert(fields_model(fields@) =~= spec_encode_root(r.deep_view())->Obj_0);
    }
    Json::Obj(fields)
}

/// Strict lexicographic order of every pair of schema keys that shares an
/// object, in emission order.
#[verifier::rlimit(50)]
proof fn lemma_key_order()
    ensures
        lex_lt("currency"@, "exchange"@),
        lex_lt("currency"@, "exchange_name"@),
        lex_lt("currency"@, "instrument_kind"@),
        lex_lt("currency"@, "uri"@),
        lex_lt("exchange"@, "exchange_name"@),
        lex_lt("exchange"@, "instrument_kind"@),
        lex_lt("exchange"@, "uri"@),
        lex_lt("exchange_name"@, "instrument_kind"@),
        lex_lt("exchange_name"@, "uri"@),
        lex_lt("instrument_kind"@, "uri"@),
        lex_lt("name"@, "properties"@),
        lex_lt("config"@, "image"@),
        lex_lt("name"@, "type"@),
        lex_lt("properties"@, "type"@),
        lex_lt("description"@, "version"@),
        lex_lt("annotations"@, "name"@),
        lex_lt("apiVersion"@, "kind"@),
        lex_lt("apiVersion"@, "metadata"@),
        lex_lt("apiVersion"@, "spec"@),
        lex_lt("kind"@, "metadata"@),
        lex_lt("kind"@, "spec"@),
        lex_lt("metadata"@, "spec"@),
        lex_lt("deployed_version"@, "manifests"@),
{
    reveal_strlit("currency");
    reveal_strlit("exchange");
    reveal_strlit("exchange_name");
    reveal_strlit("instrument_kind");
    reveal_strlit("uri");
    reveal_strlit("name");
    reveal_strlit("properties");
    reveal_strlit("config");
    reveal_strlit("image");
    reveal_strlit("type");
    reveal_strlit("description");
    reveal_strlit("version");
    reveal_strlit("annotations");
    reveal_strlit("apiVersion");
    reveal_strlit("kind");
    reveal_strlit("metadata");
    reveal_strlit("spec");
    reveal_strlit("deployed_version");
    reveal_strlit("manifests");
    reveal_with_fuel(crate::json::lex_lt, 10);
    assert(lex_lt("exchange"@, "exchange_name"@));
}

proof fn lemma_codec_config_properties(cp: ConfigPropertiesView)
    ensures
        printable(spec_encode_config_properties(cp)),
        depth_at_most(spec_encode_config_properties(cp), 1),
        spec_decode_config_properties(spec_encode_config_properties(cp)) == Ok::<ConfigPropertiesView, DecodeErrorView>(cp),
{
    lemma_key_order();
    reveal_strlit("currency");
    reveal_strlit("exchange");
    reveal_strlit("exchange_name");
    reveal_strlit("instrument_kind");
    reveal_strlit("uri");
    reveal_with_fuel(crate::json::obj_get_model, 7);
    let jm = spec_encode_config_properties(cp);
    let fields = jm->Obj_0;
    assert(obj_get_model(fields, "currency"@) == Some(spec_encode_opt_string(cp.currency)));
    assert(obj_get_model(fields, "exchange"@) == Some(spec_encode_opt_string(cp.exchange)));
    assert(obj_get_model(fields, "exchange_name"@) == Some(
        spec_encode_opt_string(cp.exchange_name),
    ));
    assert(obj_get_model(fields, "instrument_kind"@) == Some(
        spec_encode_opt_string(cp.instrument_kind),
    ));
    assert(obj_get_model(fields, "uri"@) == Some(spec_encode_opt_string(cp.uri)));
    assert(spec_decode_config_properties(jm) == Ok::<ConfigPropertiesView, DecodeErrorView>(cp));
    assert forall|i: int, k: int| 0 <= i < k < fields.len() implies lex_lt(
        fields[i].0,
        fields[k].0,
    ) by {}
    assert forall|i: int| 0 <= i < fields.len() implies printable(#[trigger] (fields[i].1)) by {}
    assert forall|i: int| 0 <= i < fields.len() implies depth_at_most(
        #[trigger] (fields[i].1),
        0,
    ) by {}
    assert(depth_at_most(jm, 1));
    assert(printable(jm));
}

proof fn lemma_codec_config(c: ConfigView)
    ensures
        printable(spec_encode_config(c)),
        depth_at_most(spec_encode_config(c), 2),
        spec_decode_config(spec_encode_config(c)) == Ok::<ConfigView, DecodeErrorView>(c),
{
    lemma_key_order();
    reveal_strlit("name");
    reveal_strlit("properties");
    reveal_with_fuel(crate::json::obj_get_model, 4);
    let jm = spec_encode_config(c);
    let fields = jm->Obj_0;
    assert(obj_get_model(fields, "name"@) == Some(JsonModel::Str(c.name)));
    match c.properties {
        None => {
            assert(obj_get_model(fields, "properties"@) == Some(JsonModel::Null));
        },
        Some(p) => {
            lemma_codec_config_properties(p);
            assert(obj_get_model(fields, "properties"@) == Some(
                spec_encode_config_properties(p),
            ));
        },
    }
    assert(spec_decode_config(jm) == Ok::<ConfigView, DecodeErrorView>(c));
    assert forall|i: int, k: int| 0 <= i < k < fields.len() implies lex_lt(
        fields[i].0,
        fields[k].0,
    ) by {}
    assert forall|i: int| 0 <= i < fields.len() implies printable(#[trigger] (fields[i].1)) by {
        if i == 1 {
            match c.properties {
                None => {},
                Some(p) => {
                    lemma_codec_config_properties(p);
                },
            }
        }
    }
    assert forall|i: int| 0 <= i < fields.len() implies depth_at_most(
        #[trigger] (fields[i].1),
        1,
    ) by {
        if i == 1 {
            match c.properties {
                None => {},
                Some(p) => {
                    lemma_codec_config_properties(p);
                },
            }
        }
    }
    assert(depth_at_most(jm, 2));
    assert(printable(jm));
}

proof fn lemma_codec_configs_from(cs: Seq<ConfigView>, start: int)
    requires
        0 <= start <= cs.len(),
    ensures
        spec_decode_configs_from(spec_encode_configs(cs), start) == Ok::<Seq<ConfigView>, DecodeErrorView>(cs.skip(start)),
        forall|i: int|
            0 <= i < cs.len() ==> printable(#[trigger] spec_encode_configs(cs)[i]),
        forall|i: int|
            0 <= i < cs.len() ==> depth_at_most(#[trigger] spec_encode_configs(cs)[i], 2),
    decreases cs.len() - start,
{
    let enc = spec_encode_configs(cs);
    assert forall|i: int| 0 <= i < cs.len() implies printable(#[trigger] enc[i]) by {
        lemma_codec_config(cs[i]);
    }
    assert forall|i: int| 0 <= i < cs.len() implies depth_at_most(#[trigger] enc[i], 2) by {
        lemma_codec_config(cs[i]);
    }
    if start == cs.len() {
        assert(cs.skip(start) =~= Seq::<ConfigView>::empty());
    } else {
        lemma_codec_config(cs[start]);
        lemma_codec_configs_from(cs, start + 1);
        assert(seq![cs[start]] + cs.skip(start + 1) =~= cs.skip(start));
    }
}

proof fn lemma_codec_properties(p: PropertiesView)
    ensures
        printable(spec_encode_properties(p)),
        depth_at_most(spec_encode_properties(p), 4),
        spec_decode_properties(spec_encode_properties(p)) == Ok::<PropertiesView, DecodeErrorView>(p),
{
    lemma_key_order();
    reveal_strlit("config");
    reveal_strlit("image");
    reveal_with_fuel(crate::json::obj_get_model, 4);
    let jm = spec_encode_properties(p);
    let fields = jm->Obj_0;
    assert(obj_get_model(fields, "image"@) == Some(JsonModel::Str(p.image)));
    match p.config {
        None => {
            assert(obj_get_model(fields, "config"@) == Some(JsonModel::Null));
        },
        Some(cs) => {
            assert(obj_get_model(fields, "config"@) == Some(
                JsonModel::Arr(spec_encode_configs(cs)),
            ));
            lemma_codec_configs_from(cs, 0);
            assert(cs.skip(0) =~= cs);
        },
    }
    assert(spec_decode_properties(jm) == Ok::<PropertiesView, DecodeErrorView>(p));
    assert forall|i: int, k: int| 0 <= i < k < fields.len() implies lex_lt(
        fields[i].0,
        fields[k].0,
    ) by {}
    assert forall|i: int| 0 <= i < fields.len() implies printable(#[trigger] (fields[i].1)) by {
        if i == 0 {
            match p.config {
                None => {},
                Some(cs) => {
                    lemma_codec_configs_from(cs, 0);
                },
            }
        }
    }
    assert forall|i: int| 0 <= i < fields.len() implies depth_at_most(
        #[trigger] (fields[i].1),
        3,
    ) by {
        if i == 0 {
            match p.config {
                None => {},
                Some(cs) => {
                    lemma_codec_configs_from(cs, 0);
                },
            }
        }
    }
    assert(depth_at_most(jm, 4));
    assert(printable(jm));
}

proof fn lemma_codec_component(c: CapabilityComponentView)
    ensures
        printable(spec_encode_component(c)),
        depth_at_most(spec_encode_component(c), 5),
        spec_decode_component(spec_encode_component(c)) == Ok::<CapabilityComponentView, DecodeErrorView>(c),
{
    lemma_key_order();
    reveal_strlit("name");
    reveal_strlit("properties");
    reveal_strlit("type");
    reveal_with_fuel(crate::json::obj_get_model, 5);
    let jm = spec_encode_component(c);
    let fields = jm->Obj_0;
    assert(obj_get_model(fields, "name"@) == Some(JsonModel::Str(c.name)));
    assert(obj_get_model(fields, "type"@) == Some(JsonModel::Str(c.component_type)));
    match c.properties {
        None => {
            assert(obj_get_model(fields, "properties"@) == Some(JsonModel::Null));
        },
        Some(p) => {
            lemma_codec_properties(p);
            assert(obj_get_model(fields, "properties"@) == Some(spec_encode_properties(p)));
        },
    }
    assert(spec_decode_component(jm) == Ok::<CapabilityComponentView, DecodeErrorView>(c));
    assert forall|i: int, k: int| 0 <= i < k < fields.len() implies lex_lt(
        fields[i].0,
        fields[k].0,
    ) by {}
    assert forall|i: int| 0 <= i < fields.len() implies printable(#[trigger] (fields[i].1)) by {
        if i == 1 {
            match c.properties {
                None => {},
                Some(p) => {
                    lemma_codec_properties(p);
                },
            }
        }
    }
    assert forall|i: int| 0 <= i < fields.len() implies depth_at_most(
        #[trigger] (fields[i].1),
        4,
    ) by {
        if i == 1 {
            match c.properties {
                None => {},
                Some(p) => {
                    lemma_codec_properties(p);
                },
            }
        }
    }
    assert(depth_at_most(jm, 5));
    assert(printable(jm));
}

proof fn lemma_codec_components_from(cs: Seq<CapabilityComponentView>, start: int)
    requires
        0 <= start <= cs.len(),
    ensures
        spec_decode_components_from(spec_encode_components(cs), start) == Ok::<Seq<CapabilityComponentView>, DecodeErrorView>(cs.skip(start)),
        forall|i: int|
            0 <= i < cs.len() ==> printable(#[trigger] spec_encode_components(cs)[i]),
        forall|i: int|
            0 <= i < cs.len() ==> depth_at_most(#[trigger] spec_encode_components(cs)[i], 5),
    decreases cs.len() - start,
{
    let enc = spec_encode_components(cs);
    assert forall|i: int| 0 <= i < cs.len() implies printable(#[trigger] enc[i]) by {
        lemma_codec_component(cs[i]);
    }
    assert forall|i: int| 0 <= i < cs.len() implies depth_at_most(#[trigger] enc[i], 5) by {
        lemma_codec_component(cs[i]);
    }
    if start == cs.len() {
        assert(cs.skip(start) =~= Seq::<CapabilityComponentView>::empty());
    } else {
        lemma_codec_component(cs[start]);
        lemma_codec_components_from(cs, start + 1);
        assert(seq![cs[start]] + cs.skip(start + 1) =~= cs.skip(start));
    }
}

proof fn lemma_codec_spec(s: SpecView)
    ensures
        printable(spec_encode_spec(s)),
        depth_at_most(spec_encode_spec(s), 7),
        spec_decode_spec(spec_encode_spec(s)) == Ok::<SpecView, DecodeErrorView>(s),
{
    lemma_key_order();
    reveal_strlit("components");
    reveal_with_fuel(crate::json::obj_get_model, 3);
    let jm = spec_encode_spec(s);
    let fields = jm->Obj_0;
    assert(obj_get_model(fields, "components"@) == Some(
        JsonModel::Arr(spec_encode_components(s.components)),
    ));
    lemma_codec_components_from(s.components, 0);
    assert(s.components.skip(0) =~= s.components);
    assert(spec_decode_spec(jm) == Ok::<SpecView, DecodeErrorView>(s));
    assert forall|i: int, k: int| 0 <= i < k < fields.len() implies lex_lt(
        fields[i].0,
        fields[k].0,
    ) by {}
    assert forall|i: int| 0 <= i < fields.len() implies printable(#[trigger] (fields[i].1)) by {
        lemma_codec_components_from(s.components, 0);
    }
    assert forall|i: int| 0 <= i < fields.len() implies depth_at_most(
        #[trigger] (fields[i].1),
        6,
    ) by {
        lemma_codec_components_from(s.components, 0);
    }
    assert(depth_at_most(jm, 7));
    assert(printable(jm));
}

proof fn lemma_codec_annotations(a: AnnotationsView)
    ensures
        printable(spec_encode_annotations(a)),
        depth_at_most(spec_encode_annotations(a), 1),
        spec_decode_annotations(spec_encode_annotations(a)) == Ok::<AnnotationsView, DecodeErrorView>(a),
{
    lemma_key_order();
    reveal_strlit("description");
    reveal_strlit("version");
    reveal_with_fuel(crate::json::obj_get_model, 4);
    let jm = spec_encode_annotations(a);
    let fields = jm->Obj_0;
    assert(obj_get_model(fields, "description"@) == Some(JsonModel::Str(a.description)));
    assert(obj_get_model(fields, "version"@) == Some(JsonModel::Str(a.version)));
    assert(spec_decode_annotations(jm) == Ok::<AnnotationsView, DecodeErrorView>(a));
    assert forall|i: int, k: int| 0 <= i < k < fields.len() implies lex_lt(
        fields[i].0,
        fields[k].0,
    ) by {}
    assert forall|i: int| 0 <= i < fields.len() implies printable(#[trigger] (fields[i].1)) by {}
    assert forall|i: int| 0 <= i < fields.len() implies depth_at_most(
        #[trigger] (fields[i].1),
        0,
    ) by {}
    assert(depth_at_most(jm, 1));
    assert(printable(jm));
}

proof fn lemma_codec_metadata(m: MetadataView)
    ensures
        printable(spec_encode_metadata(m)),
        depth_at_most(spec_encode_metadata(m), 2),
        spec_decode_metadata(spec_encode_metadata(m)) == Ok::<MetadataView, DecodeErrorView>(m),
{
    lemma_key_order();
    reveal_strlit("annotations");
    reveal_strlit("name");
    reveal_with_fuel(crate::json::obj_get_model, 4);
    let jm = spec_encode_metadata(m);
    let fields = jm->Obj_0;
    assert(obj_get_model(fields, "name"@) == Some(JsonModel::Str(m.name)));
    assert(obj_get_model(fields, "annotations"@) == Some(
        spec_encode_annotations(m.annotations),
    ));
    lemma_codec_annotations(m.annotations);
    assert(spec_decode_metadata(jm) == Ok::<MetadataView, DecodeErrorView>(m));
    assert forall|i: int, k: int| 0 <= i < k < fields.len() implies lex_lt(
        fields[i].0,
        fields[k].0,
    ) by {}
    assert forall|i: int| 0 <= i < fields.len() implies printable(#[trigger] (fields[i].1)) by {
        lemma_codec_annotations(m.annotations);
    }
    assert forall|i: int| 0 <= i < fields.len() implies depth_at_most(
        #[trigger] (fields[i].1),
        1,
    ) by {
        lemma_codec_annotations(m.annotations);
    }
    assert(depth_at_most(jm, 2));
    assert(printable(jm));
}

proof fn lemma_codec_manifest(m: ManifestView)
    ensures
        printable(spec_encode_manifest(m)),
        depth_at_most(spec_encode_manifest(m), 8),
        spec_decode_manifest(spec_encode_manifest(m)) == Ok::<ManifestView, DecodeErrorView>(m),
{
    lemma_key_order();
    reveal_strlit("apiVersion");
    reveal_strlit("kind");
    reveal_strlit("metadata");
    reveal_strlit("spec");
    reveal_with_fuel(crate::json::obj_get_model, 6);
    let jm = spec_encode_manifest(m);
    let fields = jm->Obj_0;
    assert(obj_get_model(fields, "apiVersion"@) == Some(JsonModel::Str(m.api_version)));
    assert(obj_get_model(fields, "kind"@) == Some(JsonModel::Str(m.kind)));
    assert(obj_get_model(fields, "metadata"@) == Some(spec_encode_metadata(m.metadata)));
    assert(obj_get_model(fields, "spec"@) == Some(spec_encode_spec(m.spec)));
    lemma_codec_metadata(m.metadata);
    lemma_codec_spec(m.spec);
    assert(spec_decode_manifest(jm) == Ok::<ManifestView, DecodeErrorView>(m));
    assert forall|i: int, k: int| 0 <= i < k < fields.len() implies lex_lt(
        fields[i].0,
        fields[k].0,
    ) by {}
    assert forall|i: int| 0 <= i < fields.len() implies printable(#[trigger] (fields[i].1)) by {
        lemma_codec_metadata(m.metadata);
        lemma_codec_spec(m.spec);
    }
    assert forall|i: int| 0 <= i < fields.len() implies depth_at_most(
        #[trigger] (fields[i].1),
        7,
    ) by {
        lemma_codec_metadata(m.metadata);
        lemma_depth_monotone(spec_encode_metadata(m.metadata), 2, 7);
        lemma_codec_spec(m.spec);
    }
    assert(depth_at_most(jm, 8));
    assert(printable(jm));
}

proof fn lemma_codec_manifests(m: ManifestsView)
    ensures
        printable(spec_encode_manifests(m)),
        depth_at_most(spec_encode_manifests(m), 9),
        spec_decode_manifests(spec_encode_manifests(m)) == Ok::<ManifestsView, DecodeErrorView>(m),
{
    reveal_strlit("v0.0.1");
    let jm = spec_encode_manifests(m);
    let fields = jm->Obj_0;
    assert(fields.len() == 1);
    assert(fields[0].0 == "v0.0.1"@);
    lemma_codec_manifest(m.version);
    assert(spec_decode_manifests(jm) == Ok::<ManifestsView, DecodeErrorView>(m));
    assert forall|i: int, k: int| 0 <= i < k < fields.len() implies lex_lt(
        fields[i].0,
        fields[k].0,
    ) by {}
    assert forall|i: int| 0 <= i < fields.len() implies printable(#[trigger] (fields[i].1)) by {
        lemma_codec_manifest(m.version);
    }
    assert forall|i: int| 0 <= i < fields.len() implies depth_at_most(
        #[trigger] (fields[i].1),
        8,
    ) by {
        lemma_codec_manifest(m.version);
    }
    assert(depth_at_most(jm, 9));
    assert(printable(jm));
}

/// Round-trip law: re-encoding a decoded document and re-decoding the result
/// returns the same document, and every encoded document is a tree the
/// trusted printer reproduces exactly.
pub proof fn lemma_encode_decode_round_trip(rv: RootView)
    ensures
        printable(spec_encode_root(rv)),
        depth_at_most(spec_encode_root(rv), 10),
        spec_decode_root(spec_encode_root(rv)) == Ok::<RootView, DecodeErrorView>(rv),
{
    lemma_key_order();
    reveal_strlit("deployed_version");
    reveal_strlit("manifests");
    reveal_with_fuel(crate::json::obj_get_model, 4);
    let jm = spec_encode_root(rv);
    let fields = jm->Obj_0;
    assert(obj_get_model(fields, "manifests"@) == Some(spec_encode_manifests(rv.manifests)));
    assert(obj_get_model(fields, "deployed_version"@) == Some(
        spec_encode_opt_string(rv.deployed_version),
    ));
    lemma_codec_manifests(rv.manifests);
    assert(spec_decode_root(jm) == Ok::<RootView, DecodeErrorView>(rv));
    assert forall|i: int, k: int| 0 <= i < k < fields.len() implies lex_lt(
        fields[i].0,
        fields[k].0,
    ) by {}
    assert forall|i: int| 0 <= i < fields.len() implies printable(#[trigger] (fields[i].1)) by {
        lemma_codec_manifests(rv.manifests);
    }
    assert forall|i: int| 0 <= i < fields.len() implies depth_at_most(
        #[trigger] (fields[i].1),
        9,
    ) by {
        lemma_codec_manifests(rv.manifests);
    }
    assert(depth_at_most(jm, 10));
    assert(printable(jm));
}

impl Root {
    /// Encodes this document as compact JSON text, which decodes back to the
    /// same document.
    pub fn encode(&self) -> (t: String)
        ensures
            crate::json::json_parse(t@) == Some(spec_encode_root(self.deep_view())),
    {
        let j = encode_root(self);
        proof {
            lemma_encode_decode_round_trip(self.deep_view());
            lemma_depth_monotone(spec_encode_root(self.deep_view()), 10, 100);
        }
        crate::json::json_to_text(j)
    }
}

impl Root {
    /// Decodes a manifest document from JSON text: a syntax error if the text
    /// is not JSON, otherwise exactly what [`spec_decode_root`] says about the
    /// document's tree.
    pub fn decode(text: &str) -> (r: Result<Root, DecodeError>)
        ensures
            match crate::json::json_parse(text@) {
                None => r matches Err(e) && e.deep_view() is Syntax,
                Some(jm) => decode_result_view(r) == spec_decode_root(jm),
            },
    {
        match crate::json::parse_json_text(text) {
            Err(detail) => Err(DecodeError::Syntax { detail }),
            Ok(j) => decode_root(&j),
        }
    }
}

} // verus!
