//! The manifest resolver: look an application up in a store-held index and
//! fetch its manifest text, through a caller-supplied accessor.
use vstd::prelude::*;
use vstd::string::StringExecFns;
use vstd::utf8::decode_utf8;
use vstd::utf8::valid_utf8;

use crate::json::Json;
use crate::json::JsonModel;
use crate::json::json_parse;
use crate::json::lemma_items_model_index;
use crate::json::items_model;
use crate::json::parse_json_text;

verus! {

/// A resolver failure; each variant is distinguishable, and [`LookupError::message`]
/// renders the stage-specific text.
#[derive(Debug, PartialEq)]
pub enum LookupError {
    /// The accessor failed while the index was being fetched.
    IndexRetrieval { detail: String },
    /// The index key is absent from the store.
    IndexNotFound,
    /// The index bytes do not decode as a JSON array of strings.
    IndexMalformed { detail: String },
    /// The application name is not listed in the index.
    AppNotFound { app: String },
    /// The accessor failed while the configuration was being fetched.
    ConfigRetrieval { detail: String },
    /// The derived configuration key is absent from the store.
    ConfigNotFound,
    /// The configuration bytes are not valid UTF-8 text.
    NotUtf8,
}

pub enum LookupErrorView {
    IndexRetrieval { detail: Seq<char> },
    IndexNotFound,
    IndexMalformed { detail: Seq<char> },
    AppNotFound { app: Seq<char> },
    ConfigRetrieval { detail: Seq<char> },
    ConfigNotFound,
    NotUtf8,
}

impl DeepView for LookupError {
    type V = LookupErrorView;

    open spec fn deep_view(&self) -> LookupErrorView {
        match self {
            LookupError::IndexRetrieval { detail } => LookupErrorView::IndexRetrieval {
                detail: detail@,
            },
            LookupError::IndexNotFound => LookupErrorView::IndexNotFound,
            LookupError::IndexMalformed { detail } => LookupErrorView::IndexMalformed {
                detail: detail@,
            },
            LookupError::AppNotFound { app } => LookupErrorView::AppNotFound { app: app@ },
            LookupError::ConfigRetrieval { detail } => LookupErrorView::ConfigRetrieval {
                detail: detail@,
            },
            LookupError::ConfigNotFound => LookupErrorView::ConfigNotFound,
            LookupError::NotUtf8 => LookupErrorView::NotUtf8,
        }
    }
}

/// The message text of each failure. Only the app-not-found text is a fixed
/// external contract: `App {name} not found`.
pub open spec fn spec_lookup_message(e: LookupErrorView) -> Seq<char> {
    match e {
        LookupErrorView::IndexRetrieval { detail } => "Failed to retrieve index: "@ + detail,
        LookupErrorView::IndexNotFound => "Failed to get app name from default manifest"@,
        LookupErrorView::IndexMalformed { detail } =>
            "Failed to parse app names from default manifest: "@ + detail,
        LookupErrorView::AppNotFound { app } => "App "@ + app + " not found"@,
        LookupErrorView::ConfigRetrieval { detail } => "Failed to get config for app: "@ + detail,
        LookupErrorView::ConfigNotFound => "Failed to get config for app: Config not found"@,
        LookupErrorView::NotUtf8 => "Config is not valid UTF-8 text"@,
    }
}

impl LookupError {
    /// Renders this failure as its message text.
    pub fn message(&self) -> (r: String)
        ensures
            r@ == spec_lookup_message(self.deep_view()),
    {
        match self {
            LookupError::IndexRetrieval { detail } => String::from_str(
                "Failed to retrieve index: ",
            ).concat(detail.as_str()),
            LookupError::IndexNotFound => String::from_str(
                "Failed to get app name from default manifest",
            ),
            LookupError::IndexMalformed { detail } => String::from_str(
                "Failed to parse app names from default manifest: ",
            ).concat(detail.as_str()),
            LookupError::AppNotFound { app } => String::from_str("App ").concat(
                app.as_str(),
            ).concat(" not found"),
            LookupError::ConfigRetrieval { detail } => String::from_str(
                "Failed to get config for app: ",
            ).concat(detail.as_str()),
            LookupError::ConfigNotFound => String::from_str(
                "Failed to get config for app: Config not found",
            ),
            LookupError::NotUtf8 => String::from_str("Config is not valid UTF-8 text"),
        }
    }
}

/// The store key of an application's manifest: the index key and the name,
/// joined by a single hyphen. A fixed naming convention of the store layout.
pub open spec fn spec_derived_key(index_key: Seq<char>, app: Seq<char>) -> Seq<char> {
    index_key + "-"@ + app
}

/// Joins the index key and the application name into the store key.
pub fn derived_key(index_key: &str, app: &str) -> (r: String)
    ensures
        r@ == spec_derived_key(index_key@, app@),
{
    let mut s = String::from_str(index_key);
    s.append("-");
    s.append(app);
    s
}

/// The strings of a JSON array suffix, if every element from `start` onward
/// is a string.
pub open spec fn spec_strings_from(items: Seq<JsonModel>, start: int) -> Option<Seq<Seq<char>>>
    decreases items.len() - start,
{
    if start < 0 || start >= items.len() {
        Some(Seq::empty())
    } else {
        match items[start] {
            JsonModel::Str(s) => match spec_strings_from(items, start + 1) {
                None => None,
                Some(rest) => Some(seq![s] + rest),
            },
            _ => None,
        }
    }
}

/// The application names held in an index document: the bytes must be UTF-8
/// text denoting a JSON array of strings.
pub open spec fn spec_index_doc(bytes: Seq<u8>) -> Option<Seq<Seq<char>>> {
    if !valid_utf8(bytes) {
        None
    } else {
        match json_parse(decode_utf8(bytes)) {
            None => None,
            Some(jm) => match jm {
                JsonModel::Arr(items) => spec_strings_from(items, 0),
                _ => None,
            },
        }
    }
}

/// Relies on `String::from_utf8`: it accepts exactly the byte vectors that
/// are valid UTF-8 and returns the text they encode.
#[verifier::external_body]
fn string_from_utf8(bytes: &Vec<u8>) -> (r: Option<String>)
    ensures
        r is Some <==> valid_utf8(bytes@),
        r matches Some(s) ==> s@ == decode_utf8(bytes@),
{
    String::from_utf8(bytes.clone()).ok()
}

fn strings_from(items: &Vec<Json>, start: usize) -> (r: Option<Vec<String>>)
    requires
        start <= items@.len(),
    ensures
        match r {
            Some(apps) => spec_strings_from(items_model(items@), start as int) == Some(
                apps.deep_view(),
            ),
            None => spec_strings_from(items_model(items@), start as int) is None,
        },
    decreases items@.len() - start,
{
    proof {
        lemma_items_model_index(items@);
    }
    if start == items.len() {
        let out: Vec<String> = Vec::new();
        proof {
            assert(out.deep_view() =~= Seq::<Seq<char>>::empty());
        }
        Some(out)
    } else {
        match &items[start] {
            Json::Str(s) => match strings_from(items, start + 1) {
                None => None,
                Some(rest) => {
                    let mut out: Vec<String> = Vec::new();
                    out.push(s.clone());
                    let mut tail = rest;
                    out.append(&mut tail);
                    proof {
                        assert(out.deep_view() =~= spec_strings_from(
                            items_model(items@),
                            start as int,
                        )->Some_0);
                    }
                    Some(out)
                },
            },
            _ => None,
        }
    }
}

/// Decodes the index bytes as a JSON array of application names.
pub fn decode_index(bytes: &Vec<u8>) -> (r: Result<Vec<String>, LookupError>)
    ensures
        match r {
            Ok(apps) => spec_index_doc(bytes@) == Some(apps.deep_view()),
            Err(e) => spec_index_doc(bytes@) is None && e.deep_view() is IndexMalformed,
        },
{
    let text = match string_from_utf8(bytes) {
        Some(t) => t,
        None => {
            return Err(
                LookupError::IndexMalformed {
                    detail: String::from_str("index is not valid UTF-8 text"),
                },
            );
        },
    };
    let j = match parse_json_text(text.as_str()) {
        Ok(j) => j,
        Err(detail) => {
            return Err(LookupError::IndexMalformed { detail });
        },
    };
    match &j {
        Json::Arr(items) => match strings_from(items, 0) {
            Some(apps) => Ok(apps),
            None => Err(
                LookupError::IndexMalformed {
                    detail: String::from_str("index is not an array of strings"),
                },
            ),
        },
        _ => Err(
            LookupError::IndexMalformed {
                detail: String::from_str("index is not an array of strings"),
            },
        ),
    }
}

/// Whether the index lists the application, by exact, case-sensitive match.
fn contains_app(apps: &Vec<String>, app_name: &String) -> (r: bool)
    ensures
        r == apps.deep_view().contains(app_name@),
{
    let n = apps.len();
    let mut i: usize = 0;
    while i < n
        invariant
            n == apps@.len(),
            0 <= i <= n,
            forall|t: int| 0 <= t < i ==> apps.deep_view()[t] != app_name@,
        decreases n - i,
    {
        if apps[i].eq(app_name) {
            proof {
                assert(apps.deep_view()[i as int] == app_name@);
            }
            return true;
        }
        i = i + 1;
    }
    false
}

/// The accessor has served, under the index key, bytes whose decoded list
/// holds the application name: the index-stage evidence that every outcome
/// past the index stage carries.
pub open spec fn spec_index_lists_app<F: Fn(&str, &str) -> Result<Option<Vec<u8>>, String>>(
    get_fn: F,
    bucket: &str,
    index_key: &str,
    app_name: &str,
) -> bool {
    exists|ib: Vec<u8>|
        #[trigger] call_ensures(get_fn, (bucket, index_key), Ok(Some(ib))) && (spec_index_doc(ib@)
            matches Some(apps) && apps.contains(app_name@))
}

/// Resolves the manifest text of one application. The index under
/// `wadm_default_manifest` in bucket `wadm_manifest` is fetched and decoded
/// as an array of names; when `app_name` is listed, the manifest bytes are
/// fetched under the hyphen-joined derived key and decoded as UTF-8 text.
/// Every failure is returned as the distinguishable [`LookupError`] stage;
/// nothing is retried. Success and every config-stage failure carry the
/// index-stage evidence, so the stages cannot be confused.
pub fn get_manifests<F: Fn(&str, &str) -> Result<Option<Vec<u8>>, String>>(
    get_fn: F,
    app_name: &str,
    wadm_manifest: &str,
    wadm_default_manifest: &str,
) -> (r: Result<String, LookupError>)
    requires
        forall|b: &str, k: &str| #[trigger] call_requires(get_fn, (b, k)),
    ensures
        match r {
            Ok(t) => spec_index_lists_app(get_fn, wadm_manifest, wadm_default_manifest, app_name)
                && exists|k: &str, cb: Vec<u8>|
                k@ == spec_derived_key(wadm_default_manifest@, app_name@) && #[trigger] call_ensures(
                    get_fn,
                    (wadm_manifest, k),
                    Ok(Some(cb)),
                ) && valid_utf8(cb@) && t@ == decode_utf8(cb@),
            Err(e) => match e.deep_view() {
                LookupErrorView::IndexRetrieval { detail } => exists|d: String|
                    d@ == detail && #[trigger] call_ensures(
                        get_fn,
                        (wadm_manifest, wadm_default_manifest),
                        Err(d),
                    ),
                LookupErrorView::IndexNotFound => call_ensures(
                    get_fn,
                    (wadm_manifest, wadm_default_manifest),
                    Ok(None),
                ),
                LookupErrorView::IndexMalformed { detail } => exists|ib: Vec<u8>|
                    #[trigger] call_ensures(
                        get_fn,
                        (wadm_manifest, wadm_default_manifest),
                        Ok(Some(ib)),
                    ) && spec_index_doc(ib@) is None,
                LookupErrorView::AppNotFound { app } => app == app_name@ && exists|ib: Vec<u8>|
                    #[trigger] call_ensures(
                        get_fn,
                        (wadm_manifest, wadm_default_manifest),
                        Ok(Some(ib)),
                    ) && (spec_index_doc(ib@) matches Some(apps) && !apps.contains(app_name@)),
                LookupErrorView::ConfigRetrieval { detail } => spec_index_lists_app(
                    get_fn,
                    wadm_manifest,
                    wadm_default_manifest,
                    app_name,
                ) && exists|k: &str, d: String|
                    k@ == spec_derived_key(wadm_default_manifest@, app_name@) && d@ == detail
                        && #[trigger] call_ensures(get_fn, (wadm_manifest, k), Err(d)),
                LookupErrorView::ConfigNotFound => spec_index_lists_app(
                    get_fn,
                    wadm_manifest,
                    wadm_default_manifest,
                    app_name,
                ) && exists|k: &str|
                    k@ == spec_derived_key(wadm_default_manifest@, app_name@)
                        && #[trigger] call_ensures(get_fn, (wadm_manifest, k), Ok(None)),
                LookupErrorView::NotUtf8 => spec_index_lists_app(
                    get_fn,
                    wadm_manifest,
                    wadm_default_manifest,
                    app_name,
                ) && exists|k: &str, cb: Vec<u8>|
                    k@ == spec_derived_key(wadm_default_manifest@, app_name@)
                        && #[trigger] call_ensures(get_fn, (wadm_manifest, k), Ok(Some(cb)))
                        && !valid_utf8(cb@),
            },
        },
{
    let apps_bytes = match get_fn(wadm_manifest, wadm_default_manifest) {
        Ok(Some(bytes)) => bytes,
        Ok(None) => {
            return Err(LookupError::IndexNotFound);
        },
        Err(e) => {
            return Err(LookupError::IndexRetrieval { detail: e });
        },
    };
    let apps = match decode_index(&apps_bytes) {
        Ok(a) => a,
        Err(le) => {
            return Err(le);
        },
    };
    let app_string = String::from_str(app_name);
    if !contains_app(&apps, &app_string) {
        return Err(LookupError::AppNotFound { app: app_string });
    }
    proof {
        assert(call_ensures(get_fn, (wadm_manifest, wadm_default_manifest), Ok(Some(apps_bytes))));
        assert(spec_index_doc(apps_bytes@) matches Some(names) && names.contains(app_name@));
        assert(spec_index_lists_app(get_fn, wadm_manifest, wadm_default_manifest, app_name));
    }
    let app_key = derived_key(wadm_default_manifest, app_name);
    match get_fn(wadm_manifest, app_key.as_str()) {
        Ok(Some(cfg)) => match string_from_utf8(&cfg) {
            Some(s) => Ok(s),
            None => Err(LookupError::NotUtf8),
        },
        Ok(None) => Err(LookupError::ConfigNotFound),
        Err(e) => Err(LookupError::ConfigRetrieval { detail: e }),
    }
}

} // verus!
