use vstd::prelude::*;
use crate::codec::{json_text, parse_json, parsed_json, write_json};
use crate::env::{
    assignment, key_named_at_most_once, law_single_key_line, sole_line, sync_env_lines, synced_lines, Platform,
    SUBSCRIPTION_KEY,
};
use crate::json::{
    find_member, has_member, keys_unique, law_merge_left_biased_additive, lemma_lookup_at, lemma_object_view,
    lookup, members_view, merge, merge_value, merged_entry, JValue, Json,
};
use crate::text::strings_view;

verus! {

/// Field of the document that holds the version that last wrote it.
pub const VERSION_FIELD: &'static str = "version";

/// Field of the API token.
pub const TOKEN_FIELD: &'static str = "token";

/// Field of the computer-vision subscription key.
pub const CV_TOKEN_FIELD: &'static str = "cv_token";

/// Field of the computer-vision endpoint.
pub const CV_URL_FIELD: &'static str = "cv_url";

/// Why the configuration document could not be used.
#[derive(Clone, Copy, Debug, PartialEq, Eq, Structural)]
pub enum ConfigError {
    /// The document is not JSON.
    Parse,
    /// The document has no version field.
    MissingVersion,
}

/// The object with the one string member `key: value`.
pub open spec fn single_member(key: Seq<char>, value: Seq<char>) -> JValue {
    JValue::Object(seq![(key, JValue::Str(value))])
}

/// The document that a first run writes.
pub open spec fn version_doc(version: Seq<char>) -> JValue {
    single_member(VERSION_FIELD@, version)
}

/// The string under `key` in the document, or the empty string where the
/// document is no object or the member is missing or not a string.
pub open spec fn string_member(doc: JValue, key: Seq<char>) -> Seq<char> {
    match doc {
        JValue::Object(m) => match lookup(m, key) {
            Some(JValue::Str(s)) => s,
            _ => Seq::empty(),
        },
        _ => Seq::empty(),
    }
}

/// Version synchronisation of an existing document: `Ok(None)` where it
/// carries the current version already, the restamped document where it
/// carries another, an error where it carries none.
pub open spec fn versioned(doc: JValue, version: Seq<char>) -> Result<Option<JValue>, ConfigError> {
    match doc {
        JValue::Object(m) => match lookup(m, VERSION_FIELD@) {
            Some(x) => if x == JValue::Str(version) {
                Ok(None)
            } else {
                Ok(Some(merge_value(doc, version_doc(version))))
            },
            None => Err(ConfigError::MissingVersion),
        },
        _ => Err(ConfigError::MissingVersion),
    }
}

/// What the build step writes to the configuration file, given its text
/// (`None` where it does not exist): `Ok(None)` where nothing is to change.
pub open spec fn build_outcome(text: Option<Seq<char>>, version: Seq<char>) -> Result<Option<Seq<char>>, ConfigError> {
    match text {
        None => Ok(Some(json_text(version_doc(version)))),
        Some(t) => match parsed_json(t) {
            None => Err(ConfigError::Parse),
            Some(d) => match versioned(d, version) {
                Ok(Some(n)) => Ok(Some(json_text(n))),
                Ok(None) => Ok(None),
                Err(e) => Err(e),
            },
        },
    }
}

/// The text that setting `key` to `value` writes over the document `text`.
pub open spec fn set_outcome(text: Seq<char>, key: Seq<char>, value: Seq<char>) -> Result<Seq<char>, ConfigError> {
    match parsed_json(text) {
        None => Err(ConfigError::Parse),
        Some(d) => Ok(json_text(merge_value(d, single_member(key, value)))),
    }
}

pub open spec fn text_option_view(o: Option<&String>) -> Option<Seq<char>> {
    match o {
        Some(s) => Some(s@),
        None => None,
    }
}

pub open spec fn outcome_view(r: Result<Option<String>, ConfigError>) -> Result<Option<Seq<char>>, ConfigError> {
    match r {
        Ok(Some(s)) => Ok(Some(s@)),
        Ok(None) => Ok(None),
        Err(e) => Err(e),
    }
}

pub open spec fn text_result_view(r: Result<String, ConfigError>) -> Result<Seq<char>, ConfigError> {
    match r {
        Ok(s) => Ok(s@),
        Err(e) => Err(e),
    }
}

/// The object `{key: value}`.
pub fn string_object(key: &str, value: &String) -> (r: Json)
    ensures
        r@ == single_member(key@, value@),
{
    let mut m: Vec<(String, Json)> = Vec::new();
    m.push((key.to_owned(), Json::Str(value.clone())));
    proof {
        lemma_object_view(m);
        assert(members_view(m@) =~= seq![(key@, JValue::Str(value@))]);
    }
    Json::Object(m)
}

/// The string under `key` in the document; empty where there is none.
pub fn string_field(doc: &Json, key: &str) -> (r: String)
    ensures
        r@ == string_member(doc@, key@),
{
    match doc {
        Json::Object(m) => {
            proof {
                lemma_object_view(*m);
            }
            let k = key.to_owned();
            match find_member(m, &k) {
                Some(j) => match &m[j].1 {
                    Json::Str(s) => s.clone(),
                    _ => String::new(),
                },
                None => String::new(),
            }
        },
        _ => String::new(),
    }
}

/// Stamps an existing document with the current version (see `versioned`).
pub fn versioned_document(doc: Json, version: &String) -> (r: Result<Option<Json>, ConfigError>)
    ensures
        match r {
            Ok(Some(n)) => versioned(doc@, version@) == Ok::<Option<JValue>, ConfigError>(Some(n@)),
            Ok(None) => versioned(doc@, version@) == Ok::<Option<JValue>, ConfigError>(None),
            Err(e) => versioned(doc@, version@) == Err::<Option<JValue>, ConfigError>(e),
        },
{
    let ghost d = doc@;
    match doc {
        Json::Object(m) => {
            proof {
                lemma_object_view(m);
            }
            let k = VERSION_FIELD.to_owned();
            match find_member(&m, &k) {
                Some(j) => {
                    let same = match &m[j].1 {
                        Json::Str(s) => *s == *version,
                        _ => false,
                    };
                    if same {
                        Ok(None)
                    } else {
                        let stamp = string_object(VERSION_FIELD, version);
                        Ok(Some(merge(Json::Object(m), &stamp)))
                    }
                },
                None => Err(ConfigError::MissingVersion),
            }
        },
        _ => Err(ConfigError::MissingVersion),
    }
}

/// Sets `key` to `value` in the document text, by deep merge.
pub fn set_field_text(text: &String, key: &str, value: &String) -> (r: Result<String, ConfigError>)
    ensures
        text_result_view(r) == set_outcome(text@, key@, value@),
{
    match parse_json(text.as_str()) {
        None => Err(ConfigError::Parse),
        Some(doc) => {
            let patch = string_object(key, value);
            let merged = merge(doc, &patch);
            Ok(write_json(&merged))
        },
    }
}


/// Restamping a document that carries another version sets its version to
/// the current one and leaves every other field as it was.
pub proof fn law_version_bump_preserves_fields(doc: JValue, version: Seq<char>)
    requires
        doc is Object,
        keys_unique(doc->Object_0),
        lookup(doc->Object_0, VERSION_FIELD@) is Some,
        lookup(doc->Object_0, VERSION_FIELD@) != Some(JValue::Str(version)),
    ensures
        versioned(doc, version) is Ok,
        versioned(doc, version)->Ok_0 is Some,
        ({
            let n = versioned(doc, version)->Ok_0->Some_0;
            &&& n is Object
            &&& keys_unique(n->Object_0)
            &&& lookup(n->Object_0, VERSION_FIELD@) == Some(JValue::Str(version))
            &&& forall|k: Seq<char>| k != VERSION_FIELD@ ==> #[trigger] lookup(n->Object_0, k) == lookup(doc->Object_0, k)
        }),
{
    lemma_set_member(doc, VERSION_FIELD@, version);
}

/// Merging `{key: value}` into an object sets `key` to the string `value`
/// and leaves every other member as it was.
pub proof fn lemma_set_member(doc: JValue, key: Seq<char>, value: Seq<char>)
    requires
        doc is Object,
        keys_unique(doc->Object_0),
    ensures
        merge_value(doc, single_member(key, value)) is Object,
        keys_unique(merge_value(doc, single_member(key, value))->Object_0),
        lookup(merge_value(doc, single_member(key, value))->Object_0, key) == Some(JValue::Str(value)),
        forall|k: Seq<char>| k != key ==> #[trigger] lookup(merge_value(doc, single_member(key, value))->Object_0, k)
            == lookup(doc->Object_0, k),
{
    let b = single_member(key, value);
    let bm = b->Object_0;
    assert(keys_unique(bm));
    law_merge_left_biased_additive(doc, b);
    lemma_lookup_at(bm, key, 0);
    let n = merge_value(doc, b);
    assert(lookup(n->Object_0, key) == merged_entry(lookup(doc->Object_0, key), lookup(bm, key)));
    assert forall|k: Seq<char>| k != key implies #[trigger] lookup(n->Object_0, k) == lookup(doc->Object_0, k) by {
        assert(lookup(n->Object_0, k) == merged_entry(lookup(doc->Object_0, k), lookup(bm, k)));
        assert(!has_member(bm, k));
    }
}

/// Setting the computer-vision key in a configuration object and reading it
/// back gives the key that was set; the environment file synchronised from
/// the new document then holds exactly one line that assigns that key,
/// where at most one of its lines named the key before.
pub proof fn law_credential_round_trip(doc: JValue, token: Seq<char>, lines: Seq<Seq<char>>, platform: Platform)
    requires
        doc is Object,
        keys_unique(doc->Object_0),
        token.len() > 0,
        key_named_at_most_once(lines),
    ensures
        ({
            let new_doc = merge_value(doc, single_member(CV_TOKEN_FIELD@, token));
            &&& string_member(new_doc, CV_TOKEN_FIELD@) == token
            &&& exists|i: int| sole_line(
                synced_lines(lines, string_member(new_doc, CV_TOKEN_FIELD@), string_member(new_doc, CV_URL_FIELD@), platform),
                i,
                assignment(SUBSCRIPTION_KEY@, token),
            )
        }),
{
    let new_doc = merge_value(doc, single_member(CV_TOKEN_FIELD@, token));
    lemma_set_member(doc, CV_TOKEN_FIELD@, token);
    law_single_key_line(lines, token, string_member(new_doc, CV_URL_FIELD@), platform);
}

/// Paths of the application's state directory and the files in it.
pub struct TempFs {
    /// The system's temporary directory.
    pub tmp_dir: String,
    /// The application's directory inside it.
    pub app_dir: String,
    /// Backend compose file.
    pub backend_compose: String,
    /// Frontend compose file.
    pub frontend_compose: String,
    /// Results of a scan.
    pub results_file: String,
    /// Results prepared for a GitHub upload.
    pub results_github_file: String,
    /// The configuration document.
    pub config_file: String,
}

/// `dir/name`.
pub open spec fn path_in(dir: Seq<char>, name: Seq<char>) -> Seq<char> {
    dir + "/"@ + name
}

/// `dir/name`.
pub fn join_path(dir: &String, name: &str) -> (r: String)
    ensures
        r@ == path_in(dir@, name@),
{
    let mut r = dir.clone();
    r.append("/");
    r.append(name);
    r
}

/// The configuration document of a text, where it is JSON.
pub open spec fn parsed_doc(text: Seq<char>) -> JValue {
    parsed_json(text)->Some_0
}

impl TempFs {
    /// The paths under the temporary directory `tmp_dir`.
    pub fn new(tmp_dir: &String) -> (r: TempFs)
        ensures
            r.tmp_dir@ == tmp_dir@,
            r.app_dir@ == path_in(tmp_dir@, "a11ywatch"@),
            r.config_file@ == path_in(r.app_dir@, "config.json"@),
            r.results_file@ == path_in(r.app_dir@, "results.json"@),
            r.results_github_file@ == path_in(r.app_dir@, "results_github.json"@),
            r.backend_compose@ == path_in(r.app_dir@, "compose.yml"@),
            r.frontend_compose@ == path_in(r.app_dir@, "compose.frontend.yml"@),
    {
        let app_dir = join_path(tmp_dir, "a11ywatch");
        TempFs {
            tmp_dir: tmp_dir.clone(),
            backend_compose: join_path(&app_dir, "compose.yml"),
            frontend_compose: join_path(&app_dir, "compose.frontend.yml"),
            results_file: join_path(&app_dir, "results.json"),
            results_github_file: join_path(&app_dir, "results_github.json"),
            config_file: join_path(&app_dir, "config.json"),
            app_dir,
        }
    }

    /// The application's directory.
    pub fn get_temp_dir(&self) -> (r: &String)
        ensures
            r == &self.app_dir,
    {
        &self.app_dir
    }

    /// The environment file.
    pub fn env_file(&self) -> (r: String)
        ensures
            r@ == path_in(self.app_dir@, ".env"@),
    {
        join_path(&self.app_dir, ".env")
    }

    /// The scratch file that a new environment file is written to first.
    pub fn env_scratch_file(&self) -> (r: String)
        ensures
            r@ == path_in(self.app_dir@, "env.txt"@),
    {
        join_path(&self.app_dir, "env.txt")
    }

    /// The build step on the configuration document, given its text
    /// (`None` where the file does not exist) and the running version:
    /// the text to write, `None` where the file stays as it is.
    pub fn build(&self, config: Option<&String>, version: &String) -> (r: Result<Option<String>, ConfigError>)
        ensures
            outcome_view(r) == build_outcome(text_option_view(config), version@),
    {
        match config {
            None => {
                let doc = string_object(VERSION_FIELD, version);
                Ok(Some(write_json(&doc)))
            },
            Some(text) => match parse_json(text.as_str()) {
                None => Err(ConfigError::Parse),
                Some(doc) => match versioned_document(doc, version) {
                    Ok(Some(n)) => Ok(Some(write_json(&n))),
                    Ok(None) => Ok(None),
                    Err(e) => Err(e),
                },
            },
        }
    }

    /// The API token in the configuration document; empty where the file
    /// does not exist, is not JSON, or holds no token.
    pub fn get_token(&self, config: Option<&String>) -> (r: String)
        ensures
            r@ == match config {
                Some(t) => match parsed_json(t@) {
                    Some(d) => string_member(d, TOKEN_FIELD@),
                    None => Seq::empty(),
                },
                None => Seq::empty(),
            },
    {
        match config {
            Some(text) => match parse_json(text.as_str()) {
                Some(doc) => string_field(&doc, TOKEN_FIELD),
                None => String::new(),
            },
            None => String::new(),
        }
    }

    /// The configuration text with the API token set.
    pub fn set_token(&self, config: &String, token: &String) -> (r: Result<String, ConfigError>)
        ensures
            text_result_view(r) == set_outcome(config@, TOKEN_FIELD@, token@),
    {
        set_field_text(config, TOKEN_FIELD, token)
    }

    /// The configuration text with the computer-vision subscription key set.
    pub fn set_cv_token(&self, config: &String, token: &String) -> (r: Result<String, ConfigError>)
        ensures
            text_result_view(r) == set_outcome(config@, CV_TOKEN_FIELD@, token@),
    {
        set_field_text(config, CV_TOKEN_FIELD, token)
    }

    /// The configuration text with the computer-vision endpoint set.
    pub fn set_cv_url(&self, config: &String, url: &String) -> (r: Result<String, ConfigError>)
        ensures
            text_result_view(r) == set_outcome(config@, CV_URL_FIELD@, url@),
    {
        set_field_text(config, CV_URL_FIELD, url)
    }

    /// The lines of the environment file synchronised with the
    /// configuration document's computer-vision key and endpoint.
    pub fn create_env_file(&self, config: &String, env_lines: &Vec<String>, platform: Platform) -> (r: Result<Vec<String>, ConfigError>)
        ensures
            r is Err <==> parsed_json(config@) is None,
            r is Err ==> r->Err_0 == ConfigError::Parse,
            r is Ok ==> strings_view(r->Ok_0@) == synced_lines(
                strings_view(env_lines@),
                string_member(parsed_doc(config@), CV_TOKEN_FIELD@),
                string_member(parsed_doc(config@), CV_URL_FIELD@),
                platform,
            ),
    {
        match parse_json(config.as_str()) {
            None => Err(ConfigError::Parse),
            Some(doc) => {
                let token = string_field(&doc, CV_TOKEN_FIELD);
                let url = string_field(&doc, CV_URL_FIELD);
                Ok(sync_env_lines(env_lines, token.as_str(), url.as_str(), platform))
            },
        }
    }
}

} // verus!
