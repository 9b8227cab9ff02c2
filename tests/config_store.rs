use a11ywatch_cli::env::{sync_env_lines, Platform};
use a11ywatch_cli::json::{merge, Json};
use a11ywatch_cli::store::{ConfigError, TempFs};

fn s(t: &str) -> String {
    t.to_string()
}

fn num(t: &str) -> Json {
    Json::Number(s(t))
}

fn obj(members: Vec<(&str, Json)>) -> Json {
    Json::Object(members.into_iter().map(|(k, v)| (s(k), v)).collect())
}

fn fs() -> TempFs {
    TempFs::new(&s("/tmp"))
}

#[test]
fn merge_is_left_biased_additive() {
    let a = obj(vec![("x", num("1")), ("y", obj(vec![("z", num("2"))]))]);
    let b = obj(vec![("y", obj(vec![("w", num("3"))]))]);
    let expected = obj(vec![("x", num("1")), ("y", obj(vec![("z", num("2")), ("w", num("3"))]))]);
    assert_eq!(merge(a, &b), expected);
}

#[test]
fn merge_replaces_non_objects() {
    let a = obj(vec![("x", Json::Array(vec![num("1")])), ("y", Json::Str(s("a")))]);
    let b = obj(vec![("x", Json::Array(vec![num("2")])), ("y", obj(vec![]))]);
    let expected = obj(vec![("x", Json::Array(vec![num("2")])), ("y", obj(vec![]))]);
    assert_eq!(merge(a, &b), expected);
    assert_eq!(merge(Json::Null, &Json::Bool(true)), Json::Bool(true));
    assert_eq!(merge(obj(vec![("k", Json::Null)]), &Json::Null), Json::Null);
}

#[test]
fn deep_copy_is_equal() {
    let a = obj(vec![("x", Json::Array(vec![num("1"), Json::Str(s("q"))])), ("y", Json::Bool(false))]);
    assert_eq!(a.deep_copy(), a);
}

#[test]
fn paths_under_temp_dir() {
    let f = fs();
    assert_eq!(f.app_dir, "/tmp/a11ywatch");
    assert_eq!(f.config_file, "/tmp/a11ywatch/config.json");
    assert_eq!(f.results_file, "/tmp/a11ywatch/results.json");
    assert_eq!(f.results_github_file, "/tmp/a11ywatch/results_github.json");
    assert_eq!(f.backend_compose, "/tmp/a11ywatch/compose.yml");
    assert_eq!(f.frontend_compose, "/tmp/a11ywatch/compose.frontend.yml");
    assert_eq!(f.env_file(), "/tmp/a11ywatch/.env");
    assert_eq!(f.env_scratch_file(), "/tmp/a11ywatch/env.txt");
    assert_eq!(fs().get_temp_dir(), "/tmp/a11ywatch");
}

#[test]
fn version_stamping_on_first_run() {
    assert_eq!(fs().build(None, &s("0.2.0")), Ok(Some(s("{\"version\":\"0.2.0\"}"))));
}

#[test]
fn version_bump_preserves_other_fields() {
    let doc = s("{\"version\":\"0.1.0\",\"token\":\"t1\"}");
    let out = fs().build(Some(&doc), &s("0.2.0")).unwrap().unwrap();
    assert_eq!(out, "{\"token\":\"t1\",\"version\":\"0.2.0\"}");
}

#[test]
fn same_version_writes_nothing() {
    let doc = s("{\"version\":\"0.2.0\",\"token\":\"t1\"}");
    assert_eq!(fs().build(Some(&doc), &s("0.2.0")), Ok(None));
}

#[test]
fn numeric_version_is_restamped() {
    let doc = s("{\"version\":2}");
    assert_eq!(fs().build(Some(&doc), &s("0.2.0")), Ok(Some(s("{\"version\":\"0.2.0\"}"))));
}

#[test]
fn missing_version_is_an_error() {
    let doc = s("{\"token\":\"t1\"}");
    assert_eq!(fs().build(Some(&doc), &s("0.2.0")), Err(ConfigError::MissingVersion));
    assert_eq!(fs().build(Some(&s("[1,2]")), &s("0.2.0")), Err(ConfigError::MissingVersion));
}

#[test]
fn malformed_document_is_an_error() {
    assert_eq!(fs().build(Some(&s("{\"version\":")), &s("0.2.0")), Err(ConfigError::Parse));
    assert_eq!(fs().set_token(&s("not json"), &s("t")), Err(ConfigError::Parse));
    assert_eq!(fs().create_env_file(&s(""), &vec![], Platform::Debian), Err(ConfigError::Parse));
}

#[test]
fn token_round_trip() {
    let f = fs();
    let doc = f.set_token(&s("{\n  \"version\": \"0.1.0\"\n}"), &s("tok")).unwrap();
    assert_eq!(doc, "{\"token\":\"tok\",\"version\":\"0.1.0\"}");
    assert_eq!(f.get_token(Some(&doc)), "tok");
}

#[test]
fn token_absent_reads_empty() {
    let f = fs();
    assert_eq!(f.get_token(None), "");
    assert_eq!(f.get_token(Some(&s("{\"version\":\"0.1.0\"}"))), "");
    assert_eq!(f.get_token(Some(&s("{\"token\":5}"))), "");
    assert_eq!(f.get_token(Some(&s("garbage"))), "");
}

#[test]
fn credential_round_trip() {
    let f = fs();
    let doc = f.set_cv_token(&s("{\"version\":\"0.1.0\",\"extra\":[1,{\"a\":null}]}"), &s("abc123")).unwrap();
    let v: serde_json::Value = serde_json::from_str(&doc).unwrap();
    assert_eq!(v["cv_token"].as_str(), Some("abc123"));
    assert_eq!(v["extra"][1]["a"], serde_json::Value::Null);
    let lines = f.create_env_file(&doc, &vec![s("FOO=bar")], Platform::Debian).unwrap();
    let hits = lines.iter().filter(|l| l.as_str() == "COMPUTER_VISION_SUBSCRIPTION_KEY=abc123").count();
    assert_eq!(hits, 1);
}

#[test]
fn cv_url_set_and_synced() {
    let f = fs();
    let doc = f.set_cv_url(&s("{\"version\":\"0.1.0\"}"), &s("https://cv.example")).unwrap();
    assert_eq!(doc, "{\"cv_url\":\"https://cv.example\",\"version\":\"0.1.0\"}");
    let lines = f.create_env_file(&doc, &vec![s("CRAWLER_IMAGE=alpine")], Platform::Ubuntu).unwrap();
    assert_eq!(lines, vec![s("CRAWLER_IMAGE=alpine"), s("COMPUTER_VISION_ENDPOINT=https://cv.example")]);
}

#[test]
fn selective_overwrite_preserves_foreign_lines() {
    let lines = vec![s("FOO=bar"), s("COMPUTER_VISION_SUBSCRIPTION_KEY=old"), s("BAZ=qux")];
    let out = sync_env_lines(&lines, "new", "", Platform::Debian);
    assert_eq!(out[0..3].to_vec(), vec![s("FOO=bar"), s("COMPUTER_VISION_SUBSCRIPTION_KEY=new"), s("BAZ=qux")]);
    assert_eq!(out[3..].to_vec(), vec![s("CRAWLER_IMAGE=debian")]);
    let with_crawler = vec![s("FOO=bar"), s("COMPUTER_VISION_SUBSCRIPTION_KEY=old"), s("BAZ=qux"), s("CRAWLER_IMAGE=x")];
    let out2 = sync_env_lines(&with_crawler, "new", "", Platform::Debian);
    assert_eq!(
        out2,
        vec![s("FOO=bar"), s("COMPUTER_VISION_SUBSCRIPTION_KEY=new"), s("BAZ=qux"), s("CRAWLER_IMAGE=x")]
    );
}

#[test]
fn append_when_absent() {
    let lines = vec![s("FOO=bar")];
    let once = sync_env_lines(&lines, "", "", Platform::Ubuntu);
    assert_eq!(once, vec![s("FOO=bar"), s("CRAWLER_IMAGE=ubuntu")]);
    let twice = sync_env_lines(&once, "", "", Platform::Ubuntu);
    assert_eq!(twice, once);
}

#[test]
fn darwin_default_adds_companion_image() {
    let out = sync_env_lines(&vec![], "", "", Platform::DarwinArm64);
    assert_eq!(out, vec![s("CRAWLER_IMAGE=darwin-arm64"), s("A11YWATCH_IMAGE=darwin")]);
    let alpine = sync_env_lines(&vec![], "", "", Platform::Alpine);
    assert_eq!(alpine, vec![s("CRAWLER_IMAGE=alpine")]);
}

#[test]
fn idempotent_environment_sync() {
    let lines = vec![s("# generated"), s("COMPUTER_VISION_ENDPOINT=old"), s("X=1")];
    let once = sync_env_lines(&lines, "key", "https://cv", Platform::Debian);
    assert_eq!(
        once,
        vec![
            s("# generated"),
            s("COMPUTER_VISION_ENDPOINT=https://cv"),
            s("X=1"),
            s("COMPUTER_VISION_SUBSCRIPTION_KEY=key"),
            s("CRAWLER_IMAGE=debian"),
        ]
    );
    let twice = sync_env_lines(&once, "key", "https://cv", Platform::Debian);
    assert_eq!(twice, once);
}

#[test]
fn token_line_takes_precedence_over_endpoint() {
    let lines = vec![s("COMPUTER_VISION_SUBSCRIPTION_KEY=a COMPUTER_VISION_ENDPOINT=b")];
    let out = sync_env_lines(&lines, "t", "u", Platform::Debian);
    assert_eq!(
        out,
        vec![
            s("COMPUTER_VISION_SUBSCRIPTION_KEY=t"),
            s("COMPUTER_VISION_ENDPOINT=u"),
            s("CRAWLER_IMAGE=debian"),
        ]
    );
}
