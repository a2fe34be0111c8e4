//! Configuration resolution, asset classification, controller data and
//! stored page content.

use euclidon::app::{Config, ConfigError};
use euclidon::asset::{AssetKind, Loc};
use euclidon::controllers::login::{LoginData, LoginKind, LoginStatus};
use euclidon::controllers::page::{Action, ActionKind};
use euclidon::model::page::NewPage;
use euclidon::output::{Body, PageError};

#[test]
fn config_explicit_settings_win() {
    let c = Config::builder()
        .server_url("127.0.0.1:8080".to_string())
        .database_url("postgres://db".to_string())
        .build(Some("env-server".to_string()), Some("env-db".to_string()))
        .unwrap();
    assert_eq!(c.server_url, "127.0.0.1:8080");
    assert_eq!(c.database_url, "postgres://db");
    assert_eq!(c.assets_dir, "assets/");
}

#[test]
fn config_falls_back_to_environment() {
    let c = Config::builder()
        .assets_dir("static/".to_string())
        .build(Some("env-server".to_string()), Some("env-db".to_string()))
        .unwrap();
    assert_eq!(c.server_url, "env-server");
    assert_eq!(c.database_url, "env-db");
    assert_eq!(c.assets_dir, "static/");
}

#[test]
fn config_missing_settings_error() {
    let e = Config::builder().build(None, Some("env-db".to_string())).unwrap_err();
    assert_eq!(e, ConfigError::ServerUrl);
    let e = Config::builder().build(Some("env-server".to_string()), None).unwrap_err();
    assert_eq!(e, ConfigError::DatabaseUrl);
}

#[test]
fn asset_kind_by_extension() {
    assert_eq!(AssetKind::from_extension(Some("css")), AssetKind::Css);
    assert_eq!(AssetKind::from_extension(Some("js")), AssetKind::JavaScript);
    assert_eq!(AssetKind::from_extension(Some("json")), AssetKind::Json);
    assert_eq!(AssetKind::from_extension(Some("CSS")), AssetKind::Unknown);
    assert_eq!(AssetKind::from_extension(Some("html")), AssetKind::Unknown);
    assert_eq!(AssetKind::from_extension(None), AssetKind::Unknown);
    assert_eq!(AssetKind::default(), AssetKind::Unknown);
}

#[test]
fn asset_mime_types() {
    assert_eq!(AssetKind::Unknown.mime_type(), "application/octet-stream");
    assert_eq!(AssetKind::Json.mime_type(), "application/json");
    assert_eq!(AssetKind::Css.mime_type(), "text/css");
    assert_eq!(AssetKind::JavaScript.mime_type(), "text/javascript");
}

#[test]
fn loc_holds_its_path() {
    let l = Loc::new("templates/index.html.tera".to_string());
    assert_eq!(l.path, "templates/index.html.tera");
}

#[test]
fn login_kind_by_identifier() {
    let by_name = LoginData { id: "alice".to_string(), password: "pw".to_string() };
    assert_eq!(by_name.kind(), LoginKind::Username);
    let by_mail = LoginData { id: "alice@example.org".to_string(), password: "pw".to_string() };
    assert_eq!(by_mail.kind(), LoginKind::Email);
    let odd = LoginData { id: "@".to_string(), password: "pw".to_string() };
    assert_eq!(odd.kind(), LoginKind::Email);
}

#[test]
fn login_status_queries() {
    assert_eq!(LoginStatus::Failure.into_query(), "status=failure");
    assert_eq!(LoginStatus::Success.into_query(), "status=success");
    assert_eq!(LoginStatus::Duplicate.into_query(), "status=duplicate");
    assert_eq!(LoginStatus::from(true), LoginStatus::Success);
    assert_eq!(LoginStatus::from(false), LoginStatus::Failure);
}

#[test]
fn action_queries() {
    assert_eq!(Action { kind: Some(ActionKind::Edit) }.into_query(), "?action=edit");
    assert_eq!(Action { kind: Some(ActionKind::View) }.into_query(), "?action=view");
    assert_eq!(Action { kind: Some(ActionKind::Submit) }.into_query(), "?action=submit");
    assert_eq!(Action { kind: None }.into_query(), "");
    assert_eq!(ActionKind::default(), ActionKind::View);
    assert_eq!(ActionKind::Edit.as_text(), "edit");
}

#[test]
fn new_page_roots_at_its_first_revision() {
    let p = NewPage::new("Main_Page", 17);
    assert_eq!(p.title, "Main_Page");
    assert_eq!(p.rev_id, 17);
    assert_eq!(p.root_id, 17);
}

#[test]
fn body_decodes_tagged_and_bare_text() {
    let Body::Text(s) = Body::decode(b":text:hello world".to_vec()).unwrap();
    assert_eq!(s, "hello world");
    let Body::Text(s) = Body::decode(b"bare text".to_vec()).unwrap();
    assert_eq!(s, "bare text");
    let Body::Text(s) = Body::decode(b":text:".to_vec()).unwrap();
    assert_eq!(s, "");
    // Multi-byte text survives.
    let Body::Text(s) = Body::decode(":text:caf\u{e9}".as_bytes().to_vec()).unwrap();
    assert_eq!(s, "caf\u{e9}");
}

#[test]
fn body_rejects_unknown_tags_and_non_text() {
    assert!(matches!(Body::decode(b":nope:x".to_vec()), Err(PageError::Invalid)));
    assert!(matches!(Body::decode(b":".to_vec()), Err(PageError::Invalid)));
    assert!(matches!(Body::decode(b":text".to_vec()), Err(PageError::Invalid)));
    assert!(matches!(Body::decode(vec![58, 116, 101, 120, 116, 58, 0xff]), Err(PageError::FromUtf8(_))));
    assert!(matches!(Body::decode(vec![0xff, 0xfe]), Err(PageError::FromUtf8(_))));
}

#[test]
fn body_round_trips_through_its_encoding() {
    let body = Body::Text("Some page *content*.".to_string());
    let stored = body.encode();
    assert_eq!(stored, b":text:Some page *content*.".to_vec());
    let Body::Text(back) = Body::decode(stored).unwrap();
    assert_eq!(back, "Some page *content*.");
}
