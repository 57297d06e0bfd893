use flowy_user::errors::ErrorCode;
use flowy_user::workspace::{
    CreateWorkspaceRequest, RepeatedWorkspace, Workspace, WorkspaceDesc, WorkspaceName,
    MAX_WORKSPACE_DESC_LEN,
};

#[test]
fn workspace_name_parse_accepts_ordinary_name() {
    let parsed = WorkspaceName::parse("Engineering".to_string()).expect("a plain name is valid");
    assert_eq!(parsed.0, "Engineering");
}

#[test]
fn workspace_name_parse_rejects_empty() {
    let err = WorkspaceName::parse(String::new()).expect_err("an empty name is invalid");
    assert_eq!(err, "Workspace name can not be empty or whitespace");
}

#[test]
fn workspace_name_parse_rejects_whitespace_only() {
    let err = WorkspaceName::parse(" \t\r\n ".to_string()).expect_err("whitespace is invalid");
    assert_eq!(err, "Workspace name can not be empty or whitespace");
}

#[test]
fn workspace_desc_parse_accepts_empty_and_longest() {
    assert_eq!(WorkspaceDesc::parse(String::new()).expect("empty is fine").0, "");
    let longest = "d".repeat(MAX_WORKSPACE_DESC_LEN);
    assert_eq!(WorkspaceDesc::parse(longest.clone()).expect("at the cap is fine").0, longest);
}

#[test]
fn workspace_desc_parse_rejects_over_long() {
    let too_long = "d".repeat(MAX_WORKSPACE_DESC_LEN + 1);
    let err = WorkspaceDesc::parse(too_long).expect_err("over the cap is invalid");
    assert_eq!(err, "Workspace description too long");
}

#[test]
fn conversion_of_valid_request_succeeds() {
    let request = CreateWorkspaceRequest {
        name: "Engineering".to_string(),
        desc: "Eng team workspace".to_string(),
        user_id: "u-123".to_string(),
    };
    let params = request.try_into_params().expect("a fully valid request converts");
    assert_eq!(params.name, "Engineering");
    assert_eq!(params.desc, "Eng team workspace");
    assert_eq!(params.user_id, "u-123");
}

#[test]
fn conversion_with_empty_name_fails_fast() {
    // Both the name and the user id are empty; only the name error may come.
    let request = CreateWorkspaceRequest {
        name: String::new(),
        desc: "whatever".to_string(),
        user_id: String::new(),
    };
    let err = request.try_into_params().expect_err("an empty name is rejected");
    assert_eq!(err.code, ErrorCode::WorkspaceNameInvalid);
    assert_eq!(err.msg, "Workspace name can not be empty or whitespace");
}

#[test]
fn conversion_with_over_long_desc_fails_with_desc_code() {
    let request = CreateWorkspaceRequest {
        name: "Engineering".to_string(),
        desc: "d".repeat(MAX_WORKSPACE_DESC_LEN + 1),
        user_id: "u-123".to_string(),
    };
    let err = request.try_into_params().expect_err("an over-long description is rejected");
    assert_eq!(err.code, ErrorCode::WorkspaceDescInvalid);
    assert_eq!(err.msg, "Workspace description too long");
}

#[test]
fn conversion_with_empty_user_id_fails_with_user_id_code() {
    let request = CreateWorkspaceRequest {
        name: "Engineering".to_string(),
        desc: "Eng team workspace".to_string(),
        user_id: String::new(),
    };
    let err = request.try_into_params().expect_err("an empty user id is rejected");
    assert_eq!(err.code, ErrorCode::UserIdIsEmpty);
    assert_eq!(err.msg, "Create workspace failed. UserId is empty");
}

#[test]
fn request_default_is_all_empty() {
    let request = CreateWorkspaceRequest::default();
    assert_eq!(request.name, "");
    assert_eq!(request.desc, "");
    assert_eq!(request.user_id, "");
}

#[test]
fn workspace_new_sets_fields_and_no_apps() {
    let w = Workspace::new("ws-1".to_string(), "Home".to_string(), "first".to_string());
    assert_eq!(w.id, "ws-1");
    assert_eq!(w.name, "Home");
    assert_eq!(w.desc, "first");
    assert!(w.apps.items.is_empty());
}

#[test]
fn workspace_equality_is_field_equality() {
    let a = Workspace::new("ws-1".to_string(), "Home".to_string(), "first".to_string());
    let b = Workspace::new("ws-1".to_string(), "Home".to_string(), "first".to_string());
    let c = Workspace::new("ws-1".to_string(), "Home".to_string(), "other".to_string());
    assert_eq!(a, b);
    assert_ne!(a, c);
    let mut list_ab = RepeatedWorkspace::default();
    list_ab.push(a);
    let mut list_ba = RepeatedWorkspace::default();
    list_ba.push(b);
    assert_eq!(list_ab, list_ba);
    list_ba.push(c);
    assert_ne!(list_ab, list_ba);
}

#[test]
fn repeated_workspace_keeps_insertion_order() {
    let mut list = RepeatedWorkspace::default();
    assert_eq!(list.len(), 0);
    list.push(Workspace::new("a".to_string(), "First".to_string(), String::new()));
    list.push(Workspace::new("b".to_string(), "Second".to_string(), String::new()));
    list.push(Workspace::new("c".to_string(), "Third".to_string(), String::new()));
    assert_eq!(list.len(), 3);
    assert_eq!(list.get(0).id, "a");
    assert_eq!(list.get(1).id, "b");
    assert_eq!(list.get(2).id, "c");
    assert_eq!(list.get(0).name, "First");
    assert_eq!(list.get(2).name, "Third");
}
