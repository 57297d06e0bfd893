use flowy_user::codec::{
    decode_params, decode_repeated_workspace, decode_user_error, decode_workspace, encode_params,
    encode_repeated_workspace, encode_user_error, encode_workspace,
};
use flowy_user::errors::{ErrorCode, UserError};
use flowy_user::workspace::{
    App, CreateWorkspaceParams, RepeatedApp, RepeatedWorkspace, Workspace,
};

fn assert_workspace_eq(a: &Workspace, b: &Workspace) {
    assert_eq!(a.id, b.id);
    assert_eq!(a.name, b.name);
    assert_eq!(a.desc, b.desc);
    assert_eq!(a.apps.items.len(), b.apps.items.len());
    for (x, y) in a.apps.items.iter().zip(b.apps.items.iter()) {
        assert_eq!(x.id, y.id);
        assert_eq!(x.name, y.name);
        assert_eq!(x.desc, y.desc);
    }
}

#[test]
fn user_error_exact_bytes() {
    let e = UserError::new(ErrorCode::ServerError, "AB");
    // field 1 tag, code 100; field 2 tag, length 2, 'A', 'B'
    assert_eq!(encode_user_error(&e), vec![8, 100, 18, 2, 65, 66]);
}

#[test]
fn user_error_empty_message_exact_bytes() {
    let e = UserError::new(ErrorCode::Unknown, "");
    assert_eq!(encode_user_error(&e), vec![8, 0, 18, 0]);
}

#[test]
fn varint_length_prefix_above_one_byte() {
    let msg = "m".repeat(130);
    let e = UserError::new(ErrorCode::Unknown, &msg);
    let bytes = encode_user_error(&e);
    // 130 = 0x82 0x01 in base-128 little-endian
    assert_eq!(&bytes[..5], &[8, 0, 18, 130, 1]);
    assert_eq!(bytes.len(), 5 + 130);
}

#[test]
fn user_error_round_trip() {
    let e = UserError::new(ErrorCode::UserTokenInvalid, "token expired");
    let decoded = decode_user_error(&encode_user_error(&e)).expect("the encoding decodes");
    assert_eq!(decoded.code, ErrorCode::UserTokenInvalid);
    assert_eq!(decoded.msg, "token expired");
}

#[test]
fn user_error_round_trip_non_ascii_message() {
    let e = UserError::new(ErrorCode::EmailFormatInvalid, "héllo wörld — ☃");
    let decoded = decode_user_error(&encode_user_error(&e)).expect("the encoding decodes");
    assert_eq!(decoded.code, ErrorCode::EmailFormatInvalid);
    assert_eq!(decoded.msg, "héllo wörld — ☃");
}

#[test]
fn user_error_decode_rejects_trailing_bytes() {
    let mut bytes = encode_user_error(&UserError::new(ErrorCode::Unknown, "x"));
    bytes.push(0);
    assert!(decode_user_error(&bytes).is_none());
}

#[test]
fn user_error_decode_rejects_wrong_tag() {
    assert!(decode_user_error(&[9, 0, 18, 0]).is_none());
}

#[test]
fn user_error_decode_rejects_unknown_code_value() {
    // 99 is no code's numeric value.
    assert!(decode_user_error(&[8, 99, 18, 0]).is_none());
}

#[test]
fn user_error_decode_rejects_truncated_buffer() {
    let bytes = encode_user_error(&UserError::new(ErrorCode::Unknown, "hello"));
    assert!(decode_user_error(&bytes[..bytes.len() - 1]).is_none());
    assert!(decode_user_error(&[]).is_none());
    assert!(decode_user_error(&[8]).is_none());
}

#[test]
fn user_error_decode_rejects_invalid_utf8() {
    // field 2 claims two bytes, but 0xFF 0xFF is not UTF-8
    assert!(decode_user_error(&[8, 0, 18, 2, 255, 255]).is_none());
}

#[test]
fn params_exact_bytes() {
    let p = CreateWorkspaceParams {
        name: "A".to_string(),
        desc: "B".to_string(),
        user_id: "C".to_string(),
    };
    assert_eq!(encode_params(&p), vec![10, 1, 65, 18, 1, 66, 26, 1, 67]);
}

#[test]
fn params_round_trip() {
    let p = CreateWorkspaceParams {
        name: "Engineering".to_string(),
        desc: "Eng team workspace".to_string(),
        user_id: "u-123".to_string(),
    };
    let decoded = decode_params(&encode_params(&p)).expect("the encoding decodes");
    assert_eq!(decoded.name, "Engineering");
    assert_eq!(decoded.desc, "Eng team workspace");
    assert_eq!(decoded.user_id, "u-123");
}

#[test]
fn params_decode_rejects_reordered_fields() {
    // field 2 before field 1 is not the canonical layout
    assert!(decode_params(&[18, 1, 66, 10, 1, 65, 26, 1, 67]).is_none());
}

#[test]
fn workspace_round_trip_without_apps() {
    let w = Workspace::new("ws-1".to_string(), "Home".to_string(), "first".to_string());
    let decoded = decode_workspace(&encode_workspace(&w)).expect("the encoding decodes");
    assert_workspace_eq(&decoded, &w);
}

#[test]
fn workspace_exact_bytes_without_apps() {
    let w = Workspace::new("I".to_string(), "N".to_string(), "D".to_string());
    assert_eq!(
        encode_workspace(&w),
        vec![10, 1, 73, 18, 1, 78, 26, 1, 68, 34, 0],
    );
}

#[test]
fn workspace_round_trip_with_apps() {
    let w = Workspace {
        id: "ws-2".to_string(),
        name: "Ops".to_string(),
        desc: "operations".to_string(),
        apps: RepeatedApp {
            items: vec![
                App { id: "app-1".to_string(), name: "Docs".to_string(), desc: "".to_string() },
                App { id: "app-2".to_string(), name: "Grid".to_string(), desc: "табли́ца".to_string() },
            ],
        },
    };
    let decoded = decode_workspace(&encode_workspace(&w)).expect("the encoding decodes");
    assert_workspace_eq(&decoded, &w);
}

#[test]
fn repeated_workspace_round_trip_keeps_order() {
    let mut list = RepeatedWorkspace::default();
    list.push(Workspace::new("a".to_string(), "First".to_string(), String::new()));
    list.push(Workspace::new("b".to_string(), "Second".to_string(), String::new()));
    list.push(Workspace::new("c".to_string(), "Third".to_string(), String::new()));
    let decoded =
        decode_repeated_workspace(&encode_repeated_workspace(&list)).expect("the encoding decodes");
    assert_eq!(decoded.items.len(), 3);
    for (x, y) in decoded.items.iter().zip(list.items.iter()) {
        assert_workspace_eq(x, y);
    }
    assert_eq!(decoded.items[0].id, "a");
    assert_eq!(decoded.items[1].id, "b");
    assert_eq!(decoded.items[2].id, "c");
}

#[test]
fn repeated_workspace_empty_round_trip() {
    let list = RepeatedWorkspace::default();
    let bytes = encode_repeated_workspace(&list);
    assert!(bytes.is_empty());
    let decoded = decode_repeated_workspace(&bytes).expect("an empty list decodes");
    assert!(decoded.items.is_empty());
}

#[test]
fn repeated_workspace_decode_rejects_truncated_entry() {
    let mut list = RepeatedWorkspace::default();
    list.push(Workspace::new("a".to_string(), "First".to_string(), String::new()));
    let bytes = encode_repeated_workspace(&list);
    assert!(decode_repeated_workspace(&bytes[..bytes.len() - 1]).is_none());
}
