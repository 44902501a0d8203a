use authz_core::id::Id;
use authz_core::key::Key;
use authz_core::member::Member;
use authz_core::memory::error::Error;
use authz_core::memory::members::Members;
use authz_core::value::{FieldMap, Value};
use bson::oid::ObjectId;

fn fresh_id() -> Id {
    Id::from_bytes(&ObjectId::new().bytes())
}

/// Helper function to create a test member
fn create_test_member() -> Member {
    Member {
        org_id: fresh_id(),
        user_id: fresh_id(),
        title: "Test Member".to_string(),
        owner: false,
        roles: vec![fresh_id()],
    }
}

#[test]
fn test_create_member() {
    let mut members = Members::default();
    let member = create_test_member();
    let result = members.create_item(member.clone());
    assert!(result.is_ok());
    assert_eq!(result.unwrap(), member);
}

#[test]
fn test_create_duplicate_member() {
    let mut members = Members::default();
    let member1 = create_test_member();
    let member2 = member1.clone();

    let _ = members.create_item(member1);
    let result = members.create_item(member2);
    assert!(matches!(result, Err(Error::MemberAlreadyExists)));
}

#[test]
fn test_get_member_by_org() {
    let mut members = Members::default();
    let member = create_test_member();
    let _ = members.create_item(member.clone());

    let result = members.get_item(Key::Pk((member.org_id, member.user_id)));
    assert!(result.is_ok());
    assert_eq!(result.unwrap(), member);
}

#[test]
fn test_get_member_by_user() {
    let mut members = Members::default();
    let member = create_test_member();
    let _ = members.create_item(member.clone());

    let result = members.get_item(Key::Pk((member.org_id, member.user_id)));
    assert!(result.is_ok());
    assert_eq!(result.unwrap(), member);
}

#[test]
fn test_patch_member_title() {
    let mut members = Members::default();
    let member = create_test_member();
    let _ = members.create_item(member.clone());

    let mut patch_map = FieldMap::new();
    patch_map.insert("title", Value::String("Updated Member Title".to_string()));

    let result = members.patch_item(Key::Pk((member.org_id, member.user_id)), &patch_map);
    assert!(result.is_ok(), "Patching member title should succeed");

    let updated_member = result.unwrap();
    assert_eq!(updated_member.title, "Updated Member Title", "Member title should be updated");
}

#[test]
fn test_patch_member_owner_status() {
    let mut members = Members::default();
    let member = create_test_member();
    let _ = members.create_item(member.clone());

    let mut patch_map = FieldMap::new();
    patch_map.insert("owner", Value::Bool(true));

    let result = members.patch_item(Key::Pk((member.org_id, member.user_id)), &patch_map);
    assert!(result.is_ok(), "Patching member owner status should succeed");

    let updated_member = result.unwrap();
    assert!(updated_member.owner, "Member owner status should be updated");
}

#[test]
fn test_delete_member_fields_unsupported() {
    let mut members = Members::default();
    let member = create_test_member();
    let _ = members.create_item(member.clone());

    let result = members.delete_fields(Key::Pk((member.org_id, member.user_id)), &["title".to_string()]);
    assert!(matches!(result, Err(Error::UnsupportedOperation)),
            "Deleting fields should return UnsupportedOperation");
}
