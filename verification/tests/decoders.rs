use lwm2m_registry::decode::{
    decode_document, decode_mandatory, decode_multiple_instances, decode_object,
    decode_operations, decode_resource, decode_resource_type, decode_resources_list, DecodeError,
    RawObject, RawResource, RawResourceList, RawSpec,
};
use lwm2m_registry::{Operations, Resource, ResourceType, Version};

fn raw_resource(
    id: &str,
    name: &str,
    operations: &str,
    multiple_instances: &str,
    mandatory: &str,
    resource_type: &str,
) -> RawResource {
    RawResource {
        id: id.to_string(),
        name: name.to_string(),
        operations: operations.to_string(),
        multiple_instances: multiple_instances.to_string(),
        mandatory: mandatory.to_string(),
        resource_type: resource_type.to_string(),
    }
}

fn raw_object(object_version: &str, items: Option<Vec<RawResource>>) -> RawObject {
    RawObject {
        name: "Device".to_string(),
        object_id: "3".to_string(),
        object_urn: "urn:oma:lwm2m:oma:3".to_string(),
        object_version: object_version.to_string(),
        lwm2m_version: "1.1".to_string(),
        multiple_instances: "Single".to_string(),
        mandatory: "Mandatory".to_string(),
        resources: RawResourceList { items },
    }
}

#[test]
fn test_decode_multiple_instances() {
    assert_eq!(decode_multiple_instances("Multiple"), Ok(true));
    assert_eq!(decode_multiple_instances("Single"), Ok(false));
    assert_eq!(
        decode_multiple_instances("multiple"),
        Err(DecodeError::UnknownVariant)
    );
    assert_eq!(decode_multiple_instances(""), Err(DecodeError::UnknownVariant));
    assert_eq!(
        decode_multiple_instances("Sometimes"),
        Err(DecodeError::UnknownVariant)
    );
}

#[test]
fn test_decode_mandatory() {
    assert_eq!(decode_mandatory("Mandatory"), Ok(true));
    assert_eq!(decode_mandatory("Optional"), Ok(false));
    assert_eq!(decode_mandatory("mandatory"), Err(DecodeError::UnknownVariant));
    assert_eq!(decode_mandatory(""), Err(DecodeError::UnknownVariant));
    assert_eq!(decode_mandatory("Maybe"), Err(DecodeError::UnknownVariant));
}

#[test]
fn test_decode_operations() {
    assert_eq!(decode_operations("R"), Operations::Read);
    assert_eq!(decode_operations("W"), Operations::Write);
    assert_eq!(decode_operations("RW"), Operations::ReadWrite);
    assert_eq!(decode_operations("E"), Operations::Execute);
    assert_eq!(decode_operations(""), Operations::NoneAllowed);
    assert_eq!(decode_operations("WR"), Operations::NoneAllowed);
    assert_eq!(decode_operations("r"), Operations::NoneAllowed);
    assert_eq!(decode_operations("RWE"), Operations::NoneAllowed);
}

#[test]
fn test_decode_resource_type() {
    assert_eq!(decode_resource_type("String"), ResourceType::String);
    assert_eq!(decode_resource_type("Integer"), ResourceType::Integer);
    assert_eq!(decode_resource_type("Float"), ResourceType::Float);
    assert_eq!(decode_resource_type("Boolean"), ResourceType::Boolean);
    assert_eq!(decode_resource_type("Opaque"), ResourceType::Opaque);
    assert_eq!(decode_resource_type("Time"), ResourceType::Time);
    assert_eq!(decode_resource_type("Objlnk"), ResourceType::ObjectLink);
    assert_eq!(
        decode_resource_type("Unsigned Integer"),
        ResourceType::UnsignedInteger
    );
    assert_eq!(decode_resource_type("Corelnk"), ResourceType::Corelink);
    assert_eq!(decode_resource_type(""), ResourceType::Other);
    assert_eq!(decode_resource_type("string"), ResourceType::Other);
    assert_eq!(decode_resource_type("Duration"), ResourceType::Other);
}

#[test]
fn test_decode_resource_ok() {
    let raw = raw_resource("5", "Secret Key", "", "Single", "Mandatory", "Opaque");
    let expected = Resource::new(
        5,
        "Secret Key".to_string(),
        Operations::NoneAllowed,
        false,
        true,
        ResourceType::Opaque,
    );
    assert_eq!(decode_resource(&raw), Ok(expected));
}

#[test]
fn test_decode_resource_invalid_id() {
    let raw = raw_resource("five", "Secret Key", "", "Single", "Mandatory", "Opaque");
    assert_eq!(decode_resource(&raw), Err(DecodeError::InvalidId));
    let raw = raw_resource("", "Secret Key", "", "Single", "Mandatory", "Opaque");
    assert_eq!(decode_resource(&raw), Err(DecodeError::InvalidId));
    let raw = raw_resource("65536", "Secret Key", "", "Single", "Mandatory", "Opaque");
    assert_eq!(decode_resource(&raw), Err(DecodeError::InvalidId));
}

#[test]
fn test_decode_resource_unknown_variant() {
    let raw = raw_resource("5", "Secret Key", "", "Both", "Mandatory", "Opaque");
    assert_eq!(decode_resource(&raw), Err(DecodeError::UnknownVariant));
    let raw = raw_resource("5", "Secret Key", "", "Single", "Sometimes", "Opaque");
    assert_eq!(decode_resource(&raw), Err(DecodeError::UnknownVariant));
}

#[test]
fn test_decode_resources_list_absent_items_is_empty() {
    let list = RawResourceList { items: None };
    assert_eq!(decode_resources_list(&list), Ok(vec![]));
}

#[test]
fn test_decode_resources_list_empty_items_is_empty() {
    let list = RawResourceList { items: Some(vec![]) };
    assert_eq!(decode_resources_list(&list), Ok(vec![]));
}

#[test]
fn test_decode_resources_list_keeps_order() {
    let list = RawResourceList {
        items: Some(vec![
            raw_resource("0", "Manufacturer", "R", "Single", "Optional", "String"),
            raw_resource("4", "Reboot", "E", "Single", "Mandatory", ""),
        ]),
    };
    let decoded = decode_resources_list(&list).unwrap();
    assert_eq!(decoded.len(), 2);
    assert_eq!(decoded[0].id, 0);
    assert_eq!(decoded[0].name, "Manufacturer");
    assert_eq!(decoded[0].operations, Operations::Read);
    assert_eq!(decoded[1].id, 4);
    assert_eq!(decoded[1].operations, Operations::Execute);
    assert_eq!(decoded[1].resource_type, ResourceType::Other);
}

#[test]
fn test_decode_object_ok() {
    let raw = raw_object(
        "1.2",
        Some(vec![raw_resource(
            "0",
            "Manufacturer",
            "R",
            "Single",
            "Optional",
            "String",
        )]),
    );
    let obj = decode_object(&raw).unwrap();
    assert_eq!(obj.name, "Device");
    assert_eq!(obj.object_id, 3);
    assert_eq!(obj.object_urn, "urn:oma:lwm2m:oma:3");
    assert_eq!(obj.object_version, Version::new(1, 2));
    assert_eq!(obj.lwm2m_version, Version::new(1, 1));
    assert!(!obj.has_multiple_instances);
    assert!(obj.is_mandatory);
    assert_eq!(obj.resources.len(), 1);
    assert_eq!(obj.resources[0].name, "Manufacturer");
}

#[test]
fn test_decode_object_invalid_version() {
    let raw = raw_object("1.2.3", Some(vec![]));
    assert_eq!(decode_object(&raw), Err(DecodeError::InvalidVersion));
    let raw = raw_object("one", None);
    assert_eq!(decode_object(&raw), Err(DecodeError::InvalidVersion));
}

#[test]
fn test_decode_document_all_or_nothing() {
    let good = raw_object("1.1", None);
    let bad = raw_object("1.1.1", None);
    let doc = RawSpec {
        objects: vec![good.clone()],
    };
    let decoded = decode_document(&doc).unwrap();
    assert_eq!(decoded.objects.len(), 1);

    let doc = RawSpec {
        objects: vec![good, bad],
    };
    assert_eq!(decode_document(&doc), Err(DecodeError::InvalidVersion));
}
