use lwm2m_registry::decode::{RawObject, RawResource, RawResourceList, RawSpec};
use lwm2m_registry::loader::{load_objects, SpecFile};
use lwm2m_registry::Registry;
use lwm2m_registry::ResourceType::Opaque;
use lwm2m_registry::Version;

fn raw_resource(
    id: &str,
    name: &str,
    operations: &str,
    multiple_instances: &str,
    mandatory: &str,
    resource_type: &str,
) -> RawResource {
    RawResource {
        id: id.to_string(),
        name: name.to_string(),
        operations: operations.to_string(),
        multiple_instances: multiple_instances.to_string(),
        mandatory: mandatory.to_string(),
        resource_type: resource_type.to_string(),
    }
}

fn raw_object(
    name: &str,
    object_id: &str,
    object_urn: &str,
    object_version: &str,
    lwm2m_version: &str,
    multiple_instances: &str,
    mandatory: &str,
    items: Vec<RawResource>,
) -> RawObject {
    RawObject {
        name: name.to_string(),
        object_id: object_id.to_string(),
        object_urn: object_urn.to_string(),
        object_version: object_version.to_string(),
        lwm2m_version: lwm2m_version.to_string(),
        multiple_instances: multiple_instances.to_string(),
        mandatory: mandatory.to_string(),
        resources: RawResourceList { items: Some(items) },
    }
}

fn spec_file(path: &str, objects: Vec<RawObject>) -> SpecFile {
    SpecFile {
        path: path.to_string(),
        content: Some(RawSpec { objects }),
    }
}

/// A fixture set equivalent to a directory of six spec documents: objects
/// 0, 1 and 3, each at versions 1.1 and 1.2.
fn load_test_registry() -> Registry {
    let security_resources = |version: &str| {
        vec![
            raw_resource("0", "LWM2M  Server URI", "", "Single", "Mandatory", "String"),
            raw_resource("1", "Bootstrap-Server", "", "Single", "Mandatory", "Boolean"),
            raw_resource("2", "Security Mode", "", "Single", "Mandatory", "Integer"),
            raw_resource("5", "Secret Key", "", "Single", "Mandatory", "Opaque"),
            raw_resource("10", &format!("Short Server ID {version}"), "", "Single", "Optional", "Integer"),
        ]
    };
    let server_resources = vec![
        raw_resource("0", "Short Server ID", "R", "Single", "Mandatory", "Integer"),
        raw_resource("1", "Lifetime", "RW", "Single", "Mandatory", "Integer"),
        raw_resource("8", "Registration Update Trigger", "E", "Single", "Mandatory", ""),
    ];
    let device_resources = vec![
        raw_resource("0", "Manufacturer", "R", "Single", "Optional", "String"),
        raw_resource("4", "Reboot", "E", "Single", "Mandatory", ""),
        raw_resource("5", "Factory Reset", "E", "Single", "Optional", ""),
        raw_resource("6", "Available Power Sources", "R", "Multiple", "Optional", "Integer"),
    ];
    let files = vec![
        spec_file(
            "spec_files/0.xml",
            vec![raw_object(
                "LWM2M Security",
                "0",
                "urn:oma:lwm2m:oma:0",
                "1.1",
                "1.0",
                "Multiple",
                "Optional",
                security_resources("1.1"),
            )],
        ),
        spec_file(
            "spec_files/1.xml",
            vec![raw_object(
                "LwM2M Server",
                "1",
                "urn:oma:lwm2m:oma:1",
                "1.1",
                "1.0",
                "Multiple",
                "Mandatory",
                server_resources.clone(),
            )],
        ),
        spec_file(
            "spec_files/3.xml",
            vec![raw_object(
                "Device",
                "3",
                "urn:oma:lwm2m:oma:3:1.1",
                "1.1",
                "1.1",
                "Single",
                "Mandatory",
                device_resources.clone(),
            )],
        ),
        spec_file(
            "spec_files/lwm2m_1_2/0-1_2.xml",
            vec![raw_object(
                "LWM2M Security",
                "0",
                "urn:oma:lwm2m:oma:0:1.2",
                "1.2",
                "1.1",
                "Multiple",
                "Mandatory",
                security_resources("1.2"),
            )],
        ),
        spec_file(
            "spec_files/lwm2m_1_2/1-1_2.xml",
            vec![raw_object(
                "LwM2M Server",
                "1",
                "urn:oma:lwm2m:oma:1:1.2",
                "1.2",
                "1.1",
                "Multiple",
                "Mandatory",
                server_resources,
            )],
        ),
        spec_file(
            "spec_files/lwm2m_1_2/3-1_2.xml",
            vec![raw_object(
                "Device",
                "3",
                "urn:oma:lwm2m:oma:3:1.2",
                "1.2",
                "1.1",
                "Single",
                "Mandatory",
                device_resources,
            )],
        ),
    ];
    Registry::new(load_objects(&files))
}

#[test]
fn test_load_registry() {
    let registry = load_test_registry();

    assert_eq!(6, registry.objects.len());
}

#[test]
fn test_has_object_id() {
    let registry = load_test_registry();
    assert!(registry.has_object_id(1, Version::new(1, 1)));
    assert!(!registry.has_object_id(1, Version::new(2, 1)));
}

#[test]
fn test_get_object_name() {
    let registry = load_test_registry();
    let name = registry.get_object_name(3, Version::new(1, 1));
    assert_eq!(name, Some("Device".to_string()));
}

#[test]
fn test_get_object_name_not_found() {
    let registry = load_test_registry();
    let name = registry.get_object_name(9, Version::new(2, 0));
    assert_eq!(name, None);
}

#[test]
fn test_get_object_id_by_name_newest() {
    let registry = load_test_registry();
    let res = registry.get_object_id_by_name_newest("LwM2M Server");
    assert_eq!(res, Some((1, Version::new(1, 2))));
}

#[test]
fn test_get_object_id_by_name_newest_not_found() {
    let registry = load_test_registry();
    let res = registry.get_object_id_by_name_newest("Unknown Object");
    assert_eq!(res, None);
}

#[test]
fn test_get_object_urn() {
    let registry = load_test_registry();
    let res = registry.get_object_urn(3, Version::new(1, 1));
    assert_eq!(res, Some("urn:oma:lwm2m:oma:3:1.1".to_string()));
}

#[test]
fn test_get_object_urn_not_found() {
    let registry = load_test_registry();
    let res = registry.get_object_urn(99, Version::new(1, 1));
    assert_eq!(res, None);
}

#[test]
fn test_get_resource_name() {
    let registry = load_test_registry();
    let res = registry.get_resource_name(3, Version::new(1, 1), 0);
    assert_eq!(res, Some("Manufacturer".to_string()));
}

#[test]
fn test_get_resource_name_not_found() {
    let registry = load_test_registry();
    let res = registry.get_resource_name(3, Version::new(1, 1), 99);
    assert_eq!(res, None);
}

#[test]
fn test_get_resource_id_by_name() {
    let registry = load_test_registry();
    let res = registry.get_resource_id_by_name(3, Version::new(1, 2), "Factory Reset");
    assert_eq!(res, Some(5));
}

#[test]
fn test_get_resource_id_by_name_not_found() {
    let registry = load_test_registry();
    let res = registry.get_resource_id_by_name(3, Version::new(1, 2), "Unknown Resource");
    assert_eq!(res, None);
}

#[test]
fn test_get_resource_type() {
    let registry = load_test_registry();
    let res = registry.get_resource_type(0, Version::new(1, 1), 5);
    assert_eq!(res, Some(Opaque));
}

#[test]
fn test_get_resource_type_not_found() {
    let registry = load_test_registry();
    let res = registry.get_resource_type(0, Version::new(1, 1), 99);
    assert_eq!(res, None);
}

#[test]
fn test_is_resource_multi_instance_true() {
    let registry = load_test_registry();
    let res = registry.is_resource_multi_instance(3, Version::new(1, 1), 6);
    assert_eq!(res, Some(true));
}

#[test]
fn test_is_resource_multi_instance_false() {
    let registry = load_test_registry();
    let res = registry.is_resource_multi_instance(3, Version::new(1, 1), 0);
    assert_eq!(res, Some(false));
}

#[test]
fn test_is_resource_multi_instance_not_found() {
    let registry = load_test_registry();
    let res = registry.is_resource_multi_instance(0, Version::new(1, 1), 777);
    assert_eq!(res, None);
}

#[test]
fn test_get_object_ids() {
    let registry = load_test_registry();
    let mut res = registry.get_object_ids();
    assert_eq!(res.len(), 6);

    let mut expected = vec![
        (0, Version::new(1, 1)),
        (1, Version::new(1, 1)),
        (3, Version::new(1, 1)),
        (0, Version::new(1, 2)),
        (1, Version::new(1, 2)),
        (3, Version::new(1, 2)),
    ];

    res.sort();
    expected.sort();
    assert_eq!(res, expected);
}

#[test]
fn test_duplicate_identity_first_match_wins() {
    let first = spec_file(
        "spec_files/a.xml",
        vec![raw_object(
            "Device",
            "3",
            "urn:oma:lwm2m:oma:3:first",
            "1.1",
            "1.1",
            "Single",
            "Mandatory",
            vec![],
        )],
    );
    let second = spec_file(
        "spec_files/b.xml",
        vec![raw_object(
            "Device",
            "3",
            "urn:oma:lwm2m:oma:3:second",
            "1.1",
            "1.1",
            "Single",
            "Mandatory",
            vec![],
        )],
    );
    let registry = Registry::new(load_objects(&vec![first, second]));
    assert_eq!(registry.objects.len(), 2);
    assert_eq!(
        registry.get_object_urn(3, Version::new(1, 1)),
        Some("urn:oma:lwm2m:oma:3:first".to_string())
    );
}

#[test]
fn test_newest_tie_last_entry_wins() {
    let first = spec_file(
        "spec_files/a.xml",
        vec![raw_object(
            "Device",
            "3",
            "urn:a",
            "1.1",
            "1.1",
            "Single",
            "Mandatory",
            vec![],
        )],
    );
    let second = spec_file(
        "spec_files/b.xml",
        vec![raw_object(
            "Device",
            "7",
            "urn:b",
            "1.1",
            "1.1",
            "Single",
            "Mandatory",
            vec![],
        )],
    );
    let registry = Registry::new(load_objects(&vec![first, second]));
    assert_eq!(
        registry.get_object_id_by_name_newest("Device"),
        Some((7, Version::new(1, 1)))
    );
}
