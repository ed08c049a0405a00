use mkrawimg::device::PartitionMapType;
use mkrawimg::partition::{
    PartTypeError, PartitionType, PARTTYPE_BASIC_BYTE, PARTTYPE_BASIC_UUID, PARTTYPE_EFI_BYTE,
    PARTTYPE_EFI_UUID, PARTTYPE_LINUX_BYTE, PARTTYPE_LINUX_UUID, PARTTYPE_SWAP_BYTE,
    PARTTYPE_SWAP_UUID,
};
use uuid::Uuid;

const TEST_EFI: &str = r#"type = "efi""#;
const TEST_LINUX: &str = r#"type = "linux""#;
const TEST_SWAP: &str = r#"type = "swap""#;
const TEST_BASIC: &str = r#"type = "basic""#;
const TEST_UUID: &str = "type = \"uuid\"\nuuid = \"933AC7E1-2EB4-4F13-B844-0E14E2AEF915\"";
const TEST_BYTE: &str = "type = \"byte\"\nbyte = 0x0c";
const TEST_EXTENDED: &str = "type = \"byte\"\nbyte = 0x05";

/// Reads a partition type from a piece of a device description.
fn get(text: &str) -> Result<PartitionType, String> {
    let table: toml::Table = toml::from_str(text).map_err(|e| e.to_string())?;
    let tag = table
        .get("type")
        .and_then(|v| v.as_str())
        .ok_or_else(|| "no type".to_string())?;
    let uuid = match table.get("uuid").and_then(|v| v.as_str()) {
        Some(u) => Some(Uuid::parse_str(u).map_err(|e| e.to_string())?.as_u128()),
        None => None,
    };
    let byte = table
        .get("byte")
        .and_then(|v| v.as_integer())
        .and_then(|b| u8::try_from(b).ok());
    PartitionType::from_tag(tag, uuid, byte, None).ok_or_else(|| "unknown type".to_string())
}

/// Writes a partition type as a piece of a device description.
fn put(t: &PartitionType) -> String {
    let mut table = toml::Table::new();
    table.insert("type".to_string(), toml::Value::String(t.tag().to_string()));
    match t {
        PartitionType::Uuid { uuid } => {
            table.insert(
                "uuid".to_string(),
                toml::Value::String(Uuid::from_u128(*uuid).to_string()),
            );
        }
        PartitionType::Byte { byte } => {
            table.insert("byte".to_string(), toml::Value::Integer(i64::from(*byte)));
        }
        _ => {}
    }
    toml::to_string_pretty(&table).unwrap()
}

#[test]
fn test_part_type() {
    assert_eq!(get(TEST_EFI), Ok(PartitionType::EFI));
    assert_eq!(get(TEST_LINUX), Ok(PartitionType::Linux));
    assert_eq!(get(TEST_SWAP), Ok(PartitionType::Swap));
    assert_eq!(get(TEST_BASIC), Ok(PartitionType::Basic));
    assert_eq!(
        get(TEST_UUID),
        Ok(PartitionType::Uuid {
            uuid: Uuid::parse_str("933AC7E1-2EB4-4F13-B844-0E14E2AEF915").unwrap().as_u128()
        })
    );
    assert_eq!(get(TEST_BYTE), Ok(PartitionType::Byte { byte: 0x0c }));
    assert_eq!(
        get(TEST_EXTENDED).unwrap().to_byte().unwrap_err().message().to_string(),
        String::from("Extended partitions are not allowed.")
    );
}

#[test]
fn test_partition_type() {
    let s1 = put(&PartitionType::Basic);
    let s2 = put(&PartitionType::Linux);
    let s3 = put(&PartitionType::EFI);
    let s4 = put(&PartitionType::Swap);
    let s5 = put(&PartitionType::Uuid {
        uuid: Uuid::parse_str("C12A7328-F81F-11D2-BA4B-00A0C93EC93B").unwrap().as_u128(),
    });
    let s6 = put(&PartitionType::Byte { byte: 0x27 });
    println!("{}\n{}\n{}\n{}\n{}\n{}", s1, s2, s3, s4, s5, s6);
    assert_eq!(get(&s1), Ok(PartitionType::Basic));
    assert_eq!(get(&s2), Ok(PartitionType::Linux));
    assert_eq!(get(&s3), Ok(PartitionType::EFI));
    assert_eq!(get(&s4), Ok(PartitionType::Swap));
    assert_eq!(get(&s5), Ok(PartitionType::Uuid { uuid: PARTTYPE_EFI_UUID }));
    assert_eq!(get(&s6), Ok(PartitionType::Byte { byte: 0x27 }));
}

#[test]
fn partition_type_tags() {
    assert_eq!(PartitionType::from_tag("esp", None, None, None), Some(PartitionType::EFI));
    assert_eq!(PartitionType::from_tag("efi", None, None, None), Some(PartitionType::EFI));
    assert_eq!(PartitionType::from_tag("whatever", None, None, None), None);
    assert_eq!(PartitionType::from_tag("uuid", None, Some(1), None), None);
    assert_eq!(PartitionType::from_tag("byte", Some(1), None, None), None);
    assert_eq!(
        PartitionType::from_tag("nested", None, None, Some(PartitionMapType::MBR)),
        Some(PartitionType::Nested { table_type: PartitionMapType::MBR })
    );
    assert_eq!(PartitionType::from_tag("nested", None, None, None), None);
    assert_eq!(PartitionType::Uuid { uuid: 7 }.tag(), "uuid");
    assert_eq!(PartitionType::Nested { table_type: PartitionMapType::GPT }.tag(), "nested");
}

#[test]
fn partition_type_to_byte() {
    assert_eq!(PartitionType::EFI.to_byte(), Ok(0xEF));
    assert_eq!(PartitionType::Linux.to_byte(), Ok(0x83));
    assert_eq!(PartitionType::Swap.to_byte(), Ok(0x82));
    assert_eq!(PartitionType::Basic.to_byte(), Ok(0x07));
    assert_eq!(PARTTYPE_EFI_BYTE, 0xEF);
    assert_eq!(PARTTYPE_LINUX_BYTE, 0x83);
    assert_eq!(PARTTYPE_SWAP_BYTE, 0x82);
    assert_eq!(PARTTYPE_BASIC_BYTE, 0x07);
    assert_eq!(PartitionType::Byte { byte: 0x0c }.to_byte(), Ok(0x0c));
    assert_eq!(PartitionType::Byte { byte: 0xd5 }.to_byte(), Ok(0xd5));
    for extended in [0x05u8, 0x0f, 0x85, 0xc5] {
        assert_eq!(
            PartitionType::Byte { byte: extended }.to_byte(),
            Err(PartTypeError::ExtendedNotAllowed)
        );
    }
    assert_eq!(PartitionType::Uuid { uuid: 1 }.to_byte(), Err(PartTypeError::UuidInMbr));
    assert_eq!(
        PartitionType::Nested { table_type: PartitionMapType::GPT }.to_byte(),
        Err(PartTypeError::NestedUnsupported)
    );
    assert_eq!(
        PartTypeError::UuidInMbr.message(),
        "Can not convert an arbitrary byte to UUID."
    );
}

#[test]
fn partition_type_to_uuid() {
    let text = |u: u128| Uuid::from_u128(u).to_string().to_uppercase();
    assert_eq!(text(PartitionType::EFI.to_uuid().unwrap()), "C12A7328-F81F-11D2-BA4B-00A0C93EC93B");
    assert_eq!(text(PartitionType::Linux.to_uuid().unwrap()), "0FC63DAF-8483-4772-8E79-3D69D8477DE4");
    assert_eq!(text(PartitionType::Swap.to_uuid().unwrap()), "0657FD6D-A4AB-43C4-84E5-0933C84B4F4F");
    assert_eq!(text(PartitionType::Basic.to_uuid().unwrap()), "EBD0A0A2-B9E5-4433-87C0-68B6B72699C7");
    assert_eq!(PartitionType::EFI.to_uuid(), Ok(PARTTYPE_EFI_UUID));
    assert_eq!(PartitionType::Linux.to_uuid(), Ok(PARTTYPE_LINUX_UUID));
    assert_eq!(PartitionType::Swap.to_uuid(), Ok(PARTTYPE_SWAP_UUID));
    assert_eq!(PartitionType::Basic.to_uuid(), Ok(PARTTYPE_BASIC_UUID));
    assert_eq!(PartitionType::Uuid { uuid: 42 }.to_uuid(), Ok(42));
    assert_eq!(PartitionType::Byte { byte: 0x83 }.to_uuid(), Err(PartTypeError::ByteInGpt));
    assert_eq!(
        PartitionType::Nested { table_type: PartitionMapType::MBR }.to_uuid(),
        Err(PartTypeError::NestedUnsupported)
    );
    assert_eq!(PartTypeError::ByteInGpt.message(), "Can not convert an MBR type to UUID.");
    assert_eq!(
        PartTypeError::NestedUnsupported.message(),
        "Nested partition tables are not supported."
    );
    assert!(PartitionType::Swap.is_swap());
    assert!(!PartitionType::EFI.is_swap());
    assert!(PartitionType::EFI.is_efi());
    assert!(!PartitionType::Basic.is_efi());
}
