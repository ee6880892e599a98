use openlogi_onboard::backup::{
    backup_in_entry, backup_name, parse_name, sort_newest_first, OnboardBackupError,
    OnboardProfileBackup, MAX_BACKUP_TEXT,
};
use openlogi_onboard::onboard_profile::{OnboardProfileDescriptor, ProfileEditId};
use openlogi_onboard::route::DeviceRoute;
use toml::{Table, Value};

fn backup() -> OnboardProfileBackup {
    OnboardProfileBackup {
        format_version: 1,
        created_unix_seconds: 1,
        route: DeviceRoute::Direct {
            vendor_id: 0xff00,
            product_id: 0xabcd,
        },
        description: OnboardProfileDescriptor {
            memory_model: 1,
            profile_format: 1,
            macro_format: 1,
            profile_count: 1,
            rom_profile_count: 1,
            button_count: 3,
            sector_count: 2,
            sector_size: 256,
            mechanical_layout: 0,
            various_info: 1,
        },
        sector: 1,
        original: vec![0x5a; 256],
        updated: vec![0xa5; 256],
    }
}

fn bytes(bytes: &[u8]) -> Value {
    Value::Array(
        bytes
            .iter()
            .map(|byte| Value::Integer(i64::from(*byte)))
            .collect(),
    )
}

fn serialize(backup: &OnboardProfileBackup) -> Result<String, String> {
    let DeviceRoute::Direct {
        vendor_id,
        product_id,
    } = backup.route
    else {
        return Err("not a direct route".to_owned());
    };
    let mut route = Table::new();
    route.insert("vendor_id".to_owned(), i64::from(vendor_id).into());
    route.insert("product_id".to_owned(), i64::from(product_id).into());
    let description = backup.description;
    let mut descriptor = Table::new();
    for (key, value) in [
        ("memory_model", description.memory_model),
        ("profile_format", description.profile_format),
        ("macro_format", description.macro_format),
        ("profile_count", description.profile_count),
        ("rom_profile_count", description.rom_profile_count),
        ("button_count", description.button_count),
        ("sector_count", description.sector_count),
        ("mechanical_layout", description.mechanical_layout),
        ("various_info", description.various_info),
    ] {
        descriptor.insert(key.to_owned(), i64::from(value).into());
    }
    descriptor.insert(
        "sector_size".to_owned(),
        i64::from(description.sector_size).into(),
    );
    let created = i64::try_from(backup.created_unix_seconds).map_err(|error| error.to_string())?;
    let mut table = Table::new();
    table.insert(
        "format_version".to_owned(),
        i64::from(backup.format_version).into(),
    );
    table.insert("created_unix_seconds".to_owned(), created.into());
    table.insert("route".to_owned(), Value::Table(route));
    table.insert("description".to_owned(), Value::Table(descriptor));
    table.insert("sector".to_owned(), i64::from(backup.sector).into());
    table.insert("original".to_owned(), bytes(&backup.original));
    table.insert("updated".to_owned(), bytes(&backup.updated));
    toml::to_string(&table).map_err(|error| error.to_string())
}

fn integer(table: &Table, key: &str) -> Result<i64, String> {
    table
        .get(key)
        .and_then(Value::as_integer)
        .ok_or_else(|| format!("missing field `{key}`"))
}

fn byte(table: &Table, key: &str) -> Result<u8, String> {
    u8::try_from(integer(table, key)?).map_err(|error| error.to_string())
}

fn word(table: &Table, key: &str) -> Result<u16, String> {
    u16::try_from(integer(table, key)?).map_err(|error| error.to_string())
}

fn table<'a>(parent: &'a Table, key: &str) -> Result<&'a Table, String> {
    parent
        .get(key)
        .and_then(Value::as_table)
        .ok_or_else(|| format!("missing field `{key}`"))
}

fn byte_list(table: &Table, key: &str) -> Result<Vec<u8>, String> {
    table
        .get(key)
        .and_then(Value::as_array)
        .ok_or_else(|| format!("missing field `{key}`"))?
        .iter()
        .map(|value| {
            value
                .as_integer()
                .and_then(|value| u8::try_from(value).ok())
                .ok_or_else(|| "expected a byte".to_owned())
        })
        .collect()
}

fn parse(text: &str) -> Result<OnboardProfileBackup, String> {
    let root: Table = text
        .parse()
        .map_err(|error: toml::de::Error| error.message().to_owned())?;
    let route = table(&root, "route")?;
    let description = table(&root, "description")?;
    Ok(OnboardProfileBackup {
        format_version: byte(&root, "format_version")?,
        created_unix_seconds: u64::try_from(integer(&root, "created_unix_seconds")?)
            .map_err(|error| error.to_string())?,
        route: DeviceRoute::Direct {
            vendor_id: word(route, "vendor_id")?,
            product_id: word(route, "product_id")?,
        },
        description: OnboardProfileDescriptor {
            memory_model: byte(description, "memory_model")?,
            profile_format: byte(description, "profile_format")?,
            macro_format: byte(description, "macro_format")?,
            profile_count: byte(description, "profile_count")?,
            rom_profile_count: byte(description, "rom_profile_count")?,
            button_count: byte(description, "button_count")?,
            sector_count: byte(description, "sector_count")?,
            sector_size: word(description, "sector_size")?,
            mechanical_layout: byte(description, "mechanical_layout")?,
            various_info: byte(description, "various_info")?,
        },
        sector: word(&root, "sector")?,
        original: byte_list(&root, "original")?,
        updated: byte_list(&root, "updated")?,
    })
}

#[test]
fn profile_backup_preserves_unknown_bytes_and_rejects_bad_geometry_or_versions() {
    let backup = backup();
    let encoded = backup.encode(serialize).unwrap();
    assert_eq!(
        OnboardProfileBackup::decode(&encoded, parse).unwrap(),
        backup
    );
    let mut invalid = backup.clone();
    invalid.format_version = 2;
    assert!(
        invalid.encode(serialize).is_err(),
        "unknown backup version"
    );
    invalid = backup.clone();
    invalid.original.pop();
    assert!(invalid.encode(serialize).is_err(), "truncated original");
    invalid = backup;
    invalid.sector = 0;
    assert!(invalid.encode(serialize).is_err(), "directory sector");
}

#[test]
fn the_largest_sector_fits_in_a_stored_backup() {
    let mut backup = backup();
    backup.description.sector_size = 65520;
    backup.original = vec![255; 65520];
    backup.updated = vec![255; 65520];
    let encoded = backup.encode(serialize).unwrap();
    assert!(encoded.len() <= MAX_BACKUP_TEXT);
    assert_eq!(
        OnboardProfileBackup::decode(&encoded, parse).unwrap(),
        backup
    );
}

#[test]
fn each_part_of_the_geometry_is_checked() {
    let changes: [fn(&mut OnboardProfileBackup); 7] = [
        |backup| backup.format_version = 0,
        |backup| backup.description.sector_size = 240,
        |backup| backup.description.sector_size = 257,
        |backup| backup.original.push(0),
        |backup| backup.updated.push(0),
        |backup| backup.sector = 0,
        |backup| backup.sector = 2,
    ];
    for change in changes {
        let mut invalid = backup();
        change(&mut invalid);
        assert_eq!(
            invalid.validate(),
            Err(OnboardBackupError::InvalidFormat)
        );
    }
    assert_eq!(backup().validate(), Ok(()));
}

#[test]
fn each_failure_to_store_a_backup_says_why() {
    let refused = backup().encode(|_| Err("no room".to_owned())).unwrap_err();
    assert_eq!(refused.message(), "profile backup encoding failed: no room");
    let text = " ".repeat(MAX_BACKUP_TEXT + 1);
    let large = OnboardProfileBackup::decode(&text, |_| panic!("too large to parse")).unwrap_err();
    assert_eq!(large.message(), "profile backup exceeds its size limit");
    let text = " ".repeat(MAX_BACKUP_TEXT);
    let empty = OnboardProfileBackup::decode(&text, parse).unwrap_err();
    assert_eq!(
        empty.message(),
        "profile backup parsing failed: missing field `route`"
    );
    let mut invalid = backup();
    invalid.format_version = 2;
    let text = serialize(&invalid).unwrap();
    let unknown = OnboardProfileBackup::decode(&text, parse).unwrap_err();
    assert_eq!(
        unknown.message(),
        "unsupported profile backup format or geometry"
    );
}

#[test]
fn only_the_exact_name_of_a_backup_is_read() {
    let id = ProfileEditId {
        run: 1,
        sequence: 2,
    };
    assert_eq!(backup_name(id), "0000000000000001-0000000000000002.toml");
    assert_eq!(parse_name("../../elsewhere.toml"), None);
    assert_eq!(
        parse_name("0000000000000001-0000000000000002.toml"),
        Some(id)
    );
    let large = ProfileEditId {
        run: 0xfedc_ba98_7654_3210,
        sequence: u64::MAX,
    };
    assert_eq!(
        parse_name("fedcba9876543210-ffffffffffffffff.toml"),
        Some(large)
    );
    for other in [
        "",
        ".toml",
        "0000000000000001-0000000000000002",
        "0000000000000001-0000000000000002.toml.toml",
        "000000000000000A-0000000000000002.toml",
        "+000000000000001-0000000000000002.toml",
        "0000000000000001_0000000000000002.toml",
        "0000000000000001-00000000000000002.toml",
        "000000000000001g-0000000000000002.toml",
    ] {
        assert_eq!(parse_name(other), None, "{other}");
    }
    let name = backup_name(id);
    assert_eq!(backup_in_entry(&name, true), Some(id));
    assert_eq!(backup_in_entry(&name, false), None);
    assert_eq!(backup_in_entry("notes.txt", true), None);
}

#[test]
fn backups_are_listed_from_the_newest_and_keep_their_order_otherwise() {
    let aged = |sequence, created_unix_seconds| {
        let mut backup = backup();
        backup.created_unix_seconds = created_unix_seconds;
        (ProfileEditId { run: 1, sequence }, backup)
    };
    let sorted = sort_newest_first(vec![aged(1, 5), aged(2, 9), aged(3, 5), aged(4, 7)]);
    let order: Vec<u64> = sorted.iter().map(|(id, _)| id.sequence).collect();
    assert_eq!(order, [2, 4, 1, 3]);
    assert!(sort_newest_first(Vec::new()).is_empty());
}
