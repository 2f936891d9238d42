use pig_pen::registry::BotRegistry;

fn register(reg: &mut BotRegistry, bytes: &[u8], id: &str) -> (String, bool) {
    reg.register_component(
        &bytes.to_vec(),
        id.to_string(),
        "strategy".to_string(),
        None,
        format!("bots/{}.wasm", id),
        "2024-01-01T00:00:00Z".to_string(),
    )
}

#[test]
fn duplicate_bytes_reuse_the_bot_id() {
    let mut reg = BotRegistry::new();
    let (first_id, fresh) = register(&mut reg, b"component bytes", "bot-1");
    assert_eq!(first_id, "bot-1");
    assert!(fresh);
    let (second_id, fresh2) = register(&mut reg, b"component bytes", "bot-2");
    assert_eq!(second_id, "bot-1");
    assert!(!fresh2);
    assert_eq!(reg.bots.len(), 1);
}

#[test]
fn differing_byte_yields_a_new_id() {
    let mut reg = BotRegistry::new();
    register(&mut reg, b"component bytes", "bot-1");
    let (id, fresh) = register(&mut reg, b"component byteZ", "bot-2");
    assert_eq!(id, "bot-2");
    assert!(fresh);
    assert_eq!(reg.bots.len(), 2);
}

#[test]
fn content_hash_is_the_sha256_hex_digest() {
    let mut reg = BotRegistry::new();
    register(&mut reg, b"abc", "bot-1");
    assert_eq!(
        reg.bots[0].wasm_hash,
        "ba7816bf8f01cfea414140de5dae2223b00361a396177a9cb410ff61f20015ad"
    );
}

#[test]
fn record_fields_are_stored() {
    let mut reg = BotRegistry::new();
    let (_, _) = register(&mut reg, b"abc", "bot-1");
    let bot = &reg.bots[0];
    assert_eq!(bot.id, "bot-1");
    assert_eq!(bot.name, "strategy");
    assert_eq!(bot.description, None);
    assert_eq!(bot.file_path, "bots/bot-1.wasm");
    assert_eq!(bot.created_at, "2024-01-01T00:00:00Z");
}
