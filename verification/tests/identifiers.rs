use rivets::id_generation::{
    encode_base36, unix_timestamp, validate_id, IdGenerator, IdGeneratorConfig,
};

#[test]
fn test_base36_encoding() {
    let bytes = &[0x12, 0x34, 0x56, 0x78];
    let result = encode_base36(bytes, 4).unwrap();
    assert_eq!(result.len(), 4);
    assert!(result.chars().all(|c| c.is_ascii_alphanumeric()));
}

#[test]
fn base36_encoding_exact_values() {
    // 0x12345678 = 305419896 = "51u7i0" in base 36; the low four digits are kept.
    assert_eq!(encode_base36(&[0x12, 0x34, 0x56, 0x78], 4).unwrap(), "u7i0");
    assert_eq!(encode_base36(&[0x12, 0x34, 0x56, 0x78], 8).unwrap(), "0051u7i0");
    assert_eq!(encode_base36(&[], 3).unwrap(), "000");
    assert_eq!(
        encode_base36(&[1, 2], 0).unwrap_err(),
        "Length must be greater than 0"
    );
}

#[test]
fn base36_encoding_wraps_to_64_bits() {
    // A ninth byte shifts the first one out of the 64-bit accumulator.
    let nine = [0xff, 0, 0, 0, 0, 0, 0, 0, 0x01];
    let one = [0x01];
    assert_eq!(
        encode_base36(&nine, 6).unwrap(),
        encode_base36(&one, 6).unwrap()
    );
}

#[test]
fn test_adaptive_length() {
    let config_small = IdGeneratorConfig {
        prefix: "test".to_string(),
        database_size: 100,
    };
    let generator_small = IdGenerator::new(config_small);
    assert_eq!(generator_small.adaptive_length(), 4);

    let config_medium = IdGeneratorConfig {
        prefix: "test".to_string(),
        database_size: 800,
    };
    let generator_medium = IdGenerator::new(config_medium);
    assert_eq!(generator_medium.adaptive_length(), 5);

    let config_large = IdGeneratorConfig {
        prefix: "test".to_string(),
        database_size: 2000,
    };
    let generator_large = IdGenerator::new(config_large);
    assert_eq!(generator_large.adaptive_length(), 6);
}

#[test]
fn adaptive_length_boundaries() {
    for (size, expected) in [(0, 4), (500, 4), (501, 5), (1500, 5), (1501, 6)] {
        let generator = IdGenerator::new(IdGeneratorConfig {
            prefix: "p".to_string(),
            database_size: size,
        });
        assert_eq!(generator.adaptive_length(), expected, "size {size}");
    }
}

#[test]
fn test_id_generation() {
    let config = IdGeneratorConfig {
        prefix: "rivets".to_string(),
        database_size: 100,
    };
    let mut generator = IdGenerator::new(config);

    let id = generator
        .generate("Test Title", "Test Description", Some("alice"), None)
        .unwrap();

    assert!(id.starts_with("rivets-"));
    assert!(validate_id(&id, "rivets"));
}

#[test]
fn test_collision_handling() {
    let config = IdGeneratorConfig {
        prefix: "test".to_string(),
        database_size: 100,
    };
    let mut generator = IdGenerator::new(config);

    let id1 = generator
        .generate("Same Title", "Same Description", Some("alice"), None)
        .unwrap();
    let id2 = generator
        .generate("Same Title", "Same Description", Some("alice"), None)
        .unwrap();

    assert_ne!(id1, id2);
}

#[test]
fn test_hierarchical_ids() {
    let config = IdGeneratorConfig {
        prefix: "rivets".to_string(),
        database_size: 100,
    };
    let mut generator = IdGenerator::new(config);

    let parent_id = generator
        .generate("Parent", "Parent issue", None, None)
        .unwrap();

    let child_id1 = generator
        .generate("Child 1", "Child description", None, Some(&parent_id))
        .unwrap();
    let child_id2 = generator
        .generate("Child 2", "Child description", None, Some(&parent_id))
        .unwrap();

    assert_eq!(child_id1, format!("{}.1", parent_id));
    assert_eq!(child_id2, format!("{}.2", parent_id));

    assert!(validate_id(&child_id1, "rivets"));
    assert!(validate_id(&child_id2, "rivets"));
}

#[test]
fn test_nested_hierarchical_ids() {
    let config = IdGeneratorConfig {
        prefix: "rivets".to_string(),
        database_size: 100,
    };
    let mut generator = IdGenerator::new(config);

    let parent_id = generator.generate("Parent", "P", None, None).unwrap();
    let child_id = generator
        .generate("Child", "C", None, Some(&parent_id))
        .unwrap();
    let grandchild_id = generator
        .generate("Grandchild", "G", None, Some(&child_id))
        .unwrap();

    assert_eq!(grandchild_id, format!("{}.1", child_id));
    assert!(validate_id(&grandchild_id, "rivets"));
}

#[test]
fn test_id_validation() {
    assert!(validate_id("rivets-a3f8", "rivets"));
    assert!(validate_id("rivets-abc123", "rivets"));
    assert!(validate_id("rivets-a3f8.1", "rivets"));
    assert!(validate_id("rivets-a3f8.1.2", "rivets"));

    assert!(!validate_id("invalid", "rivets"));
    assert!(!validate_id("rivets-", "rivets"));
    assert!(!validate_id("rivets-ab", "rivets"));
    assert!(!validate_id("rivets-abcdefg", "rivets"));
    assert!(!validate_id("rivets-a3f8.x", "rivets"));
    assert!(!validate_id("wrong-a3f8", "rivets"));
}

#[test]
fn id_validation_child_indices_follow_u32_parsing() {
    assert!(validate_id("rivets-a3f8.+7", "rivets"));
    assert!(validate_id("rivets-a3f8.4294967295", "rivets"));
    assert!(!validate_id("rivets-a3f8.4294967296", "rivets"));
    assert!(!validate_id("rivets-a3f8.", "rivets"));
    assert!(!validate_id("rivets-a3f8..1", "rivets"));
    assert!(!validate_id("rivets-a3é8", "rivets"));
}

#[test]
fn test_register_existing_ids() {
    let config = IdGeneratorConfig {
        prefix: "test".to_string(),
        database_size: 100,
    };
    let mut generator = IdGenerator::new(config);

    generator.register_id("test-a3f8".to_string());
    generator.register_id("test-b4g9".to_string());

    let new_id = generator.generate("New", "Issue", None, None).unwrap();
    assert_ne!(new_id, "test-a3f8");
    assert_ne!(new_id, "test-b4g9");
}

#[test]
fn hash_id_is_a_function_of_its_inputs() {
    let generator = IdGenerator::new(IdGeneratorConfig {
        prefix: "rivets".to_string(),
        database_size: 100,
    });
    let a = generator
        .hash_id_at("Title", "Body", Some("alice"), 1_700_000_000, 0, 4)
        .unwrap();
    let b = generator
        .hash_id_at("Title", "Body", Some("alice"), 1_700_000_000, 0, 4)
        .unwrap();
    let c = generator
        .hash_id_at("Title", "Body", Some("alice"), 1_700_000_000, 1, 4)
        .unwrap();
    assert_eq!(a, b);
    assert_ne!(a, c);
    assert_eq!(a.len(), "rivets-".len() + 4);
    assert!(validate_id(&a, "rivets"));
    assert_eq!(
        generator
            .hash_id_at("Title", "Body", None, -5, 0, 0)
            .unwrap_err(),
        "Length must be greater than 0"
    );
}

#[test]
fn clock_readings_round_down_to_whole_seconds() {
    assert_eq!(unix_timestamp(Ok(1_700_000_000)), 1_700_000_000);
    assert_eq!(unix_timestamp(Ok(u64::MAX)), i64::MAX);
    assert_eq!(unix_timestamp(Err((3, 0))), -3);
    assert_eq!(unix_timestamp(Err((3, 1))), -4);
    assert_eq!(unix_timestamp(Err((u64::MAX, 1))), i64::MIN);
}

#[test]
fn generation_takes_the_first_free_nonce() {
    let config = IdGeneratorConfig {
        prefix: "demo".to_string(),
        database_size: 10,
    };
    let mut generator = IdGenerator::new(config);
    let now = 1_700_000_000;
    let nonce0 = generator.hash_id_at("T", "D", None, now, 0, 4).unwrap();
    let nonce1 = generator.hash_id_at("T", "D", None, now, 1, 4).unwrap();
    let first = generator.generate_at("T", "D", None, now).unwrap();
    assert_eq!(first, nonce0);
    assert_eq!(first.len(), "demo-".len() + 4);
    let second = generator.generate_at("T", "D", None, now).unwrap();
    assert_eq!(second, nonce1);
    assert!(validate_id(&second, "demo"));
}

#[test]
fn generation_falls_back_to_a_longer_id_only_when_all_nonces_are_taken() {
    let config = IdGeneratorConfig {
        prefix: "demo".to_string(),
        database_size: 10,
    };
    let mut generator = IdGenerator::new(config);
    let now = 42;
    for nonce in 0..100 {
        let id = generator.hash_id_at("T", "D", Some("c"), now, nonce, 4).unwrap();
        generator.register_id(id);
    }
    let longer = generator.hash_id_at("T", "D", Some("c"), now, 0, 5).unwrap();
    assert_eq!(generator.generate_at("T", "D", Some("c"), now).unwrap(), longer);
    assert_eq!(
        generator.generate_at("T", "D", Some("c"), now).unwrap_err(),
        "Unable to generate unique ID after 100 attempts"
    );
}
