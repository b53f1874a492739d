use akri_discovery::digest::{get_device_instance_name, inner_generate_instance_digest, to_hex};

#[test]
fn test_generate_instance_digest() {
    let id = "video1";
    let first_unshared_video_digest = inner_generate_instance_digest(id, false, "node-a");
    let first_shared_video_digest = inner_generate_instance_digest(id, true, "node-a");
    let second_unshared_video_digest = inner_generate_instance_digest(id, false, "node-b");
    let second_shared_video_digest = inner_generate_instance_digest(id, true, "node-b");
    // unshared instances visible to different nodes should NOT have the same digest
    assert_ne!(first_unshared_video_digest, second_unshared_video_digest);
    // shared instances visible to different nodes should have the same digest
    assert_eq!(first_shared_video_digest, second_shared_video_digest);
}

#[test]
fn digest_is_six_lowercase_hex_characters() {
    let digest = inner_generate_instance_digest("cam1", true, "node-a");
    assert_eq!(digest.len(), 6);
    assert!(digest.chars().all(|c| c.is_ascii_digit() || ('a'..='f').contains(&c)));
    assert_eq!(digest, "6c5578");
    assert_eq!(inner_generate_instance_digest("cam1", false, "node-a"), "4661a4");
    assert_eq!(inner_generate_instance_digest("video1", true, ""), "cf97ff");
}

#[test]
fn to_hex_writes_two_digits_per_byte() {
    assert_eq!(to_hex(&[0x00, 0x0f, 0xa5, 0xff]), "000fa5ff");
    assert_eq!(to_hex(&[]), "");
}

#[test]
fn instance_name_joins_configuration_and_digest() {
    assert_eq!(get_device_instance_name("a1b2c3", "config-a"), "config-a-a1b2c3");
}
