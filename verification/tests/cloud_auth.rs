use base64::engine::general_purpose;
use base64::Engine;
use ed25519_dalek::{Signature, Verifier, VerifyingKey};
use snaptext::cloud_auth::{
    cloud_register_endpoint, cloud_translate_endpoint, decode_private_key,
    default_snaptext_cloud_device_id, device_id_from_random, is_valid_cloud_device_id,
    normalize_cloud_device_id, path_and_query, registered_marker_file_name, CloudDeviceIdentity,
    StoredCloudDeviceIdentity, AUTH_CONTEXT,
};
use snaptext::config::SnapTextCloudConfig;

#[test]
fn generated_identity_uses_valid_config_device_id() {
    let identity =
        CloudDeviceIdentity::generate("snaptext-client-test".to_owned()).expect("identity");

    assert_eq!(identity.device_id(), "snaptext-client-test");
    assert_eq!(
        general_purpose::STANDARD
            .decode(identity.public_key_base64())
            .expect("public key")
            .len(),
        32
    );
}

#[test]
fn generated_identity_replaces_invalid_config_device_id() {
    let identity = CloudDeviceIdentity::generate("bad/device".to_owned()).expect("identity");

    assert!(identity.device_id().starts_with("snaptext-desktop-"));
}

#[test]
fn signs_cloud_request_using_server_canonical_shape() {
    let identity =
        CloudDeviceIdentity::generate("snaptext-client-test".to_owned()).expect("identity");
    let url = "https://example.com/v1/translate?debug=1";
    let signed = identity
        .sign_json_request_with_parts(
            "post",
            url,
            br#"{"text":"hello"}"#,
            "1710000000000".to_owned(),
            "nonce-123456".to_owned(),
        )
        .expect("signed request");

    let canonical = format!(
        "{AUTH_CONTEXT}\nPOST\n/v1/translate?debug=1\nsnaptext-client-test\n1710000000000\nnonce-123456\n{}",
        signed.body_sha256
    );
    let public_key: [u8; 32] = general_purpose::STANDARD
        .decode(identity.public_key_base64())
        .expect("public key")
        .try_into()
        .expect("public key len");
    let signature: [u8; 64] = general_purpose::STANDARD
        .decode(signed.signature)
        .expect("signature")
        .try_into()
        .expect("signature len");
    VerifyingKey::from_bytes(&public_key)
        .expect("verify key")
        .verify(canonical.as_bytes(), &Signature::from_bytes(&signature))
        .expect("valid signature");
}

#[test]
fn signed_request_hashes_the_body_in_lower_hex() {
    let identity = CloudDeviceIdentity::generate("snaptext-client-test".to_owned()).expect("identity");
    let signed = identity
        .sign_json_request_with_parts("POST", "https://example.com/v1/translate", b"abc", "1".to_owned(), "n".to_owned())
        .expect("signed request");

    assert_eq!(
        signed.body_sha256,
        "ba7816bf8f01cfea414140de5dae2223b00361a396177a9cb410ff61f20015ad"
    );
    assert_eq!(signed.timestamp_ms, "1");
    assert_eq!(signed.nonce, "n");
}

#[test]
fn signing_rejects_an_unparsable_url() {
    let identity = CloudDeviceIdentity::generate("snaptext-client-test".to_owned()).expect("identity");
    let err = identity
        .sign_json_request_with_parts("POST", "not a url", b"{}", "1".to_owned(), "n".to_owned())
        .expect_err("bad url");

    assert_eq!(err.message(), "config failed: invalid URL: not a url");
}

#[test]
fn fresh_signature_carries_time_and_nonce() {
    let identity = CloudDeviceIdentity::generate("snaptext-client-test".to_owned()).expect("identity");
    let signed = identity
        .sign_json_request("POST", "https://example.com/v1/translate", b"{}")
        .expect("signed request");

    assert!(signed.timestamp_ms.parse::<u64>().expect("timestamp") > 1_600_000_000_000);
    assert!(!signed.nonce.is_empty());
}

#[test]
fn identity_round_trips_through_its_stored_form() {
    let first = CloudDeviceIdentity::generate("snaptext-client-test".to_owned()).expect("identity");
    let stored = first.to_stored();
    let second = CloudDeviceIdentity::from_stored(StoredCloudDeviceIdentity {
        device_id: stored.device_id.clone(),
        private_key: stored.private_key.clone(),
    })
    .expect("second identity");

    assert_eq!(first.device_id(), second.device_id());
    assert_eq!(first.public_key_base64(), second.public_key_base64());
}

#[test]
fn stored_private_key_must_be_base64_of_32_bytes() {
    let short = decode_private_key(&general_purpose::STANDARD.encode([7u8; 16])).expect_err("short key");
    let garbage = decode_private_key("***").expect_err("not base64");
    let good = decode_private_key(&format!(" {} ", general_purpose::STANDARD.encode([9u8; 32])))
        .expect("key");

    assert!(short
        .message()
        .contains("cloud device private key must decode to 32 bytes"));
    assert!(garbage
        .message()
        .contains("cloud device private key is invalid"));
    assert_eq!(good, vec![9u8; 32]);
}

#[test]
fn device_ids_are_checked_by_length_and_characters() {
    assert!(is_valid_cloud_device_id("snaptext-client-test"));
    assert!(is_valid_cloud_device_id("abc_DEF-12"));
    assert!(!is_valid_cloud_device_id("short"));
    assert!(!is_valid_cloud_device_id("bad/device"));
    assert!(!is_valid_cloud_device_id(&"a".repeat(129)));
    assert_eq!(
        normalize_cloud_device_id("  device-0001 ".to_owned()).expect("id"),
        "device-0001"
    );
    let generated = normalize_cloud_device_id("x".to_owned()).expect("generated id");
    assert!(generated.starts_with("snaptext-desktop-"));
    assert!(is_valid_cloud_device_id(&generated));
}

#[test]
fn path_and_query_keep_the_request_target() {
    assert_eq!(
        path_and_query("https://example.com/v1/translate?debug=1").expect("path"),
        "/v1/translate?debug=1"
    );
    assert_eq!(path_and_query("https://example.com").expect("path"), "/");
    assert!(path_and_query("::").is_err());
}

#[test]
fn cloud_endpoints_join_below_the_configured_endpoint() {
    let config = SnapTextCloudConfig {
        endpoint: "http://127.0.0.1:8080".to_owned(),
        device_id: "snaptext-client-test".to_owned(),
        enabled: true,
    };

    assert_eq!(
        cloud_register_endpoint(&config).expect("register"),
        "http://127.0.0.1:8080/v1/auth/devices"
    );
    assert_eq!(
        cloud_translate_endpoint(&config).expect("translate"),
        "http://127.0.0.1:8080/v1/translate"
    );
}

#[test]
fn registration_marker_is_named_by_device_and_origin_digest() {
    let a = registered_marker_file_name("http://127.0.0.1:8080/api", "dev-12345678").expect("marker");
    let b = registered_marker_file_name("http://127.0.0.1:8080/other", "dev-12345678").expect("marker");
    let c = registered_marker_file_name("https://example.com", "dev-12345678").expect("marker");

    assert!(a.starts_with("cloud-device-registered-dev-12345678-"));
    assert!(a.ends_with(".marker"));
    assert_eq!(a.len(), "cloud-device-registered-dev-12345678-".len() + 16 + ".marker".len());
    assert_eq!(a, b);
    assert_ne!(a, c);
    assert!(registered_marker_file_name("nope", "dev-12345678").is_err());
}

#[test]
fn generated_device_id_is_prefix_and_hyphenated_uuid_v4() {
    let id = default_snaptext_cloud_device_id().expect("generated id");
    let uuid: Vec<char> = id.strip_prefix("snaptext-desktop-").expect("prefix").chars().collect();

    assert_eq!(id.len(), 53);
    assert_eq!(uuid.len(), 36);
    for (i, c) in uuid.iter().enumerate() {
        if [8, 13, 18, 23].contains(&i) {
            assert_eq!(*c, '-');
        } else {
            assert!(c.is_ascii_hexdigit() && !c.is_ascii_uppercase());
        }
    }
    assert_eq!(uuid[14], '4');
    assert!(['8', '9', 'a', 'b'].contains(&uuid[19]));
    assert_ne!(default_snaptext_cloud_device_id().expect("second id"), id);
    assert_eq!(normalize_cloud_device_id(id.clone()).expect("kept"), id);
}

#[test]
fn device_id_follows_the_random_bytes() {
    assert_eq!(
        device_id_from_random(&vec![0u8; 16]),
        "snaptext-desktop-00000000-0000-4000-8000-000000000000"
    );
    assert_eq!(
        device_id_from_random(&(0u8..16).collect::<Vec<u8>>()),
        "snaptext-desktop-00010203-0405-4607-8809-0a0b0c0d0e0f"
    );
}
