use stateless_architecture::{Blob, BlobError, BlobSeal, Json, JsonNumber, BLOB_VERSION};

fn obj(pairs: Vec<(&str, Json)>) -> Json {
    let mut j = Json::new_object();
    for (k, v) in pairs {
        j.insert(k, v);
    }
    j
}

fn num(v: u64) -> Json {
    Json::Number(JsonNumber::PosInt(v))
}

#[test]
fn blob_creation() {
    let blob = Blob::new("test://schema", obj(vec![("x", num(1))]));
    assert_eq!(blob.version, "0.1.0");
    assert_eq!(blob.schema, "test://schema");
    assert_eq!(blob.payload.get("x").and_then(|x| x.as_i64()), Some(1));
    assert!(blob.seal.is_none());
    assert!(blob.parent.is_none());
}

#[test]
fn state_blob_blob_hash_is_deterministic() {
    let blob = Blob::new("test://schema", obj(vec![("x", num(1))]));
    let h1 = blob.hash().unwrap();
    let h2 = blob.hash().unwrap();
    assert_eq!(h1, h2);
}

#[test]
fn state_blob_test_blob_hash_is_deterministic() {
    let blob = Blob::new("test://schema", obj(vec![("x", num(1))]));
    let h1 = blob.hash().unwrap();
    let h2 = blob.hash().unwrap();
    assert_eq!(h1, h2);
    assert_eq!(h1.len(), 64); // SHA-256 hex
}

#[test]
fn blob_hash_changes_with_payload() {
    let b1 = Blob::new("test://schema", obj(vec![("x", num(1))]));
    let b2 = Blob::new("test://schema", obj(vec![("x", num(2))]));
    assert_ne!(b1.hash().unwrap(), b2.hash().unwrap());
}

#[test]
fn blob_child_tracks_parent() {
    let parent = Blob::new("test://schema", obj(vec![("a", num(1))]));
    let child = parent.child(obj(vec![("a", num(2))])).unwrap();
    assert_eq!(child.parent, Some(parent.hash().unwrap()));
}

#[test]
fn blob_child_tracking() {
    let parent = Blob::new("test://schema", obj(vec![("a", num(1))]));
    let child = parent.child(obj(vec![("a", num(2))])).unwrap();
    assert_eq!(child.parent, Some(parent.hash().unwrap()));
}

#[test]
fn blob_validation_rejects_empty_version() {
    let mut blob = Blob::new("test://schema", Json::new_object());
    blob.version.clear();
    assert!(blob.validate().is_err());
}

#[test]
fn blob_validation_rejects_empty_fields() {
    let mut blob = Blob::new("test://schema", Json::new_object());
    blob.version.clear();
    assert!(blob.validate().is_err());
}

#[test]
fn blob_inequality() {
    let b1 = Blob::new("s", obj(vec![("x", num(1))]));
    let b2 = Blob::new("s", obj(vec![("x", num(2))]));
    assert_ne!(b1, b2);
}

#[test]
fn validation_messages() {
    let mut blob = Blob::new("test://schema", Json::new_object());
    assert_eq!(blob.validate(), Ok(()));
    blob.schema.clear();
    assert_eq!(blob.validate(), Err(BlobError::Validation("schema is required".into())));
    blob.version.clear();
    assert_eq!(blob.validate(), Err(BlobError::Validation("version is required".into())));
    assert_eq!(
        BlobError::Validation("version is required".into()).message(),
        "validation failed: version is required"
    );
}

#[test]
fn serialized_text_is_compact_json_in_member_order() {
    let blob = Blob::new_at("s", obj(vec![("x", num(1))]), 5);
    assert_eq!(BLOB_VERSION, "0.1.0");
    let bytes = blob.serialize().unwrap();
    assert_eq!(
        String::from_utf8(bytes).unwrap(),
        "{\"version\":\"0.1.0\",\"schema\":\"s\",\"timestamp\":\"1970-01-01T00:00:05Z\",\"payload\":{\"x\":1},\"seal\":null,\"parent\":null}"
    );
    assert_eq!(
        blob.hash().unwrap(),
        "b957e1319b6a43ec5cc3c3f32a6adb57e96d22dbcad83adc7de6f1f1edb28504"
    );
}

#[test]
fn json_text_escapes_and_numbers() {
    let j = Json::Array(vec![
        Json::from_str_value("a\"b\\c\nd\u{1}\u{8}\u{c}\r\té/"),
        Json::Number(JsonNumber::NegInt(-42)),
        Json::Number(JsonNumber::PosInt(u64::MAX)),
        Json::Number(JsonNumber::NegInt(i64::MIN)),
        Json::Number(JsonNumber::Float("1.5".into())),
        Json::Null,
        Json::Bool(false),
        Json::Array(vec![]),
        Json::new_object(),
    ]);
    assert_eq!(
        j.to_text(),
        "[\"a\\\"b\\\\c\\nd\\u0001\\b\\f\\r\\té/\",-42,18446744073709551615,-9223372036854775808,1.5,null,false,[],{}]"
    );
}

#[test]
fn object_members_stay_in_key_order() {
    let mut j = Json::new_object();
    assert!(j.insert("b", num(1)));
    assert!(j.insert("a", num(2)));
    assert!(j.insert("c", num(3)));
    assert!(j.insert("b", num(4)));
    assert_eq!(j.to_text(), "{\"a\":2,\"b\":4,\"c\":3}");
    assert_eq!(j.get("b"), Some(&num(4)));
    assert_eq!(j.get("z"), None);
    let mut not_object = Json::Null;
    assert!(!not_object.insert("a", num(1)));
    assert_eq!(not_object, Json::Null);
}

#[test]
fn timestamps_are_iso_8601_utc() {
    let at = |secs: u64| Blob::new_at("s", Json::Null, secs).timestamp;
    assert_eq!(at(0), "1970-01-01T00:00:00Z");
    assert_eq!(at(5), "1970-01-01T00:00:05Z");
    assert_eq!(at(68169600), "1972-02-29T00:00:00Z");
    assert_eq!(at(951782400), "2000-02-29T00:00:00Z");
    assert_eq!(at(1709164800), "2024-02-29T00:00:00Z");
    assert_eq!(at(1785960000), "2026-08-05T20:00:00Z");
    assert_eq!(at(4102444799), "2099-12-31T23:59:59Z");
    assert_eq!(at(4107542400), "2100-03-01T00:00:00Z");
    assert_eq!(at(253402300799), "9999-12-31T23:59:59Z");
}

#[test]
fn child_keeps_schema_and_takes_payload() {
    let parent = Blob::new_at("test://schema", num(1), 3);
    let child = parent.child(num(2)).unwrap();
    assert_eq!(child.schema, "test://schema");
    assert_eq!(child.payload, num(2));
    assert_eq!(child.version, BLOB_VERSION);
    assert_eq!(child.timestamp.len(), 20);
    assert!(child.timestamp.ends_with("Z"));
    assert_eq!(
        child.parent,
        Some(Blob::new_at("test://schema", num(1), 3).hash().unwrap())
    );
}

#[test]
fn hibernate_writes_the_sealed_blob() {
    let blob = Blob::new_at(
        "test://app",
        obj(vec![("title", Json::from_str_value("Hello")), ("count", num(42))]),
        7,
    );
    let sealed = blob.sealed("pw");
    assert_eq!(sealed.payload, Json::Null);
    assert_eq!(
        sealed.seal,
        Some(BlobSeal {
            algorithm: "XOR-REF".into(),
            ciphertext: "4beb3195c44cb7db4fab308afb285e2cde2396c4c071f0174120cc3b".into(),
            nonce: "30c952fab122c3f9759f02a6".into(),
        })
    );
    let bytes = blob.hibernate("pw").unwrap();
    assert_eq!(
        String::from_utf8(bytes).unwrap(),
        "{\"version\":\"0.1.0\",\"schema\":\"test://app\",\"timestamp\":\"1970-01-01T00:00:07Z\",\"payload\":null,\"seal\":{\"algorithm\":\"XOR-REF\",\"ciphertext\":\"4beb3195c44cb7db4fab308afb285e2cde2396c4c071f0174120cc3b\",\"nonce\":\"30c952fab122c3f9759f02a6\"},\"parent\":null}"
    );
}

#[test]
fn unseal_gives_back_the_payload_text() {
    let blob = Blob::new("test://app", obj(vec![("secret", Json::from_str_value("data"))]));
    let mut sealed = blob.sealed("correct-passphrase");
    let opened = sealed.unseal("correct-passphrase").unwrap().unwrap();
    assert_eq!(opened, blob.payload.to_text().into_bytes());
    assert!(sealed.seal.is_none());
    assert_eq!(sealed.schema, blob.schema);
    assert_eq!(sealed.timestamp, blob.timestamp);
}

#[test]
fn unseal_with_wrong_passphrase_gives_other_bytes() {
    let blob = Blob::new("test://app", obj(vec![("secret", Json::from_str_value("data"))]));
    let sealed = blob.sealed("correct-passphrase");
    let seal = sealed.seal.as_ref().unwrap();
    let wrong = seal.open("wrong-passphrase").unwrap();
    assert_ne!(wrong, blob.payload.to_text().into_bytes());
}

#[test]
fn unseal_of_unsealed_blob_is_none() {
    let mut blob = Blob::new("test://app", Json::Null);
    assert_eq!(blob.unseal("x"), Ok(None));
}

#[test]
fn bad_ciphertext_is_a_seal_error() {
    let seal = BlobSeal { algorithm: "XOR-REF".into(), ciphertext: "abc".into(), nonce: "".into() };
    assert_eq!(seal.open("p"), Err(BlobError::Seal("Odd number of digits".into())));
    let seal = BlobSeal { algorithm: "XOR-REF".into(), ciphertext: "zz".into(), nonce: "".into() };
    assert_eq!(seal.open("p"), Err(BlobError::Seal("Invalid character 'z' at position 0".into())));
    let seal = BlobSeal { algorithm: "XOR-REF".into(), ciphertext: "0aF\n".into(), nonce: "".into() };
    assert_eq!(seal.open("p"), Err(BlobError::Seal("Invalid character '\\n' at position 3".into())));
    let seal = BlobSeal { algorithm: "XOR-REF".into(), ciphertext: "".into(), nonce: "".into() };
    assert_eq!(seal.open("p"), Ok(vec![]));
}

#[test]
fn duplicate_is_equal() {
    let blob = Blob::new("test://app", obj(vec![("a", Json::Array(vec![num(1), Json::Null]))]));
    let copy = blob.duplicate();
    assert_eq!(copy, blob);
}

#[test]
fn clone_is_a_deep_copy() {
    let blob = Blob::new("test://app", obj(vec![("list", Json::Array(vec![num(1), Json::from_str_value("x")]))]));
    let copy = blob.clone();
    assert_eq!(copy, blob);
    assert_eq!(copy.payload.to_text(), blob.payload.to_text());
}

#[test]
fn hibernated_blob_has_null_payload_and_a_seal_that_opens() {
    let blob = Blob::new(
        "test://app",
        obj(vec![("title", Json::from_str_value("Hello")), ("count", num(42))]),
    );
    let bytes = blob.hibernate("my-secret-passphrase").unwrap();
    let mut sealed = blob.sealed("my-secret-passphrase");
    assert_eq!(bytes, sealed.to_json_text().into_bytes());
    assert!(sealed.seal.is_some());
    assert_eq!(sealed.payload, Json::Null);
    let opened = sealed.unseal("my-secret-passphrase").unwrap().unwrap();
    assert_eq!(String::from_utf8(opened).unwrap(), "{\"count\":42,\"title\":\"Hello\"}");
    assert!(sealed.seal.is_none());
}
