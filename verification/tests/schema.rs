use drysua::checkpoint::SchemaLink;
use drysua::linked_schema::{
    linked_schema_hash, CHECKPOINT_SCHEMA_DESCRIPTOR, LEAGUE_SCHEMA_DESCRIPTOR,
};
use drysua::reward_schema::{
    MAP2_REWARD_V1_DESCRIPTOR, MAP2_REWARD_V1_HASH, MAP2_REWARD_V3_DESCRIPTOR, MAP2_REWARD_V3_HASH,
};
use drysua::schema::{
    fnv1a, ACTION_SCHEMA_DESCRIPTOR, ACTION_SCHEMA_HASH, FEATURE_SCHEMA_DESCRIPTOR,
    FEATURE_SCHEMA_HASH,
};

#[test]
fn hashes_belong_to_their_descriptors() {
    assert_eq!(fnv1a(b""), 0xcbf2_9ce4_8422_2325);
    assert_eq!(fnv1a(b"a"), 0xaf63_dc4c_8601_ec8c);
    assert_eq!(fnv1a(ACTION_SCHEMA_DESCRIPTOR.as_bytes()), ACTION_SCHEMA_HASH);
    assert_eq!(fnv1a(FEATURE_SCHEMA_DESCRIPTOR.as_bytes()), FEATURE_SCHEMA_HASH);
    assert_eq!(fnv1a(MAP2_REWARD_V1_DESCRIPTOR.as_bytes()), MAP2_REWARD_V1_HASH);
    assert_eq!(fnv1a(MAP2_REWARD_V3_DESCRIPTOR.as_bytes()), MAP2_REWARD_V3_HASH);
}

#[test]
fn linked_hashes_cover_every_link() {
    let links = vec![SchemaLink { version: 1, hash: 2 }, SchemaLink { version: 3, hash: 4 }];
    let mut bytes = LEAGUE_SCHEMA_DESCRIPTOR.as_bytes().to_vec();
    for link in &links {
        bytes.extend_from_slice(&link.version.to_le_bytes());
        bytes.extend_from_slice(&link.hash.to_le_bytes());
    }
    bytes.extend_from_slice(b"reward");

    assert_eq!(linked_schema_hash(LEAGUE_SCHEMA_DESCRIPTOR, &links, "reward"), fnv1a(&bytes));
    assert_ne!(
        linked_schema_hash(CHECKPOINT_SCHEMA_DESCRIPTOR, &links, "reward"),
        linked_schema_hash(LEAGUE_SCHEMA_DESCRIPTOR, &links, "reward")
    );
}
