//! Structured actions, policy features, behavioral training, and checkpoints of one
//! seat of a two-sided lane game, with every rule stated as a contract and proved.

pub mod ability_feature;
pub mod action;
pub mod archive;
pub mod arena;
pub mod artifact;
pub mod assembly;
pub mod behavioral_target;
pub mod boundary_laws;
pub mod candidate_laws;
pub mod candidates;
pub mod checkpoint;
pub mod checkpoint_codec;
pub mod construction;
pub mod coverage;
pub mod cuts;
pub mod descriptions;
pub mod digest;
pub mod encoder;
pub mod evaluation;
pub mod evaluation_laws;
pub mod events;
pub mod feature_laws;
pub mod frame;
pub mod frame_laws;
pub mod global_feature;
pub mod global_features;
pub mod ground_laws;
pub mod history_feature;
pub mod imitation_error;
pub mod item_feature;
pub mod item_features;
pub mod label_laws;
pub mod laning;
pub mod laning_laws;
pub mod laning_observer;
pub mod league;
pub mod league_laws;
pub mod legality_laws;
pub mod linked_schema;
pub mod local_policy;
pub mod loot_feature;
pub mod manifest;
pub mod map_context;
pub mod map_features;
pub mod masks;
pub mod map_laws;
pub mod mastery;
pub mod model;
pub mod nearness;
pub mod observation;
pub mod observer_laws;
pub mod order;
pub mod packing;
pub mod passability;
pub mod point_feature;
pub mod points;
pub mod pool;
pub mod projectile_feature;
pub mod promotion;
pub mod reward_schema;
pub mod run_laws;
pub mod sample;
pub mod scalar;
pub mod schema;
pub mod search;
pub mod seeds;
pub mod settings;
pub mod shop;
pub mod shuffle;
pub mod sources;
pub mod space;
pub mod storage;
pub mod text;
pub mod token_features;
pub mod token_laws;
pub mod tools;
pub mod tracker;
pub mod training;
pub mod training_checkpoint;
pub mod training_laws;
pub mod unit_feature;
pub mod unit_features;
pub mod validation;
pub mod walking;
pub mod world;
