//! Declarative JSON data generation.
//!
//! A schema describes the shape of the data to produce: field types,
//! cardinalities, probabilities, numeric ranges and cross-record references.
//! Generation walks the schema tree and produces a JSON value, deterministically
//! when a seed is supplied.

mod rng;
mod value;
mod strutil;
mod numfmt;
mod jsontext;
mod externs;
mod error;
mod locales;
mod fake_keys;
mod arguments;
mod key_parser;
mod provider;
mod config;
mod replacer;
mod count;
mod number;
mod field;
mod entity;
mod jgd;

pub use rng::Prng;
pub use value::{JsonValue, JsonV, str_eq};
pub use jsontext::{json_to_string, dec_to_string};
pub use error::JgdGeneratorError;
pub use locales::LocalesKeys;
pub use fake_keys::FakeKeys;
pub use arguments::{Arguments, ArgsV};
pub use key_parser::KeyParser;
pub use provider::FakeGenerator;
pub use config::{GeneratorConfig, LocalConfig};
pub use replacer::{Replacer, ReplacerCollection, ReplV};
pub use count::{Count, Len, GetCount, GetLength};
pub use number::NumberSpec;
pub use field::{Field, ArraySpec, OptionalSpec};
pub use entity::{Entity, fingerprint, generate_entities};
pub use jgd::{Jgd, default_locale, schema_from_json, json_to_entity, json_to_field};
