//! Reading and writing the metadata of lakehouse tables: the textual
//! table-metadata documents of format versions 1 and 2, and the records of
//! the binary manifest list.
//!
//! Every codec works on a tree: [`json::Json`] for the textual form,
//! [`avro::AvroValue`] for the binary one. Each is given by a pair of
//! mathematical functions over the view of the tree, and the executable
//! code is proved to compute exactly those functions. The traits
//! [`codec::Codec`] and [`avro::AvroCodec`] also ask every type for the
//! proof that decoding what was encoded gives the value back.
//!
//! Text is read and written by `serde_json`, container files by
//! `apache_avro`, UUIDs by `uuid`; what is taken from them on trust is
//! marked where it is called.

pub mod avro;
pub mod codec;
pub mod error;
pub mod json;
pub mod manifest_list;
pub mod manifest_list_avro_schema;
pub mod partition_spec;
pub mod schema;
pub mod snapshot;
pub mod sort_orders;
pub mod table_metadata;
pub mod text;
