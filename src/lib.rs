/// The codec: parsing objects into field values and writing them back.
pub mod codec;
/// Record type descriptors and their configuration rules.
pub mod descriptor;
/// The JSON value model and object entry operations.
pub mod json;
/// Laws that relate parsing, writing and the descriptor.
pub mod laws;
/// Checked descriptors and the public types they give.
pub mod object;
/// Named schemas, registered once each.
pub mod registry;
/// Rules that derive field keys from identifiers.
pub mod rename;
/// Object schemas derived from a descriptor.
pub mod schema;
