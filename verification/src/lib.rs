pub mod arabic;
pub mod cipher;
pub mod convert;
pub mod font;
pub mod laws;
pub mod layout;
pub mod layout_laws;
pub mod maps;
pub mod numbers;
pub mod offsets;
pub mod outside;
pub mod roundtrip;
pub mod sheet;
pub mod tables;
pub mod text;
pub mod utils;
