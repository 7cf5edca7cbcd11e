//! Keyboard-layout transliteration: converts text typed on one keyboard
//! layout into the characters the same physical keys produce on another
//! layout. Substitution tables between a hub layout (Qwerty) and each
//! peripheral layout are authored directly; every remaining ordered pair is
//! derived from them by inversion and hub-mediated composition.

pub mod assoc;
pub mod charmap;
pub mod keymaps;
pub mod layouts;
pub mod models;
pub mod seeds;
pub mod transcode;

pub use charmap::combine_maps;
pub use charmap::invert_map;
pub use charmap::CharMap;
pub use keymaps::create_keymaps;
pub use keymaps::generate_composite_maps;
pub use keymaps::generate_inverse_maps;
pub use keymaps::KeymapStore;
pub use layouts::LayoutCode;
pub use layouts::UnknownLayout;
pub use models::TextSchema;
pub use seeds::qwerty_to_colemak;
pub use seeds::qwerty_to_dvorak;
pub use seeds::qwerty_to_russian;
pub use transcode::convert_text;
pub use transcode::parallel_convert_text;
