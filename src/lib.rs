//! Decoder for scenario files: an uncompressed header followed by a
//! deflate-compressed body of count-prefixed record sections.


mod empires;
mod error;
mod header;
mod inflate;
mod reader;
mod records;
mod scenario;


pub use empires::{EmpiresDb, PlayerColor};
pub use error::ScnError;
pub use header::{ScenarioHeader, INSTRUCTIONS_LIMIT};
pub use reader::{read_array, read_counted, read_list, read_lists, ByteReader, Record};
pub use records::{MapTile, PlayerCiv, PlayerData, PlayerResources, PlayerUnit, TerrainMap};
pub use scenario::Scenario;
