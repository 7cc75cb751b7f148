use crate::error::ScnError;
use crate::reader::{
    le_value, nested_outcome, nested_view, parse_counted, parse_lists, parse_u32, read_counted, read_lists,
    seq_outcome, view_outcome, ByteReader, Record,
};
use vstd::prelude::*;

verus! {

/// A unit placed at scenario start. Coordinates and rotation are kept as the
/// bit patterns of the single-precision floats that the file stores.
#[derive(Clone, Copy, Debug, PartialEq, Eq, Structural)]
pub struct PlayerUnit {
    pub position_x_bits: u32,
    pub position_y_bits: u32,
    pub position_z_bits: u32,
    pub spawn_id: u32,
    pub unit_id: u16,
    pub state: u8,
    pub rotation_bits: u32,
}

impl Record for PlayerUnit {
    open spec fn parse(s: Seq<u8>, p: int) -> Result<(PlayerUnit, int), ScnError> {
        if 0 <= p && p + 23 <= s.len() {
            Ok(
                (
                    PlayerUnit {
                        position_x_bits: le_value(s, p, 4) as u32,
                        position_y_bits: le_value(s, p + 4, 4) as u32,
                        position_z_bits: le_value(s, p + 8, 4) as u32,
                        spawn_id: le_value(s, p + 12, 4) as u32,
                        unit_id: le_value(s, p + 16, 2) as u16,
                        state: s[p + 18],
                        rotation_bits: le_value(s, p + 19, 4) as u32,
                    },
                    p + 23,
                ),
            )
        } else {
            Err(ScnError::UnexpectedEndOfStream)
        }
    }

    fn read(r: &mut ByteReader) -> (res: Result<PlayerUnit, ScnError>) {
        let position_x_bits = r.read_u32()?;
        let position_y_bits = r.read_u32()?;
        let position_z_bits = r.read_u32()?;
        let spawn_id = r.read_u32()?;
        let unit_id = r.read_u16()?;
        let state = r.read_u8()?;
        let rotation_bits = r.read_u32()?;
        Ok(
            PlayerUnit {
                position_x_bits,
                position_y_bits,
                position_z_bits,
                spawn_id,
                unit_id,
                state,
                rotation_bits,
            },
        )
    }
}

/// A player's starting stockpile, each amount kept as the bit pattern of the
/// single-precision float that the file stores.
#[derive(Clone, Copy, Debug, PartialEq, Eq, Structural)]
pub struct PlayerResources {
    pub food_bits: u32,
    pub wood_bits: u32,
    pub gold_bits: u32,
    pub stone_bits: u32,
}

impl Record for PlayerResources {
    open spec fn parse(s: Seq<u8>, p: int) -> Result<(PlayerResources, int), ScnError> {
        if 0 <= p && p + 16 <= s.len() {
            Ok(
                (
                    PlayerResources {
                        food_bits: le_value(s, p, 4) as u32,
                        wood_bits: le_value(s, p + 4, 4) as u32,
                        gold_bits: le_value(s, p + 8, 4) as u32,
                        stone_bits: le_value(s, p + 12, 4) as u32,
                    },
                    p + 16,
                ),
            )
        } else {
            Err(ScnError::UnexpectedEndOfStream)
        }
    }

    fn read(r: &mut ByteReader) -> (res: Result<PlayerResources, ScnError>) {
        let food_bits = r.read_u32()?;
        let wood_bits = r.read_u32()?;
        let gold_bits = r.read_u32()?;
        let stone_bits = r.read_u32()?;
        Ok(PlayerResources { food_bits, wood_bits, gold_bits, stone_bits })
    }
}

/// A player slot's setup: whether it is in play, whether a human controls
/// it, and its civilization.
#[derive(Clone, Copy, Debug, PartialEq, Eq, Structural)]
pub struct PlayerCiv {
    pub active: u32,
    pub human: u32,
    pub civilization_id: u32,
    pub unknown: u32,
}

impl Record for PlayerCiv {
    open spec fn parse(s: Seq<u8>, p: int) -> Result<(PlayerCiv, int), ScnError> {
        if 0 <= p && p + 16 <= s.len() {
            Ok(
                (
                    PlayerCiv {
                        active: le_value(s, p, 4) as u32,
                        human: le_value(s, p + 4, 4) as u32,
                        civilization_id: le_value(s, p + 8, 4) as u32,
                        unknown: le_value(s, p + 12, 4) as u32,
                    },
                    p + 16,
                ),
            )
        } else {
            Err(ScnError::UnexpectedEndOfStream)
        }
    }

    fn read(r: &mut ByteReader) -> (res: Result<PlayerCiv, ScnError>) {
        let active = r.read_u32()?;
        let human = r.read_u32()?;
        let civilization_id = r.read_u32()?;
        let unknown = r.read_u32()?;
        Ok(PlayerCiv { active, human, civilization_id, unknown })
    }
}

/// One map tile; the file gives each tile a third byte that is not used.
#[derive(Clone, Copy, Debug, PartialEq, Eq, Structural)]
pub struct MapTile {
    pub terrain_id: u8,
    pub elevation: u8,
}

impl Record for MapTile {
    open spec fn parse(s: Seq<u8>, p: int) -> Result<(MapTile, int), ScnError> {
        if 0 <= p && p + 3 <= s.len() {
            Ok((MapTile { terrain_id: s[p], elevation: s[p + 1] }, p + 3))
        } else {
            Err(ScnError::UnexpectedEndOfStream)
        }
    }

    fn read(r: &mut ByteReader) -> (res: Result<MapTile, ScnError>) {
        let terrain_id = r.read_u8()?;
        let elevation = r.read_u8()?;
        r.read_u8()?;
        Ok(MapTile { terrain_id, elevation })
    }
}

/// The per-player setup section of a scenario body: a `u32` count and that
/// many player slots.
#[derive(Debug)]
pub struct PlayerData {
    pub player_civs: Vec<PlayerCiv>,
}

impl View for PlayerData {
    type V = Seq<PlayerCiv>;

    open spec fn view(&self) -> Seq<PlayerCiv> {
        self.player_civs@
    }
}

pub open spec fn parse_player_data(s: Seq<u8>, p: int) -> Result<(Seq<PlayerCiv>, int), ScnError> {
    parse_counted::<PlayerCiv>(s, p)
}

impl PlayerData {
    pub fn read_from_stream(r: &mut ByteReader) -> (res: Result<PlayerData, ScnError>)
        ensures
            final(r).data() == old(r).data(),
            parse_player_data(old(r).data(), old(r).pos()) == view_outcome(res, final(r).pos()),
    {
        let player_civs = read_counted::<PlayerCiv>(r)?;
        Ok(PlayerData { player_civs })
    }
}

/// What a terrain map holds: its size and its tiles, row by row.
pub struct MapModel {
    pub width: u32,
    pub height: u32,
    pub rows: Seq<Seq<MapTile>>,
}

/// The terrain section of a scenario body: `u32` width and height, then
/// `height` rows of `width` tiles each.
#[derive(Debug)]
pub struct TerrainMap {
    pub width: u32,
    pub height: u32,
    pub rows: Vec<Vec<MapTile>>,
}

impl View for TerrainMap {
    type V = MapModel;

    open spec fn view(&self) -> MapModel {
        MapModel { width: self.width, height: self.height, rows: nested_view(self.rows@) }
    }
}

pub open spec fn parse_map(s: Seq<u8>, p: int) -> Result<(MapModel, int), ScnError> {
    match parse_u32(s, p) {
        Ok((width, p1)) => match parse_u32(s, p1) {
            Ok((height, p2)) => match parse_lists::<MapTile>(s, p2, height as nat, Some(width)) {
                Ok((rows, p3)) => Ok((MapModel { width, height, rows }, p3)),
                Err(e) => Err(e),
            },
            Err(e) => Err(e),
        },
        Err(e) => Err(e),
    }
}

impl TerrainMap {
    pub fn read_from_stream(r: &mut ByteReader) -> (res: Result<TerrainMap, ScnError>)
        ensures
            final(r).data() == old(r).data(),
            parse_map(old(r).data(), old(r).pos()) == view_outcome(res, final(r).pos()),
    {
        let width = r.read_u32()?;
        let height = r.read_u32()?;
        let rows = read_lists::<MapTile>(r, height, Some(width))?;
        Ok(TerrainMap { width, height, rows })
    }
}

} // verus!
