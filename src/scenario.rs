use crate::error::ScnError;
use crate::header::{parse_header, supported_version, HeaderModel, ScenarioHeader, INSTRUCTIONS_LIMIT};
use crate::inflate::{inflate, inflated};
use crate::reader::{
    le_value, lemma_lists_length, nested_view, parse_counted, parse_lists, parse_u32, read_counted, read_lists, ByteReader,
};
use crate::records::{
    parse_map, parse_player_data, MapModel, PlayerCiv, PlayerData, PlayerResources, PlayerUnit,
    TerrainMap,
};
use vstd::prelude::*;

verus! {

/// What a decoded scenario holds.
pub struct ScenarioModel {
    pub header: HeaderModel,
    pub player_data: Seq<PlayerCiv>,
    pub player_resources: Seq<PlayerResources>,
    pub player_units: Seq<Seq<PlayerUnit>>,
    pub map: MapModel,
}

/// The sections of a decompressed body up to the unit lists: player data,
/// map, the number of unit lists, the resources, and where they end.
pub open spec fn parse_body_front(b: Seq<u8>) -> Result<
    (Seq<PlayerCiv>, MapModel, u32, Seq<PlayerResources>, int),
    ScnError,
> {
    match parse_u32(b, 0) {
        Ok((_reserved, p1)) => match parse_player_data(b, p1) {
            Ok((player_data, p2)) => match parse_map(b, p2) {
                Ok((map, p3)) => match parse_u32(b, p3) {
                    Ok((group_count, p4)) => match parse_counted::<PlayerResources>(b, p4) {
                        Ok((resources, p5)) => Ok((player_data, map, group_count, resources, p5)),
                        Err(e) => Err(e),
                    },
                    Err(e) => Err(e),
                },
                Err(e) => Err(e),
            },
            Err(e) => Err(e),
        },
        Err(e) => Err(e),
    }
}

/// A scenario whose header is `header` and whose decompressed body is `b`.
pub open spec fn parse_body(header: HeaderModel, b: Seq<u8>) -> Result<ScenarioModel, ScnError> {
    match parse_body_front(b) {
        Ok((player_data, map, group_count, player_resources, p5)) => match parse_lists::<
            PlayerUnit,
        >(b, p5, group_count as nat, None) {
            Ok((player_units, _)) => Ok(
                ScenarioModel { header, player_data, player_resources, player_units, map },
            ),
            Err(e) => Err(e),
        },
        Err(e) => Err(e),
    }
}

/// The scenario that the bytes of a whole file decode to.
pub open spec fn decode(data: Seq<u8>) -> Result<ScenarioModel, ScnError> {
    match parse_header(data) {
        Ok((header, p)) => match inflated(data.subrange(p, data.len() as int)) {
            Some(body) => parse_body(header, body),
            None => Err(ScnError::DecompressionFailure),
        },
        Err(e) => Err(e),
    }
}

/// A decoded scenario file.
#[derive(Debug)]
pub struct Scenario {
    header: ScenarioHeader,
    pub player_data: PlayerData,
    player_resources: Vec<PlayerResources>,
    player_units: Vec<Vec<PlayerUnit>>,
    pub map: TerrainMap,
}

impl View for Scenario {
    type V = ScenarioModel;

    closed spec fn view(&self) -> ScenarioModel {
        ScenarioModel {
            header: self.header@,
            player_data: self.player_data@,
            player_resources: self.player_resources@,
            player_units: nested_view(self.player_units@),
            map: self.map@,
        }
    }
}

/// A decode's result seen through the scenario's view.
pub open spec fn scenario_outcome(r: Result<Scenario, ScnError>) -> Result<ScenarioModel, ScnError> {
    match r {
        Ok(s) => Ok(s@),
        Err(e) => Err(e),
    }
}

impl Scenario {
    /// The resources of player `player_id`.
    pub fn player_resources(&self, player_id: usize) -> (r: &PlayerResources)
        requires
            player_id < self@.player_resources.len(),
        ensures
            *r == self@.player_resources[player_id as int],
    {
        &self.player_resources[player_id]
    }

    /// The units of player `player_id`, in file order.
    pub fn player_units(&self, player_id: usize) -> (r: &Vec<PlayerUnit>)
        requires
            player_id < self@.player_units.len(),
        ensures
            r@ == self@.player_units[player_id as int],
    {
        &self.player_units[player_id]
    }

    /// The civilization of player `player_id`.
    pub fn player_civilization_id(&self, player_id: usize) -> (r: u32)
        requires
            player_id < self@.player_data.len(),
        ensures
            r == self@.player_data[player_id as int].civilization_id,
    {
        self.player_data.player_civs[player_id].civilization_id
    }

    /// The players that the scenario has unit lists for: `0` up to their
    /// number.
    pub fn player_ids(&self) -> (r: Vec<usize>)
        ensures
            r@.len() == self@.player_units.len(),
            forall|i: int| 0 <= i < r@.len() ==> r@[i] == i,
    {
        let n = self.player_units.len();
        let mut ids: Vec<usize> = Vec::new();
        let mut i: usize = 0;
        while i < n
            invariant
                n == self@.player_units.len(),
                i <= n,
                ids@.len() == i,
                forall|j: int| 0 <= j < i ==> ids@[j] == j,
            decreases n - i,
        {
            ids.push(i);
            i = i + 1;
        }
        ids
    }

    /// Decodes the decompressed body of a file whose header is `header`.
    pub fn read_body(header: ScenarioHeader, body: &[u8]) -> (res: Result<Scenario, ScnError>)
        ensures
            parse_body(header@, body@) == scenario_outcome(res),
    {
        let mut r = ByteReader::new(body);
        let _reserved = r.read_u32()?;
        let player_data = PlayerData::read_from_stream(&mut r)?;
        let map = TerrainMap::read_from_stream(&mut r)?;
        let group_count = r.read_u32()?;
        let player_resources = read_counted::<PlayerResources>(&mut r)?;
        let player_units = read_lists::<PlayerUnit>(&mut r, group_count, None)?;
        Ok(Scenario { header, player_data, player_resources, player_units, map })
    }

    /// Decodes a whole scenario file: the header, then the deflate-compressed
    /// body after it.
    pub fn read_from_stream(data: &[u8]) -> (res: Result<Scenario, ScnError>)
        ensures
            decode(data@) == scenario_outcome(res),
    {
        let mut r = ByteReader::new(data);
        let header = ScenarioHeader::read_from_stream(&mut r)?;
        let rest = r.remaining();
        match inflate(rest) {
            Some(body) => Scenario::read_body(header, body.as_slice()),
            None => Err(ScnError::DecompressionFailure),
        }
    }
}

/// Every successful decode has exactly as many unit lists as the body's
/// unit list count declares.
pub proof fn lemma_unit_groups_match_count(data: Seq<u8>)
    requires
        decode(data) is Ok,
    ensures
        ({
            let (header, p) = parse_header(data)->Ok_0;
            let body = inflated(data.subrange(p, data.len() as int))->Some_0;
            decode(data)->Ok_0.player_units.len() == parse_body_front(body)->Ok_0.2
        }),
{
    let (header, p) = parse_header(data)->Ok_0;
    let body = inflated(data.subrange(p, data.len() as int))->Some_0;
    let (_, _, n, _, p5) = parse_body_front(body)->Ok_0;
    lemma_lists_length::<PlayerUnit>(body, p5, n as nat, None);
}

/// A file whose first four bytes are not the supported version text fails
/// with `UnrecognizedVersion`.
pub proof fn lemma_wrong_version_rejected(data: Seq<u8>)
    requires
        data.len() >= 4,
        data.subrange(0, 4) != supported_version(),
    ensures
        decode(data) == Err::<ScenarioModel, ScnError>(ScnError::UnrecognizedVersion),
{
}

/// A file of the supported version whose declared instructions length is
/// over the limit fails with `InstructionsTooLarge`, whatever follows.
pub proof fn lemma_long_instructions_rejected(data: Seq<u8>)
    requires
        data.len() >= 20,
        data.subrange(0, 4) == supported_version(),
        le_value(data, 16, 4) as u32 > INSTRUCTIONS_LIMIT,
    ensures
        decode(data) == Err::<ScenarioModel, ScnError>(ScnError::InstructionsTooLarge),
{
}

/// A file that ends inside the version text, or inside the fixed fields
/// after a supported version, fails with `UnexpectedEndOfStream`.
pub proof fn lemma_truncated_header_rejected(data: Seq<u8>)
    requires
        data.len() < 4 || (data.len() < 20 && data.subrange(0, 4) == supported_version()),
    ensures
        decode(data) == Err::<ScenarioModel, ScnError>(ScnError::UnexpectedEndOfStream),
{
}

/// Decoding is a function of the bytes: two results that
/// `Scenario::read_from_stream` may give for one byte sequence are equal in
/// every field, or are the same error.
pub proof fn lemma_decode_deterministic(
    data: Seq<u8>,
    first: Result<Scenario, ScnError>,
    second: Result<Scenario, ScnError>,
)
    requires
        decode(data) == scenario_outcome(first),
        decode(data) == scenario_outcome(second),
    ensures
        scenario_outcome(first) == scenario_outcome(second),
{
}

} // verus!
