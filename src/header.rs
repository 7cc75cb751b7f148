use crate::error::ScnError;
use crate::reader::{
    parse_bytes, parse_i32, parse_sized_str, parse_u32, view_outcome, ByteReader,
};
use vstd::prelude::*;

verus! {

/// The longest instructions text, in bytes, that a header may declare.
pub const INSTRUCTIONS_LIMIT: u32 = 524288;

/// The one supported version text, "1.11".
pub open spec fn supported_version() -> Seq<u8> {
    seq![0x31u8, 0x2e, 0x31, 0x31]
}

/// What a scenario header holds.
pub struct HeaderModel {
    pub version: Seq<u8>,
    pub length: u32,
    pub save_type: i32,
    pub last_save_time: u32,
    pub instructions: Seq<u8>,
    pub victory_type: u32,
    pub player_count: u32,
}

/// The uncompressed start of a scenario file.
#[derive(Debug)]
pub struct ScenarioHeader {
    pub version: Vec<u8>,
    pub length: u32,
    pub save_type: i32,
    pub last_save_time: u32,
    pub instructions: Vec<u8>,
    pub victory_type: u32,
    pub player_count: u32,
}

impl View for ScenarioHeader {
    type V = HeaderModel;

    open spec fn view(&self) -> HeaderModel {
        HeaderModel {
            version: self.version@,
            length: self.length,
            save_type: self.save_type,
            last_save_time: self.last_save_time,
            instructions: self.instructions@,
            victory_type: self.victory_type,
            player_count: self.player_count,
        }
    }
}

/// The header's fields after the instructions text, read at `p`.
pub open spec fn parse_header_tail(
    s: Seq<u8>,
    p: int,
    version: Seq<u8>,
    length: u32,
    save_type: i32,
    last_save_time: u32,
    instructions: Seq<u8>,
) -> Result<(HeaderModel, int), ScnError> {
    match parse_u32(s, p) {
        Ok((victory_type, p1)) => match parse_u32(s, p1) {
            Ok((player_count, p2)) => Ok(
                (
                    HeaderModel {
                        version,
                        length,
                        save_type,
                        last_save_time,
                        instructions,
                        victory_type,
                        player_count,
                    },
                    p2,
                ),
            ),
            Err(e) => Err(e),
        },
        Err(e) => Err(e),
    }
}

/// The declared instructions length and where it ends, once the version
/// has been accepted and the three fields before it read.
pub open spec fn parse_header_front(s: Seq<u8>) -> Result<(u32, i32, u32, u32, int), ScnError> {
    match parse_bytes(s, 0, 4) {
        Ok((version, p0)) => if version != supported_version() {
            Err(ScnError::UnrecognizedVersion)
        } else {
            match parse_u32(s, p0) {
                Ok((length, p1)) => match parse_i32(s, p1) {
                    Ok((save_type, p2)) => match parse_u32(s, p2) {
                        Ok((last_save_time, p3)) => match parse_u32(s, p3) {
                            Ok((n, p4)) => Ok((length, save_type, last_save_time, n, p4)),
                            Err(e) => Err(e),
                        },
                        Err(e) => Err(e),
                    },
                    Err(e) => Err(e),
                },
                Err(e) => Err(e),
            }
        },
        Err(e) => Err(e),
    }
}

/// A header read from the start of `s`, and where it ends.
pub open spec fn parse_header(s: Seq<u8>) -> Result<(HeaderModel, int), ScnError> {
    match parse_header_front(s) {
        Ok((length, save_type, last_save_time, n, p4)) => if n > INSTRUCTIONS_LIMIT {
            Err(ScnError::InstructionsTooLarge)
        } else {
            match parse_sized_str(s, p4, n as nat) {
                Ok((instructions, p5)) => parse_header_tail(
                    s,
                    p5,
                    supported_version(),
                    length,
                    save_type,
                    last_save_time,
                    instructions,
                ),
                Err(e) => Err(e),
            }
        },
        Err(e) => Err(e),
    }
}

impl ScenarioHeader {
    /// Reads a header from a reader at the start of a file. A wrong version
    /// stops the read after the four version bytes; a too long instructions
    /// text stops it right after the declared length, before the text.
    pub fn read_from_stream(r: &mut ByteReader) -> (res: Result<ScenarioHeader, ScnError>)
        requires
            old(r).pos() == 0,
        ensures
            final(r).data() == old(r).data(),
            parse_header(old(r).data()) == view_outcome(res, final(r).pos()),
            res == Err::<ScenarioHeader, ScnError>(ScnError::UnrecognizedVersion) ==> final(r).pos()
                == 4,
            res == Err::<ScenarioHeader, ScnError>(ScnError::InstructionsTooLarge) ==> final(r).pos()
                == 20,
    {
        let v = r.read_bytes(4)?;
        if !(v[0] == 0x31 && v[1] == 0x2e && v[2] == 0x31 && v[3] == 0x31) {
            proof {
                assert(v@[0] != 0x31 || v@[1] != 0x2e || v@[2] != 0x31 || v@[3] != 0x31);
                assert(v@ != supported_version());
            }
            return Err(ScnError::UnrecognizedVersion);
        }
        assert(v@ =~= supported_version());
        let version = vstd::slice::slice_to_vec(v);
        let length = r.read_u32()?;
        let save_type = r.read_i32()?;
        let last_save_time = r.read_u32()?;
        let n = r.read_u32()?;
        if n > INSTRUCTIONS_LIMIT {
            return Err(ScnError::InstructionsTooLarge);
        }
        let instructions = r.read_sized_str(n as usize)?;
        let victory_type = r.read_u32()?;
        let player_count = r.read_u32()?;
        Ok(
            ScenarioHeader {
                version,
                length,
                save_type,
                last_save_time,
                instructions,
                victory_type,
                player_count,
            },
        )
    }
}

} // verus!
