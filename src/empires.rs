use crate::error::ScnError;
use crate::reader::{field_text, le_value, parse_u16, ByteReader};
use vstd::prelude::*;

verus! {

/// What a player color entry holds.
pub struct ColorModel {
    pub name: Seq<u8>,
    pub id: u16,
    pub palette_index: u8,
}

/// A player color of the game data: a name, an id and the palette entry it
/// draws with.
#[derive(Debug)]
pub struct PlayerColor {
    pub name: Vec<u8>,
    pub id: u16,
    pub palette_index: u8,
}

impl View for PlayerColor {
    type V = ColorModel;

    open spec fn view(&self) -> ColorModel {
        ColorModel { name: self.name@, id: self.id, palette_index: self.palette_index }
    }
}

/// One color entry at `p`: a 30-byte name field, a `u16` id, two unused
/// bytes, the palette index and one more unused byte.
pub open spec fn parse_color(s: Seq<u8>, p: int) -> Result<(ColorModel, int), ScnError> {
    if 0 <= p && p + 36 <= s.len() {
        Ok(
            (
                ColorModel {
                    name: field_text(s.subrange(p, p + 30)),
                    id: le_value(s, p + 30, 2) as u16,
                    palette_index: s[p + 34],
                },
                p + 36,
            ),
        )
    } else {
        Err(ScnError::UnexpectedEndOfStream)
    }
}

/// `n` color entries read one after another from `p`.
pub open spec fn parse_colors(s: Seq<u8>, p: int, n: nat) -> Result<(Seq<ColorModel>, int), ScnError>
    decreases n,
{
    if n == 0 {
        Ok((Seq::empty(), p))
    } else {
        match parse_colors(s, p, (n - 1) as nat) {
            Ok((cs, q)) => match parse_color(s, q) {
                Ok((c, q2)) => Ok((cs.push(c), q2)),
                Err(e) => Err(e),
            },
            Err(e) => Err(e),
        }
    }
}

/// A `u16` count and that many color entries.
pub open spec fn parse_color_table(s: Seq<u8>, p: int) -> Result<(Seq<ColorModel>, int), ScnError> {
    match parse_u16(s, p) {
        Ok((n, q)) => parse_colors(s, q, n as nat),
        Err(e) => Err(e),
    }
}

pub open spec fn colors_view(v: Seq<PlayerColor>) -> Seq<ColorModel> {
    v.map_values(|c: PlayerColor| c@)
}

proof fn lemma_colors_error_persists(s: Seq<u8>, p: int, m: nat, n: nat)
    requires
        m <= n,
        parse_colors(s, p, m) is Err,
    ensures
        parse_colors(s, p, n) == parse_colors(s, p, m),
    decreases n,
{
    if n > m {
        lemma_colors_error_persists(s, p, m, (n - 1) as nat);
    }
}

impl PlayerColor {
    pub fn new() -> (r: PlayerColor)
        ensures
            r@.name.len() == 0,
            r.id == 0,
            r.palette_index == 0,
    {
        PlayerColor { name: Vec::new(), id: 0, palette_index: 0 }
    }

    fn read(cursor: &mut ByteReader) -> (res: Result<PlayerColor, ScnError>)
        ensures
            final(cursor).data() == old(cursor).data(),
            match res {
                Ok(c) => parse_color(old(cursor).data(), old(cursor).pos()) == Ok::<
                    (ColorModel, int),
                    ScnError,
                >((c@, final(cursor).pos())),
                Err(e) => parse_color(old(cursor).data(), old(cursor).pos()) == Err::<
                    (ColorModel, int),
                    ScnError,
                >(e),
            },
    {
        let mut color = PlayerColor::new();
        color.name = cursor.read_sized_str(30)?;
        color.id = cursor.read_u16()?;
        cursor.read_u16()?;
        color.palette_index = cursor.read_u8()?;
        cursor.read_u8()?;
        Ok(color)
    }
}

/// The game data that the palette of player colors belongs to.
#[derive(Debug)]
pub struct EmpiresDb {
    pub player_colors: Vec<PlayerColor>,
}

impl EmpiresDb {
    pub fn new() -> (r: EmpiresDb)
        ensures
            r.player_colors@.len() == 0,
    {
        EmpiresDb { player_colors: Vec::new() }
    }

    /// Reads a `u16` count and that many player colors, appending them to
    /// `player_colors` in file order. On a failure the colors read before it
    /// stay appended.
    pub fn read_player_colors(&mut self, cursor: &mut ByteReader) -> (res: Result<(), ScnError>)
        ensures
            final(cursor).data() == old(cursor).data(),
            match parse_color_table(old(cursor).data(), old(cursor).pos()) {
                Ok((cs, q)) => res is Ok && final(cursor).pos() == q && colors_view(
                    final(self).player_colors@,
                ) == colors_view(old(self).player_colors@) + cs,
                Err(e) => res == Err::<(), ScnError>(e) && final(self).player_colors@.len()
                    >= old(self).player_colors@.len() && final(self).player_colors@.subrange(
                    0,
                    old(self).player_colors@.len() as int,
                ) == old(self).player_colors@,
            },
    {
        let ghost s = cursor.data();
        let ghost start = old(self).player_colors@;
        let color_count = cursor.read_u16()?;
        let ghost p0 = cursor.pos();
        let mut i: u16 = 0;
        assert(colors_view(self.player_colors@) =~= colors_view(start) + Seq::<ColorModel>::empty());
        while i < color_count
            invariant
                i <= color_count,
                cursor.data() == s,
                s == old(cursor).data(),
                start == old(self).player_colors@,
                parse_u16(s, old(cursor).pos()) == Ok::<(u16, int), ScnError>((color_count, p0)),
                parse_colors(s, p0, i as nat) is Ok,
                parse_colors(s, p0, i as nat)->Ok_0.1 == cursor.pos(),
                colors_view(self.player_colors@) == colors_view(start) + parse_colors(
                    s,
                    p0,
                    i as nat,
                )->Ok_0.0,
                self.player_colors@.len() >= start.len(),
                self.player_colors@.subrange(0, start.len() as int) == start,
            decreases color_count - i,
        {
            match PlayerColor::read(cursor) {
                Ok(color) => {
                    let ghost prev = self.player_colors@;
                    let ghost cm = color@;
                    self.player_colors.push(color);
                    assert(colors_view(self.player_colors@) =~= colors_view(prev).push(cm));
                    assert(self.player_colors@.subrange(0, start.len() as int) =~= prev.subrange(
                        0,
                        start.len() as int,
                    ));
                    i = i + 1;
                },
                Err(e) => {
                    proof {
                        lemma_colors_error_persists(s, p0, (i + 1) as nat, color_count as nat);
                    }
                    return Err(e);
                },
            }
        }
        Ok(())
    }
}

} // verus!
