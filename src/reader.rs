use crate::error::ScnError;
use vstd::prelude::*;

verus! {

/// Pairs a read's result with the position reached, the shape of every
/// parsing spec function here.
pub open spec fn outcome<T>(r: Result<T, ScnError>, q: int) -> Result<(T, int), ScnError> {
    match r {
        Ok(v) => Ok((v, q)),
        Err(e) => Err(e),
    }
}

/// `outcome` for a result that holds a vector, seen as a sequence.
pub open spec fn seq_outcome<T>(r: Result<Vec<T>, ScnError>, q: int) -> Result<(Seq<T>, int), ScnError> {
    match r {
        Ok(v) => Ok((v@, q)),
        Err(e) => Err(e),
    }
}

/// `outcome` for a result seen through its view.
pub open spec fn view_outcome<T: View>(r: Result<T, ScnError>, q: int) -> Result<(T::V, int), ScnError> {
    match r {
        Ok(v) => Ok((v@, q)),
        Err(e) => Err(e),
    }
}

/// Little-endian value of the `n` bytes of `s` starting at `p`.
pub open spec fn le_value(s: Seq<u8>, p: int, n: nat) -> int
    decreases n,
{
    if n == 0 {
        0
    } else {
        s[p] as int + 256 * le_value(s, p + 1, (n - 1) as nat)
    }
}

/// `n` bytes starting at `p`, or the end of the stream.
pub open spec fn parse_bytes(s: Seq<u8>, p: int, n: nat) -> Result<(Seq<u8>, int), ScnError> {
    if 0 <= p && p + n <= s.len() {
        Ok((s.subrange(p, p + n), p + n))
    } else {
        Err(ScnError::UnexpectedEndOfStream)
    }
}

pub open spec fn parse_u8(s: Seq<u8>, p: int) -> Result<(u8, int), ScnError> {
    if 0 <= p && p + 1 <= s.len() {
        Ok((s[p], p + 1))
    } else {
        Err(ScnError::UnexpectedEndOfStream)
    }
}

pub open spec fn parse_u16(s: Seq<u8>, p: int) -> Result<(u16, int), ScnError> {
    if 0 <= p && p + 2 <= s.len() {
        Ok((le_value(s, p, 2) as u16, p + 2))
    } else {
        Err(ScnError::UnexpectedEndOfStream)
    }
}

pub open spec fn parse_u32(s: Seq<u8>, p: int) -> Result<(u32, int), ScnError> {
    if 0 <= p && p + 4 <= s.len() {
        Ok((le_value(s, p, 4) as u32, p + 4))
    } else {
        Err(ScnError::UnexpectedEndOfStream)
    }
}

/// Two's complement reading of a 32-bit pattern.
pub open spec fn signed32(v: u32) -> i32 {
    if v < 0x8000_0000 {
        v as i32
    } else {
        (v - 0x1_0000_0000) as i32
    }
}

pub open spec fn parse_i32(s: Seq<u8>, p: int) -> Result<(i32, int), ScnError> {
    match parse_u32(s, p) {
        Ok((v, q)) => Ok((signed32(v), q)),
        Err(e) => Err(e),
    }
}

/// Index of the first zero byte of `b` at or after `i`, or `b.len()`.
pub open spec fn first_nul(b: Seq<u8>, i: int) -> int
    decreases b.len() - i,
{
    if i >= b.len() || i < 0 {
        b.len() as int
    } else if b[i] == 0 {
        i
    } else {
        first_nul(b, i + 1)
    }
}

/// A fixed-width text field: its bytes up to the first zero byte.
pub open spec fn field_text(b: Seq<u8>) -> Seq<u8> {
    b.subrange(0, first_nul(b, 0))
}

pub open spec fn parse_sized_str(s: Seq<u8>, p: int, n: nat) -> Result<(Seq<u8>, int), ScnError> {
    match parse_bytes(s, p, n) {
        Ok((b, q)) => Ok((field_text(b), q)),
        Err(e) => Err(e),
    }
}

/// A sequential cursor over a byte buffer.
pub struct ByteReader<'a> {
    data: &'a [u8],
    pos: usize,
}

impl<'a> ByteReader<'a> {
    /// The bytes read from.
    pub closed spec fn data(&self) -> Seq<u8> {
        self.data@
    }

    /// The offset of the next byte to read.
    pub closed spec fn pos(&self) -> int {
        self.pos as int
    }

    pub fn new(data: &'a [u8]) -> (r: ByteReader<'a>)
        ensures
            r.data() == data@,
            r.pos() == 0,
    {
        ByteReader { data, pos: 0 }
    }

    pub fn position(&self) -> (r: usize)
        ensures
            r == self.pos(),
    {
        self.pos
    }

    /// The bytes from the current position to the end.
    pub fn remaining(&self) -> (r: &'a [u8])
        ensures
            r@ == self.data().subrange(
                if self.pos() <= self.data().len() { self.pos() } else { self.data().len() as int },
                self.data().len() as int,
            ),
    {
        let start = if self.pos <= self.data.len() { self.pos } else { self.data.len() };
        &self.data[start..self.data.len()]
    }

    /// Whether `n` more bytes remain.
    fn has(&self, n: usize) -> (r: bool)
        ensures
            r == (self.pos() + n <= self.data().len()),
    {
        self.pos <= self.data.len() && self.data.len() - self.pos >= n
    }

    /// Takes the next `n` bytes as they are.
    pub fn read_bytes(&mut self, n: usize) -> (r: Result<&'a [u8], ScnError>)
        ensures
            final(self).data() == old(self).data(),
            parse_bytes(old(self).data(), old(self).pos(), n as nat) == view_outcome(r, final(self).pos()),
    {
        if !self.has(n) {
            return Err(ScnError::UnexpectedEndOfStream);
        }
        let start = self.pos;
        let len = self.data.len();
        assert(start + n <= len);
        let b = &self.data[start..start + n];
        self.pos = start + n;
        Ok(b)
    }

    pub fn read_u8(&mut self) -> (r: Result<u8, ScnError>)
        ensures
            final(self).data() == old(self).data(),
            parse_u8(old(self).data(), old(self).pos()) == outcome(r, final(self).pos()),
    {
        if !self.has(1) {
            return Err(ScnError::UnexpectedEndOfStream);
        }
        let b = self.data[self.pos];
        self.pos = self.pos + 1;
        Ok(b)
    }

    pub fn read_u16(&mut self) -> (r: Result<u16, ScnError>)
        ensures
            final(self).data() == old(self).data(),
            parse_u16(old(self).data(), old(self).pos()) == outcome(r, final(self).pos()),
    {
        if !self.has(2) {
            return Err(ScnError::UnexpectedEndOfStream);
        }
        let p = self.pos;
        let v: u16 = self.data[p] as u16 + 256 * (self.data[p + 1] as u16);
        proof {
            reveal_with_fuel(le_value, 3);
        }
        self.pos = p + 2;
        Ok(v)
    }

    pub fn read_u32(&mut self) -> (r: Result<u32, ScnError>)
        ensures
            final(self).data() == old(self).data(),
            parse_u32(old(self).data(), old(self).pos()) == outcome(r, final(self).pos()),
    {
        if !self.has(4) {
            return Err(ScnError::UnexpectedEndOfStream);
        }
        let p = self.pos;
        let v: u32 = self.data[p] as u32 + 256 * (self.data[p + 1] as u32) + 65536 * (
        self.data[p + 2] as u32) + 16777216 * (self.data[p + 3] as u32);
        proof {
            reveal_with_fuel(le_value, 5);
        }
        self.pos = p + 4;
        Ok(v)
    }

    pub fn read_i32(&mut self) -> (r: Result<i32, ScnError>)
        ensures
            final(self).data() == old(self).data(),
            parse_i32(old(self).data(), old(self).pos()) == outcome(r, final(self).pos()),
    {
        let v = self.read_u32()?;
        if v < 0x8000_0000 {
            Ok(v as i32)
        } else {
            Ok(((v - 0x8000_0000) as i32) - 0x7fff_ffff - 1)
        }
    }

    /// Reads an `n`-byte text field and keeps its bytes up to the first
    /// zero byte.
    pub fn read_sized_str(&mut self, n: usize) -> (r: Result<Vec<u8>, ScnError>)
        ensures
            final(self).data() == old(self).data(),
            parse_sized_str(old(self).data(), old(self).pos(), n as nat) == seq_outcome(r, final(self).pos()),
    {
        if !self.has(n) {
            return Err(ScnError::UnexpectedEndOfStream);
        }
        let start = self.pos;
        let len = self.data.len();
        assert(start + n <= len);
        let field = &self.data[start..start + n];
        let mut end: usize = 0;
        while end < n && field[end] != 0
            invariant
                field@.len() == n,
                end <= n,
                first_nul(field@, 0) == first_nul(field@, end as int),
            decreases n - end,
        {
            end = end + 1;
        }
        let mut text: Vec<u8> = Vec::new();
        let mut i: usize = 0;
        while i < end
            invariant
                end <= n,
                field@.len() == n,
                i <= end,
                text@ == field@.subrange(0, i as int),
            decreases end - i,
        {
            text.push(field[i]);
            i = i + 1;
            assert(text@ =~= field@.subrange(0, i as int));
        }
        self.pos = start + n;
        proof {
            assert(field@ == self.data@.subrange(start as int, start + n));
        }
        Ok(text)
    }
}

/// A record of fixed shape, read field by field from a `ByteReader`.
pub trait Record: Sized {
    /// What reading one record at `p` of `s` gives.
    spec fn parse(s: Seq<u8>, p: int) -> Result<(Self, int), ScnError>;

    fn read(r: &mut ByteReader) -> (res: Result<Self, ScnError>)
        ensures
            final(r).data() == old(r).data(),
            Self::parse(old(r).data(), old(r).pos()) == outcome(res, final(r).pos()),
    ;
}

/// `n` records read one after another from `p`; the first failure ends it.
pub open spec fn parse_array<T: Record>(s: Seq<u8>, p: int, n: nat) -> Result<(Seq<T>, int), ScnError>
    decreases n,
{
    if n == 0 {
        Ok((Seq::empty(), p))
    } else {
        match parse_array::<T>(s, p, (n - 1) as nat) {
            Ok((xs, q)) => match T::parse(s, q) {
                Ok((x, q2)) => Ok((xs.push(x), q2)),
                Err(e) => Err(e),
            },
            Err(e) => Err(e),
        }
    }
}

/// A `u32` count followed by that many records.
pub open spec fn parse_counted<T: Record>(s: Seq<u8>, p: int) -> Result<(Seq<T>, int), ScnError> {
    match parse_u32(s, p) {
        Ok((n, q)) => parse_array::<T>(s, q, n as nat),
        Err(e) => Err(e),
    }
}

/// Once reading a list has failed, reading a longer one fails the same way.
pub proof fn lemma_array_error_persists<T: Record>(s: Seq<u8>, p: int, m: nat, n: nat)
    requires
        m <= n,
        parse_array::<T>(s, p, m) is Err,
    ensures
        parse_array::<T>(s, p, n) == parse_array::<T>(s, p, m),
    decreases n,
{
    if n > m {
        lemma_array_error_persists::<T>(s, p, m, (n - 1) as nat);
    }
}

/// A list read in full holds exactly the declared number of records.
pub proof fn lemma_array_length<T: Record>(s: Seq<u8>, p: int, n: nat)
    requires
        parse_array::<T>(s, p, n) is Ok,
    ensures
        parse_array::<T>(s, p, n)->Ok_0.0.len() == n,
    decreases n,
{
    if n > 0 {
        lemma_array_length::<T>(s, p, (n - 1) as nat);
    }
}

/// Reads `count` records in order, stopping at the first failure.
pub fn read_array<T: Record>(r: &mut ByteReader, count: usize) -> (res: Result<Vec<T>, ScnError>)
    ensures
        final(r).data() == old(r).data(),
        parse_array::<T>(old(r).data(), old(r).pos(), count as nat) == seq_outcome(res, final(r).pos()),
{
    let ghost s = r.data();
    let ghost p0 = r.pos();
    let mut items: Vec<T> = Vec::new();
    let mut i: usize = 0;
    while i < count
        invariant
            i <= count,
            r.data() == s,
            s == old(r).data(),
            p0 == old(r).pos(),
            parse_array::<T>(s, p0, i as nat) == Ok::<(Seq<T>, int), ScnError>((items@, r.pos())),
        decreases count - i,
    {
        match T::read(r) {
            Ok(x) => {
                items.push(x);
                i = i + 1;
            },
            Err(e) => {
                proof {
                    lemma_array_error_persists::<T>(s, p0, (i + 1) as nat, count as nat);
                }
                return Err(e);
            },
        }
    }
    Ok(items)
}

/// Reads a `u32` count, then that many records.
pub fn read_counted<T: Record>(r: &mut ByteReader) -> (res: Result<Vec<T>, ScnError>)
    ensures
        final(r).data() == old(r).data(),
        parse_counted::<T>(old(r).data(), old(r).pos()) == seq_outcome(res, final(r).pos()),
{
    let n = r.read_u32()?;
    read_array::<T>(r, n as usize)
}

/// One list at `p`: `width` records when a width is given, else a `u32`
/// count and that many records.
pub open spec fn parse_list<T: Record>(s: Seq<u8>, p: int, width: Option<u32>) -> Result<(Seq<T>, int), ScnError> {
    match width {
        Some(w) => parse_array::<T>(s, p, w as nat),
        None => parse_counted::<T>(s, p),
    }
}

/// `n` lists read one after another from `p`; the first failure ends it.
pub open spec fn parse_lists<T: Record>(s: Seq<u8>, p: int, n: nat, width: Option<u32>) -> Result<
    (Seq<Seq<T>>, int),
    ScnError,
>
    decreases n,
{
    if n == 0 {
        Ok((Seq::empty(), p))
    } else {
        match parse_lists::<T>(s, p, (n - 1) as nat, width) {
            Ok((xs, q)) => match parse_list::<T>(s, q, width) {
                Ok((x, q2)) => Ok((xs.push(x), q2)),
                Err(e) => Err(e),
            },
            Err(e) => Err(e),
        }
    }
}

/// A vector of vectors seen as a sequence of sequences.
pub open spec fn nested_view<T>(v: Seq<Vec<T>>) -> Seq<Seq<T>> {
    v.map_values(|x: Vec<T>| x@)
}

/// `outcome` for a result that holds a vector of vectors.
pub open spec fn nested_outcome<T>(r: Result<Vec<Vec<T>>, ScnError>, q: int) -> Result<
    (Seq<Seq<T>>, int),
    ScnError,
> {
    match r {
        Ok(v) => Ok((nested_view(v@), q)),
        Err(e) => Err(e),
    }
}

/// Once reading lists has failed, reading more of them fails the same way.
pub proof fn lemma_lists_error_persists<T: Record>(
    s: Seq<u8>,
    p: int,
    m: nat,
    n: nat,
    width: Option<u32>,
)
    requires
        m <= n,
        parse_lists::<T>(s, p, m, width) is Err,
    ensures
        parse_lists::<T>(s, p, n, width) == parse_lists::<T>(s, p, m, width),
    decreases n,
{
    if n > m {
        lemma_lists_error_persists::<T>(s, p, m, (n - 1) as nat, width);
    }
}

/// Lists read in full are exactly as many as declared.
pub proof fn lemma_lists_length<T: Record>(s: Seq<u8>, p: int, n: nat, width: Option<u32>)
    requires
        parse_lists::<T>(s, p, n, width) is Ok,
    ensures
        parse_lists::<T>(s, p, n, width)->Ok_0.0.len() == n,
    decreases n,
{
    if n > 0 {
        lemma_lists_length::<T>(s, p, (n - 1) as nat, width);
    }
}

/// Reads one list: `width` records, or a `u32` count and that many records.
pub fn read_list<T: Record>(r: &mut ByteReader, width: Option<u32>) -> (res: Result<Vec<T>, ScnError>)
    ensures
        final(r).data() == old(r).data(),
        parse_list::<T>(old(r).data(), old(r).pos(), width) == seq_outcome(res, final(r).pos()),
{
    match width {
        Some(w) => read_array::<T>(r, w as usize),
        None => read_counted::<T>(r),
    }
}

/// Reads `count` lists in order, stopping at the first failure.
pub fn read_lists<T: Record>(r: &mut ByteReader, count: u32, width: Option<u32>) -> (res: Result<
    Vec<Vec<T>>,
    ScnError,
>)
    ensures
        final(r).data() == old(r).data(),
        parse_lists::<T>(old(r).data(), old(r).pos(), count as nat, width) == nested_outcome(
            res,
            final(r).pos(),
        ),
{
    let ghost s = r.data();
    let ghost p0 = r.pos();
    let mut lists: Vec<Vec<T>> = Vec::new();
    let mut i: u32 = 0;
    assert(nested_view(lists@) =~= Seq::<Seq<T>>::empty());
    while i < count
        invariant
            i <= count,
            r.data() == s,
            s == old(r).data(),
            p0 == old(r).pos(),
            parse_lists::<T>(s, p0, i as nat, width) == Ok::<(Seq<Seq<T>>, int), ScnError>(
                (nested_view(lists@), r.pos()),
            ),
        decreases count - i,
    {
        match read_list::<T>(r, width) {
            Ok(list) => {
                let ghost prev = lists@;
                let ghost item = list@;
                lists.push(list);
                assert(nested_view(lists@) =~= nested_view(prev).push(item));
                i = i + 1;
            },
            Err(e) => {
                proof {
                    lemma_lists_error_persists::<T>(s, p0, (i + 1) as nat, count as nat, width);
                }
                return Err(e);
            },
        }
    }
    Ok(lists)
}

} // verus!
