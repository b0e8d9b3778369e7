//! The save-file format: numbers in little-endian byte order, flags as one
//! byte, counted byte strings, map positions and rooms. A writer appends to
//! a buffer; a reader takes values back in the same order and remembers the
//! first read that ran short or found what it did not expect.

use vstd::prelude::*;

use crate::geom::IVec2;
use crate::level::rooms::Room;
use crate::ui::terminal::{put_cell, screen_shape, spec_in_bounds, ScreenCell, Terminal, NCOLS, NROWS};

verus! {

/// The `n` low bytes of `v`, least significant first.
pub open spec fn le_bytes(v: nat, n: nat) -> Seq<u8>
    decreases n,
{
    if n == 0 { Seq::empty() } else { seq![(v % 256) as u8] + le_bytes(v / 256, (n - 1) as nat) }
}

/// The number whose bytes, least significant first, are `b`.
pub open spec fn le_value(b: Seq<u8>) -> nat
    decreases b.len(),
{
    if b.len() == 0 { 0 } else { b[0] as nat + 256 * le_value(b.drop_first()) }
}

/// The four bytes of an `int`.
pub open spec fn enc_int(v: i32) -> Seq<u8> {
    le_bytes(v as u32 as nat, 4)
}

/// The four bytes of an unsigned `int`.
pub open spec fn enc_uint(v: u32) -> Seq<u8> {
    le_bytes(v as nat, 4)
}

/// The two bytes of a `short`.
pub open spec fn enc_short(v: i16) -> Seq<u8> {
    le_bytes(v as u16 as nat, 2)
}

/// The two bytes of an unsigned `short`.
pub open spec fn enc_ushort(v: u16) -> Seq<u8> {
    le_bytes(v as nat, 2)
}

/// A flag: one byte, `1` or `0`.
pub open spec fn enc_bool(b: bool) -> Seq<u8> {
    seq![if b { 1u8 } else { 0u8 }]
}

/// A map position: its column, then its row.
pub open spec fn enc_coord(c: IVec2) -> Seq<u8> {
    enc_int(c.x) + enc_int(c.y)
}

/// A run of bytes: its length, then the bytes.
pub open spec fn enc_chars(s: Seq<u8>) -> Seq<u8> {
    enc_int(s.len() as i32) + s
}

/// A string: nothing is stored as two zero lengths; a text is stored as its
/// length with the terminating zero byte, then that run of bytes.
pub open spec fn enc_string(s: Option<Seq<u8>>) -> Seq<u8> {
    match s {
        None => enc_int(0) + enc_int(0),
        Some(t) => enc_int((t.len() + 1) as i32) + enc_chars(t.push(0u8)),
    }
}

/// The number stored in four bytes.
pub open spec fn decode_int(b: Seq<u8>) -> i32 {
    (le_value(b) as u32) as i32
}

/// The unsigned number stored in four bytes.
pub open spec fn decode_uint(b: Seq<u8>) -> u32 {
    le_value(b) as u32
}

/// A writer of save data.
pub struct SaveWriter {
    bytes: Vec<u8>,
}

impl SaveWriter {
    /// What has been written.
    pub closed spec fn written(&self) -> Seq<u8> {
        self.bytes@
    }

    /// A writer with nothing written.
    pub fn new() -> (w: SaveWriter)
        ensures
            w.written().len() == 0,
    {
        SaveWriter { bytes: Vec::new() }
    }

    /// The bytes written, for the caller to store.
    pub fn bytes(&self) -> (b: &Vec<u8>)
        ensures
            b@ == self.written(),
    {
        &self.bytes
    }

    fn push_le(&mut self, v: u32, n: usize)
        requires
            n <= 4,
        ensures
            final(self).written() == old(self).written() + le_bytes(v as nat, n as nat),
        decreases n,
    {
        if n > 0 {
            let low: u8 = (v % 256) as u8;
            self.bytes.push(low);
            let ghost mid = self.bytes@;
            self.push_le(v / 256, n - 1);
            assert(final(self).written() =~= old(self).written() + le_bytes(v as nat, n as nat));
        } else {
            assert(le_bytes(v as nat, 0) =~= Seq::<u8>::empty());
            assert(self.bytes@ =~= old(self).bytes@ + le_bytes(v as nat, 0));
        }
    }

    /// Write an `int`.
    pub fn write_int(&mut self, v: i32)
        ensures
            final(self).written() == old(self).written() + enc_int(v),
    {
        #[verifier::truncate]
        let u = v as u32;
        self.push_le(u, 4);
    }

    /// Write an unsigned `int`.
    pub fn write_uint(&mut self, v: u32)
        ensures
            final(self).written() == old(self).written() + enc_uint(v),
    {
        self.push_le(v, 4);
    }

    /// Write a `short`.
    pub fn write_short(&mut self, v: i16)
        ensures
            final(self).written() == old(self).written() + enc_short(v),
    {
        #[verifier::truncate]
        let u = v as u16;
        self.push_le(u as u32, 2);
    }

    /// Write an unsigned `short`.
    pub fn write_ushort(&mut self, v: u16)
        ensures
            final(self).written() == old(self).written() + enc_ushort(v),
    {
        self.push_le(v as u32, 2);
    }

    /// Write a flag.
    pub fn write_boolean(&mut self, b: bool)
        ensures
            final(self).written() == old(self).written() + enc_bool(b),
    {
        self.bytes.push(if b { 1u8 } else { 0u8 });
        assert(self.bytes@ =~= old(self).bytes@ + enc_bool(b));
    }

    /// Write a section marker: the number `id`.
    pub fn write_marker(&mut self, id: i32)
        ensures
            final(self).written() == old(self).written() + enc_int(id),
    {
        self.write_int(id);
    }

    /// Write a map position.
    pub fn write_coord(&mut self, c: IVec2)
        ensures
            final(self).written() == old(self).written() + enc_coord(c),
    {
        self.write_int(c.x);
        self.write_int(c.y);
        assert(final(self).written() =~= old(self).written() + enc_coord(c));
    }

    /// Write a run of bytes, preceded by its length.
    pub fn write_chars(&mut self, s: &[u8])
        requires
            s@.len() <= i32::MAX,
        ensures
            final(self).written() == old(self).written() + enc_chars(s@),
    {
        self.write_int(s.len() as i32);
        let ghost head = self.bytes@;
        let mut i: usize = 0;
        while i < s.len()
            invariant
                i <= s@.len(),
                self.bytes@ == head + s@.subrange(0, i as int),
            decreases s@.len() - i,
        {
            self.bytes.push(s[i]);
            i = i + 1;
            assert(self.bytes@ =~= head + s@.subrange(0, i as int));
        }
        assert(s@.subrange(0, s@.len() as int) =~= s@);
        assert(final(self).written() =~= old(self).written() + enc_chars(s@));
    }

    /// Write a string (see `enc_string`).
    pub fn write_string(&mut self, s: Option<&[u8]>)
        requires
            s matches Some(t) ==> t@.len() < i32::MAX,
        ensures
            final(self).written() == old(self).written() + enc_string(match s { Some(t) => Some(t@), None => None }),
    {
        match s {
            None => {
                self.write_int(0);
                self.write_int(0);
                assert(final(self).written() =~= old(self).written() + enc_string(None));
            },
            Some(t) => {
                let mut z: Vec<u8> = Vec::new();
                let mut i: usize = 0;
                while i < t.len()
                    invariant
                        i <= t@.len(),
                        z@ == t@.subrange(0, i as int),
                    decreases t@.len() - i,
                {
                    z.push(t[i]);
                    i = i + 1;
                    assert(z@ =~= t@.subrange(0, i as int));
                }
                z.push(0u8);
                assert(z@ =~= t@.push(0u8));
                self.write_int(z.len() as i32);
                self.write_chars(z.as_slice());
                assert(final(self).written() =~= old(self).written() + enc_string(Some(t@)));
            },
        }
    }
}

/// The part of a reader that decides what it reads next.
pub struct ReaderView {
    pub data: Seq<u8>,
    pub pos: int,
    pub read_error: bool,
    pub format_error: bool,
}

/// No read has failed yet.
pub open spec fn reader_ok(r: ReaderView) -> bool {
    !r.read_error && !r.format_error
}

/// How many of the next `n` bytes are there.
pub open spec fn available(r: ReaderView, n: int) -> int {
    if r.data.len() - r.pos < n { r.data.len() - r.pos } else { n }
}

/// The next `n` bytes as a read gets them: those there are, then zero
/// bytes for those missing.
pub open spec fn next_bytes(r: ReaderView, n: int) -> Seq<u8> {
    r.data.subrange(r.pos, r.pos + available(r, n)) + Seq::new((n - available(r, n)) as nat, |_i: int| 0u8)
}

/// The reader after it takes the next `n` bytes; running short is a read
/// error.
pub open spec fn after_read(r: ReaderView, n: int) -> ReaderView {
    ReaderView { pos: r.pos + available(r, n), read_error: r.read_error || available(r, n) < n, ..r }
}

/// Reading an `int`: nothing once a read has failed; otherwise the next
/// four bytes.
pub open spec fn rd_int(r: ReaderView) -> (ReaderView, Option<i32>) {
    if !reader_ok(r) { (r, None) } else { (after_read(r, 4), Some(decode_int(next_bytes(r, 4)))) }
}

/// Reading an unsigned `int`.
pub open spec fn rd_uint(r: ReaderView) -> (ReaderView, Option<u32>) {
    if !reader_ok(r) { (r, None) } else { (after_read(r, 4), Some(decode_uint(next_bytes(r, 4)))) }
}

/// Reading a flag: a non-zero byte is set.
pub open spec fn rd_bool(r: ReaderView) -> (ReaderView, Option<bool>) {
    if !reader_ok(r) { (r, None) } else { (after_read(r, 1), Some(next_bytes(r, 1)[0] != 0)) }
}

/// Reading a section marker that should be `id`: another number is a
/// format error.
pub open spec fn rd_marker(r: ReaderView, id: i32) -> ReaderView {
    let (r1, v) = rd_int(r);
    if reader_ok(r1) && v is Some && v->0 != id { ReaderView { format_error: true, ..r1 } } else { r1 }
}

/// Reading a map position: it is taken only when both numbers were read.
pub open spec fn rd_coord(r: ReaderView) -> (ReaderView, Option<IVec2>) {
    let (r1, x) = rd_int(r);
    let (r2, y) = rd_int(r1);
    if reader_ok(r2) && x is Some && y is Some { (r2, Some(IVec2 { x: x->0, y: y->0 })) } else { (r2, None) }
}

/// Reading a run of `count` bytes: its stored length must be `count`; the
/// bytes are read (as many as there are) unless that check or an earlier
/// read failed.
pub open spec fn rd_chars(r: ReaderView, count: i32) -> (ReaderView, Option<Seq<u8>>) {
    if !reader_ok(r) {
        (r, None)
    } else {
        let (r1, v) = rd_int(r);
        let r2 = if v is Some && v->0 != count { ReaderView { format_error: true, ..r1 } } else { r1 };
        if count > 0 && reader_ok(r2) {
            (after_read(r2, count as int), Some(r2.data.subrange(r2.pos, r2.pos + available(r2, count as int))))
        } else {
            (r2, None)
        }
    }
}

/// A reader of save data.
pub struct SaveReader {
    data: Vec<u8>,
    pos: usize,
    read_error: bool,
    format_error: bool,
}

impl SaveReader {
    pub closed spec fn view(&self) -> ReaderView {
        ReaderView { data: self.data@, pos: self.pos as int, read_error: self.read_error, format_error: self.format_error }
    }

    pub closed spec fn wf(&self) -> bool {
        self.pos <= self.data@.len()
    }

    /// A reader at the start of `data`.
    pub fn new(data: Vec<u8>) -> (r: SaveReader)
        ensures
            r.wf(),
            r@.data == data@,
            r@.pos == 0,
            reader_ok(r@),
    {
        SaveReader { data, pos: 0, read_error: false, format_error: false }
    }

    /// `0` while every read has succeeded, `1` after a failure.
    pub fn status(&self) -> (s: i32)
        ensures
            s == (if reader_ok(self@) { 0i32 } else { 1i32 }),
    {
        if self.read_error || self.format_error { 1 } else { 0 }
    }

    /// Take the next `n` bytes (see `next_bytes` and `after_read`).
    fn take(&mut self, n: usize) -> (b: Vec<u8>)
        requires
            old(self).wf(),
            n <= 4,
        ensures
            final(self).wf(),
            b@ == next_bytes(old(self)@, n as int),
            final(self)@ == after_read(old(self)@, n as int),
    {
        let left = self.data.len() - self.pos;
        let got = if left < n { left } else { n };
        let mut b: Vec<u8> = Vec::new();
        let mut i: usize = 0;
        while i < n
            invariant
                self.pos + got <= self.data@.len(),
                self.pos <= self.data@.len(),
                self.data@.len() <= usize::MAX,
                got <= n,
                i <= n,
                got == available(self@, n as int),
                b@ == next_bytes(self@, n as int).subrange(0, i as int),
            decreases n - i,
        {
            let byte = if i < got {
                assert(self.pos + i < self.data@.len());
                self.data[self.pos + i]
            } else {
                0u8
            };
            b.push(byte);
            i = i + 1;
            assert(b@ =~= next_bytes(self@, n as int).subrange(0, i as int));
        }
        assert(b@ =~= next_bytes(self@, n as int));
        self.pos = self.pos + got;
        if got < n {
            self.read_error = true;
        }
        b
    }

    /// Read an `int` (see `rd_int`).
    pub fn read_int(&mut self) -> (v: Option<i32>)
        requires
            old(self).wf(),
        ensures
            final(self).wf(),
            (final(self)@, v) == rd_int(old(self)@),
    {
        if self.read_error || self.format_error {
            return None;
        }
        let b = self.take(4);
        let u: u32 = b[0] as u32 + 256 * (b[1] as u32 + 256 * (b[2] as u32 + 256 * (b[3] as u32)));
        proof {
            lemma_le_value4(b@);
        }
        #[verifier::truncate]
        let v = u as i32;
        Some(v)
    }

    /// Read an unsigned `int` (see `rd_uint`).
    pub fn read_uint(&mut self) -> (v: Option<u32>)
        requires
            old(self).wf(),
        ensures
            final(self).wf(),
            (final(self)@, v) == rd_uint(old(self)@),
    {
        if self.read_error || self.format_error {
            return None;
        }
        let b = self.take(4);
        let u: u32 = b[0] as u32 + 256 * (b[1] as u32 + 256 * (b[2] as u32 + 256 * (b[3] as u32)));
        proof {
            lemma_le_value4(b@);
        }
        Some(u)
    }

    /// Read a flag (see `rd_bool`).
    pub fn read_boolean(&mut self) -> (v: Option<bool>)
        requires
            old(self).wf(),
        ensures
            final(self).wf(),
            (final(self)@, v) == rd_bool(old(self)@),
    {
        if self.read_error || self.format_error {
            return None;
        }
        let b = self.take(1);
        Some(b[0] != 0)
    }

    /// Read a section marker that should be `id` (see `rd_marker`).
    pub fn read_marker(&mut self, id: i32)
        requires
            old(self).wf(),
        ensures
            final(self).wf(),
            final(self)@ == rd_marker(old(self)@, id),
    {
        let v = self.read_int();
        if !self.read_error && !self.format_error {
            if let Some(n) = v {
                if n != id {
                    self.format_error = true;
                }
            }
        }
    }

    /// Read a map position (see `rd_coord`).
    pub fn read_coord(&mut self) -> (c: Option<IVec2>)
        requires
            old(self).wf(),
        ensures
            final(self).wf(),
            (final(self)@, c) == rd_coord(old(self)@),
    {
        let x = self.read_int();
        let y = self.read_int();
        if !self.read_error && !self.format_error {
            if let (Some(a), Some(b)) = (x, y) {
                return Some(IVec2 { x: a, y: b });
            }
        }
        None
    }

    /// Read a run of `count` bytes (see `rd_chars`).
    pub fn read_chars(&mut self, count: i32) -> (b: Option<Vec<u8>>)
        requires
            old(self).wf(),
        ensures
            final(self).wf(),
            (final(self)@, match b { Some(v) => Some(v@), None => None::<Seq<u8>> }) == rd_chars(old(self)@, count),
    {
        if self.read_error || self.format_error {
            return None;
        }
        let v = self.read_int();
        if let Some(n) = v {
            if n != count {
                self.format_error = true;
            }
        }
        if count > 0 && !self.read_error && !self.format_error {
            let want = count as usize;
            let left = self.data.len() - self.pos;
            let got = if left < want { left } else { want };
            let mut out: Vec<u8> = Vec::new();
            let mut i: usize = 0;
            while i < got
                invariant
                    self.pos + got <= self.data@.len(),
                    self.pos <= self.data@.len(),
                    self.data@.len() <= usize::MAX,
                    i <= got,
                    out@ == self.data@.subrange(self.pos as int, self.pos + i),
                decreases got - i,
            {
                out.push(self.data[self.pos + i]);
                i = i + 1;
                assert(out@ =~= self.data@.subrange(self.pos as int, self.pos + i));
            }
            self.pos = self.pos + got;
            if got < want {
                self.read_error = true;
            }
            return Some(out);
        }
        None
    }
}

proof fn lemma_le_value4(b: Seq<u8>)
    requires
        b.len() == 4,
    ensures
        le_value(b) == b[0] as nat + 256 * (b[1] as nat + 256 * (b[2] as nat + 256 * (b[3] as nat))),
        le_value(b) < 0x1_0000_0000,
{
    let b1 = b.drop_first();
    let b2 = b1.drop_first();
    let b3 = b2.drop_first();
    let b4 = b3.drop_first();
    assert(b4.len() == 0);
    assert(le_value(b3) == b3[0] as nat + 256 * le_value(b4));
    assert(le_value(b2) == b2[0] as nat + 256 * le_value(b3));
    assert(le_value(b1) == b1[0] as nat + 256 * le_value(b2));
}

proof fn lemma_le_round_trip(v: nat, n: nat)
    requires
        n <= 4,
    ensures
        le_bytes(v, n).len() == n,
        le_value(le_bytes(v, n)) == v % pow256(n),
    decreases n,
{
    if n > 0 {
        lemma_le_round_trip(v / 256, (n - 1) as nat);
        let b = le_bytes(v, n);
        assert(b.drop_first() =~= le_bytes(v / 256, (n - 1) as nat));
        let p = pow256((n - 1) as nat);
        lemma_pow256_pos((n - 1) as nat);
        vstd::arithmetic::div_mod::lemma_mod_breakdown(v as int, 256, p as int);
    }
}

/// `256` to the power `n`.
pub open spec fn pow256(n: nat) -> nat
    decreases n,
{
    if n == 0 { 1 } else { 256 * pow256((n - 1) as nat) }
}

proof fn lemma_pow256_pos(n: nat)
    ensures
        pow256(n) > 0,
    decreases n,
{
    if n > 0 {
        lemma_pow256_pos((n - 1) as nat);
    }
}

/// What a read of four bytes gives back of a written `int`, unsigned `int`
/// and their stored forms.
pub proof fn lemma_int_round_trip(v: i32, u: u32)
    ensures
        enc_int(v).len() == 4,
        decode_int(enc_int(v)) == v,
        enc_uint(u).len() == 4,
        decode_uint(enc_uint(u)) == u,
{
    reveal_with_fuel(pow256, 5);
    assert(pow256(4) == 0x1_0000_0000);
    let w = v as u32;
    lemma_le_round_trip(w as nat, 4);
    lemma_le_round_trip(u as nat, 4);
    assert(le_value(enc_int(v)) == w as nat);
    assert(le_value(enc_uint(u)) == u as nat);
    assert((w as i32) == v) by (bit_vector)
        requires w == v as u32;
}

/// Reading a string that may be at most `max` bytes long (its terminating
/// zero included): a longer stored length is a format error; the bytes are
/// read as a run of that length.
pub open spec fn rd_string(r: ReaderView, max: i32) -> (ReaderView, Option<Seq<u8>>) {
    if !reader_ok(r) {
        (r, None)
    } else {
        let (r1, len) = rd_int(r);
        let n = len->0;
        let r2 = if n > max { ReaderView { format_error: true, ..r1 } } else { r1 };
        rd_chars(r2, n)
    }
}

impl SaveReader {
    /// Read a string of at most `max` bytes (see `rd_string`).
    pub fn read_string(&mut self, max: i32) -> (b: Option<Vec<u8>>)
        requires
            old(self).wf(),
        ensures
            final(self).wf(),
            (final(self)@, match b { Some(v) => Some(v@), None => None::<Seq<u8>> }) == rd_string(old(self)@, max),
    {
        if self.read_error || self.format_error {
            return None;
        }
        let len = match self.read_int() {
            Some(n) => n,
            None => 0,
        };
        if len > max {
            self.format_error = true;
        }
        self.read_chars(len)
    }
}

/// Exit `i` of room `r` as the save file stores it: the entry point, or
/// the origin past the last one.
pub open spec fn room_exit(r: Room, i: int) -> IVec2 {
    if 0 <= i < r.entry_points@.len() { r.entry_points@[i] } else { IVec2 { x: 0, y: 0 } }
}

/// The first `n` stored exits of `r`.
pub open spec fn enc_exits(r: Room, n: int) -> Seq<u8>
    decreases n,
{
    if n <= 0 { Seq::empty() } else { enc_exits(r, n - 1) + enc_coord(room_exit(r, n - 1)) }
}

/// The number of exits a room record holds.
pub const ROOM_EXITS: usize = 12;

/// A room as the save file stores it: position, size, gold position, gold
/// value, the removed, dark and maze flags, the number of entry points,
/// then twelve exits.
pub open spec fn enc_room(r: Room) -> Seq<u8> {
    enc_coord(r.position) + enc_coord(r.size) + enc_coord(r.gold) + enc_int(r.goldval) + enc_bool(r.gone)
        + enc_bool(r.dark) + enc_bool(r.maze) + enc_int(r.entry_point_count) + enc_exits(r, ROOM_EXITS as int)
}

impl SaveWriter {
    /// Write a room (see `enc_room`).
    pub fn write_room(&mut self, r: &Room)
        ensures
            final(self).written() == old(self).written() + enc_room(*r),
    {
        self.write_coord(r.position);
        self.write_coord(r.size);
        self.write_coord(r.gold);
        self.write_int(r.goldval);
        self.write_boolean(r.gone);
        self.write_boolean(r.dark);
        self.write_boolean(r.maze);
        self.write_int(r.entry_point_count);
        let ghost head = self.written();
        assert(head =~= old(self).written() + enc_coord(r.position) + enc_coord(r.size) + enc_coord(r.gold) + enc_int(r.goldval)
            + enc_bool(r.gone) + enc_bool(r.dark) + enc_bool(r.maze) + enc_int(r.entry_point_count));
        let mut i: usize = 0;
        while i < ROOM_EXITS
            invariant
                i <= ROOM_EXITS,
                self.written() == head + enc_exits(*r, i as int),
            decreases ROOM_EXITS - i,
        {
            let exit = if i < r.entry_points.len() { r.entry_points[i] } else { IVec2 { x: 0, y: 0 } };
            self.write_coord(exit);
            i = i + 1;
            assert(self.written() =~= head + enc_exits(*r, i as int));
        }
        assert(final(self).written() =~= old(self).written() + enc_room(*r));
    }
}

/// The stored exits read from `r`: the first `n` positions, the origin for
/// each one that could not be read.
pub open spec fn rd_exits(r: ReaderView, n: int) -> (ReaderView, Seq<IVec2>)
    decreases n,
{
    if n <= 0 {
        (r, Seq::empty())
    } else {
        let (r1, e) = rd_exits(r, n - 1);
        let (r2, c) = rd_coord(r1);
        (r2, e.push(match c { Some(p) => p, None => IVec2 { x: 0, y: 0 } }))
    }
}

/// What reading a room record gives: each position (the origin when it
/// could not be read), the gold value (`goldval` when it could not be read),
/// the flags (unset when they could not be read), the number of entry
/// points (`count` when it could not be read) and the twelve exits.
pub struct RoomRecord {
    pub position: IVec2,
    pub size: IVec2,
    pub gold: IVec2,
    pub goldval: i32,
    pub gone: bool,
    pub dark: bool,
    pub maze: bool,
    pub entry_point_count: i32,
    pub exits: Seq<IVec2>,
}

/// Read a room record from `r` over a room whose gold value and number of
/// entry points were `goldval` and `count`.
pub open spec fn rd_room(r: ReaderView, goldval: i32, count: i32) -> (ReaderView, RoomRecord) {
    let zero = IVec2 { x: 0, y: 0 };
    let (r1, p) = rd_coord(r);
    let (r2, s) = rd_coord(r1);
    let (r3, g) = rd_coord(r2);
    let (r4, gv) = rd_int(r3);
    let (r5, gone) = rd_bool(r4);
    let (r6, dark) = rd_bool(r5);
    let (r7, maze) = rd_bool(r6);
    let (r8, n) = rd_int(r7);
    let (r9, exits) = rd_exits(r8, ROOM_EXITS as int);
    (r9, RoomRecord {
        position: match p { Some(v) => v, None => zero },
        size: match s { Some(v) => v, None => zero },
        gold: match g { Some(v) => v, None => zero },
        goldval: match gv { Some(v) => v, None => goldval },
        gone: gone == Some(true),
        dark: dark == Some(true),
        maze: maze == Some(true),
        entry_point_count: match n { Some(v) => v, None => count },
        exits,
    })
}

/// How many of the exits read become entry points: the record's count,
/// kept within `0..=12`.
pub open spec fn kept_exits(count: i32) -> int {
    if count < 0 { 0 } else if count > ROOM_EXITS { ROOM_EXITS as int } else { count as int }
}

impl SaveReader {
    /// Read a room record into `room` (see `rd_room`); nothing happens when
    /// a read has already failed. The entry points become the first
    /// `kept_exits` exits read; the room's tiles and doors are left as they
    /// are.
    pub fn read_room(&mut self, room: &mut Room)
        requires
            old(self).wf(),
        ensures
            final(self).wf(),
            !reader_ok(old(self)@) ==> final(self)@ == old(self)@ && *final(room) == *old(room),
            reader_ok(old(self)@) ==> ({
                let (rv, rec) = rd_room(old(self)@, old(room).goldval, old(room).entry_point_count);
                &&& final(self)@ == rv
                &&& final(room).position == rec.position
                &&& final(room).size == rec.size
                &&& final(room).gold == rec.gold
                &&& final(room).goldval == rec.goldval
                &&& final(room).gone == rec.gone
                &&& final(room).dark == rec.dark
                &&& final(room).maze == rec.maze
                &&& final(room).entry_point_count == rec.entry_point_count
                &&& final(room).entry_points@ == rec.exits.subrange(0, kept_exits(rec.entry_point_count))
                &&& final(room).structure == old(room).structure
                &&& final(room).doors == old(room).doors
            }),
    {
        if self.read_error || self.format_error {
            return;
        }
        let zero = IVec2 { x: 0, y: 0 };
        let ghost r0 = self@;
        let position = match self.read_coord() { Some(v) => v, None => zero };
        let size = match self.read_coord() { Some(v) => v, None => zero };
        let gold = match self.read_coord() { Some(v) => v, None => zero };
        if let Some(v) = self.read_int() {
            room.goldval = v;
        }
        let gone = self.read_boolean() == Some(true);
        let dark = self.read_boolean() == Some(true);
        let maze = self.read_boolean() == Some(true);
        if let Some(v) = self.read_int() {
            room.entry_point_count = v;
        }
        room.position = position;
        room.size = size;
        room.gold = gold;
        room.gone = gone;
        room.dark = dark;
        room.maze = maze;
        let ghost r8 = self@;
        let mut exits: Vec<IVec2> = Vec::new();
        let mut i: usize = 0;
        while i < ROOM_EXITS
            invariant
                i <= ROOM_EXITS,
                self.wf(),
                (self@, exits@) == rd_exits(r8, i as int),
            decreases ROOM_EXITS - i,
        {
            let ghost before = (self@, exits@);
            let c = self.read_coord();
            let exit = match c { Some(v) => v, None => IVec2 { x: 0, y: 0 } };
            exits.push(exit);
            proof {
                assert(before == rd_exits(r8, i as int));
                assert((self@, c) == rd_coord(before.0));
                let nxt = rd_exits(r8, i + 1);
                assert(nxt.0 == self@);
                assert(nxt.1 =~= exits@);
            }
            i = i + 1;
        }
        proof {
            lemma_rd_exits_len(r8, ROOM_EXITS as int);
        }
        let keep: usize = if room.entry_point_count < 0 { 0 } else if room.entry_point_count > 12 { 12 } else { room.entry_point_count as usize };
        let mut points: Vec<IVec2> = Vec::new();
        let mut k: usize = 0;
        while k < keep
            invariant
                keep <= ROOM_EXITS,
                exits@.len() == ROOM_EXITS,
                k <= keep,
                points@ == exits@.subrange(0, k as int),
            decreases keep - k,
        {
            points.push(exits[k]);
            k = k + 1;
            assert(points@ =~= exits@.subrange(0, k as int));
        }
        room.entry_points = points;
    }
}

proof fn lemma_rd_exits_len(r: ReaderView, n: int)
    requires
        n >= 0,
    ensures
        rd_exits(r, n).1.len() == n,
    decreases n,
{
    if n > 0 {
        lemma_rd_exits_len(r, n - 1);
    }
}

/// Whether the data of `r` holds `b` at its position.
pub open spec fn holds_at(r: ReaderView, b: Seq<u8>) -> bool {
    &&& 0 <= r.pos
    &&& r.pos + b.len() <= r.data.len()
    &&& r.data.subrange(r.pos, r.pos + b.len()) == b
}

/// `r` moved on by `n` bytes.
pub open spec fn moved(r: ReaderView, n: int) -> ReaderView {
    ReaderView { pos: r.pos + n, ..r }
}

proof fn lemma_holds_split(r: ReaderView, a: Seq<u8>, b: Seq<u8>)
    requires
        holds_at(r, a + b),
    ensures
        holds_at(r, a),
        holds_at(moved(r, a.len() as int), b),
{
    let whole = r.data.subrange(r.pos, r.pos + a.len() + b.len());
    assert(whole == a + b);
    assert(r.data.subrange(r.pos, r.pos + a.len()) =~= whole.subrange(0, a.len() as int));
    assert(whole.subrange(0, a.len() as int) =~= a);
    assert(r.data.subrange(r.pos + a.len(), r.pos + a.len() + b.len()) =~= whole.subrange(a.len() as int, (a.len() + b.len()) as int));
    assert(whole.subrange(a.len() as int, (a.len() + b.len()) as int) =~= b);
}

/// An `int` written where a reader stands reads back.
pub proof fn lemma_read_int_back(r: ReaderView, v: i32)
    requires
        reader_ok(r),
        holds_at(r, enc_int(v)),
    ensures
        rd_int(r) == (moved(r, 4), Some(v)),
{
    lemma_int_round_trip(v, 0);
    assert(next_bytes(r, 4) =~= enc_int(v));
}

/// A flag written where a reader stands reads back.
pub proof fn lemma_read_bool_back(r: ReaderView, b: bool)
    requires
        reader_ok(r),
        holds_at(r, enc_bool(b)),
    ensures
        rd_bool(r) == (moved(r, 1), Some(b)),
{
    assert(next_bytes(r, 1) =~= enc_bool(b));
}

/// A map position written where a reader stands reads back.
pub proof fn lemma_read_coord_back(r: ReaderView, c: IVec2)
    requires
        reader_ok(r),
        holds_at(r, enc_coord(c)),
    ensures
        rd_coord(r) == (moved(r, 8), Some(c)),
{
    lemma_int_round_trip(c.x, 0);
    lemma_holds_split(r, enc_int(c.x), enc_int(c.y));
    lemma_read_int_back(r, c.x);
    lemma_read_int_back(moved(r, 4), c.y);
}

/// A run of bytes written where a reader stands reads back, when the reader
/// expects its length.
pub proof fn lemma_read_chars_back(r: ReaderView, s: Seq<u8>)
    requires
        reader_ok(r),
        0 < s.len() <= i32::MAX,
        holds_at(r, enc_chars(s)),
    ensures
        rd_chars(r, s.len() as i32) == (moved(r, 4 + s.len() as int), Some(s)),
{
    lemma_int_round_trip(s.len() as i32, 0);
    lemma_holds_split(r, enc_int(s.len() as i32), s);
    lemma_read_int_back(r, s.len() as i32);
    let r1 = moved(r, 4);
    assert(r1.data.subrange(r1.pos, r1.pos + available(r1, s.len() as int)) =~= s);
}

/// A string written where a reader stands reads back (with its terminating
/// zero), when it fits the reader's limit.
pub proof fn lemma_read_string_back(r: ReaderView, t: Seq<u8>, max: i32)
    requires
        reader_ok(r),
        t.len() + 1 <= max,
        holds_at(r, enc_string(Some(t))),
    ensures
        rd_string(r, max) == (moved(r, 8 + t.len() as int + 1), Some(t.push(0u8))),
{
    let n = (t.len() + 1) as i32;
    lemma_int_round_trip(n, 0);
    lemma_holds_split(r, enc_int(n), enc_chars(t.push(0u8)));
    lemma_read_int_back(r, n);
    lemma_read_chars_back(moved(r, 4), t.push(0u8));
}

/// The exits stored for room `room`, as positions.
pub open spec fn stored_exits(room: Room, n: int) -> Seq<IVec2> {
    Seq::new(n as nat, |i: int| room_exit(room, i))
}

proof fn lemma_enc_exits_len(room: Room, n: int)
    requires
        n >= 0,
    ensures
        enc_exits(room, n).len() == 8 * n,
    decreases n,
{
    if n > 0 {
        lemma_enc_exits_len(room, n - 1);
        lemma_int_round_trip(room_exit(room, n - 1).x, 0);
        lemma_int_round_trip(room_exit(room, n - 1).y, 0);
    }
}

proof fn lemma_read_exits_back(r: ReaderView, room: Room, n: int)
    requires
        reader_ok(r),
        0 <= n,
        holds_at(r, enc_exits(room, n)),
    ensures
        rd_exits(r, n) == (moved(r, 8 * n), stored_exits(room, n)),
    decreases n,
{
    if n > 0 {
        lemma_enc_exits_len(room, n - 1);
        lemma_int_round_trip(room_exit(room, n - 1).x, 0);
        lemma_int_round_trip(room_exit(room, n - 1).y, 0);
        lemma_holds_split(r, enc_exits(room, n - 1), enc_coord(room_exit(room, n - 1)));
        lemma_read_exits_back(r, room, n - 1);
        lemma_read_coord_back(moved(r, 8 * (n - 1)), room_exit(room, n - 1));
        assert(stored_exits(room, n - 1).push(room_exit(room, n - 1)) =~= stored_exits(room, n));
    } else {
        assert(stored_exits(room, 0) =~= Seq::<IVec2>::empty());
    }
}

/// A room written where a reader stands reads back: its position, size,
/// gold, flags, number of entry points, and as exits its entry points (the
/// origin past the last of them).
#[verifier::rlimit(50)]
pub proof fn lemma_read_room_back(r: ReaderView, room: Room, goldval: i32, count: i32)
    requires
        reader_ok(r),
        holds_at(r, enc_room(room)),
    ensures
        ({
            let (rv, rec) = rd_room(r, goldval, count);
            &&& rv == moved(r, enc_room(room).len() as int)
            &&& reader_ok(rv)
            &&& rec.position == room.position
            &&& rec.size == room.size
            &&& rec.gold == room.gold
            &&& rec.goldval == room.goldval
            &&& rec.gone == room.gone
            &&& rec.dark == room.dark
            &&& rec.maze == room.maze
            &&& rec.entry_point_count == room.entry_point_count
            &&& rec.exits == stored_exits(room, ROOM_EXITS as int)
        }),
{
    let c1 = enc_coord(room.position);
    let c2 = enc_coord(room.size);
    let c3 = enc_coord(room.gold);
    let i1 = enc_int(room.goldval);
    let b1 = enc_bool(room.gone);
    let b2 = enc_bool(room.dark);
    let b3 = enc_bool(room.maze);
    let i2 = enc_int(room.entry_point_count);
    let ex = enc_exits(room, ROOM_EXITS as int);
    lemma_int_round_trip(room.position.x, 0);
    lemma_int_round_trip(room.position.y, 0);
    lemma_int_round_trip(room.size.x, 0);
    lemma_int_round_trip(room.size.y, 0);
    lemma_int_round_trip(room.gold.x, 0);
    lemma_int_round_trip(room.gold.y, 0);
    lemma_int_round_trip(room.goldval, 0);
    lemma_int_round_trip(room.entry_point_count, 0);
    assert(enc_room(room) == c1 + (c2 + (c3 + (i1 + (b1 + (b2 + (b3 + (i2 + ex)))))))) by {
        assert(enc_room(room) =~= c1 + (c2 + (c3 + (i1 + (b1 + (b2 + (b3 + (i2 + ex))))))));
    }
    lemma_holds_split(r, c1, c2 + (c3 + (i1 + (b1 + (b2 + (b3 + (i2 + ex)))))));
    lemma_read_coord_back(r, room.position);
    let r1 = moved(r, 8);
    lemma_holds_split(r1, c2, c3 + (i1 + (b1 + (b2 + (b3 + (i2 + ex))))));
    lemma_read_coord_back(r1, room.size);
    let r2 = moved(r1, 8);
    lemma_holds_split(r2, c3, i1 + (b1 + (b2 + (b3 + (i2 + ex)))));
    lemma_read_coord_back(r2, room.gold);
    let r3 = moved(r2, 8);
    lemma_holds_split(r3, i1, b1 + (b2 + (b3 + (i2 + ex))));
    lemma_read_int_back(r3, room.goldval);
    let r4 = moved(r3, 4);
    lemma_holds_split(r4, b1, b2 + (b3 + (i2 + ex)));
    lemma_read_bool_back(r4, room.gone);
    let r5 = moved(r4, 1);
    lemma_holds_split(r5, b2, b3 + (i2 + ex));
    lemma_read_bool_back(r5, room.dark);
    let r6 = moved(r5, 1);
    lemma_holds_split(r6, b3, i2 + ex);
    lemma_read_bool_back(r6, room.maze);
    let r7 = moved(r6, 1);
    lemma_holds_split(r7, i2, ex);
    lemma_read_int_back(r7, room.entry_point_count);
    let r8 = moved(r7, 4);
    lemma_read_exits_back(r8, room, ROOM_EXITS as int);
    lemma_enc_exits_len(room, ROOM_EXITS as int);
}

/// The marker before the screen's cells.
pub const RSID_WINDOW: i32 = -1412628467;

/// The bytes of the first `x` cells of row `y` of `screen`: each glyph as
/// an `int`.
pub open spec fn enc_row(screen: Seq<Seq<ScreenCell>>, y: int, x: int) -> Seq<u8>
    decreases x,
{
    if x <= 0 { Seq::empty() } else { enc_row(screen, y, x - 1) + enc_int(screen[y][x - 1].ch as i32) }
}

/// The bytes of the first `y` rows of `screen`.
pub open spec fn enc_rows(screen: Seq<Seq<ScreenCell>>, y: int) -> Seq<u8>
    decreases y,
{
    if y <= 0 { Seq::empty() } else { enc_rows(screen, y - 1) + enc_row(screen, y - 1, NCOLS as int) }
}

/// The screen as the save file stores it: the marker, the number of rows
/// and of columns, then every glyph, row by row.
pub open spec fn enc_window(screen: Seq<Seq<ScreenCell>>) -> Seq<u8> {
    enc_int(RSID_WINDOW) + enc_int(NROWS as i32) + enc_int(NCOLS as i32) + enc_rows(screen, NROWS as int)
}

impl SaveWriter {
    /// Write the screen (see `enc_window`).
    pub fn write_window(&mut self, term: &Terminal)
        requires
            term.wf(),
        ensures
            final(self).written() == old(self).written() + enc_window(term.screen()),
    {
        self.write_marker(RSID_WINDOW);
        self.write_int(NROWS as i32);
        self.write_int(NCOLS as i32);
        let ghost head = self.written();
        proof {
            term.lemma_shape();
        }
        let mut y: usize = 0;
        while y < NROWS
            invariant
                y <= NROWS,
                term.wf(),
                self.written() == head + enc_rows(term.screen(), y as int),
            decreases NROWS - y,
        {
            let ghost row_head = self.written();
            let mut x: usize = 0;
            while x < NCOLS
                invariant
                    y < NROWS,
                    x <= NCOLS,
                    term.wf(),
                    self.written() == row_head + enc_row(term.screen(), y as int, x as int),
                decreases NCOLS - x,
            {
                proof {
                    term.lemma_shape();
                }
                let ch = term.read_cell(y as i32, x as i32);
                self.write_int(ch as i32);
                x = x + 1;
                assert(self.written() =~= row_head + enc_row(term.screen(), y as int, x as int));
            }
            y = y + 1;
            assert(self.written() =~= head + enc_rows(term.screen(), y as int));
        }
        assert(final(self).written() =~= old(self).written() + enc_window(term.screen()));
    }
}

/// Reading the stored cells of row `y` from column `x` on, over the screen
/// `g`: each glyph read goes to its cell (when on screen) without standout;
/// the first read that fails stops reading (the flag says so).
pub open spec fn rd_row(r: ReaderView, g: Seq<Seq<ScreenCell>>, y: int, x: int, cols: int) -> (ReaderView, Seq<Seq<ScreenCell>>, bool)
    decreases cols - x,
{
    if x >= cols {
        (r, g, false)
    } else {
        let (r1, v) = rd_int(r);
        if !reader_ok(r1) || v is None {
            (r1, g, true)
        } else {
            rd_row(r1, put_cell(g, y, x, ScreenCell { ch: v->0 as u8, standout: false }), y, x + 1, cols)
        }
    }
}

/// Reading the stored rows from row `y` on.
pub open spec fn rd_rows(r: ReaderView, g: Seq<Seq<ScreenCell>>, y: int, lines: int, cols: int) -> (ReaderView, Seq<Seq<ScreenCell>>)
    decreases lines - y,
{
    if y >= lines {
        (r, g)
    } else {
        let (r1, g1, stop) = rd_row(r, g, y, 0, cols);
        if stop { (r1, g1) } else { rd_rows(r1, g1, y + 1, lines, cols) }
    }
}

/// Reading a stored screen over `g`: the marker, the numbers of rows and
/// columns (none when they cannot be read), then the cells.
pub open spec fn rd_window(r: ReaderView, g: Seq<Seq<ScreenCell>>) -> (ReaderView, Seq<Seq<ScreenCell>>) {
    if !reader_ok(r) {
        (r, g)
    } else {
        let r1 = rd_marker(r, RSID_WINDOW);
        let (r2, lines) = rd_int(r1);
        let (r3, cols) = rd_int(r2);
        rd_rows(r3, g, 0, match lines { Some(n) => n as int, None => 0 }, match cols { Some(n) => n as int, None => 0 })
    }
}

/// `s` with every cell's glyph kept and its standout dropped.
pub open spec fn plain_screen(s: Seq<Seq<ScreenCell>>) -> Seq<Seq<ScreenCell>> {
    Seq::new(s.len(), |y: int| Seq::new(s[y].len(), |x: int| ScreenCell { ch: s[y][x].ch, standout: false }))
}

/// The bytes of cells `x` up to `e` of row `y` of `s`, front to back.
spec fn row_from(s: Seq<Seq<ScreenCell>>, y: int, x: int, e: int) -> Seq<u8>
    decreases e - x,
{
    if x >= e { Seq::empty() } else { enc_int(s[y][x].ch as i32) + row_from(s, y, x + 1, e) }
}

/// The bytes of rows `y` up to `e` of `s`, front to back.
spec fn rows_from(s: Seq<Seq<ScreenCell>>, y: int, e: int) -> Seq<u8>
    decreases e - y,
{
    if y >= e { Seq::empty() } else { row_from(s, y, 0, NCOLS as int) + rows_from(s, y + 1, e) }
}

proof fn lemma_row_from_snoc(s: Seq<Seq<ScreenCell>>, y: int, x: int, e: int)
    requires
        0 <= x <= e,
    ensures
        row_from(s, y, x, e + 1) == row_from(s, y, x, e) + enc_int(s[y][e].ch as i32),
    decreases e - x,
{
    if x < e {
        lemma_row_from_snoc(s, y, x + 1, e);
        assert(row_from(s, y, x, e + 1) =~= row_from(s, y, x, e) + enc_int(s[y][e].ch as i32));
    } else {
        assert(row_from(s, y, x + 1, e + 1) == Seq::<u8>::empty());
        assert(row_from(s, y, x, e) == Seq::<u8>::empty());
        assert(row_from(s, y, x, e + 1) =~= row_from(s, y, x, e) + enc_int(s[y][e].ch as i32));
    }
}

proof fn lemma_row_from_is_enc_row(s: Seq<Seq<ScreenCell>>, y: int, n: int)
    requires
        0 <= n,
    ensures
        row_from(s, y, 0, n) == enc_row(s, y, n),
    decreases n,
{
    if n > 0 {
        lemma_row_from_is_enc_row(s, y, n - 1);
        lemma_row_from_snoc(s, y, 0, n - 1);
    }
}

proof fn lemma_rows_from_snoc(s: Seq<Seq<ScreenCell>>, y: int, e: int)
    requires
        0 <= y <= e,
    ensures
        rows_from(s, y, e + 1) == rows_from(s, y, e) + row_from(s, e, 0, NCOLS as int),
    decreases e - y,
{
    if y < e {
        lemma_rows_from_snoc(s, y + 1, e);
        assert(rows_from(s, y, e + 1) =~= rows_from(s, y, e) + row_from(s, e, 0, NCOLS as int));
    } else {
        assert(rows_from(s, y + 1, e + 1) == Seq::<u8>::empty());
        assert(rows_from(s, y, e) == Seq::<u8>::empty());
        assert(rows_from(s, y, e + 1) =~= rows_from(s, y, e) + row_from(s, e, 0, NCOLS as int));
    }
}

proof fn lemma_rows_from_is_enc_rows(s: Seq<Seq<ScreenCell>>, n: int)
    requires
        0 <= n,
    ensures
        rows_from(s, 0, n) == enc_rows(s, n),
    decreases n,
{
    if n > 0 {
        lemma_rows_from_is_enc_rows(s, n - 1);
        lemma_rows_from_snoc(s, 0, n - 1);
        lemma_row_from_is_enc_row(s, n - 1, NCOLS as int);
    }
}

proof fn lemma_row_from_len(s: Seq<Seq<ScreenCell>>, y: int, x: int, e: int)
    requires
        x <= e,
    ensures
        row_from(s, y, x, e).len() == 4 * (e - x),
    decreases e - x,
{
    if x < e {
        lemma_int_round_trip(s[y][x].ch as i32, 0);
        lemma_row_from_len(s, y, x + 1, e);
    }
}

proof fn lemma_rows_from_len(s: Seq<Seq<ScreenCell>>, y: int, e: int)
    requires
        y <= e,
    ensures
        rows_from(s, y, e).len() == 320 * (e - y),
    decreases e - y,
{
    if y < e {
        lemma_rows_from_len(s, y + 1, e);
        lemma_row_from_len(s, y, 0, NCOLS as int);
    }
}

/// The grid after cells `x` up to `e` of row `y` take the plain glyphs of
/// `s`, one by one.
spec fn row_put(g: Seq<Seq<ScreenCell>>, s: Seq<Seq<ScreenCell>>, y: int, x: int, e: int) -> Seq<Seq<ScreenCell>>
    decreases e - x,
{
    if x >= e {
        g
    } else {
        row_put(put_cell(g, y, x, ScreenCell { ch: s[y][x].ch, standout: false }), s, y, x + 1, e)
    }
}

/// The grid after rows `y` up to `e` take the plain glyphs of `s`.
spec fn rows_put(g: Seq<Seq<ScreenCell>>, s: Seq<Seq<ScreenCell>>, y: int, e: int) -> Seq<Seq<ScreenCell>>
    decreases e - y,
{
    if y >= e { g } else { rows_put(row_put(g, s, y, 0, NCOLS as int), s, y + 1, e) }
}

proof fn lemma_read_row_back(r: ReaderView, g: Seq<Seq<ScreenCell>>, s: Seq<Seq<ScreenCell>>, y: int, x: int, e: int)
    requires
        reader_ok(r),
        0 <= x <= e,
        holds_at(r, row_from(s, y, x, e)),
    ensures
        rd_row(r, g, y, x, e) == (moved(r, 4 * (e - x)), row_put(g, s, y, x, e), false),
    decreases e - x,
{
    if x < e {
        let v = s[y][x].ch as i32;
        lemma_int_round_trip(v, 0);
        lemma_holds_split(r, enc_int(v), row_from(s, y, x + 1, e));
        lemma_read_int_back(r, v);
        let g1 = put_cell(g, y, x, ScreenCell { ch: s[y][x].ch, standout: false });
        lemma_read_row_back(moved(r, 4), g1, s, y, x + 1, e);
        assert(moved(moved(r, 4), 4 * (e - (x + 1))) == moved(r, 4 * (e - x)));
    } else {
        assert(moved(r, 0) == r);
    }
}

proof fn lemma_read_rows_back(r: ReaderView, g: Seq<Seq<ScreenCell>>, s: Seq<Seq<ScreenCell>>, y: int, e: int)
    requires
        reader_ok(r),
        0 <= y <= e,
        holds_at(r, rows_from(s, y, e)),
    ensures
        rd_rows(r, g, y, e, NCOLS as int) == (moved(r, 320 * (e - y)), rows_put(g, s, y, e)),
    decreases e - y,
{
    if y < e {
        lemma_holds_split(r, row_from(s, y, 0, NCOLS as int), rows_from(s, y + 1, e));
        lemma_row_from_len(s, y, 0, NCOLS as int);
        lemma_read_row_back(r, g, s, y, 0, NCOLS as int);
        let g1 = row_put(g, s, y, 0, NCOLS as int);
        lemma_read_rows_back(moved(r, 320), g1, s, y + 1, e);
        assert(moved(moved(r, 320), 320 * (e - (y + 1))) == moved(r, 320 * (e - y)));
    } else {
        assert(moved(r, 0) == r);
    }
}

proof fn lemma_row_put_cells(g: Seq<Seq<ScreenCell>>, s: Seq<Seq<ScreenCell>>, y: int, x: int, e: int)
    requires
        screen_shape(g),
        0 <= y < NROWS,
        0 <= x <= e <= NCOLS,
    ensures
        screen_shape(row_put(g, s, y, x, e)),
        forall|a: int, b: int|
            0 <= a < NROWS && 0 <= b < NCOLS ==> #[trigger] row_put(g, s, y, x, e)[a][b] == (if a == y && x <= b
                < e { ScreenCell { ch: s[y][b].ch, standout: false } } else { g[a][b] }),
    decreases e - x,
{
    if x < e {
        let g1 = put_cell(g, y, x, ScreenCell { ch: s[y][x].ch, standout: false });
        assert(spec_in_bounds(y, x));
        assert(screen_shape(g1)) by {
            assert forall|a: int| 0 <= a < NROWS implies (#[trigger] g1[a]).len() == NCOLS by {}
        }
        lemma_row_put_cells(g1, s, y, x + 1, e);
    }
}

proof fn lemma_rows_put_cells(g: Seq<Seq<ScreenCell>>, s: Seq<Seq<ScreenCell>>, y: int, e: int)
    requires
        screen_shape(g),
        0 <= y <= e <= NROWS,
    ensures
        screen_shape(rows_put(g, s, y, e)),
        forall|a: int, b: int|
            0 <= a < NROWS && 0 <= b < NCOLS ==> #[trigger] rows_put(g, s, y, e)[a][b] == (if y <= a < e {
                ScreenCell { ch: s[a][b].ch, standout: false }
            } else {
                g[a][b]
            }),
    decreases e - y,
{
    if y < e {
        lemma_row_put_cells(g, s, y, 0, NCOLS as int);
        let g1 = row_put(g, s, y, 0, NCOLS as int);
        lemma_rows_put_cells(g1, s, y + 1, e);
    }
}

/// A screen written where a reader stands reads back over any screen: the
/// reader moves past it, and the screen shows its glyphs, without
/// standout.
pub proof fn lemma_read_window_back(r: ReaderView, s: Seq<Seq<ScreenCell>>, g: Seq<Seq<ScreenCell>>)
    requires
        reader_ok(r),
        holds_at(r, enc_window(s)),
        screen_shape(s),
        screen_shape(g),
    ensures
        rd_window(r, g) == (moved(r, enc_window(s).len() as int), plain_screen(s)),
{
    lemma_int_round_trip(RSID_WINDOW, 0);
    lemma_int_round_trip(NROWS as i32, 0);
    lemma_int_round_trip(NCOLS as i32, 0);
    lemma_rows_from_is_enc_rows(s, NROWS as int);
    lemma_rows_from_len(s, 0, NROWS as int);
    assert(enc_window(s) =~= enc_int(RSID_WINDOW) + (enc_int(NROWS as i32) + (enc_int(NCOLS as i32) + rows_from(
        s,
        0,
        NROWS as int,
    ))));
    lemma_holds_split(r, enc_int(RSID_WINDOW), enc_int(NROWS as i32) + (enc_int(NCOLS as i32) + rows_from(s, 0, NROWS as int)));
    lemma_read_int_back(r, RSID_WINDOW);
    let r1 = moved(r, 4);
    lemma_holds_split(r1, enc_int(NROWS as i32), enc_int(NCOLS as i32) + rows_from(s, 0, NROWS as int));
    lemma_read_int_back(r1, NROWS as i32);
    let r2 = moved(r1, 4);
    lemma_holds_split(r2, enc_int(NCOLS as i32), rows_from(s, 0, NROWS as int));
    lemma_read_int_back(r2, NCOLS as i32);
    let r3 = moved(r2, 4);
    lemma_read_rows_back(r3, g, s, 0, NROWS as int);
    lemma_rows_put_cells(g, s, 0, NROWS as int);
    let out = rows_put(g, s, 0, NROWS as int);
    assert forall|a: int| 0 <= a < NROWS implies #[trigger] out[a] =~= plain_screen(s)[a] by {
        assert forall|b: int| 0 <= b < NCOLS implies #[trigger] out[a][b] == plain_screen(s)[a][b] by {}
    }
    assert(out =~= plain_screen(s));
    assert(moved(r3, 320 * NROWS) == moved(r, enc_window(s).len() as int));
}

impl SaveReader {
    /// Read a stored screen onto the terminal (see `rd_window`).
    pub fn read_window(&mut self, term: &mut Terminal)
        requires
            old(self).wf(),
            old(term).wf(),
        ensures
            final(self).wf(),
            final(term).wf(),
            (final(self)@, final(term).screen()) == rd_window(old(self)@, old(term).screen()),
            final(term).spec_cursor() == old(term).spec_cursor(),
    {
        if self.read_error || self.format_error {
            return;
        }
        self.read_marker(RSID_WINDOW);
        let lines = match self.read_int() { Some(n) => n, None => 0 };
        let cols = match self.read_int() { Some(n) => n, None => 0 };
        let ghost r3 = self@;
        let ghost g0 = term.screen();
        let mut y: i32 = 0;
        while y < lines
            invariant
                0 <= y <= lines || lines <= 0,
                self.wf(),
                term.wf(),
                term.spec_cursor() == old(term).spec_cursor(),
                rd_window(old(self)@, old(term).screen()) == rd_rows(r3, g0, 0, lines as int, cols as int),
                rd_rows(r3, g0, 0, lines as int, cols as int) == rd_rows(self@, term.screen(), y as int, lines as int, cols as int),
            decreases lines - y,
        {
            let ghost rr = self@;
            let ghost gg = term.screen();
            let mut x: i32 = 0;
            let mut stopped = false;
            while x < cols
                invariant_except_break
                    !stopped,
                    rd_row(rr, gg, y as int, 0, cols as int) == rd_row(self@, term.screen(), y as int, x as int, cols as int),
                invariant
                    0 <= x <= cols || cols <= 0,
                    y < lines,
                    self.wf(),
                    term.wf(),
                    term.spec_cursor() == old(term).spec_cursor(),
                ensures
                    stopped ==> rd_row(rr, gg, y as int, 0, cols as int) == (self@, term.screen(), true),
                    !stopped ==> rd_row(rr, gg, y as int, 0, cols as int) == (self@, term.screen(), false),
                decreases cols - x,
            {
                let v = self.read_int();
                if self.read_error || self.format_error {
                    stopped = true;
                    break;
                }
                match v {
                    Some(n) => {
                        #[verifier::truncate]
                        let b = n as u8;
                        term.write_cell(y, x, b);
                    },
                    None => {
                        stopped = true;
                        break;
                    },
                }
                x = x + 1;
            }
            if stopped {
                assert(rd_rows(rr, gg, y as int, lines as int, cols as int) == (self@, term.screen()));
                return;
            }
            y = y + 1;
        }
    }
}

} // verus!

verus! {

/// A reader at the start of `data`.
pub open spec fn fresh_reader(data: Seq<u8>) -> ReaderView {
    ReaderView { data, pos: 0, read_error: false, format_error: false }
}

/// The kind of a value in a saved game's layout.
#[derive(Clone, Copy, Debug, PartialEq, Eq, Structural)]
pub enum FieldKind {
    /// A flag (one byte).
    Bool,
    /// A character (one byte).
    Char,
    /// A run of exactly this many bytes, preceded by its length.
    Chars(i32),
    /// A number (four bytes).
    Int,
    /// A count that must read back as this number (before a run of values).
    Marker(i32),
    /// A string that may be missing (see `enc_string`).
    Text,
    /// A map position.
    Coord,
    /// A `short` (two bytes).
    Short,
    /// An unsigned number (four bytes).
    Uint,
    /// A number that may be at most this (a larger one is a format error).
    AtMost(i32),
}

/// A value in a saved game.
pub enum SaveField {
    Bool(bool),
    Char(u8),
    Chars(Vec<u8>),
    Int(i32),
    Marker(i32),
    Text(Option<Vec<u8>>),
    Coord(IVec2),
    Short(i16),
    Uint(u32),
}

/// The same as a mathematical value.
pub enum FieldView {
    Bool(bool),
    Char(u8),
    Chars(Seq<u8>),
    Int(i32),
    Marker(i32),
    Text(Option<Seq<u8>>),
    Coord(IVec2),
    Short(i16),
    Uint(u32),
}

impl SaveField {
    pub open spec fn view(&self) -> FieldView {
        match self {
            SaveField::Bool(b) => FieldView::Bool(*b),
            SaveField::Char(c) => FieldView::Char(*c),
            SaveField::Chars(v) => FieldView::Chars(v@),
            SaveField::Int(i) => FieldView::Int(*i),
            SaveField::Marker(i) => FieldView::Marker(*i),
            SaveField::Text(t) => FieldView::Text(match t { Some(v) => Some(v@), None => None }),
            SaveField::Coord(c) => FieldView::Coord(*c),
            SaveField::Short(v) => FieldView::Short(*v),
            SaveField::Uint(v) => FieldView::Uint(*v),
        }
    }
}

/// The values of a list of fields.
pub open spec fn fields_view(fs: Seq<SaveField>) -> Seq<FieldView> {
    fs.map_values(|f: SaveField| f@)
}

/// Whether a layout can be written and read: runs are not empty and fit
/// their length.
pub open spec fn layout_ok(layout: Seq<FieldKind>) -> bool {
    forall|i: int| 0 <= i < layout.len() ==> (#[trigger] layout[i] matches FieldKind::Chars(n) ==> n > 0)
}

/// Whether value `v` has kind `k`.
pub open spec fn fits(v: FieldView, k: FieldKind) -> bool {
    match (v, k) {
        (FieldView::Bool(_), FieldKind::Bool) => true,
        (FieldView::Char(_), FieldKind::Char) => true,
        (FieldView::Chars(s), FieldKind::Chars(n)) => s.len() == n,
        (FieldView::Int(_), FieldKind::Int) => true,
        (FieldView::Marker(m), FieldKind::Marker(n)) => m == n,
        (FieldView::Text(t), FieldKind::Text) => t matches Some(s) ==> s.len() + 1 < i32::MAX,
        (FieldView::Coord(_), FieldKind::Coord) => true,
        (FieldView::Short(_), FieldKind::Short) => true,
        (FieldView::Uint(_), FieldKind::Uint) => true,
        (FieldView::Int(v), FieldKind::AtMost(n)) => v <= n,
        _ => false,
    }
}

/// Whether the values `vs` follow the layout.
pub open spec fn follows(vs: Seq<FieldView>, layout: Seq<FieldKind>) -> bool {
    &&& vs.len() == layout.len()
    &&& forall|i: int| 0 <= i < vs.len() ==> fits(#[trigger] vs[i], layout[i])
}

/// The bytes of one value.
pub open spec fn enc_field(v: FieldView) -> Seq<u8> {
    match v {
        FieldView::Bool(b) => enc_bool(b),
        FieldView::Char(c) => seq![c],
        FieldView::Chars(s) => enc_chars(s),
        FieldView::Int(i) => enc_int(i),
        FieldView::Marker(i) => enc_int(i),
        FieldView::Text(t) => enc_string(t),
        FieldView::Coord(c) => enc_coord(c),
        FieldView::Short(v) => enc_short(v),
        FieldView::Uint(v) => enc_uint(v),
    }
}

/// The bytes of values one after another.
pub open spec fn enc_fields(vs: Seq<FieldView>) -> Seq<u8>
    decreases vs.len(),
{
    if vs.len() == 0 { Seq::empty() } else { enc_fields(vs.drop_last()) + enc_field(vs.last()) }
}

/// Reading a character.
pub open spec fn rd_char(r: ReaderView) -> (ReaderView, Option<u8>) {
    if !reader_ok(r) { (r, None) } else { (after_read(r, 1), Some(next_bytes(r, 1)[0])) }
}

/// Reading one value of kind `k`; a failed read gives a value of no
/// meaning, and the failure stays on the reader.
pub open spec fn rd_field(r: ReaderView, k: FieldKind) -> (ReaderView, FieldView) {
    match k {
        FieldKind::Bool => { let (r1, b) = rd_bool(r); (r1, FieldView::Bool(b == Some(true))) },
        FieldKind::Char => { let (r1, c) = rd_char(r); (r1, FieldView::Char(match c { Some(x) => x, None => 0 })) },
        FieldKind::Chars(n) => { let (r1, s) = rd_chars(r, n); (r1, FieldView::Chars(match s { Some(x) => x, None => Seq::empty() })) },
        FieldKind::Int => { let (r1, i) = rd_int(r); (r1, FieldView::Int(match i { Some(x) => x, None => 0 })) },
        FieldKind::Marker(n) => (rd_marker(r, n), FieldView::Marker(n)),
        FieldKind::Text => {
            let (r1, t) = rd_string(r, i32::MAX);
            (r1, FieldView::Text(match t { Some(x) => Some(if x.len() > 0 { x.drop_last() } else { x }), None => None }))
        },
        FieldKind::Coord => { let (r1, c) = rd_coord(r); (r1, FieldView::Coord(match c { Some(x) => x, None => IVec2 { x: 0, y: 0 } })) },
        FieldKind::Short => { let (r1, v) = rd_short(r); (r1, FieldView::Short(match v { Some(x) => x, None => 0 })) },
        FieldKind::Uint => { let (r1, v) = rd_uint(r); (r1, FieldView::Uint(match v { Some(x) => x, None => 0 })) },
        FieldKind::AtMost(n) => {
            let (r1, v) = rd_int(r);
            let r2 = if v is Some && v->0 > n { ReaderView { format_error: true, ..r1 } } else { r1 };
            (r2, FieldView::Int(match v { Some(x) => x, None => 0 }))
        },
    }
}

/// The `short` stored in two bytes.
pub open spec fn decode_short(b: Seq<u8>) -> i16 {
    (le_value(b) as u16) as i16
}

/// Reading a `short`.
pub open spec fn rd_short(r: ReaderView) -> (ReaderView, Option<i16>) {
    if !reader_ok(r) { (r, None) } else { (after_read(r, 2), Some(decode_short(next_bytes(r, 2)))) }
}

/// A `short` reads back from its two bytes.
proof fn lemma_short_round_trip(v: i16)
    ensures
        enc_short(v).len() == 2,
        decode_short(enc_short(v)) == v,
{
    reveal_with_fuel(pow256, 3);
    assert(pow256(2) == 0x1_0000);
    let w = v as u16;
    lemma_le_round_trip(w as nat, 2);
    assert(le_value(enc_short(v)) == w as nat);
    assert((w as i16) == v) by (bit_vector)
        requires w == v as u16;
}

/// Reading the first `n` values of a layout.
pub open spec fn rd_fields(r: ReaderView, layout: Seq<FieldKind>, n: int) -> (ReaderView, Seq<FieldView>)
    decreases n,
{
    if n <= 0 {
        (r, Seq::empty())
    } else {
        let (r1, vs) = rd_fields(r, layout, n - 1);
        let (r2, v) = rd_field(r1, layout[n - 1]);
        (r2, vs.push(v))
    }
}

impl SaveWriter {
    /// Write one value (see `enc_field`).
    pub fn write_field(&mut self, f: &SaveField)
        requires
            f@ matches FieldView::Chars(s) ==> s.len() <= i32::MAX,
            f@ matches FieldView::Text(t) ==> (t matches Some(s) ==> s.len() < i32::MAX),
        ensures
            final(self).written() == old(self).written() + enc_field(f@),
    {
        match f {
            SaveField::Bool(b) => self.write_boolean(*b),
            SaveField::Char(c) => {
                self.bytes.push(*c);
                assert(self.bytes@ =~= old(self).bytes@ + seq![*c]);
            },
            SaveField::Chars(v) => self.write_chars(v.as_slice()),
            SaveField::Int(i) => self.write_int(*i),
            SaveField::Marker(i) => self.write_int(*i),
            SaveField::Text(t) => match t {
                Some(v) => self.write_string(Some(v.as_slice())),
                None => self.write_string(None),
            },
            SaveField::Coord(c) => self.write_coord(*c),
            SaveField::Short(v) => self.write_short(*v),
            SaveField::Uint(v) => self.write_uint(*v),
        }
    }
}

impl SaveReader {
    /// Read a character (see `rd_char`).
    pub fn read_char(&mut self) -> (c: Option<u8>)
        requires
            old(self).wf(),
        ensures
            final(self).wf(),
            (final(self)@, c) == rd_char(old(self)@),
    {
        if self.read_error || self.format_error {
            return None;
        }
        let b = self.take(1);
        Some(b[0])
    }

    /// Read one value of kind `k` (see `rd_field`).
    pub fn read_field(&mut self, k: FieldKind) -> (f: SaveField)
        requires
            old(self).wf(),
        ensures
            final(self).wf(),
            (final(self)@, f@) == rd_field(old(self)@, k),
    {
        match k {
            FieldKind::Bool => SaveField::Bool(self.read_boolean() == Some(true)),
            FieldKind::Char => SaveField::Char(match self.read_char() { Some(x) => x, None => 0 }),
            FieldKind::Chars(n) => SaveField::Chars(match self.read_chars(n) { Some(x) => x, None => Vec::new() }),
            FieldKind::Int => SaveField::Int(match self.read_int() { Some(x) => x, None => 0 }),
            FieldKind::Marker(n) => {
                self.read_marker(n);
                SaveField::Marker(n)
            },
            FieldKind::Text => {
                let t = self.read_string(i32::MAX);
                match t {
                    Some(mut v) => {
                        let ghost full = v@;
                        if v.len() > 0 {
                            v.pop();
                        }
                        assert(v@ =~= (if full.len() > 0 { full.drop_last() } else { full }));
                        SaveField::Text(Some(v))
                    },
                    None => SaveField::Text(None),
                }
            },
            FieldKind::Coord => SaveField::Coord(match self.read_coord() { Some(x) => x, None => IVec2 { x: 0, y: 0 } }),
            FieldKind::Short => SaveField::Short(match self.read_short() { Some(x) => x, None => 0 }),
            FieldKind::Uint => SaveField::Uint(match self.read_uint() { Some(x) => x, None => 0 }),
            FieldKind::AtMost(n) => {
                let v = self.read_int();
                if let Some(x) = v {
                    if x > n {
                        self.format_error = true;
                    }
                }
                SaveField::Int(match v { Some(x) => x, None => 0 })
            },
        }
    }

    /// Read a `short` (see `rd_short`).
    pub fn read_short(&mut self) -> (v: Option<i16>)
        requires
            old(self).wf(),
        ensures
            final(self).wf(),
            (final(self)@, v) == rd_short(old(self)@),
    {
        if self.read_error || self.format_error {
            return None;
        }
        let b = self.take(2);
        let u: u16 = b[0] as u16 + 256 * (b[1] as u16);
        proof {
            let b1 = b@.drop_first();
            let b2 = b1.drop_first();
            assert(b2.len() == 0);
            assert(le_value(b1) == b1[0] as nat + 256 * le_value(b2));
            assert(le_value(b@) == b@[0] as nat + 256 * le_value(b1));
        }
        #[verifier::truncate]
        let v = u as i16;
        Some(v)
    }
}

proof fn lemma_moved_twice(r: ReaderView, a: int, b: int)
    ensures
        moved(moved(r, a), b) == moved(r, a + b),
{
}

/// One value written where a reader stands reads back.
proof fn lemma_read_field_back(r: ReaderView, v: FieldView, k: FieldKind)
    requires
        reader_ok(r),
        fits(v, k),
        k matches FieldKind::Chars(n) ==> n > 0,
        holds_at(r, enc_field(v)),
    ensures
        rd_field(r, k) == (moved(r, enc_field(v).len() as int), v),
{
    match v {
        FieldView::Bool(b) => {
            lemma_read_bool_back(r, b);
        },
        FieldView::Char(c) => {
            assert(next_bytes(r, 1) =~= seq![c]);
        },
        FieldView::Chars(s) => {
            lemma_read_chars_back(r, s);
            assert(enc_chars(s).len() == 4 + s.len()) by {
                lemma_le_round_trip(s.len() as i32 as u32 as nat, 4);
            }
        },
        FieldView::Int(i) => {
            lemma_read_int_back(r, i);
            lemma_le_round_trip(i as u32 as nat, 4);
        },
        FieldView::Marker(i) => {
            lemma_read_int_back(r, i);
            lemma_le_round_trip(i as u32 as nat, 4);
        },
        FieldView::Text(t) => {
            match t {
                Some(s) => {
                    lemma_read_string_back(r, s, i32::MAX);
                    assert(s.push(0u8).drop_last() =~= s);
                    lemma_le_round_trip(((s.len() + 1) as i32) as u32 as nat, 4);
                    lemma_le_round_trip(((s.push(0u8)).len() as i32) as u32 as nat, 4);
                },
                None => {
                    lemma_le_round_trip(0u32 as nat, 4);
                    lemma_holds_split(r, enc_int(0), enc_int(0));
                    lemma_read_int_back(r, 0);
                    lemma_read_int_back(moved(r, 4), 0);
                },
            }
        },
        FieldView::Coord(c) => {
            lemma_read_coord_back(r, c);
            lemma_le_round_trip(c.x as u32 as nat, 4);
            lemma_le_round_trip(c.y as u32 as nat, 4);
        },
        FieldView::Short(v) => {
            lemma_short_round_trip(v);
            assert(next_bytes(r, 2) =~= enc_short(v));
        },
        FieldView::Uint(v) => {
            lemma_int_round_trip(0, v);
            assert(next_bytes(r, 4) =~= enc_uint(v));
        },
    }
}

/// Values written one after another where a reader stands read back.
proof fn lemma_read_fields_back(r: ReaderView, vs: Seq<FieldView>, layout: Seq<FieldKind>)
    requires
        reader_ok(r),
        follows(vs, layout),
        layout_ok(layout),
        holds_at(r, enc_fields(vs)),
    ensures
        rd_fields(r, layout, vs.len() as int) == (moved(r, enc_fields(vs).len() as int), vs),
    decreases vs.len(),
{
    if vs.len() == 0 {
        assert(moved(r, 0) == r);
    } else {
        let n = vs.len() - 1;
        let p = vs.drop_last();
        let lp = layout.subrange(0, n as int);
        lemma_holds_split(r, enc_fields(p), enc_field(vs.last()));
        assert(follows(p, lp)) by {
            assert forall|i: int| 0 <= i < p.len() implies fits(#[trigger] p[i], lp[i]) by {
                assert(fits(vs[i], layout[i]));
            }
        }
        assert(layout_ok(lp)) by {
            assert forall|i: int| 0 <= i < lp.len() implies (#[trigger] lp[i] matches FieldKind::Chars(m) ==> m > 0) by {
                assert(lp[i] == layout[i]);
            }
        }
        lemma_read_fields_back(r, p, lp);
        lemma_rd_fields_prefix(r, layout, lp, n as int);
        let r1 = moved(r, enc_fields(p).len() as int);
        assert(fits(vs[n as int], layout[n as int]));
        assert(layout[n as int] matches FieldKind::Chars(m) ==> m > 0);
        lemma_read_field_back(r1, vs.last(), layout[n as int]);
        lemma_moved_twice(r, enc_fields(p).len() as int, enc_field(vs.last()).len() as int);
        assert(p.push(vs.last()) =~= vs);
    }
}

proof fn lemma_rd_fields_prefix(r: ReaderView, a: Seq<FieldKind>, b: Seq<FieldKind>, n: int)
    requires
        0 <= n <= a.len(),
        n <= b.len(),
        forall|i: int| 0 <= i < n ==> a[i] == b[i],
    ensures
        rd_fields(r, a, n) == rd_fields(r, b, n),
    decreases n,
{
    if n > 0 {
        lemma_rd_fields_prefix(r, a, b, n - 1);
    }
}

/// The length of a text buffer of the game.
pub const MAXSTR: i32 = 1024;
/// The length of the print buffer.
pub const PRINT_BUF: i32 = 2048;

/// `n` values of kind `k`.
pub open spec fn repeated(k: FieldKind, n: nat) -> Seq<FieldKind> {
    Seq::new(n, |_i: int| k)
}

/// The layout of the game's globals at the head of a saved game: the
/// switches block; the direction key, the save file's name and the last
/// "huh" message; the potion colours; the print buffer; the ring stones;
/// the release and the run key; the scroll names; the item to take and
/// the player's name; the stick materials (a list and an index each); the
/// suspend character, the fruit and the home directory; the three
/// inventory styles; the last commands and directions; the eight trap
/// names; the object and trap counts, hunger, pack count, inventory style,
/// depth, deepest level, message position and turns without food; the
/// armour classes; the count, food left, last score, turns asleep and
/// held, purse, quiet turns, hit cheat, dungeon number and seed; the
/// experience levels; and the last step, the last position and the stairs.
pub open spec fn globals_layout() -> Seq<FieldKind> {
    seq![FieldKind::Bool, FieldKind::Bool, FieldKind::Int] + repeated(FieldKind::Bool, 24)
        + seq![FieldKind::Int, FieldKind::Marker(26)] + repeated(FieldKind::Bool, 26)
        + seq![FieldKind::Char, FieldKind::Chars(MAXSTR), FieldKind::Chars(MAXSTR)]
        + repeated(FieldKind::Int, 14)
        + seq![FieldKind::Chars(PRINT_BUF)]
        + repeated(FieldKind::Int, 14)
        + seq![FieldKind::Text, FieldKind::Char]
        + repeated(FieldKind::Text, 18)
        + seq![FieldKind::Char, FieldKind::Chars(MAXSTR)]
        + repeated(FieldKind::Int, 28)
        + seq![FieldKind::Int, FieldKind::Chars(MAXSTR), FieldKind::Chars(MAXSTR), FieldKind::Marker(3)]
        + repeated(FieldKind::Text, 3)
        + repeated(FieldKind::Char, 4)
        + seq![FieldKind::Marker(8)] + repeated(FieldKind::Text, 8)
        + repeated(FieldKind::Int, 9)
        + seq![FieldKind::Marker(8)] + repeated(FieldKind::Int, 8)
        + repeated(FieldKind::Int, 10)
        + seq![FieldKind::Marker(21)] + repeated(FieldKind::Int, 21)
        + repeated(FieldKind::Coord, 3)
}

fn push_kinds(v: &mut Vec<FieldKind>, k: FieldKind, n: usize)
    ensures
        final(v)@ == old(v)@ + repeated(k, n as nat),
{
    let mut i: usize = 0;
    while i < n
        invariant
            i <= n,
            v@ == old(v)@ + repeated(k, i as nat),
        decreases n - i,
    {
        v.push(k);
        i = i + 1;
        assert(v@ =~= old(v)@ + repeated(k, i as nat));
    }
}

fn push_kind(v: &mut Vec<FieldKind>, k: FieldKind)
    ensures
        final(v)@ == old(v)@ + seq![k],
{
    v.push(k);
    assert(v@ =~= old(v)@ + seq![k]);
}

/// The layout of the game's globals (see `globals_layout`).
pub fn globals_kinds() -> (l: Vec<FieldKind>)
    ensures
        l@ == globals_layout(),
{
    let mut v: Vec<FieldKind> = Vec::new();
    push_kind(&mut v, FieldKind::Bool);
    push_kind(&mut v, FieldKind::Bool);
    push_kind(&mut v, FieldKind::Int);
    push_kinds(&mut v, FieldKind::Bool, 24);
    push_kind(&mut v, FieldKind::Int);
    push_kind(&mut v, FieldKind::Marker(26));
    push_kinds(&mut v, FieldKind::Bool, 26);
    push_kind(&mut v, FieldKind::Char);
    push_kind(&mut v, FieldKind::Chars(MAXSTR));
    push_kind(&mut v, FieldKind::Chars(MAXSTR));
    push_kinds(&mut v, FieldKind::Int, 14);
    push_kind(&mut v, FieldKind::Chars(PRINT_BUF));
    push_kinds(&mut v, FieldKind::Int, 14);
    push_kind(&mut v, FieldKind::Text);
    push_kind(&mut v, FieldKind::Char);
    push_kinds(&mut v, FieldKind::Text, 18);
    push_kind(&mut v, FieldKind::Char);
    push_kind(&mut v, FieldKind::Chars(MAXSTR));
    push_kinds(&mut v, FieldKind::Int, 28);
    push_kind(&mut v, FieldKind::Int);
    push_kind(&mut v, FieldKind::Chars(MAXSTR));
    push_kind(&mut v, FieldKind::Chars(MAXSTR));
    push_kind(&mut v, FieldKind::Marker(3));
    push_kinds(&mut v, FieldKind::Text, 3);
    push_kinds(&mut v, FieldKind::Char, 4);
    push_kind(&mut v, FieldKind::Marker(8));
    push_kinds(&mut v, FieldKind::Text, 8);
    push_kinds(&mut v, FieldKind::Int, 9);
    push_kind(&mut v, FieldKind::Marker(8));
    push_kinds(&mut v, FieldKind::Int, 8);
    push_kinds(&mut v, FieldKind::Int, 10);
    push_kind(&mut v, FieldKind::Marker(21));
    push_kinds(&mut v, FieldKind::Int, 21);
    push_kinds(&mut v, FieldKind::Coord, 3);
    assert(v@ =~= globals_layout());
    v
}

proof fn lemma_globals_layout_ok()
    ensures
        layout_ok(globals_layout()),
{
    let l = globals_layout();
    assert forall|i: int| 0 <= i < l.len() implies (#[trigger] l[i] matches FieldKind::Chars(n) ==> n > 0) by {
        assert(l[i] matches FieldKind::Chars(n) ==> n == MAXSTR || n == PRINT_BUF);
    }
}

/// The marker before a list of objects.
pub const OBJECT_LIST_MARK: i32 = -1412628473;
/// The marker before an object.
pub const OBJECT_MARK: i32 = -1412628477;
/// The marker before a monster or the hero.
pub const THING_MARK: i32 = -1412628478;
/// The marker before a set of fighting statistics.
pub const STATS_MARK: i32 = -1412628479;

/// The layout of an object: its marker, kind, position, launcher, pack
/// letter, damage when wielded and when thrown, count, sort, hit and damage
/// bonuses, armour class or charges, flags, throw group and label.
pub open spec fn object_layout() -> Seq<FieldKind> {
    seq![FieldKind::Marker(OBJECT_MARK), FieldKind::Int, FieldKind::Coord, FieldKind::Int, FieldKind::Char,
        FieldKind::Chars(8), FieldKind::Chars(8)] + repeated(FieldKind::Int, 7) + seq![FieldKind::Text]
}

/// The layout of the hero as a saved game holds him before his pack: the
/// marker, that he is there, his position, whether it is his turn, his
/// type, looks and the character under him, what he chases (a list and an
/// index), his flags, his statistics (marker, strength, experience, level,
/// armour class, hit points, damage, maximum hit points) and his room.
pub open spec fn hero_layout() -> Seq<FieldKind> {
    seq![FieldKind::Marker(THING_MARK), FieldKind::Int, FieldKind::Coord, FieldKind::Bool, FieldKind::Char,
        FieldKind::Char, FieldKind::Char, FieldKind::Int, FieldKind::Int, FieldKind::Short,
        FieldKind::Marker(STATS_MARK), FieldKind::Uint, FieldKind::Int, FieldKind::Int, FieldKind::Int,
        FieldKind::Int, FieldKind::Chars(13), FieldKind::Int, FieldKind::Int]
}

/// The layout of the references into the hero's pack: his armour, the rings
/// on his left and right hands, his weapon, and the item picked before last
/// and last.
pub open spec fn pack_refs_layout() -> Seq<FieldKind> {
    repeated(FieldKind::Int, 6)
}

/// Records one after another.
pub open spec fn enc_records(rs: Seq<Seq<FieldView>>) -> Seq<u8>
    decreases rs.len(),
{
    if rs.len() == 0 { Seq::empty() } else { enc_records(rs.drop_last()) + enc_fields(rs.last()) }
}

/// A list of objects: its marker, how many, and each object.
pub open spec fn enc_object_list(rs: Seq<Seq<FieldView>>) -> Seq<u8> {
    enc_int(OBJECT_LIST_MARK) + enc_int(rs.len() as i32) + enc_records(rs)
}

/// Reading `n` records of `layout` one after another.
pub open spec fn rd_records(r: ReaderView, layout: Seq<FieldKind>, n: int) -> (ReaderView, Seq<Seq<FieldView>>)
    decreases n,
{
    if n <= 0 {
        (r, Seq::empty())
    } else {
        let (r1, rs) = rd_records(r, layout, n - 1);
        let (r2, v) = rd_fields(r1, layout, layout.len() as int);
        (r2, rs.push(v))
    }
}

/// Reading a list of objects: its marker, its count and that many objects.
pub open spec fn rd_object_list(r: ReaderView) -> (ReaderView, Seq<Seq<FieldView>>) {
    let r1 = rd_marker(r, OBJECT_LIST_MARK);
    let (r2, n) = rd_int(r1);
    rd_records(r2, object_layout(), match n { Some(k) => k as int, None => 0 })
}

/// Whether every record follows `layout`.
pub open spec fn all_follow(rs: Seq<Seq<FieldView>>, layout: Seq<FieldKind>) -> bool {
    forall|i: int| 0 <= i < rs.len() ==> follows(#[trigger] rs[i], layout)
}

/// The records of a list, as mathematical values.
pub open spec fn records_view(rs: Seq<Vec<SaveField>>) -> Seq<Seq<FieldView>> {
    rs.map_values(|r: Vec<SaveField>| fields_view(r@))
}

proof fn lemma_failed_fields(r: ReaderView, layout: Seq<FieldKind>, n: int)
    requires
        !reader_ok(r),
    ensures
        rd_fields(r, layout, n).0 == r,
    decreases n,
{
    if n > 0 {
        lemma_failed_fields(r, layout, n - 1);
        let r1 = rd_fields(r, layout, n - 1).0;
        assert(rd_field(r1, layout[n - 1]).0 == r1) by {
            match layout[n - 1] {
                FieldKind::Marker(m) => {},
                FieldKind::Chars(m) => {},
                _ => {},
            }
        }
    }
}

proof fn lemma_failed_records(r: ReaderView, layout: Seq<FieldKind>, n: int)
    requires
        !reader_ok(r),
    ensures
        rd_records(r, layout, n).0 == r,
    decreases n,
{
    if n > 0 {
        lemma_failed_records(r, layout, n - 1);
        lemma_failed_fields(r, layout, layout.len() as int);
    }
}

proof fn lemma_read_records_back(r: ReaderView, rs: Seq<Seq<FieldView>>, layout: Seq<FieldKind>)
    requires
        reader_ok(r),
        all_follow(rs, layout),
        layout_ok(layout),
        holds_at(r, enc_records(rs)),
    ensures
        rd_records(r, layout, rs.len() as int) == (moved(r, enc_records(rs).len() as int), rs),
    decreases rs.len(),
{
    if rs.len() == 0 {
        assert(moved(r, 0) == r);
    } else {
        let p = rs.drop_last();
        lemma_holds_split(r, enc_records(p), enc_fields(rs.last()));
        assert(all_follow(p, layout)) by {
            assert forall|i: int| 0 <= i < p.len() implies follows(#[trigger] p[i], layout) by {
                assert(p[i] == rs[i]);
            }
        }
        lemma_read_records_back(r, p, layout);
        let r1 = moved(r, enc_records(p).len() as int);
        assert(follows(rs[rs.len() - 1], layout));
        lemma_read_fields_back(r1, rs.last(), layout);
        assert(rs.last().len() == layout.len());
        lemma_moved_twice(r, enc_records(p).len() as int, enc_fields(rs.last()).len() as int);
        assert(p.push(rs.last()) =~= rs);
    }
}

/// A list of objects written where a reader stands reads back.
pub proof fn lemma_read_object_list_back(r: ReaderView, rs: Seq<Seq<FieldView>>)
    requires
        reader_ok(r),
        all_follow(rs, object_layout()),
        rs.len() <= i32::MAX,
        holds_at(r, enc_object_list(rs)),
    ensures
        rd_object_list(r) == (moved(r, enc_object_list(rs).len() as int), rs),
{
    let a = enc_int(OBJECT_LIST_MARK);
    let b = enc_int(rs.len() as i32);
    let c = enc_records(rs);
    assert(enc_object_list(rs) =~= a + (b + c));
    lemma_int_round_trip(OBJECT_LIST_MARK, 0);
    lemma_int_round_trip(rs.len() as i32, 0);
    lemma_holds_split(r, a, b + c);
    lemma_holds_split(moved(r, 4), b, c);
    lemma_read_int_back(r, OBJECT_LIST_MARK);
    lemma_read_int_back(moved(r, 4), rs.len() as i32);
    lemma_moved_twice(r, 4, 4);
    assert(layout_ok(object_layout())) by {
        let l = object_layout();
        assert forall|i: int| 0 <= i < l.len() implies (#[trigger] l[i] matches FieldKind::Chars(n) ==> n > 0) by {
            assert(l[i] matches FieldKind::Chars(n) ==> n == 8);
        }
    }
    lemma_read_records_back(moved(r, 8), rs, object_layout());
    lemma_moved_twice(r, 8, c.len() as int);
}

impl SaveWriter {
    /// Write values one after another (see `enc_fields`).
    pub fn write_fields(&mut self, fs: &Vec<SaveField>, layout: Ghost<Seq<FieldKind>>)
        requires
            follows(fields_view(fs@), layout@),
        ensures
            final(self).written() == old(self).written() + enc_fields(fields_view(fs@)),
    {
        let mut i: usize = 0;
        while i < fs.len()
            invariant
                i <= fs@.len(),
                follows(fields_view(fs@), layout@),
                self.written() == old(self).written() + enc_fields(fields_view(fs@).subrange(0, i as int)),
            decreases fs@.len() - i,
        {
            proof {
                assert(fits(fields_view(fs@)[i as int], layout@[i as int]));
                assert(fields_view(fs@)[i as int] == fs@[i as int]@);
            }
            self.write_field(&fs[i]);
            proof {
                let t = fields_view(fs@).subrange(0, i + 1);
                assert(t.drop_last() =~= fields_view(fs@).subrange(0, i as int));
                assert(t.last() == fs@[i as int]@);
            }
            i = i + 1;
        }
        assert(fields_view(fs@).subrange(0, fs@.len() as int) =~= fields_view(fs@));
    }

    /// Write a list of objects (see `enc_object_list`).
    pub fn write_object_list(&mut self, rs: &Vec<Vec<SaveField>>)
        requires
            all_follow(records_view(rs@), object_layout()),
            rs@.len() <= i32::MAX,
        ensures
            final(self).written() == old(self).written() + enc_object_list(records_view(rs@)),
    {
        self.write_int(OBJECT_LIST_MARK);
        self.write_int(rs.len() as i32);
        let ghost head = self.written();
        let mut i: usize = 0;
        while i < rs.len()
            invariant
                i <= rs@.len(),
                all_follow(records_view(rs@), object_layout()),
                self.written() == head + enc_records(records_view(rs@).subrange(0, i as int)),
            decreases rs@.len() - i,
        {
            proof {
                assert(follows(records_view(rs@)[i as int], object_layout()));
            }
            self.write_fields(&rs[i], Ghost(object_layout()));
            proof {
                let t = records_view(rs@).subrange(0, i + 1);
                assert(t.drop_last() =~= records_view(rs@).subrange(0, i as int));
                assert(t.last() == fields_view(rs@[i as int]@));
            }
            i = i + 1;
        }
        assert(records_view(rs@).subrange(0, rs@.len() as int) =~= records_view(rs@));
        assert(final(self).written() =~= old(self).written() + enc_object_list(records_view(rs@)));
    }
}

impl SaveReader {
    /// Read the values of `layout` one after another (see `rd_fields`).
    pub fn read_fields(&mut self, layout: &Vec<FieldKind>) -> (fs: Vec<SaveField>)
        requires
            old(self).wf(),
        ensures
            final(self).wf(),
            (final(self)@, fields_view(fs@)) == rd_fields(old(self)@, layout@, layout@.len() as int),
    {
        let mut out: Vec<SaveField> = Vec::new();
        let mut i: usize = 0;
        while i < layout.len()
            invariant
                i <= layout@.len(),
                self.wf(),
                (self@, fields_view(out@)) == rd_fields(old(self)@, layout@, i as int),
            decreases layout@.len() - i,
        {
            let f = self.read_field(layout[i]);
            out.push(f);
            proof {
                assert(fields_view(out@) =~= rd_fields(old(self)@, layout@, i as int).1.push(f@));
            }
            i = i + 1;
        }
        out
    }

    /// Read a list of objects (see `rd_object_list`); once a read fails the
    /// rest is not read, and the objects then mean nothing.
    pub fn read_object_list(&mut self, layout: &Vec<FieldKind>) -> (rs: Vec<Vec<SaveField>>)
        requires
            old(self).wf(),
            layout@ == object_layout(),
        ensures
            final(self).wf(),
            final(self)@ == rd_object_list(old(self)@).0,
            reader_ok(final(self)@) ==> records_view(rs@) == rd_object_list(old(self)@).1,
    {
        self.read_marker(OBJECT_LIST_MARK);
        let ghost r2 = rd_marker(old(self)@, OBJECT_LIST_MARK);
        let n = match self.read_int() {
            Some(k) => k,
            None => 0,
        };
        let ghost start = self@;
        let mut out: Vec<Vec<SaveField>> = Vec::new();
        let mut i: i32 = 0;
        while i < n
            invariant
                0 <= i <= n || (n <= 0 && i == 0),
                self.wf(),
                layout@ == object_layout(),
                (self@, records_view(out@)) == rd_records(start, layout@, i as int),
                start == rd_int(rd_marker(old(self)@, OBJECT_LIST_MARK)).0,
                n == (match rd_int(rd_marker(old(self)@, OBJECT_LIST_MARK)).1 { Some(k) => k, None => 0i32 }),
            decreases n - i,
        {
            if self.read_error || self.format_error {
                proof {
                    assert(!reader_ok(self@));
                    lemma_failed_records_on(start, layout@, i as int, n as int);
                    assert(rd_object_list(old(self)@).0 == rd_records(start, object_layout(), n as int).0);
                }
                return out;
            }
            let f = self.read_fields(layout);
            out.push(f);
            proof {
                assert(records_view(out@) =~= rd_records(start, layout@, i as int).1.push(fields_view(f@)));
            }
            i = i + 1;
        }
        out
    }
}

/// Once a read has failed, reading more records leaves the reader as it is.
proof fn lemma_failed_records_on(start: ReaderView, layout: Seq<FieldKind>, i: int, n: int)
    requires
        0 <= i <= n,
        !reader_ok(rd_records(start, layout, i).0),
    ensures
        rd_records(start, layout, n).0 == rd_records(start, layout, i).0,
        !reader_ok(rd_records(start, layout, n).0),
    decreases n - i,
{
    if i < n {
        let r = rd_records(start, layout, i).0;
        lemma_failed_fields(r, layout, layout.len() as int);
        lemma_failed_records_on(start, layout, i + 1, n);
    }
}

/// The layout of an object (see `object_layout`).
pub fn object_kinds() -> (l: Vec<FieldKind>)
    ensures
        l@ == object_layout(),
{
    let mut v: Vec<FieldKind> = Vec::new();
    push_kind(&mut v, FieldKind::Marker(OBJECT_MARK));
    push_kind(&mut v, FieldKind::Int);
    push_kind(&mut v, FieldKind::Coord);
    push_kind(&mut v, FieldKind::Int);
    push_kind(&mut v, FieldKind::Char);
    push_kind(&mut v, FieldKind::Chars(8));
    push_kind(&mut v, FieldKind::Chars(8));
    push_kinds(&mut v, FieldKind::Int, 7);
    push_kind(&mut v, FieldKind::Text);
    assert(v@ =~= object_layout());
    v
}

/// The layout of the hero (see `hero_layout`).
pub fn hero_kinds() -> (l: Vec<FieldKind>)
    ensures
        l@ == hero_layout(),
{
    let mut v: Vec<FieldKind> = Vec::new();
    push_kind(&mut v, FieldKind::Marker(THING_MARK));
    push_kind(&mut v, FieldKind::Int);
    push_kind(&mut v, FieldKind::Coord);
    push_kind(&mut v, FieldKind::Bool);
    push_kinds(&mut v, FieldKind::Char, 3);
    push_kinds(&mut v, FieldKind::Int, 2);
    push_kind(&mut v, FieldKind::Short);
    push_kind(&mut v, FieldKind::Marker(STATS_MARK));
    push_kind(&mut v, FieldKind::Uint);
    push_kinds(&mut v, FieldKind::Int, 4);
    push_kind(&mut v, FieldKind::Chars(13));
    push_kinds(&mut v, FieldKind::Int, 2);
    assert(v@ =~= hero_layout());
    v
}

/// The layout of the pack references (see `pack_refs_layout`).
pub fn pack_ref_kinds() -> (l: Vec<FieldKind>)
    ensures
        l@ == pack_refs_layout(),
{
    let mut v: Vec<FieldKind> = Vec::new();
    push_kinds(&mut v, FieldKind::Int, 6);
    v
}

/// The head of a saved game: the globals, the hero and his pack, the
/// references into his pack, and the objects lying on the level.
pub struct SavedHead {
    pub globals: Vec<SaveField>,
    pub hero: Vec<SaveField>,
    pub pack: Vec<Vec<SaveField>>,
    pub pack_refs: Vec<SaveField>,
    pub level_objects: Vec<Vec<SaveField>>,
}

/// The head of a saved game, as mathematical values.
pub struct HeadView {
    pub globals: Seq<FieldView>,
    pub hero: Seq<FieldView>,
    pub pack: Seq<Seq<FieldView>>,
    pub pack_refs: Seq<FieldView>,
    pub level_objects: Seq<Seq<FieldView>>,
}

impl SavedHead {
    pub open spec fn view(&self) -> HeadView {
        HeadView {
            globals: fields_view(self.globals@),
            hero: fields_view(self.hero@),
            pack: records_view(self.pack@),
            pack_refs: fields_view(self.pack_refs@),
            level_objects: records_view(self.level_objects@),
        }
    }
}

/// Whether `h` follows the layouts of a saved game's head.
pub open spec fn head_ok(h: HeadView) -> bool {
    &&& follows(h.globals, globals_layout())
    &&& follows(h.hero, hero_layout())
    &&& all_follow(h.pack, object_layout())
    &&& h.pack.len() <= i32::MAX
    &&& follows(h.pack_refs, pack_refs_layout())
    &&& all_follow(h.level_objects, object_layout())
    &&& h.level_objects.len() <= i32::MAX
}

/// The bytes of a saved game's head, one part after another.
pub open spec fn enc_head(h: HeadView) -> Seq<u8> {
    enc_fields(h.globals) + enc_fields(h.hero) + enc_object_list(h.pack) + enc_fields(h.pack_refs)
        + enc_object_list(h.level_objects)
}

/// Reading a saved game's head.
pub open spec fn rd_head(r: ReaderView) -> (ReaderView, HeadView) {
    let (r1, globals) = rd_fields(r, globals_layout(), globals_layout().len() as int);
    let (r2, hero) = rd_fields(r1, hero_layout(), hero_layout().len() as int);
    let (r3, pack) = rd_object_list(r2);
    let (r4, pack_refs) = rd_fields(r3, pack_refs_layout(), pack_refs_layout().len() as int);
    let (r5, level_objects) = rd_object_list(r4);
    (r5, HeadView { globals, hero, pack, pack_refs, level_objects })
}

proof fn lemma_failed_object_list(r: ReaderView)
    requires
        !reader_ok(r),
    ensures
        rd_object_list(r).0 == r,
{
    lemma_failed_records(r, object_layout(), 0);
}

/// The marker before the list of monsters.
pub const MONSTER_LIST_MARK: i32 = -1412628471;
/// The marker before the table of monster kinds.
pub const MONSTER_TABLE_MARK: i32 = -1412628469;
/// The marker before a table of item kinds.
pub const ITEM_TABLE_MARK: i32 = -1412628476;
/// The marker before the daemons and fuses.
pub const DAEMON_MARK: i32 = -1412628466;
/// The marker before the screen.
pub const WINDOW_MARK: i32 = -1412628467;

/// `l` repeated `n` times.
pub open spec fn repeat_layout(l: Seq<FieldKind>, n: nat) -> Seq<FieldKind>
    decreases n,
{
    if n == 0 { Seq::empty() } else { repeat_layout(l, (n - 1) as nat) + l }
}

/// A square of the map: its tile, whether it is real, part of a corridor
/// and seen, its corridor number, its trap, and the monster on it.
pub open spec fn place_layout() -> Seq<FieldKind> {
    seq![FieldKind::Char, FieldKind::Bool, FieldKind::Bool, FieldKind::Bool, FieldKind::Char, FieldKind::Char, FieldKind::Int]
}

/// Fighting statistics: marker, strength, experience, level, armour class,
/// hit points, damage and maximum hit points.
pub open spec fn stats_layout() -> Seq<FieldKind> {
    seq![FieldKind::Marker(STATS_MARK), FieldKind::Uint, FieldKind::Int, FieldKind::Int, FieldKind::Int, FieldKind::Int,
        FieldKind::Chars(13), FieldKind::Int]
}

/// A room: position, size, gold position and value, gone, dark, maze, the
/// number of exits and twelve exits.
pub open spec fn room_layout() -> Seq<FieldKind> {
    seq![FieldKind::Coord, FieldKind::Coord, FieldKind::Coord, FieldKind::Int, FieldKind::Bool, FieldKind::Bool,
        FieldKind::Bool, FieldKind::Int] + repeated(FieldKind::Coord, 12)
}

/// What the game knows of an item kind: its chance, its worth, the name the
/// player gave it and whether it is known.
pub open spec fn info_layout() -> Seq<FieldKind> {
    seq![FieldKind::Int, FieldKind::Int, FieldKind::Text, FieldKind::Bool]
}

/// A table of `n` item kinds.
pub open spec fn info_block(n: i32) -> Seq<FieldKind> {
    seq![FieldKind::Marker(ITEM_TABLE_MARK), FieldKind::Marker(n)] + repeat_layout(info_layout(), n as nat)
}

/// The layout after the monsters: the squares of the 24 by 80 map, the
/// hero's best statistics, the nine rooms and the hero's last room.
pub open spec fn map_layout() -> Seq<FieldKind> {
    repeat_layout(place_layout(), 1920) + stats_layout() + seq![FieldKind::Marker(9)] + repeat_layout(room_layout(), 9)
        + seq![FieldKind::Int]
}

/// The layout at the end of a saved game: the table of the 26 monster
/// kinds; the tables of things, armour, potions, rings, scrolls, weapons
/// and sticks; the 20 daemons and fuses (kind, function, argument, time);
/// the item count, the turns between, the next step and the throw group;
/// and the 24 by 80 screen.
pub open spec fn rest_layout() -> Seq<FieldKind> {
    seq![FieldKind::Marker(MONSTER_TABLE_MARK), FieldKind::Marker(26)] + repeat_layout(stats_layout(), 26)
        + info_block(7) + info_block(8) + info_block(14) + info_block(14) + info_block(18) + info_block(10)
        + info_block(14)
        + seq![FieldKind::Marker(DAEMON_MARK), FieldKind::AtMost(20)] + repeated(FieldKind::Int, 80)
        + seq![FieldKind::Int, FieldKind::Int, FieldKind::Coord, FieldKind::Int]
        + seq![FieldKind::Marker(WINDOW_MARK), FieldKind::Marker(24), FieldKind::Marker(80)] + repeated(FieldKind::Int, 1920)
}

proof fn lemma_layout_ok_concat(a: Seq<FieldKind>, b: Seq<FieldKind>)
    requires
        layout_ok(a),
        layout_ok(b),
    ensures
        layout_ok(a + b),
{
    assert forall|i: int| 0 <= i < (a + b).len() implies (#[trigger] (a + b)[i] matches FieldKind::Chars(n) ==> n > 0) by {
        if i < a.len() {
            assert((a + b)[i] == a[i]);
        } else {
            assert((a + b)[i] == b[i - a.len()]);
        }
    }
}

proof fn lemma_layout_ok_repeat(l: Seq<FieldKind>, n: nat)
    requires
        layout_ok(l),
    ensures
        layout_ok(repeat_layout(l, n)),
    decreases n,
{
    if n > 0 {
        lemma_layout_ok_repeat(l, (n - 1) as nat);
        lemma_layout_ok_concat(repeat_layout(l, (n - 1) as nat), l);
    }
}

proof fn lemma_layout_ok_plain(l: Seq<FieldKind>)
    requires
        forall|i: int| 0 <= i < l.len() ==> !(#[trigger] l[i] is Chars) || l[i] == FieldKind::Chars(13) || l[i] == FieldKind::Chars(8),
    ensures
        layout_ok(l),
{
    assert forall|i: int| 0 <= i < l.len() implies (#[trigger] l[i] matches FieldKind::Chars(n) ==> n > 0) by {
        assert(!(l[i] is Chars) || l[i] == FieldKind::Chars(13) || l[i] == FieldKind::Chars(8));
    }
}

proof fn lemma_tail_layouts_ok()
    ensures
        layout_ok(map_layout()),
        layout_ok(rest_layout()),
{
    lemma_layout_ok_plain(place_layout());
    lemma_layout_ok_plain(stats_layout());
    lemma_layout_ok_plain(room_layout());
    lemma_layout_ok_plain(info_layout());
    lemma_layout_ok_plain(seq![FieldKind::Marker(9)]);
    lemma_layout_ok_plain(seq![FieldKind::Int]);
    lemma_layout_ok_repeat(place_layout(), 1920);
    lemma_layout_ok_repeat(room_layout(), 9);
    lemma_layout_ok_concat(repeat_layout(place_layout(), 1920), stats_layout());
    lemma_layout_ok_concat(repeat_layout(place_layout(), 1920) + stats_layout(), seq![FieldKind::Marker(9)]);
    lemma_layout_ok_concat(repeat_layout(place_layout(), 1920) + stats_layout() + seq![FieldKind::Marker(9)],
        repeat_layout(room_layout(), 9));
    lemma_layout_ok_concat(repeat_layout(place_layout(), 1920) + stats_layout() + seq![FieldKind::Marker(9)]
        + repeat_layout(room_layout(), 9), seq![FieldKind::Int]);
    lemma_layout_ok_repeat(stats_layout(), 26);
    lemma_layout_ok_repeat(info_layout(), 7);
    lemma_layout_ok_repeat(info_layout(), 8);
    lemma_layout_ok_repeat(info_layout(), 10);
    lemma_layout_ok_repeat(info_layout(), 14);
    lemma_layout_ok_repeat(info_layout(), 18);
    let r = rest_layout();
    assert forall|i: int| 0 <= i < r.len() implies (#[trigger] r[i] matches FieldKind::Chars(n) ==> n > 0) by {
        lemma_rest_chars(i);
    }
}

proof fn lemma_rest_chars(i: int)
    requires
        layout_ok(repeat_layout(stats_layout(), 26)),
        layout_ok(repeat_layout(info_layout(), 7)),
        layout_ok(repeat_layout(info_layout(), 8)),
        layout_ok(repeat_layout(info_layout(), 10)),
        layout_ok(repeat_layout(info_layout(), 14)),
        layout_ok(repeat_layout(info_layout(), 18)),
        0 <= i < rest_layout().len(),
    ensures
        rest_layout()[i] matches FieldKind::Chars(n) ==> n > 0,
{
    let head = seq![FieldKind::Marker(MONSTER_TABLE_MARK), FieldKind::Marker(26)];
    lemma_layout_ok_plain(head);
    lemma_layout_ok_plain(seq![FieldKind::Marker(ITEM_TABLE_MARK), FieldKind::Marker(7)]);
    let parts = seq![
        head,
        repeat_layout(stats_layout(), 26),
        info_block(7),
        info_block(8),
        info_block(14),
        info_block(14),
        info_block(18),
        info_block(10),
        info_block(14),
        seq![FieldKind::Marker(DAEMON_MARK), FieldKind::AtMost(20)] + repeated(FieldKind::Int, 80)
            + seq![FieldKind::Int, FieldKind::Int, FieldKind::Coord, FieldKind::Int]
            + seq![FieldKind::Marker(WINDOW_MARK), FieldKind::Marker(24), FieldKind::Marker(80)] + repeated(FieldKind::Int, 1920)
    ];
    let r = rest_layout();
    let tail = parts[9];
    lemma_layout_ok_plain(tail);
    lemma_layout_ok_concat(seq![FieldKind::Marker(ITEM_TABLE_MARK), FieldKind::Marker(7)], repeat_layout(info_layout(), 7));
    lemma_info_block_ok(7);
    lemma_info_block_ok(8);
    lemma_info_block_ok(10);
    lemma_info_block_ok(14);
    lemma_info_block_ok(18);
    lemma_layout_ok_concat(head, repeat_layout(stats_layout(), 26));
    let a1 = head + repeat_layout(stats_layout(), 26);
    lemma_layout_ok_concat(a1, info_block(7));
    let a2 = a1 + info_block(7);
    lemma_layout_ok_concat(a2, info_block(8));
    let a3 = a2 + info_block(8);
    lemma_layout_ok_concat(a3, info_block(14));
    let a4 = a3 + info_block(14);
    lemma_layout_ok_concat(a4, info_block(14));
    let a5 = a4 + info_block(14);
    lemma_layout_ok_concat(a5, info_block(18));
    let a6 = a5 + info_block(18);
    lemma_layout_ok_concat(a6, info_block(10));
    let a7 = a6 + info_block(10);
    lemma_layout_ok_concat(a7, info_block(14));
    let a8 = a7 + info_block(14);
    lemma_layout_ok_concat(a8, tail);
    assert(r =~= a8 + tail);
}

proof fn lemma_info_block_ok(n: i32)
    requires
        layout_ok(repeat_layout(info_layout(), n as nat)),
    ensures
        layout_ok(info_block(n)),
{
    lemma_layout_ok_plain(seq![FieldKind::Marker(ITEM_TABLE_MARK), FieldKind::Marker(n)]);
    lemma_layout_ok_concat(seq![FieldKind::Marker(ITEM_TABLE_MARK), FieldKind::Marker(n)], repeat_layout(info_layout(), n as nat));
}

/// A counted list of records: how many, then each record.
pub open spec fn enc_counted(rs: Seq<Seq<FieldView>>) -> Seq<u8> {
    enc_int(rs.len() as i32) + enc_records(rs)
}

/// Reading a counted list of records of `layout`.
pub open spec fn rd_counted(r: ReaderView, layout: Seq<FieldKind>) -> (ReaderView, Seq<Seq<FieldView>>) {
    let (r1, n) = rd_int(r);
    rd_records(r1, layout, match n { Some(k) => k as int, None => 0 })
}

/// A counted list of records written where a reader stands reads back.
proof fn lemma_read_counted_back(r: ReaderView, rs: Seq<Seq<FieldView>>, layout: Seq<FieldKind>)
    requires
        reader_ok(r),
        all_follow(rs, layout),
        layout_ok(layout),
        rs.len() <= i32::MAX,
        holds_at(r, enc_counted(rs)),
    ensures
        rd_counted(r, layout) == (moved(r, enc_counted(rs).len() as int), rs),
{
    lemma_int_round_trip(rs.len() as i32, 0);
    lemma_holds_split(r, enc_int(rs.len() as i32), enc_records(rs));
    lemma_read_int_back(r, rs.len() as i32);
    lemma_read_records_back(moved(r, 4), rs, layout);
    lemma_moved_twice(r, 4, enc_records(rs).len() as int);
}

/// The layout of one exit of a corridor.
pub open spec fn exit_layout() -> Seq<FieldKind> {
    seq![FieldKind::Coord]
}

/// The corridors' exits: how many corridors, then each one's counted exits.
pub open spec fn enc_links(ls: Seq<Seq<Seq<FieldView>>>) -> Seq<u8> {
    enc_int(ls.len() as i32) + enc_link_items(ls)
}

/// Counted lists of exits one after another.
pub open spec fn enc_link_items(ls: Seq<Seq<Seq<FieldView>>>) -> Seq<u8>
    decreases ls.len(),
{
    if ls.len() == 0 { Seq::empty() } else { enc_link_items(ls.drop_last()) + enc_counted(ls.last()) }
}

/// Reading `n` counted lists of exits.
pub open spec fn rd_link_items(r: ReaderView, n: int) -> (ReaderView, Seq<Seq<Seq<FieldView>>>)
    decreases n,
{
    if n <= 0 {
        (r, Seq::empty())
    } else {
        let (r1, ls) = rd_link_items(r, n - 1);
        let (r2, l) = rd_counted(r1, exit_layout());
        (r2, ls.push(l))
    }
}

/// Reading the corridors' exits.
pub open spec fn rd_links(r: ReaderView) -> (ReaderView, Seq<Seq<Seq<FieldView>>>) {
    let (r1, n) = rd_int(r);
    rd_link_items(r1, match n { Some(k) => k as int, None => 0 })
}

/// A monster as a saved game holds it: its own values (in the layout of
/// `hero_layout`) and its pack.
pub struct ThingView {
    pub fields: Seq<FieldView>,
    pub pack: Seq<Seq<FieldView>>,
}

/// The bytes of a monster.
pub open spec fn enc_thing(t: ThingView) -> Seq<u8> {
    enc_fields(t.fields) + enc_object_list(t.pack)
}

/// Monsters one after another.
pub open spec fn enc_things(ts: Seq<ThingView>) -> Seq<u8>
    decreases ts.len(),
{
    if ts.len() == 0 { Seq::empty() } else { enc_things(ts.drop_last()) + enc_thing(ts.last()) }
}

/// The list of monsters: its marker, how many, and each monster.
pub open spec fn enc_monster_list(ts: Seq<ThingView>) -> Seq<u8> {
    enc_int(MONSTER_LIST_MARK) + enc_int(ts.len() as i32) + enc_things(ts)
}

/// Reading a monster.
pub open spec fn rd_thing(r: ReaderView) -> (ReaderView, ThingView) {
    let (r1, fields) = rd_fields(r, hero_layout(), hero_layout().len() as int);
    let (r2, pack) = rd_object_list(r1);
    (r2, ThingView { fields, pack })
}

/// Reading `n` monsters.
pub open spec fn rd_things(r: ReaderView, n: int) -> (ReaderView, Seq<ThingView>)
    decreases n,
{
    if n <= 0 {
        (r, Seq::empty())
    } else {
        let (r1, ts) = rd_things(r, n - 1);
        let (r2, t) = rd_thing(r1);
        (r2, ts.push(t))
    }
}

/// Reading the list of monsters.
pub open spec fn rd_monster_list(r: ReaderView) -> (ReaderView, Seq<ThingView>) {
    let r1 = rd_marker(r, MONSTER_LIST_MARK);
    let (r2, n) = rd_int(r1);
    rd_things(r2, match n { Some(k) => k as int, None => 0 })
}

/// Whether a monster follows its layouts.
pub open spec fn thing_ok(t: ThingView) -> bool {
    &&& follows(t.fields, hero_layout())
    &&& all_follow(t.pack, object_layout())
    &&& t.pack.len() <= i32::MAX
}

proof fn lemma_failed_counted(r: ReaderView, layout: Seq<FieldKind>)
    requires
        !reader_ok(r),
    ensures
        rd_counted(r, layout).0 == r,
{
    lemma_failed_records(r, layout, 0);
}

proof fn lemma_failed_link_items(r: ReaderView, i: int, n: int, start: ReaderView)
    requires
        0 <= i <= n,
        r == rd_link_items(start, i).0,
        !reader_ok(r),
    ensures
        rd_link_items(start, n).0 == r,
    decreases n - i,
{
    if i < n {
        lemma_failed_counted(r, exit_layout());
        lemma_failed_link_items(r, i + 1, n, start);
    }
}

proof fn lemma_failed_thing(r: ReaderView)
    requires
        !reader_ok(r),
    ensures
        rd_thing(r).0 == r,
{
    lemma_failed_fields(r, hero_layout(), hero_layout().len() as int);
    lemma_failed_records(r, object_layout(), 0);
}

proof fn lemma_failed_things(r: ReaderView, i: int, n: int, start: ReaderView)
    requires
        0 <= i <= n,
        r == rd_things(start, i).0,
        !reader_ok(r),
    ensures
        rd_things(start, n).0 == r,
    decreases n - i,
{
    if i < n {
        lemma_failed_thing(r);
        lemma_failed_things(r, i + 1, n, start);
    }
}

proof fn lemma_read_link_items_back(r: ReaderView, ls: Seq<Seq<Seq<FieldView>>>)
    requires
        reader_ok(r),
        forall|i: int| 0 <= i < ls.len() ==> all_follow(#[trigger] ls[i], exit_layout()) && ls[i].len() <= i32::MAX,
        holds_at(r, enc_link_items(ls)),
    ensures
        rd_link_items(r, ls.len() as int) == (moved(r, enc_link_items(ls).len() as int), ls),
    decreases ls.len(),
{
    if ls.len() == 0 {
        assert(moved(r, 0) == r);
    } else {
        let p = ls.drop_last();
        lemma_holds_split(r, enc_link_items(p), enc_counted(ls.last()));
        assert forall|i: int| 0 <= i < p.len() implies all_follow(#[trigger] p[i], exit_layout()) && p[i].len() <= i32::MAX by {
            assert(p[i] == ls[i]);
        }
        lemma_read_link_items_back(r, p);
        assert(all_follow(ls[ls.len() - 1], exit_layout()) && ls[ls.len() - 1].len() <= i32::MAX);
        assert(layout_ok(exit_layout())) by {
            assert(exit_layout()[0] == FieldKind::Coord);
        }
        lemma_read_counted_back(moved(r, enc_link_items(p).len() as int), ls.last(), exit_layout());
        lemma_moved_twice(r, enc_link_items(p).len() as int, enc_counted(ls.last()).len() as int);
        assert(p.push(ls.last()) =~= ls);
    }
}

/// The corridors' exits written where a reader stands read back.
proof fn lemma_read_links_back(r: ReaderView, ls: Seq<Seq<Seq<FieldView>>>)
    requires
        reader_ok(r),
        ls.len() <= i32::MAX,
        forall|i: int| 0 <= i < ls.len() ==> all_follow(#[trigger] ls[i], exit_layout()) && ls[i].len() <= i32::MAX,
        holds_at(r, enc_links(ls)),
    ensures
        rd_links(r) == (moved(r, enc_links(ls).len() as int), ls),
{
    lemma_int_round_trip(ls.len() as i32, 0);
    lemma_holds_split(r, enc_int(ls.len() as i32), enc_link_items(ls));
    lemma_read_int_back(r, ls.len() as i32);
    lemma_read_link_items_back(moved(r, 4), ls);
    lemma_moved_twice(r, 4, enc_link_items(ls).len() as int);
}

proof fn lemma_read_things_back(r: ReaderView, ts: Seq<ThingView>)
    requires
        reader_ok(r),
        forall|i: int| 0 <= i < ts.len() ==> thing_ok(#[trigger] ts[i]),
        holds_at(r, enc_things(ts)),
    ensures
        rd_things(r, ts.len() as int) == (moved(r, enc_things(ts).len() as int), ts),
    decreases ts.len(),
{
    if ts.len() == 0 {
        assert(moved(r, 0) == r);
    } else {
        let p = ts.drop_last();
        let t = ts.last();
        lemma_holds_split(r, enc_things(p), enc_thing(t));
        assert forall|i: int| 0 <= i < p.len() implies thing_ok(#[trigger] p[i]) by {
            assert(p[i] == ts[i]);
        }
        lemma_read_things_back(r, p);
        let r1 = moved(r, enc_things(p).len() as int);
        assert(thing_ok(ts[ts.len() - 1]));
        lemma_holds_split(r1, enc_fields(t.fields), enc_object_list(t.pack));
        assert(layout_ok(hero_layout())) by {
            let l = hero_layout();
            assert forall|i: int| 0 <= i < l.len() implies (#[trigger] l[i] matches FieldKind::Chars(n) ==> n > 0) by {
                assert(l[i] matches FieldKind::Chars(n) ==> n == 13);
            }
        }
        lemma_read_fields_back(r1, t.fields, hero_layout());
        lemma_read_object_list_back(moved(r1, enc_fields(t.fields).len() as int), t.pack);
        lemma_moved_twice(r1, enc_fields(t.fields).len() as int, enc_object_list(t.pack).len() as int);
        lemma_moved_twice(r, enc_things(p).len() as int, enc_thing(t).len() as int);
        assert(p.push(t) =~= ts);
    }
}

/// The list of monsters written where a reader stands reads back.
proof fn lemma_read_monster_list_back(r: ReaderView, ts: Seq<ThingView>)
    requires
        reader_ok(r),
        ts.len() <= i32::MAX,
        forall|i: int| 0 <= i < ts.len() ==> thing_ok(#[trigger] ts[i]),
        holds_at(r, enc_monster_list(ts)),
    ensures
        rd_monster_list(r) == (moved(r, enc_monster_list(ts).len() as int), ts),
{
    let a = enc_int(MONSTER_LIST_MARK);
    let b = enc_int(ts.len() as i32);
    let c = enc_things(ts);
    assert(enc_monster_list(ts) =~= a + (b + c));
    lemma_int_round_trip(MONSTER_LIST_MARK, 0);
    lemma_int_round_trip(ts.len() as i32, 0);
    lemma_holds_split(r, a, b + c);
    lemma_holds_split(moved(r, 4), b, c);
    lemma_read_int_back(r, MONSTER_LIST_MARK);
    lemma_read_int_back(moved(r, 4), ts.len() as i32);
    lemma_moved_twice(r, 4, 4);
    lemma_read_things_back(moved(r, 8), ts);
    lemma_moved_twice(r, 8, c.len() as int);
}

fn push_layout(v: &mut Vec<FieldKind>, l: &Vec<FieldKind>, n: usize)
    ensures
        final(v)@ == old(v)@ + repeat_layout(l@, n as nat),
{
    let mut i: usize = 0;
    while i < n
        invariant
            i <= n,
            v@ == old(v)@ + repeat_layout(l@, i as nat),
        decreases n - i,
    {
        let ghost before = v@;
        let mut j: usize = 0;
        while j < l.len()
            invariant
                j <= l@.len(),
                v@ == before + l@.subrange(0, j as int),
            decreases l@.len() - j,
        {
            v.push(l[j]);
            j = j + 1;
            assert(v@ =~= before + l@.subrange(0, j as int));
        }
        assert(l@.subrange(0, l@.len() as int) =~= l@);
        i = i + 1;
        assert(v@ =~= old(v)@ + repeat_layout(l@, i as nat));
    }
}

fn push_seq(v: &mut Vec<FieldKind>, l: &Vec<FieldKind>)
    ensures
        final(v)@ == old(v)@ + l@,
{
    push_layout(v, l, 1);
    assert(repeat_layout(l@, 1) =~= l@) by {
        assert(repeat_layout(l@, 0) =~= Seq::<FieldKind>::empty());
    }
}

fn place_kinds() -> (l: Vec<FieldKind>)
    ensures
        l@ == place_layout(),
{
    let l = vec![FieldKind::Char, FieldKind::Bool, FieldKind::Bool, FieldKind::Bool, FieldKind::Char, FieldKind::Char, FieldKind::Int];
    assert(l@ =~= place_layout());
    l
}

fn stats_kinds() -> (l: Vec<FieldKind>)
    ensures
        l@ == stats_layout(),
{
    let l = vec![FieldKind::Marker(STATS_MARK), FieldKind::Uint, FieldKind::Int, FieldKind::Int, FieldKind::Int, FieldKind::Int,
        FieldKind::Chars(13), FieldKind::Int];
    assert(l@ =~= stats_layout());
    l
}

fn room_kinds() -> (l: Vec<FieldKind>)
    ensures
        l@ == room_layout(),
{
    let mut l = vec![FieldKind::Coord, FieldKind::Coord, FieldKind::Coord, FieldKind::Int, FieldKind::Bool, FieldKind::Bool,
        FieldKind::Bool, FieldKind::Int];
    let ghost head = l@;
    push_kinds(&mut l, FieldKind::Coord, 12);
    assert(l@ =~= room_layout());
    l
}

fn info_kinds() -> (l: Vec<FieldKind>)
    ensures
        l@ == info_layout(),
{
    let l = vec![FieldKind::Int, FieldKind::Int, FieldKind::Text, FieldKind::Bool];
    assert(l@ =~= info_layout());
    l
}

/// The layout after the monsters (see `map_layout`).
pub fn map_kinds() -> (l: Vec<FieldKind>)
    ensures
        l@ == map_layout(),
{
    let mut v: Vec<FieldKind> = Vec::new();
    push_layout(&mut v, &place_kinds(), 1920);
    push_seq(&mut v, &stats_kinds());
    push_kind(&mut v, FieldKind::Marker(9));
    push_layout(&mut v, &room_kinds(), 9);
    push_kind(&mut v, FieldKind::Int);
    assert(v@ =~= map_layout());
    v
}

fn push_info_block(v: &mut Vec<FieldKind>, info: &Vec<FieldKind>, n: i32)
    requires
        info@ == info_layout(),
        n >= 0,
    ensures
        final(v)@ == old(v)@ + info_block(n),
{
    push_kind(v, FieldKind::Marker(ITEM_TABLE_MARK));
    push_kind(v, FieldKind::Marker(n));
    push_layout(v, info, n as usize);
    assert(final(v)@ =~= old(v)@ + info_block(n));
}

/// The layout at the end of a saved game (see `rest_layout`).
pub fn rest_kinds() -> (l: Vec<FieldKind>)
    ensures
        l@ == rest_layout(),
{
    let mut v: Vec<FieldKind> = Vec::new();
    let info = info_kinds();
    push_kind(&mut v, FieldKind::Marker(MONSTER_TABLE_MARK));
    push_kind(&mut v, FieldKind::Marker(26));
    push_layout(&mut v, &stats_kinds(), 26);
    push_info_block(&mut v, &info, 7);
    push_info_block(&mut v, &info, 8);
    push_info_block(&mut v, &info, 14);
    push_info_block(&mut v, &info, 14);
    push_info_block(&mut v, &info, 18);
    push_info_block(&mut v, &info, 10);
    push_info_block(&mut v, &info, 14);
    push_kind(&mut v, FieldKind::Marker(DAEMON_MARK));
    push_kind(&mut v, FieldKind::AtMost(20));
    push_kinds(&mut v, FieldKind::Int, 80);
    push_kind(&mut v, FieldKind::Int);
    push_kind(&mut v, FieldKind::Int);
    push_kind(&mut v, FieldKind::Coord);
    push_kind(&mut v, FieldKind::Int);
    push_kind(&mut v, FieldKind::Marker(WINDOW_MARK));
    push_kind(&mut v, FieldKind::Marker(24));
    push_kind(&mut v, FieldKind::Marker(80));
    push_kinds(&mut v, FieldKind::Int, 1920);
    assert(v@ =~= rest_layout());
    v
}

/// A monster as a saved game holds it.
pub struct SavedThing {
    pub fields: Vec<SaveField>,
    pub pack: Vec<Vec<SaveField>>,
}

impl SavedThing {
    pub open spec fn view(&self) -> ThingView {
        ThingView { fields: fields_view(self.fields@), pack: records_view(self.pack@) }
    }
}

/// The monsters of a list, as mathematical values.
pub open spec fn things_view(ts: Seq<SavedThing>) -> Seq<ThingView> {
    ts.map_values(|t: SavedThing| t@)
}

/// The corridors' exits, as mathematical values.
pub open spec fn links_view(ls: Seq<Vec<Vec<SaveField>>>) -> Seq<Seq<Seq<FieldView>>> {
    ls.map_values(|l: Vec<Vec<SaveField>>| records_view(l@))
}

impl SaveWriter {
    /// Write records one after another (see `enc_records`).
    pub fn write_records(&mut self, rs: &Vec<Vec<SaveField>>, layout: Ghost<Seq<FieldKind>>)
        requires
            all_follow(records_view(rs@), layout@),
        ensures
            final(self).written() == old(self).written() + enc_records(records_view(rs@)),
    {
        let mut i: usize = 0;
        while i < rs.len()
            invariant
                i <= rs@.len(),
                all_follow(records_view(rs@), layout@),
                self.written() == old(self).written() + enc_records(records_view(rs@).subrange(0, i as int)),
            decreases rs@.len() - i,
        {
            proof {
                assert(follows(records_view(rs@)[i as int], layout@));
            }
            self.write_fields(&rs[i], layout);
            proof {
                let t = records_view(rs@).subrange(0, i + 1);
                assert(t.drop_last() =~= records_view(rs@).subrange(0, i as int));
                assert(t.last() == fields_view(rs@[i as int]@));
            }
            i = i + 1;
        }
        assert(records_view(rs@).subrange(0, rs@.len() as int) =~= records_view(rs@));
    }

    /// Write a counted list of records (see `enc_counted`).
    pub fn write_counted(&mut self, rs: &Vec<Vec<SaveField>>, layout: Ghost<Seq<FieldKind>>)
        requires
            all_follow(records_view(rs@), layout@),
            rs@.len() <= i32::MAX,
        ensures
            final(self).written() == old(self).written() + enc_counted(records_view(rs@)),
    {
        self.write_int(rs.len() as i32);
        self.write_records(rs, layout);
        assert(final(self).written() =~= old(self).written() + enc_counted(records_view(rs@)));
    }

    /// Write the corridors' exits (see `enc_links`).
    pub fn write_links(&mut self, ls: &Vec<Vec<Vec<SaveField>>>)
        requires
            ls@.len() <= i32::MAX,
            forall|i: int| 0 <= i < ls@.len() ==> all_follow(#[trigger] links_view(ls@)[i], exit_layout())
                && links_view(ls@)[i].len() <= i32::MAX,
        ensures
            final(self).written() == old(self).written() + enc_links(links_view(ls@)),
    {
        self.write_int(ls.len() as i32);
        let ghost head = self.written();
        let mut i: usize = 0;
        while i < ls.len()
            invariant
                i <= ls@.len(),
                forall|j: int| 0 <= j < ls@.len() ==> all_follow(#[trigger] links_view(ls@)[j], exit_layout())
                    && links_view(ls@)[j].len() <= i32::MAX,
                self.written() == head + enc_link_items(links_view(ls@).subrange(0, i as int)),
            decreases ls@.len() - i,
        {
            proof {
                assert(all_follow(links_view(ls@)[i as int], exit_layout()));
                assert(links_view(ls@)[i as int] == records_view(ls@[i as int]@));
            }
            self.write_counted(&ls[i], Ghost(exit_layout()));
            proof {
                let t = links_view(ls@).subrange(0, i + 1);
                assert(t.drop_last() =~= links_view(ls@).subrange(0, i as int));
                assert(t.last() == records_view(ls@[i as int]@));
            }
            i = i + 1;
        }
        assert(links_view(ls@).subrange(0, ls@.len() as int) =~= links_view(ls@));
        assert(final(self).written() =~= old(self).written() + enc_links(links_view(ls@)));
    }

    /// Write the list of monsters (see `enc_monster_list`).
    pub fn write_monster_list(&mut self, ts: &Vec<SavedThing>)
        requires
            ts@.len() <= i32::MAX,
            forall|i: int| 0 <= i < ts@.len() ==> thing_ok(#[trigger] things_view(ts@)[i]),
        ensures
            final(self).written() == old(self).written() + enc_monster_list(things_view(ts@)),
    {
        self.write_int(MONSTER_LIST_MARK);
        self.write_int(ts.len() as i32);
        let ghost head = self.written();
        let mut i: usize = 0;
        while i < ts.len()
            invariant
                i <= ts@.len(),
                forall|j: int| 0 <= j < ts@.len() ==> thing_ok(#[trigger] things_view(ts@)[j]),
                self.written() == head + enc_things(things_view(ts@).subrange(0, i as int)),
            decreases ts@.len() - i,
        {
            proof {
                assert(thing_ok(things_view(ts@)[i as int]));
                assert(things_view(ts@)[i as int] == ts@[i as int]@);
            }
            self.write_fields(&ts[i].fields, Ghost(hero_layout()));
            self.write_object_list(&ts[i].pack);
            proof {
                let t = things_view(ts@).subrange(0, i + 1);
                assert(t.drop_last() =~= things_view(ts@).subrange(0, i as int));
                assert(t.last() == ts@[i as int]@);
            }
            i = i + 1;
        }
        assert(things_view(ts@).subrange(0, ts@.len() as int) =~= things_view(ts@));
        assert(final(self).written() =~= old(self).written() + enc_monster_list(things_view(ts@)));
    }
}

impl SaveReader {
    /// Read a counted list of records (see `rd_counted`); once a read fails
    /// the rest is not read, and the records then mean nothing.
    pub fn read_counted(&mut self, layout: &Vec<FieldKind>) -> (rs: Vec<Vec<SaveField>>)
        requires
            old(self).wf(),
        ensures
            final(self).wf(),
            final(self)@ == rd_counted(old(self)@, layout@).0,
            reader_ok(final(self)@) ==> records_view(rs@) == rd_counted(old(self)@, layout@).1,
    {
        let n = match self.read_int() {
            Some(k) => k,
            None => 0,
        };
        let ghost start = self@;
        let mut out: Vec<Vec<SaveField>> = Vec::new();
        let mut i: i32 = 0;
        while i < n
            invariant
                0 <= i <= n || (n <= 0 && i == 0),
                self.wf(),
                (self@, records_view(out@)) == rd_records(start, layout@, i as int),
                start == rd_int(old(self)@).0,
                n == (match rd_int(old(self)@).1 { Some(k) => k, None => 0i32 }),
            decreases n - i,
        {
            if self.read_error || self.format_error {
                proof {
                    lemma_failed_records_on(start, layout@, i as int, n as int);
                }
                return out;
            }
            let f = self.read_fields(layout);
            out.push(f);
            proof {
                assert(records_view(out@) =~= rd_records(start, layout@, i as int).1.push(fields_view(f@)));
            }
            i = i + 1;
        }
        out
    }

    /// Read the corridors' exits (see `rd_links`).
    pub fn read_links(&mut self) -> (ls: Vec<Vec<Vec<SaveField>>>)
        requires
            old(self).wf(),
        ensures
            final(self).wf(),
            final(self)@ == rd_links(old(self)@).0,
            reader_ok(final(self)@) ==> links_view(ls@) == rd_links(old(self)@).1,
    {
        let exits = vec![FieldKind::Coord];
        assert(exits@ =~= exit_layout());
        let n = match self.read_int() {
            Some(k) => k,
            None => 0,
        };
        let ghost start = self@;
        let mut out: Vec<Vec<Vec<SaveField>>> = Vec::new();
        let mut i: i32 = 0;
        while i < n
            invariant
                0 <= i <= n || (n <= 0 && i == 0),
                self.wf(),
                exits@ == exit_layout(),
                self@ == rd_link_items(start, i as int).0,
                reader_ok(self@) ==> links_view(out@) == rd_link_items(start, i as int).1,
                start == rd_int(old(self)@).0,
                n == (match rd_int(old(self)@).1 { Some(k) => k, None => 0i32 }),
            decreases n - i,
        {
            if self.read_error || self.format_error {
                proof {
                    lemma_failed_link_items(self@, i as int, n as int, start);
                }
                return out;
            }
            let ghost before = self@;
            let l = self.read_counted(&exits);
            out.push(l);
            proof {
                if reader_ok(self@) {
                    lemma_ok_before_counted(before, exit_layout());
                    assert(links_view(out@) =~= rd_link_items(start, i as int).1.push(records_view(l@)));
                }
            }
            i = i + 1;
        }
        out
    }

    /// Read the list of monsters (see `rd_monster_list`).
    pub fn read_monster_list(&mut self, heroes: &Vec<FieldKind>, objects: &Vec<FieldKind>) -> (ts: Vec<SavedThing>)
        requires
            old(self).wf(),
            heroes@ == hero_layout(),
            objects@ == object_layout(),
        ensures
            final(self).wf(),
            final(self)@ == rd_monster_list(old(self)@).0,
            reader_ok(final(self)@) ==> things_view(ts@) == rd_monster_list(old(self)@).1,
    {
        self.read_marker(MONSTER_LIST_MARK);
        let n = match self.read_int() {
            Some(k) => k,
            None => 0,
        };
        let ghost start = self@;
        let mut out: Vec<SavedThing> = Vec::new();
        let mut i: i32 = 0;
        while i < n
            invariant
                0 <= i <= n || (n <= 0 && i == 0),
                self.wf(),
                heroes@ == hero_layout(),
                objects@ == object_layout(),
                self@ == rd_things(start, i as int).0,
                reader_ok(self@) ==> things_view(out@) == rd_things(start, i as int).1,
                start == rd_int(rd_marker(old(self)@, MONSTER_LIST_MARK)).0,
                n == (match rd_int(rd_marker(old(self)@, MONSTER_LIST_MARK)).1 { Some(k) => k, None => 0i32 }),
            decreases n - i,
        {
            if self.read_error || self.format_error {
                proof {
                    lemma_failed_things(self@, i as int, n as int, start);
                }
                return out;
            }
            let ghost before = self@;
            let fields = self.read_fields(heroes);
            let ghost mid = self@;
            let pack = self.read_object_list(objects);
            let t = SavedThing { fields, pack };
            out.push(t);
            proof {
                if reader_ok(self@) {
                    lemma_ok_before_object_list(mid);
                    assert(things_view(out@) =~= rd_things(start, i as int).1.push(t@));
                }
            }
            i = i + 1;
        }
        out
    }
}

/// A read that ends well started well.
proof fn lemma_ok_before_counted(r: ReaderView, layout: Seq<FieldKind>)
    requires
        reader_ok(rd_counted(r, layout).0),
    ensures
        reader_ok(r),
{
    if !reader_ok(r) {
        lemma_failed_counted(r, layout);
    }
}

proof fn lemma_ok_before_object_list(r: ReaderView)
    requires
        reader_ok(rd_object_list(r).0),
    ensures
        reader_ok(r),
{
    if !reader_ok(r) {
        lemma_failed_records(r, object_layout(), 0);
    }
}

/// A whole saved game: its head (see `SavedHead`), the monsters with their
/// packs, the map, rooms and hero's last room (see `map_layout`), the
/// corridors' exits, and the tables, daemons and screen at the end (see
/// `rest_layout`).
pub struct SavedGame {
    pub head: SavedHead,
    pub monsters: Vec<SavedThing>,
    pub map: Vec<SaveField>,
    pub links: Vec<Vec<Vec<SaveField>>>,
    pub rest: Vec<SaveField>,
}

/// A whole saved game, as mathematical values.
pub struct GameView {
    pub head: HeadView,
    pub monsters: Seq<ThingView>,
    pub map: Seq<FieldView>,
    pub links: Seq<Seq<Seq<FieldView>>>,
    pub rest: Seq<FieldView>,
}

impl SavedGame {
    pub open spec fn view(&self) -> GameView {
        GameView {
            head: self.head@,
            monsters: things_view(self.monsters@),
            map: fields_view(self.map@),
            links: links_view(self.links@),
            rest: fields_view(self.rest@),
        }
    }
}

/// Whether `g` follows the layouts of a saved game.
pub open spec fn game_ok(g: GameView) -> bool {
    &&& head_ok(g.head)
    &&& g.monsters.len() <= i32::MAX
    &&& forall|i: int| 0 <= i < g.monsters.len() ==> thing_ok(#[trigger] g.monsters[i])
    &&& follows(g.map, map_layout())
    &&& g.links.len() <= i32::MAX
    &&& forall|i: int| 0 <= i < g.links.len() ==> all_follow(#[trigger] g.links[i], exit_layout()) && g.links[i].len() <= i32::MAX
    &&& follows(g.rest, rest_layout())
}

/// The bytes of a saved game, one part after another.
pub open spec fn enc_game(g: GameView) -> Seq<u8> {
    enc_head(g.head) + enc_monster_list(g.monsters) + enc_fields(g.map) + enc_links(g.links) + enc_fields(g.rest)
}

/// Reading a saved game.
pub open spec fn rd_game(r: ReaderView) -> (ReaderView, GameView) {
    let (r1, head) = rd_head(r);
    let (r2, monsters) = rd_monster_list(r1);
    let (r3, map) = rd_fields(r2, map_layout(), map_layout().len() as int);
    let (r4, links) = rd_links(r3);
    let (r5, rest) = rd_fields(r4, rest_layout(), rest_layout().len() as int);
    (r5, GameView { head, monsters, map, links, rest })
}

/// A saved game read from `data`, had only when no read failed.
pub open spec fn decode_game(data: Seq<u8>) -> Option<GameView> {
    let (r, g) = rd_game(fresh_reader(data));
    if reader_ok(r) { Some(g) } else { None }
}

/// The bytes of a saved game (see `enc_game`).
pub fn encode_game(g: &SavedGame) -> (b: Vec<u8>)
    requires
        game_ok(g@),
    ensures
        b@ == enc_game(g@),
{
    let mut w = SaveWriter::new();
    w.write_fields(&g.head.globals, Ghost(globals_layout()));
    w.write_fields(&g.head.hero, Ghost(hero_layout()));
    w.write_object_list(&g.head.pack);
    w.write_fields(&g.head.pack_refs, Ghost(pack_refs_layout()));
    w.write_object_list(&g.head.level_objects);
    w.write_monster_list(&g.monsters);
    w.write_fields(&g.map, Ghost(map_layout()));
    w.write_links(&g.links);
    w.write_fields(&g.rest, Ghost(rest_layout()));
    let b = w.bytes().clone();
    assert(b@ =~= enc_game(g@));
    b
}

proof fn lemma_failed_head(r: ReaderView)
    requires
        !reader_ok(r),
    ensures
        rd_head(r).0 == r,
{
    lemma_failed_fields(r, globals_layout(), globals_layout().len() as int);
    lemma_failed_fields(r, hero_layout(), hero_layout().len() as int);
    lemma_failed_records(r, object_layout(), 0);
    lemma_failed_fields(r, pack_refs_layout(), pack_refs_layout().len() as int);
}

proof fn lemma_failed_monster_list(r: ReaderView)
    requires
        !reader_ok(r),
    ensures
        rd_monster_list(r).0 == r,
{
}

proof fn lemma_failed_links(r: ReaderView)
    requires
        !reader_ok(r),
    ensures
        rd_links(r).0 == r,
{
}

/// A saved game read from the start of `data` (see `decode_game`), or
/// `None` when a read fails or a marker or count is not as expected. The
/// tables of item kinds and the rooms must hold as many entries as the game
/// writes (it writes them full), and the screen must be 24 by 80.
pub fn decode_game_from(data: Vec<u8>) -> (r: Option<SavedGame>)
    ensures
        match r {
            Some(g) => decode_game(data@) == Some(g@),
            None => decode_game(data@) is None,
        },
{
    let ghost d = data@;
    let mut rd = SaveReader::new(data);
    let objects = object_kinds();
    let heroes = hero_kinds();
    let globals = rd.read_fields(&globals_kinds());
    let hero = rd.read_fields(&heroes);
    let pack = rd.read_object_list(&objects);
    let ghost r3 = rd@;
    let pack_refs = rd.read_fields(&pack_ref_kinds());
    let level_objects = rd.read_object_list(&objects);
    let ghost r5 = rd@;
    let monsters = rd.read_monster_list(&heroes, &objects);
    let ghost r6 = rd@;
    let map = rd.read_fields(&map_kinds());
    let ghost r7 = rd@;
    let links = rd.read_links();
    let ghost r8 = rd@;
    let rest = rd.read_fields(&rest_kinds());
    proof {
        if !reader_ok(r3) {
            lemma_failed_fields(r3, pack_refs_layout(), pack_refs_layout().len() as int);
            lemma_failed_object_list(r3);
        }
        if !reader_ok(r5) {
            lemma_failed_monster_list(r5);
        }
        if !reader_ok(r6) {
            lemma_failed_fields(r6, map_layout(), map_layout().len() as int);
        }
        if !reader_ok(r7) {
            lemma_failed_links(r7);
        }
        if !reader_ok(r8) {
            lemma_failed_fields(r8, rest_layout(), rest_layout().len() as int);
        }
    }
    if rd.status() != 0 {
        return None;
    }
    let head = SavedHead { globals, hero, pack, pack_refs, level_objects };
    Some(SavedGame { head, monsters, map, links, rest })
}

/// Decoding the bytes of a saved game gives it back.
#[verifier::rlimit(60)]
pub proof fn lemma_game_round_trip(g: GameView)
    requires
        game_ok(g),
    ensures
        decode_game(enc_game(g)) == Some(g),
{
    let a = enc_head(g.head);
    let b = enc_monster_list(g.monsters);
    let c = enc_fields(g.map);
    let e = enc_links(g.links);
    let f = enc_fields(g.rest);
    let all = enc_game(g);
    assert(all =~= a + (b + (c + (e + f))));
    let r = fresh_reader(all);
    assert(r.data.subrange(0, all.len() as int) =~= all);
    lemma_holds_split(r, a, b + (c + (e + f)));
    let r1 = moved(r, a.len() as int);
    lemma_holds_split(r1, b, c + (e + f));
    let r2 = moved(r1, b.len() as int);
    lemma_holds_split(r2, c, e + f);
    let r3 = moved(r2, c.len() as int);
    lemma_holds_split(r3, e, f);
    let r4 = moved(r3, e.len() as int);
    lemma_read_head_back(r, g.head);
    lemma_read_monster_list_back(r1, g.monsters);
    lemma_tail_layouts_ok();
    lemma_read_fields_back(r2, g.map, map_layout());
    lemma_read_links_back(r3, g.links);
    lemma_read_fields_back(r4, g.rest, rest_layout());
}

/// The head of a saved game written where a reader stands reads back.
#[verifier::rlimit(60)]
proof fn lemma_read_head_back(r: ReaderView, h: HeadView)
    requires
        reader_ok(r),
        head_ok(h),
        holds_at(r, enc_head(h)),
    ensures
        rd_head(r) == (moved(r, enc_head(h).len() as int), h),
{
    let a = enc_fields(h.globals);
    let b = enc_fields(h.hero);
    let c = enc_object_list(h.pack);
    let e = enc_fields(h.pack_refs);
    let f = enc_object_list(h.level_objects);
    assert(enc_head(h) =~= a + (b + (c + (e + f))));
    lemma_holds_split(r, a, b + (c + (e + f)));
    let r1 = moved(r, a.len() as int);
    lemma_holds_split(r1, b, c + (e + f));
    let r2 = moved(r1, b.len() as int);
    lemma_holds_split(r2, c, e + f);
    let r3 = moved(r2, c.len() as int);
    lemma_holds_split(r3, e, f);
    let r4 = moved(r3, e.len() as int);
    lemma_globals_layout_ok();
    lemma_read_fields_back(r, h.globals, globals_layout());
    assert(layout_ok(hero_layout())) by {
        let l = hero_layout();
        assert forall|i: int| 0 <= i < l.len() implies (#[trigger] l[i] matches FieldKind::Chars(n) ==> n > 0) by {
            assert(l[i] matches FieldKind::Chars(n) ==> n == 13);
        }
    }
    lemma_read_fields_back(r1, h.hero, hero_layout());
    lemma_read_object_list_back(r2, h.pack);
    assert(layout_ok(pack_refs_layout()));
    lemma_read_fields_back(r3, h.pack_refs, pack_refs_layout());
    lemma_read_object_list_back(r4, h.level_objects);
}

} // verus!
