//! Reading of the .stl file format, binary and ASCII.
//!
//! The readers work on the bytes of the file; reading the file itself is
//! the caller's business.  ASCII vertices are handed back as exact decimal
//! coordinates; binary vertices as the 32-bit float bit patterns stored in
//! the file, which the caller may turn into its own float type.

use vstd::prelude::*;
use vstd::bytes::spec_u32_from_le_bytes;
use vstd::bytes::u32_from_le_bytes;
use crate::decimal::DecPoint3D;
use crate::decimal::Decimal;
use crate::decimal::parse_decimal;
use crate::decimal::spec_parse_decimal;
use crate::io_utils::find_line_end;
use crate::io_utils::find_skip_spaces;
use crate::io_utils::find_word_end;
use crate::io_utils::lemma_line_end_bounds;
use crate::io_utils::line_end;
use crate::io_utils::skip_spaces;
use crate::io_utils::starts_with;
use crate::io_utils::starts_with_spec;
use crate::io_utils::trim_end;
use crate::io_utils::trim_end_spec;
use crate::io_utils::word_end;

verus! {

/// The largest face count accepted from a binary header.
pub const MAX_TRIANGLES_BINARY: u32 = 1_000_000_000;

/// Whether the format shall be considered to be binary/ASCII or auto
/// determined.
#[derive(Clone, Copy, Debug, PartialEq, Eq, Structural)]
pub enum StlFormat {
    Ascii,
    Binary,
    Auto,
}

impl Default for StlFormat {
    fn default() -> (r: Self)
        ensures
            r == StlFormat::Auto,
    {
        Self::Auto
    }
}

/// Error type for .stl file operations.
#[derive(Clone, Copy, Debug, PartialEq, Eq, Structural)]
pub enum StlError {
    LoadFileEndReached,
    AccessFile,
    BinaryData,
    InvalidFaceCount,
    Facet,
    EndFacet,
    Vertex,
    Loop,
    EndLoop,
}

/// One face of a mesh: three corners and a normal.
#[derive(Clone, Copy, Debug)]
pub struct StlFace<P> {
    pub a: P,
    pub b: P,
    pub c: P,
    pub n: P,
}

/// A vertex of a binary .stl file: the bit patterns of its three 32-bit
/// float coordinates, exactly as stored.
#[derive(Clone, Copy, Debug, PartialEq, Eq, Structural)]
pub struct StlVertexBits {
    pub x: u32,
    pub y: u32,
    pub z: u32,
}

/// A vertex from either kind of .stl file: exact decimal text coordinates,
/// or binary float bit patterns.
#[derive(Clone, Copy, Debug, PartialEq, Eq, Structural)]
pub enum StlPoint {
    Text(DecPoint3D),
    Bits(StlVertexBits),
}

/// Either a hint how many data items follow, or one data item.
#[derive(Clone, Copy, Debug)]
pub enum DataReserve<T> {
    Reserve(usize),
    Data(T),
}

/// The bytes of the keyword `solid`.
pub open spec fn kw_solid() -> Seq<u8> {
    seq![115u8, 111u8, 108u8, 105u8, 100u8]
}

/// The bytes of the keyword `endsolid`.
pub open spec fn kw_endsolid() -> Seq<u8> {
    seq![101u8, 110u8, 100u8, 115u8, 111u8, 108u8, 105u8, 100u8]
}

/// The bytes of the keyword `facet`.
pub open spec fn kw_facet() -> Seq<u8> {
    seq![102u8, 97u8, 99u8, 101u8, 116u8]
}

/// The bytes of the phrase `outer loop`.
pub open spec fn kw_outer_loop() -> Seq<u8> {
    seq![111u8, 117u8, 116u8, 101u8, 114u8, 32u8, 108u8, 111u8, 111u8, 112u8]
}

/// The bytes of the keyword `endloop`.
pub open spec fn kw_endloop() -> Seq<u8> {
    seq![101u8, 110u8, 100u8, 108u8, 111u8, 111u8, 112u8]
}

/// The bytes of the keyword `endfacet`.
pub open spec fn kw_endfacet() -> Seq<u8> {
    seq![101u8, 110u8, 100u8, 102u8, 97u8, 99u8, 101u8, 116u8]
}

/// Whether the bytes are to be read as ASCII: by the format override, or,
/// on auto detection, by the leading `solid` keyword.
pub open spec fn spec_is_ascii(s: Seq<u8>, format: StlFormat) -> bool {
    match format {
        StlFormat::Ascii => true,
        StlFormat::Binary => false,
        StlFormat::Auto => starts_with_spec(s, kw_solid()),
    }
}

/// Decides whether the bytes are to be read as ASCII; data too short even
/// for the keyword check is rejected.
pub fn is_ascii(data: &[u8], format: StlFormat) -> (r: Result<bool, StlError>)
    ensures
        data@.len() < 5 ==> r == Err::<bool, StlError>(StlError::AccessFile),
        data@.len() >= 5 ==> r == Ok::<bool, StlError>(spec_is_ascii(data@, format)),
{
    if data.len() < 5 {
        return Err(StlError::AccessFile);
    }
    let pat: [u8; 5] = [115, 111, 108, 105, 100];
    proof {
        assert(pat@ =~= kw_solid());
    }
    let leading = starts_with(data, pat.as_slice());
    match format {
        StlFormat::Ascii => Ok(true),
        StlFormat::Binary => Ok(false),
        StlFormat::Auto => Ok(leading),
    }
}

// ---------------------------------------------------------------------
// ASCII reading
// ---------------------------------------------------------------------

/// The line starting at `i`, with trailing blank space removed.
pub open spec fn line_at(s: Seq<u8>, i: int) -> Seq<u8> {
    trim_end_spec(s.subrange(i, line_end(s, i)))
}

/// The position just after the line starting at `i`, capped at the end of
/// the text.
pub open spec fn line_next(s: Seq<u8>, i: int) -> int {
    if line_end(s, i) >= s.len() {
        s.len() as int
    } else {
        line_end(s, i) + 1
    }
}

/// `l` without its leading blank space.
pub open spec fn after_spaces(l: Seq<u8>) -> Seq<u8> {
    l.subrange(skip_spaces(l, 0), l.len() as int)
}

/// The normal used when a facet line carries none that can be read:
/// the unit vector along Z.
pub open spec fn default_normal() -> DecPoint3D {
    DecPoint3D {
        x: Decimal { neg: false, mant: 0, exp: 0 },
        y: Decimal { neg: false, mant: 0, exp: 0 },
        z: Decimal { neg: false, mant: 1, exp: 0 },
    }
}

/// The vertex read from a `vertex x y z` line: the first word is skipped,
/// the next three words must be decimal literals; anything further is
/// ignored.
pub open spec fn spec_read_stl_vertex(line: Seq<u8>) -> Option<DecPoint3D> {
    let w0s = skip_spaces(line, 0);
    let w0e = word_end(line, w0s);
    let xs = skip_spaces(line, w0e);
    let xe = word_end(line, xs);
    let ys = skip_spaces(line, xe);
    let ye = word_end(line, ys);
    let zs = skip_spaces(line, ye);
    let ze = word_end(line, zs);
    if w0e == w0s || xe == xs || ye == ys || ze == zs {
        None
    } else {
        match (
            spec_parse_decimal(line.subrange(xs, xe)),
            spec_parse_decimal(line.subrange(ys, ye)),
            spec_parse_decimal(line.subrange(zs, ze)),
        ) {
            (Some(x), Some(y), Some(z)) => Some(DecPoint3D { x, y, z }),
            _ => None,
        }
    }
}

/// The normal read from a `facet normal i j k` line: the first two words
/// are skipped, the next three words must be decimal literals.
pub open spec fn spec_read_stl_normal(line: Seq<u8>) -> Option<DecPoint3D> {
    let w0s = skip_spaces(line, 0);
    let w0e = word_end(line, w0s);
    let w1s = skip_spaces(line, w0e);
    let w1e = word_end(line, w1s);
    let xs = skip_spaces(line, w1e);
    let xe = word_end(line, xs);
    let ys = skip_spaces(line, xe);
    let ye = word_end(line, ys);
    let zs = skip_spaces(line, ye);
    let ze = word_end(line, zs);
    if w0e == w0s || w1e == w1s || xe == xs || ye == ys || ze == zs {
        None
    } else {
        match (
            spec_parse_decimal(line.subrange(xs, xe)),
            spec_parse_decimal(line.subrange(ys, ye)),
            spec_parse_decimal(line.subrange(zs, ze)),
        ) {
            (Some(x), Some(y), Some(z)) => Some(DecPoint3D { x, y, z }),
            _ => None,
        }
    }
}

/// The outcome of reading one facet from an ASCII .stl body.
#[derive(Clone, Copy, Debug)]
pub enum FacetRead {
    /// The solid ended: an `endsolid` line, or the end of the data.
    EndOfSolid,
    /// A line did not fit the facet grammar.
    Fail(StlError),
    /// A facet, and the position just after it.
    Face(StlFace<DecPoint3D>, usize),
}

/// The facet starting at position `i`: seven lines — `facet normal`,
/// `outer loop`, three vertices, `endloop`, `endfacet` — with an
/// unreadable normal replaced by the default.  An `endsolid` line or the
/// end of the data ends the solid.
pub open spec fn spec_read_facet(s: Seq<u8>, i: int) -> FacetRead {
    if i >= s.len() {
        FacetRead::EndOfSolid
    } else {
        let l1 = line_at(s, i);
        let p1 = line_next(s, i);
        let t1 = after_spaces(l1);
        if starts_with_spec(t1, kw_endsolid()) {
            FacetRead::EndOfSolid
        } else if !starts_with_spec(t1, kw_facet()) {
            FacetRead::Fail(StlError::Facet)
        } else {
            let nrm = match spec_read_stl_normal(l1) {
                Some(p) => p,
                None => default_normal(),
            };
            if p1 >= s.len() {
                FacetRead::EndOfSolid
            } else {
                let l2 = line_at(s, p1);
                let p2 = line_next(s, p1);
                if !starts_with_spec(after_spaces(l2), kw_outer_loop()) {
                    FacetRead::Fail(StlError::Loop)
                } else if p2 >= s.len() {
                    FacetRead::EndOfSolid
                } else {
                    let l3 = line_at(s, p2);
                    let p3 = line_next(s, p2);
                    match spec_read_stl_vertex(l3) {
                        None => FacetRead::Fail(StlError::Vertex),
                        Some(a) => if p3 >= s.len() {
                            FacetRead::EndOfSolid
                        } else {
                            let l4 = line_at(s, p3);
                            let p4 = line_next(s, p3);
                            match spec_read_stl_vertex(l4) {
                                None => FacetRead::Fail(StlError::Vertex),
                                Some(b) => if p4 >= s.len() {
                                    FacetRead::EndOfSolid
                                } else {
                                    let l5 = line_at(s, p4);
                                    let p5 = line_next(s, p4);
                                    match spec_read_stl_vertex(l5) {
                                        None => FacetRead::Fail(StlError::Vertex),
                                        Some(c) => if p5 >= s.len() {
                                            FacetRead::EndOfSolid
                                        } else {
                                            let l6 = line_at(s, p5);
                                            let p6 = line_next(s, p5);
                                            if !starts_with_spec(after_spaces(l6), kw_endloop()) {
                                                FacetRead::Fail(StlError::EndLoop)
                                            } else if p6 >= s.len() {
                                                FacetRead::EndOfSolid
                                            } else {
                                                let l7 = line_at(s, p6);
                                                let p7 = line_next(s, p6);
                                                if !starts_with_spec(
                                                    after_spaces(l7),
                                                    kw_endfacet(),
                                                ) {
                                                    FacetRead::Fail(StlError::EndFacet)
                                                } else {
                                                    FacetRead::Face(
                                                        StlFace { a, b, c, n: nrm },
                                                        p7 as usize,
                                                    )
                                                }
                                            }
                                        },
                                    }
                                },
                            }
                        },
                    }
                }
            }
        }
    }
}

/// A line starting before the end of the text ends after its start and at
/// or before the end of the text.
pub proof fn lemma_line_next_bounds(s: Seq<u8>, i: int)
    requires
        0 <= i < s.len(),
    ensures
        i < line_next(s, i) <= s.len(),
{
    lemma_line_end_bounds(s, i);
}

/// A facet read from a valid position ends after that position and within
/// the text.
pub proof fn lemma_read_facet_bounds(s: Seq<u8>, i: int)
    requires
        0 <= i <= s.len(),
        s.len() <= usize::MAX,
    ensures
        spec_read_facet(s, i) matches FacetRead::Face(_, np) ==> i < np <= s.len(),
{
    if i < s.len() {
        lemma_line_next_bounds(s, i);
        let p1 = line_next(s, i);
        if p1 < s.len() {
            lemma_line_next_bounds(s, p1);
            let p2 = line_next(s, p1);
            if p2 < s.len() {
                lemma_line_next_bounds(s, p2);
                let p3 = line_next(s, p2);
                if p3 < s.len() {
                    lemma_line_next_bounds(s, p3);
                    let p4 = line_next(s, p3);
                    if p4 < s.len() {
                        lemma_line_next_bounds(s, p4);
                        let p5 = line_next(s, p4);
                        if p5 < s.len() {
                            lemma_line_next_bounds(s, p5);
                            let p6 = line_next(s, p5);
                            if p6 < s.len() {
                                lemma_line_next_bounds(s, p6);
                            }
                        }
                    }
                }
            }
        }
    }
}

/// Reads the vertex of a `vertex x y z` line.
pub fn read_stl_vertex(line: &[u8]) -> (r: Option<DecPoint3D>)
    ensures
        r == spec_read_stl_vertex(line@),
{
    let w0s = find_skip_spaces(line, 0);
    let w0e = find_word_end(line, w0s);
    let xs = find_skip_spaces(line, w0e);
    let xe = find_word_end(line, xs);
    let ys = find_skip_spaces(line, xe);
    let ye = find_word_end(line, ys);
    let zs = find_skip_spaces(line, ye);
    let ze = find_word_end(line, zs);
    if w0e == w0s || xe == xs || ye == ys || ze == zs {
        return None;
    }
    match (
        parse_decimal(&line[xs..xe]),
        parse_decimal(&line[ys..ye]),
        parse_decimal(&line[zs..ze]),
    ) {
        (Some(x), Some(y), Some(z)) => Some(DecPoint3D { x, y, z }),
        _ => None,
    }
}

/// Reads the normal of a `facet normal i j k` line.
pub fn read_stl_normal(line: &[u8]) -> (r: Option<DecPoint3D>)
    ensures
        r == spec_read_stl_normal(line@),
{
    let w0s = find_skip_spaces(line, 0);
    let w0e = find_word_end(line, w0s);
    let w1s = find_skip_spaces(line, w0e);
    let w1e = find_word_end(line, w1s);
    let xs = find_skip_spaces(line, w1e);
    let xe = find_word_end(line, xs);
    let ys = find_skip_spaces(line, xe);
    let ye = find_word_end(line, ys);
    let zs = find_skip_spaces(line, ye);
    let ze = find_word_end(line, zs);
    if w0e == w0s || w1e == w1s || xe == xs || ye == ys || ze == zs {
        return None;
    }
    match (
        parse_decimal(&line[xs..xe]),
        parse_decimal(&line[ys..ye]),
        parse_decimal(&line[zs..ze]),
    ) {
        (Some(x), Some(y), Some(z)) => Some(DecPoint3D { x, y, z }),
        _ => None,
    }
}

/// Fetches the trimmed line starting at `i` and the position after it.
fn fetch_line(data: &[u8], i: usize) -> (r: (&[u8], usize))
    requires
        i <= data@.len(),
    ensures
        r.0@ == line_at(data@, i as int),
        r.1 == line_next(data@, i as int),
        i <= r.1 <= data@.len(),
{
    let e = find_line_end(data, i);
    let line = trim_end(&data[i..e]);
    if e >= data.len() {
        (line, data.len())
    } else {
        (line, e + 1)
    }
}

/// Tests whether `line`, its leading blank space skipped, starts with
/// `pat`.
fn line_has_keyword(line: &[u8], pat: &[u8]) -> (r: bool)
    ensures
        r == starts_with_spec(after_spaces(line@), pat@),
{
    let st = find_skip_spaces(line, 0);
    starts_with(&line[st..line.len()], pat)
}

/// Reads one facet starting at `pos`.
pub fn read_stl_facet(data: &[u8], pos: usize) -> (r: FacetRead)
    requires
        pos <= data@.len(),
    ensures
        r == spec_read_facet(data@, pos as int),
        r matches FacetRead::Face(_, np) ==> pos < np <= data@.len(),
{
    let n = data.len();
    proof {
        lemma_read_facet_bounds(data@, pos as int);
    }
    if pos >= n {
        return FacetRead::EndOfSolid;
    }
    let endsolid_pat: [u8; 8] = [101, 110, 100, 115, 111, 108, 105, 100];
    let facet_pat: [u8; 5] = [102, 97, 99, 101, 116];
    let outer_loop_pat: [u8; 10] = [111, 117, 116, 101, 114, 32, 108, 111, 111, 112];
    let endloop_pat: [u8; 7] = [101, 110, 100, 108, 111, 111, 112];
    let endfacet_pat: [u8; 8] = [101, 110, 100, 102, 97, 99, 101, 116];
    proof {
        assert(endsolid_pat@ =~= kw_endsolid());
        assert(facet_pat@ =~= kw_facet());
        assert(outer_loop_pat@ =~= kw_outer_loop());
        assert(endloop_pat@ =~= kw_endloop());
        assert(endfacet_pat@ =~= kw_endfacet());
    }
    let (l1, p1) = fetch_line(data, pos);
    if line_has_keyword(l1, endsolid_pat.as_slice()) {
        return FacetRead::EndOfSolid;
    }
    if !line_has_keyword(l1, facet_pat.as_slice()) {
        return FacetRead::Fail(StlError::Facet);
    }
    let nrm = match read_stl_normal(l1) {
        Some(p) => p,
        None => DecPoint3D {
            x: Decimal { neg: false, mant: 0, exp: 0 },
            y: Decimal { neg: false, mant: 0, exp: 0 },
            z: Decimal { neg: false, mant: 1, exp: 0 },
        },
    };
    if p1 >= data.len() {
        return FacetRead::EndOfSolid;
    }
    let (l2, p2) = fetch_line(data, p1);
    if !line_has_keyword(l2, outer_loop_pat.as_slice()) {
        return FacetRead::Fail(StlError::Loop);
    }
    if p2 >= data.len() {
        return FacetRead::EndOfSolid;
    }
    let (l3, p3) = fetch_line(data, p2);
    let a = match read_stl_vertex(l3) {
        None => {
            return FacetRead::Fail(StlError::Vertex);
        },
        Some(v) => v,
    };
    if p3 >= data.len() {
        return FacetRead::EndOfSolid;
    }
    let (l4, p4) = fetch_line(data, p3);
    let b = match read_stl_vertex(l4) {
        None => {
            return FacetRead::Fail(StlError::Vertex);
        },
        Some(v) => v,
    };
    if p4 >= data.len() {
        return FacetRead::EndOfSolid;
    }
    let (l5, p5) = fetch_line(data, p4);
    let c = match read_stl_vertex(l5) {
        None => {
            return FacetRead::Fail(StlError::Vertex);
        },
        Some(v) => v,
    };
    if p5 >= data.len() {
        return FacetRead::EndOfSolid;
    }
    let (l6, p6) = fetch_line(data, p5);
    if !line_has_keyword(l6, endloop_pat.as_slice()) {
        return FacetRead::Fail(StlError::EndLoop);
    }
    if p6 >= data.len() {
        return FacetRead::EndOfSolid;
    }
    let (l7, p7) = fetch_line(data, p6);
    if !line_has_keyword(l7, endfacet_pat.as_slice()) {
        return FacetRead::Fail(StlError::EndFacet);
    }
    FacetRead::Face(StlFace { a, b, c, n: nrm }, p7)
}

/// Reads the facets of an ASCII .stl body line by line.
pub struct StlAsciiIterator {
    pub data: Vec<u8>,
    pub pos: usize,
    pub header_read: bool,
}

impl StlAsciiIterator {
    /// The reading position stays within the data.
    pub open spec fn wf(self) -> bool {
        self.pos <= self.data@.len()
    }

    /// What the next call of `next` returns, and the state it leaves
    /// behind: the first line is skipped once, then one facet is read per
    /// call.
    pub open spec fn spec_step(self) -> (
        Option<Result<DataReserve<StlFace<DecPoint3D>>, StlError>>,
        Self,
    ) {
        let start: int = if self.header_read {
            self.pos as int
        } else {
            line_next(self.data@, 0)
        };
        match spec_read_facet(self.data@, start) {
            FacetRead::EndOfSolid => (
                None,
                StlAsciiIterator { data: self.data, pos: start as usize, header_read: true },
            ),
            FacetRead::Fail(e) => (
                Some(Err(e)),
                StlAsciiIterator { data: self.data, pos: start as usize, header_read: true },
            ),
            FacetRead::Face(f, np) => (
                Some(Ok(DataReserve::Data(f))),
                StlAsciiIterator { data: self.data, pos: np, header_read: true },
            ),
        }
    }

    /// Creates an iterator over the given bytes.
    pub fn new(data: Vec<u8>) -> (r: Self)
        ensures
            r == (StlAsciiIterator { data, pos: 0, header_read: false }),
    {
        StlAsciiIterator { data, pos: 0, header_read: false }
    }

    /// Reads the next facet.
    pub fn next(&mut self) -> (r: Option<Result<DataReserve<StlFace<DecPoint3D>>, StlError>>)
        requires
            old(self).wf(),
        ensures
            final(self).wf(),
            r == old(self).spec_step().0,
            *final(self) == old(self).spec_step().1,
    {
        if !self.header_read {
            let e0 = find_line_end(self.data.as_slice(), 0);
            let start = if e0 >= self.data.len() {
                self.data.len()
            } else {
                e0 + 1
            };
            self.pos = start;
            self.header_read = true;
        }
        match read_stl_facet(self.data.as_slice(), self.pos) {
            FacetRead::EndOfSolid => None,
            FacetRead::Fail(e) => Some(Err(e)),
            FacetRead::Face(f, np) => {
                self.pos = np;
                Some(Ok(DataReserve::Data(f)))
            },
        }
    }
}

// ---------------------------------------------------------------------
// Binary reading
// ---------------------------------------------------------------------

/// The vertex whose twelve bytes start at `off`.
pub open spec fn bin_vertex(s: Seq<u8>, off: int) -> StlVertexBits {
    StlVertexBits {
        x: spec_u32_from_le_bytes(s.subrange(off, off + 4)),
        y: spec_u32_from_le_bytes(s.subrange(off + 4, off + 8)),
        z: spec_u32_from_le_bytes(s.subrange(off + 8, off + 12)),
    }
}

/// The face count of a binary .stl file: the little-endian word after the
/// 80-byte header.
pub open spec fn bin_count(s: Seq<u8>) -> u32 {
    spec_u32_from_le_bytes(s.subrange(80, 84))
}

/// Face number `k` of a binary .stl file: its 50-byte record holds the
/// normal, the three corners, and two bytes of padding.
pub open spec fn bin_face(s: Seq<u8>, k: int) -> StlFace<StlVertexBits> {
    let base = 84 + 50 * k;
    StlFace {
        n: bin_vertex(s, base),
        a: bin_vertex(s, base + 12),
        b: bin_vertex(s, base + 24),
        c: bin_vertex(s, base + 36),
    }
}

/// Reads the vertex whose twelve bytes start at `off`.
fn read_vertex_bits(data: &[u8], off: usize) -> (r: StlVertexBits)
    requires
        off + 12 <= data@.len(),
    ensures
        r == bin_vertex(data@, off as int),
{
    let n = data.len();
    proof {
        assert(off + 12 <= n);
    }
    StlVertexBits {
        x: u32_from_le_bytes(&data[off..off + 4]),
        y: u32_from_le_bytes(&data[off + 4..off + 8]),
        z: u32_from_le_bytes(&data[off + 8..off + 12]),
    }
}

/// Reads the faces of a binary .stl body record by record.
pub struct StlBinaryIterator {
    pub data: Vec<u8>,
    pub pos: usize,
    pub header_read: bool,
    pub n_triangles: usize,
    pub current: usize,
}

impl StlBinaryIterator {
    /// The face count is within the accepted bound and the reading
    /// position sits at the current record.
    pub open spec fn wf(self) -> bool {
        &&& self.n_triangles <= MAX_TRIANGLES_BINARY
        &&& self.current <= self.n_triangles
        &&& self.pos == 84 + 50 * self.current
        &&& (!self.header_read ==> self.current == 0 && self.n_triangles == 0)
    }

    /// What the next call of `next` returns, and the state it leaves
    /// behind: first the header is read and the face count announced, then
    /// one face is read per call; data ending before the announced count
    /// is reported as inaccessible.
    pub open spec fn spec_step(self) -> (
        Option<Result<DataReserve<StlFace<StlVertexBits>>, StlError>>,
        Self,
    ) {
        if !self.header_read {
            if self.data@.len() < 84 {
                (
                    Some(Err(StlError::AccessFile)),
                    StlBinaryIterator { header_read: true, ..self },
                )
            } else if bin_count(self.data@) > MAX_TRIANGLES_BINARY {
                (
                    Some(Err(StlError::InvalidFaceCount)),
                    StlBinaryIterator { header_read: true, ..self },
                )
            } else {
                (
                    Some(Ok(DataReserve::Reserve(bin_count(self.data@) as usize))),
                    StlBinaryIterator {
                        header_read: true,
                        n_triangles: bin_count(self.data@) as usize,
                        ..self
                    },
                )
            }
        } else if self.current < self.n_triangles {
            if self.pos + 50 <= self.data@.len() {
                (
                    Some(Ok(DataReserve::Data(bin_face(self.data@, self.current as int)))),
                    StlBinaryIterator {
                        pos: (self.pos + 50) as usize,
                        current: (self.current + 1) as usize,
                        ..self
                    },
                )
            } else {
                (
                    Some(Err(StlError::AccessFile)),
                    StlBinaryIterator { n_triangles: self.current, ..self },
                )
            }
        } else {
            (None, self)
        }
    }

    /// Creates an iterator over the given bytes.
    pub fn new(data: Vec<u8>) -> (r: Self)
        ensures
            r == (StlBinaryIterator {
                data,
                pos: 84,
                header_read: false,
                n_triangles: 0,
                current: 0,
            }),
            r.wf(),
    {
        StlBinaryIterator { data, pos: 84, header_read: false, n_triangles: 0, current: 0 }
    }

    /// Reads the face count or the next face.
    pub fn next(&mut self) -> (r: Option<Result<DataReserve<StlFace<StlVertexBits>>, StlError>>)
        requires
            old(self).wf(),
        ensures
            final(self).wf(),
            r == old(self).spec_step().0,
            *final(self) == old(self).spec_step().1,
    {
        if !self.header_read {
            self.header_read = true;
            if self.data.len() < 84 {
                return Some(Err(StlError::AccessFile));
            }
            let count = u32_from_le_bytes(&self.data.as_slice()[80..84]);
            if count > MAX_TRIANGLES_BINARY {
                return Some(Err(StlError::InvalidFaceCount));
            }
            self.n_triangles = count as usize;
            return Some(Ok(DataReserve::Reserve(count as usize)));
        }
        if self.current < self.n_triangles {
            let len = self.data.len();
            if self.pos <= len && len - self.pos >= 50 {
                let n = read_vertex_bits(self.data.as_slice(), self.pos);
                let a = read_vertex_bits(self.data.as_slice(), self.pos + 12);
                let b = read_vertex_bits(self.data.as_slice(), self.pos + 24);
                let c = read_vertex_bits(self.data.as_slice(), self.pos + 36);
                self.pos = self.pos + 50;
                self.current = self.current + 1;
                Some(Ok(DataReserve::Data(StlFace { a, b, c, n })))
            } else {
                self.n_triangles = self.current;
                Some(Err(StlError::AccessFile))
            }
        } else {
            None
        }
    }
}

// ---------------------------------------------------------------------
// The unified iterator
// ---------------------------------------------------------------------

/// The inner reader of a unified iterator.
pub enum BinaryOrAsciiIterator {
    Binary(StlBinaryIterator),
    Ascii(StlAsciiIterator),
}

/// A face with ASCII vertices, lifted to the unified vertex type.
pub open spec fn face_text(f: StlFace<DecPoint3D>) -> StlFace<StlPoint> {
    StlFace {
        a: StlPoint::Text(f.a),
        b: StlPoint::Text(f.b),
        c: StlPoint::Text(f.c),
        n: StlPoint::Text(f.n),
    }
}

/// A face with binary vertices, lifted to the unified vertex type.
pub open spec fn face_bits(f: StlFace<StlVertexBits>) -> StlFace<StlPoint> {
    StlFace {
        a: StlPoint::Bits(f.a),
        b: StlPoint::Bits(f.b),
        c: StlPoint::Bits(f.c),
        n: StlPoint::Bits(f.n),
    }
}

/// Reads an .stl body of either kind, deciding the kind up front.
pub struct StlIterator {
    pub inner: BinaryOrAsciiIterator,
}

impl StlIterator {
    /// The inner reader is well-formed.
    pub open spec fn wf(self) -> bool {
        match self.inner {
            BinaryOrAsciiIterator::Binary(it) => it.wf(),
            BinaryOrAsciiIterator::Ascii(it) => it.wf(),
        }
    }

    /// What the next call of `next` returns, and the state it leaves
    /// behind: the inner reader's step, its faces lifted to the unified
    /// vertex type.
    pub open spec fn spec_step(self) -> (
        Option<Result<DataReserve<StlFace<StlPoint>>, StlError>>,
        Self,
    ) {
        match self.inner {
            BinaryOrAsciiIterator::Ascii(it) => {
                let (r, st) = it.spec_step();
                (
                    match r {
                        None => None,
                        Some(Err(e)) => Some(Err(e)),
                        Some(Ok(DataReserve::Reserve(k))) => Some(Ok(DataReserve::Reserve(k))),
                        Some(Ok(DataReserve::Data(f))) => Some(Ok(DataReserve::Data(face_text(f)))),
                    },
                    StlIterator { inner: BinaryOrAsciiIterator::Ascii(st) },
                )
            },
            BinaryOrAsciiIterator::Binary(it) => {
                let (r, st) = it.spec_step();
                (
                    match r {
                        None => None,
                        Some(Err(e)) => Some(Err(e)),
                        Some(Ok(DataReserve::Reserve(k))) => Some(Ok(DataReserve::Reserve(k))),
                        Some(Ok(DataReserve::Data(f))) => Some(Ok(DataReserve::Data(face_bits(f)))),
                    },
                    StlIterator { inner: BinaryOrAsciiIterator::Binary(st) },
                )
            },
        }
    }

    /// How many header steps are still owed.
    pub open spec fn hdr_measure(self) -> int {
        match self.inner {
            BinaryOrAsciiIterator::Ascii(it) => if it.header_read {
                0
            } else {
                1
            },
            BinaryOrAsciiIterator::Binary(it) => if it.header_read {
                0
            } else {
                1
            },
        }
    }

    /// How much input is still to be consumed.
    pub open spec fn rem_measure(self) -> int {
        match self.inner {
            BinaryOrAsciiIterator::Ascii(it) => it.data@.len() + 1 - it.pos,
            BinaryOrAsciiIterator::Binary(it) => it.n_triangles - it.current,
        }
    }

    /// A step leaves the iterator well-formed, and a step that yields an
    /// item makes progress: the measures shrink lexicographically.
    pub proof fn lemma_step(self)
        requires
            self.wf(),
        ensures
            self.spec_step().1.wf(),
            0 <= self.rem_measure(),
            0 <= self.spec_step().1.rem_measure(),
            (self.spec_step().0 matches Some(rr) && rr is Ok) ==> (self.spec_step().1.hdr_measure()
                < self.hdr_measure() || (self.spec_step().1.hdr_measure() == self.hdr_measure()
                && self.spec_step().1.rem_measure() < self.rem_measure())),
    {
        match self.inner {
            BinaryOrAsciiIterator::Ascii(it) => {
                broadcast use vstd::std_specs::vec::axiom_spec_len;

                assert(it.data@.len() == it.data.len());
                lemma_line_end_bounds(it.data@, 0);
                let start: int = if it.header_read {
                    it.pos as int
                } else {
                    line_next(it.data@, 0)
                };
                assert(0 <= start <= it.data@.len());
                lemma_read_facet_bounds(it.data@, start);
                match spec_read_facet(it.data@, start) {
                    FacetRead::EndOfSolid => {
                        assert(start as usize <= it.data@.len());
                    },
                    FacetRead::Fail(e) => {
                        assert(start as usize <= it.data@.len());
                    },
                    FacetRead::Face(f, np) => {
                        assert(start < np <= it.data@.len());
                    },
                }
                assert(self.spec_step().1.wf());
            },
            BinaryOrAsciiIterator::Binary(it) => {
                broadcast use vstd::std_specs::vec::axiom_spec_len;

                assert(it.data@.len() == it.data.len());
            },
        }
    }

    /// Creates an iterator over the given bytes, deciding the kind from
    /// the format and the leading bytes.
    pub fn new(data: Vec<u8>, format: StlFormat) -> (r: Result<Self, StlError>)
        ensures
            r is Ok <==> data@.len() >= 5,
            r is Err ==> r->Err_0 == StlError::AccessFile,
            r is Ok ==> r->Ok_0.wf() && r->Ok_0 == (if spec_is_ascii(data@, format) {
                StlIterator {
                    inner: BinaryOrAsciiIterator::Ascii(
                        StlAsciiIterator { data, pos: 0, header_read: false },
                    ),
                }
            } else {
                StlIterator {
                    inner: BinaryOrAsciiIterator::Binary(
                        StlBinaryIterator {
                            data,
                            pos: 84,
                            header_read: false,
                            n_triangles: 0,
                            current: 0,
                        },
                    ),
                }
            }),
    {
        let ascii = match is_ascii(data.as_slice(), format) {
            Err(e) => {
                return Err(e);
            },
            Ok(b) => b,
        };
        if ascii {
            Ok(StlIterator { inner: BinaryOrAsciiIterator::Ascii(StlAsciiIterator::new(data)) })
        } else {
            Ok(StlIterator { inner: BinaryOrAsciiIterator::Binary(StlBinaryIterator::new(data)) })
        }
    }

    /// Reads the next reserve hint or face.
    pub fn next(&mut self) -> (r: Option<Result<DataReserve<StlFace<StlPoint>>, StlError>>)
        requires
            old(self).wf(),
        ensures
            final(self).wf(),
            r == old(self).spec_step().0,
            *final(self) == old(self).spec_step().1,
    {
        match &mut self.inner {
            BinaryOrAsciiIterator::Ascii(it) => match it.next() {
                None => None,
                Some(Err(e)) => Some(Err(e)),
                Some(Ok(DataReserve::Reserve(k))) => Some(Ok(DataReserve::Reserve(k))),
                Some(Ok(DataReserve::Data(f))) => Some(
                    Ok(
                        DataReserve::Data(
                            StlFace {
                                a: StlPoint::Text(f.a),
                                b: StlPoint::Text(f.b),
                                c: StlPoint::Text(f.c),
                                n: StlPoint::Text(f.n),
                            },
                        ),
                    ),
                ),
            },
            BinaryOrAsciiIterator::Binary(it) => match it.next() {
                None => None,
                Some(Err(e)) => Some(Err(e)),
                Some(Ok(DataReserve::Reserve(k))) => Some(Ok(DataReserve::Reserve(k))),
                Some(Ok(DataReserve::Data(f))) => Some(
                    Ok(
                        DataReserve::Data(
                            StlFace {
                                a: StlPoint::Bits(f.a),
                                b: StlPoint::Bits(f.b),
                                c: StlPoint::Bits(f.c),
                                n: StlPoint::Bits(f.n),
                            },
                        ),
                    ),
                ),
            },
        }
    }
}

// ---------------------------------------------------------------------
// Whole-file loading
// ---------------------------------------------------------------------

/// The triplets and normals an iterator still yields: three corner points
/// per face into the first sequence, the normal into the second; the first
/// reported error aborts the load.
pub open spec fn spec_drain_triplets(it: StlIterator) -> Result<
    (Seq<StlPoint>, Seq<StlPoint>),
    StlError,
>
    decreases it.hdr_measure(), it.rem_measure(),
        when it.wf()
        via spec_drain_triplets_dec
{
    let (r, st) = it.spec_step();
    match r {
        None => Ok((Seq::empty(), Seq::empty())),
        Some(Err(e)) => Err(e),
        Some(Ok(DataReserve::Reserve(_))) => spec_drain_triplets(st),
        Some(Ok(DataReserve::Data(f))) => match spec_drain_triplets(st) {
            Err(e) => Err(e),
            Ok((ips, ns)) => Ok((seq![f.a, f.b, f.c] + ips, seq![f.n] + ns)),
        },
    }
}

#[via_fn]
proof fn spec_drain_triplets_dec(it: StlIterator) {
    it.lemma_step();
}

/// Drains the iterator into the accumulators.
#[verifier::rlimit(50)]
fn drain_triplets(it: StlIterator, ips: Vec<StlPoint>, ns: Vec<StlPoint>) -> (r: Result<
    (Vec<StlPoint>, Vec<StlPoint>),
    StlError,
>)
    requires
        it.wf(),
        ips@.len() == 3 * ns@.len(),
    ensures
        match spec_drain_triplets(it) {
            Ok((sips, sns)) => r is Ok && r->Ok_0.0@ == ips@ + sips && r->Ok_0.1@ == ns@ + sns
                && r->Ok_0.0@.len() == 3 * r->Ok_0.1@.len(),
            Err(e) => r is Err && r->Err_0 == e,
        },
    decreases it.hdr_measure(), it.rem_measure(),
{
    proof {
        it.lemma_step();
    }
    let ghost it0 = it;
    let mut it = it;
    let mut ips = ips;
    let mut ns = ns;
    match it.next() {
        None => {
            proof {
                assert(ips@ + Seq::<StlPoint>::empty() =~= ips@);
                assert(ns@ + Seq::<StlPoint>::empty() =~= ns@);
            }
            Ok((ips, ns))
        },
        Some(Err(e)) => Err(e),
        Some(Ok(DataReserve::Reserve(_))) => drain_triplets(it, ips, ns),
        Some(Ok(DataReserve::Data(f))) => {
            let ghost ips0 = ips@;
            let ghost ns0 = ns@;
            ips.push(f.a);
            ips.push(f.b);
            ips.push(f.c);
            ns.push(f.n);
            let r = drain_triplets(it, ips, ns);
            proof {
                if let Ok((sips, sns)) = spec_drain_triplets(it0) {
                    let (sub_ips, sub_ns) = spec_drain_triplets(it)->Ok_0;
                    assert(ips0 + (seq![f.a, f.b, f.c] + sub_ips) =~= (ips0 + seq![f.a, f.b, f.c])
                        + sub_ips);
                    assert(ips0.push(f.a).push(f.b).push(f.c) =~= ips0 + seq![f.a, f.b, f.c]);
                    assert(ns0 + (seq![f.n] + sub_ns) =~= ns0.push(f.n) + sub_ns);
                }
            }
            r
        },
    }
}

/// Loads the corner points of all faces as flat triplets, with one normal
/// per face alongside.  Returns `(points, face_normals)` where the points
/// of face `k` are the entries `3k`, `3k + 1` and `3k + 2`.
pub fn load_stl_triplets(data: Vec<u8>, format: StlFormat) -> (r: Result<
    (Vec<StlPoint>, Vec<StlPoint>),
    StlError,
>)
    ensures
        data@.len() < 5 ==> r is Err && r->Err_0 == StlError::AccessFile,
        data@.len() >= 5 ==> {
            let it = (if spec_is_ascii(data@, format) {
                StlIterator {
                    inner: BinaryOrAsciiIterator::Ascii(
                        StlAsciiIterator { data, pos: 0, header_read: false },
                    ),
                }
            } else {
                StlIterator {
                    inner: BinaryOrAsciiIterator::Binary(
                        StlBinaryIterator {
                            data,
                            pos: 84,
                            header_read: false,
                            n_triangles: 0,
                            current: 0,
                        },
                    ),
                }
            });
            match spec_drain_triplets(it) {
                Ok((sips, sns)) => r is Ok && r->Ok_0.0@ == sips && r->Ok_0.1@ == sns
                    && sips.len() == 3 * sns.len(),
                Err(e) => r is Err && r->Err_0 == e,
            }
        },
{
    let it = match StlIterator::new(data, format) {
        Err(e) => {
            return Err(e);
        },
        Ok(it) => it,
    };
    let r = drain_triplets(it, Vec::new(), Vec::new());
    proof {
        if let Ok((sips, sns)) = spec_drain_triplets(it) {
            assert(Seq::<StlPoint>::empty() + sips =~= sips);
            assert(Seq::<StlPoint>::empty() + sns =~= sns);
        }
    }
    r
}

/// Loads a mesh with duplicate vertices: the flat corner points, one face
/// of three vertex indices per facet, and one normal per facet.  Face `k`
/// uses vertices `3k`, `3k + 1` and `3k + 2`.
pub fn load_stl_mesh_duped(data: Vec<u8>, format: StlFormat) -> (r: Result<
    (Vec<StlPoint>, Vec<(usize, usize, usize)>, Vec<StlPoint>),
    StlError,
>)
    ensures
        data@.len() < 5 ==> r is Err && r->Err_0 == StlError::AccessFile,
        data@.len() >= 5 ==> {
            let it = (if spec_is_ascii(data@, format) {
                StlIterator {
                    inner: BinaryOrAsciiIterator::Ascii(
                        StlAsciiIterator { data, pos: 0, header_read: false },
                    ),
                }
            } else {
                StlIterator {
                    inner: BinaryOrAsciiIterator::Binary(
                        StlBinaryIterator {
                            data,
                            pos: 84,
                            header_read: false,
                            n_triangles: 0,
                            current: 0,
                        },
                    ),
                }
            });
            match spec_drain_triplets(it) {
                Ok((sips, sns)) => match r {
                    Ok((vertices, faces, normals)) => {
                        &&& vertices@ == sips
                        &&& normals@ == sns
                        &&& faces@.len() == normals@.len()
                        &&& forall|k: int|
                            0 <= k < faces@.len() ==> #[trigger] faces@[k] == (
                                (3 * k) as usize,
                                (3 * k + 1) as usize,
                                (3 * k + 2) as usize,
                            )
                    },
                    Err(_) => false,
                },
                Err(e) => r is Err && r->Err_0 == e,
            }
        },
{
    let (vertices, normals) = match load_stl_triplets(data, format) {
        Err(e) => {
            return Err(e);
        },
        Ok(p) => p,
    };
    let n = normals.len();
    let vlen = vertices.len();
    proof {
        assert(vlen == 3 * n);
    }
    let mut faces: Vec<(usize, usize, usize)> = Vec::new();
    let mut k: usize = 0;
    while k < n
        invariant
            n == normals@.len(),
            vertices@.len() == 3 * n,
            3 * n <= usize::MAX,
            k <= n,
            faces@.len() == k,
            forall|j: int|
                0 <= j < k ==> #[trigger] faces@[j] == (
                    (3 * j) as usize,
                    (3 * j + 1) as usize,
                    (3 * j + 2) as usize,
                ),
        decreases n - k,
    {
        faces.push((3 * k, 3 * k + 1, 3 * k + 2));
        k += 1;
    }
    Ok((vertices, faces, normals))
}

} // verus!
