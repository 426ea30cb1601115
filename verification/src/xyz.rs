//! Loading and saving of the .xyz file format: one point per line, the
//! three coordinates separated by a delimiter.
//!
//! The loader works on the bytes of the file and hands back exact decimal
//! coordinates; the saver produces the bytes to be written.  Reading and
//! writing the file itself is the caller's business.

use vstd::prelude::*;
use crate::decimal::DecPoint3D;
use crate::decimal::is_digit;
use crate::decimal::parse_decimal;
use crate::decimal::spec_parse_decimal;
use crate::io_utils::find_line_end;
use crate::io_utils::find_skip_delims;
use crate::io_utils::find_token_end;
use crate::io_utils::line_end;
use crate::io_utils::skip_delims;
use crate::io_utils::token_end;
use crate::io_utils::trim_end;
use crate::io_utils::trim_end_spec;
use crate::point_3d::Point3D;

verus! {

/// Error type for .xyz file operations.
#[derive(Clone, Copy, Debug, PartialEq, Eq, Structural)]
pub enum XyzError {
    EstimateDelimiter,
    AccessFile,
    LineParse(usize),
}

/// Whether `c` can appear inside a decimal literal; the first byte of the
/// first line that cannot is taken as the file's delimiter.
pub open spec fn is_number_byte(c: u8) -> bool {
    is_digit(c) || c == 43 || c == 45 || c == 46 || c == 101 || c == 69
}

/// The position of the first byte at or after `i` that cannot belong to a
/// number, or the end of `s`.
pub open spec fn number_end(s: Seq<u8>, i: int) -> int
    decreases s.len() - i,
{
    if 0 <= i < s.len() && is_number_byte(s[i]) {
        number_end(s, i + 1)
    } else {
        i
    }
}

/// The delimiter guessed from a line: its first byte that cannot belong to
/// a number.
pub open spec fn spec_delimiter_of(line: Seq<u8>) -> Option<u8> {
    if number_end(line, 0) < line.len() {
        Some(line[number_end(line, 0)])
    } else {
        None
    }
}

/// The three coordinates read from one line: the first three words when the
/// line is split at `d` (empty words skipped) must be decimal literals;
/// anything after the third word is ignored.
pub open spec fn spec_parse_xyz_line(line: Seq<u8>, d: u8) -> Option<DecPoint3D> {
    let xs = skip_delims(line, 0, d);
    let xe = token_end(line, xs, d);
    let ys = skip_delims(line, xe, d);
    let ye = token_end(line, ys, d);
    let zs = skip_delims(line, ye, d);
    let ze = token_end(line, zs, d);
    if xe == xs || ye == ys || ze == zs {
        None
    } else {
        match (
            spec_parse_decimal(line.subrange(xs, xe)),
            spec_parse_decimal(line.subrange(ys, ye)),
            spec_parse_decimal(line.subrange(zs, ze)),
        ) {
            (Some(x), Some(y), Some(z)) => Some(DecPoint3D { x, y, z }),
            _ => None,
        }
    }
}

/// The points read from the lines of `s` starting at position `i`, the
/// first of them numbered `ln`; the first unreadable line aborts the load
/// with its line number.
pub open spec fn spec_load_xyz_from(s: Seq<u8>, i: int, d: u8, ln: int) -> Result<
    Seq<DecPoint3D>,
    XyzError,
>
    decreases s.len() + 1 - i,
        via spec_load_xyz_from_dec
{
    if i >= s.len() || i < 0 {
        Ok(Seq::empty())
    } else {
        let e = line_end(s, i);
        let line = trim_end_spec(s.subrange(i, e));
        match spec_parse_xyz_line(line, d) {
            None => Err(XyzError::LineParse(ln as usize)),
            Some(p) => match spec_load_xyz_from(s, e + 1, d, ln + 1) {
                Err(er) => Err(er),
                Ok(rest) => Ok(seq![p] + rest),
            },
        }
    }
}

#[via_fn]
proof fn spec_load_xyz_from_dec(s: Seq<u8>, i: int, d: u8, ln: int) {
    if 0 <= i < s.len() {
        crate::io_utils::lemma_line_end_bounds(s, i);
    }
}

/// The result of loading `s` as an .xyz file: the delimiter is guessed from
/// the first line and every line must then hold three decimal coordinates.
pub open spec fn spec_load_xyz(s: Seq<u8>) -> Result<Seq<DecPoint3D>, XyzError> {
    if s.len() == 0 {
        Ok(Seq::empty())
    } else {
        let l0 = trim_end_spec(s.subrange(0, line_end(s, 0)));
        match spec_delimiter_of(l0) {
            None => Err(XyzError::LineParse(1)),
            Some(d) => spec_load_xyz_from(s, 0, d, 1),
        }
    }
}

/// Finds the first byte at or after `i` that cannot belong to a number.
fn find_number_end(s: &[u8], i: usize) -> (r: usize)
    requires
        i <= s@.len(),
    ensures
        r == number_end(s@, i as int),
        i <= r <= s@.len(),
    decreases s@.len() - i,
{
    if i < s.len() && (48 <= s[i] && s[i] <= 57 || s[i] == 43 || s[i] == 45 || s[i] == 46 || s[i]
        == 101 || s[i] == 69) {
        find_number_end(s, i + 1)
    } else {
        i
    }
}

/// Reads the three coordinates of one line.
fn parse_xyz_line(line: &[u8], d: u8) -> (r: Option<DecPoint3D>)
    ensures
        r == spec_parse_xyz_line(line@, d),
{
    let xs = find_skip_delims(line, 0, d);
    let xe = find_token_end(line, xs, d);
    let ys = find_skip_delims(line, xe, d);
    let ye = find_token_end(line, ys, d);
    let zs = find_skip_delims(line, ye, d);
    let ze = find_token_end(line, zs, d);
    if xe == xs || ye == ys || ze == zs {
        return None;
    }
    let x = parse_decimal(&line[xs..xe]);
    let y = parse_decimal(&line[ys..ye]);
    let z = parse_decimal(&line[zs..ze]);
    match (x, y, z) {
        (Some(x), Some(y), Some(z)) => Some(DecPoint3D { x, y, z }),
        _ => None,
    }
}

/// Loads the bytes of an .xyz file: one point per line, the delimiter
/// guessed from the first line, the first three words of each line read as
/// decimal coordinates.  Returns the points in file order, or the number of
/// the first line that could not be read.
pub fn load_xyz(data: &[u8]) -> (r: Result<Vec<DecPoint3D>, XyzError>)
    ensures
        match r {
            Ok(v) => spec_load_xyz(data@) is Ok && v@ == spec_load_xyz(data@)->Ok_0,
            Err(e) => spec_load_xyz(data@) is Err && e == spec_load_xyz(data@)->Err_0,
        },
{
    let n = data.len();
    if n == 0 {
        return Ok(Vec::new());
    }
    let e0 = find_line_end(data, 0);
    let l0 = trim_end(&data[0..e0]);
    proof {
        assert(data@.subrange(0, e0 as int) == data@.subrange(0, line_end(data@, 0)));
    }
    let d0 = find_number_end(l0, 0);
    if d0 >= l0.len() {
        return Err(XyzError::LineParse(1));
    }
    let d = l0[d0];
    let mut result: Vec<DecPoint3D> = Vec::new();
    let mut i: usize = 0;
    let mut ln: u128 = 1;
    while i < n
        invariant
            n == data@.len(),
            i <= n,
            1 <= ln <= i + 1,
            spec_load_xyz(data@) == spec_load_xyz_from(data@, 0, d, 1),
            match spec_load_xyz_from(data@, i as int, d, ln as int) {
                Ok(rest) => spec_load_xyz_from(data@, 0, d, 1) is Ok && spec_load_xyz_from(
                    data@,
                    0,
                    d,
                    1,
                )->Ok_0 == result@ + rest,
                Err(er) => spec_load_xyz_from(data@, 0, d, 1) is Err && spec_load_xyz_from(
                    data@,
                    0,
                    d,
                    1,
                )->Err_0 == er,
            },
        decreases n - i,
    {
        let e = find_line_end(data, i);
        let line = trim_end(&data[i..e]);
        proof {
            assert(data@.subrange(i as int, e as int) == data@.subrange(
                i as int,
                line_end(data@, i as int),
            ));
        }
        match parse_xyz_line(line, d) {
            None => {
                proof {
                    assert(ln <= n + 1);
                }
                return Err(XyzError::LineParse(ln as usize));
            },
            Some(p) => {
                result.push(p);
                proof {
                    let ghost rest0 = spec_load_xyz_from(data@, i as int, d, ln as int);
                    let ghost rest1 = spec_load_xyz_from(data@, e + 1, d, ln + 1);
                    if rest1 is Ok {
                        assert(result@ + rest1->Ok_0 =~= result@.drop_last() + (seq![p]
                            + rest1->Ok_0));
                    }
                }
            },
        }
        if e >= n {
            proof {
                assert(spec_load_xyz_from(data@, e + 1, d, ln + 1) == Ok::<
                    Seq<DecPoint3D>,
                    XyzError,
                >(Seq::empty()));
                assert(spec_load_xyz_from(data@, n as int, d, ln + 1) == Ok::<
                    Seq<DecPoint3D>,
                    XyzError,
                >(Seq::empty()));
            }
            i = n;
        } else {
            i = e + 1;
        }
        ln += 1;
    }
    proof {
        assert(spec_load_xyz_from(data@, n as int, d, ln as int) == Ok::<
            Seq<DecPoint3D>,
            XyzError,
        >(Seq::empty()));
        assert(result@ + Seq::<DecPoint3D>::empty() =~= result@);
    }
    Ok(result)
}

/// The decimal digits of `n`.
pub open spec fn dec_of_u64(n: u64) -> Seq<u8>
    decreases n,
{
    if n < 10 {
        seq![(48 + n) as u8]
    } else {
        dec_of_u64((n / 10) as u64).push((48 + n % 10) as u8)
    }
}

/// The decimal digits of `v`, with a leading minus sign when negative.
pub open spec fn dec_of_i64(v: i64) -> Seq<u8> {
    if v < 0 {
        seq![45u8] + dec_of_u64(((-(v as int)) as u64))
    } else {
        dec_of_u64(v as u64)
    }
}

/// One saved line: the three coordinates with `dc` between them, closed by
/// `dp`.
pub open spec fn spec_xyz_line_of(p: Point3D, dc: Seq<u8>, dp: Seq<u8>) -> Seq<u8> {
    dec_of_i64(p.x) + dc + dec_of_i64(p.y) + dc + dec_of_i64(p.z) + dp
}

/// The saved form of the points from index `i` on.
pub open spec fn spec_save_xyz_from(ps: Seq<Point3D>, i: int, dc: Seq<u8>, dp: Seq<u8>) -> Seq<u8>
    decreases ps.len() - i,
{
    if 0 <= i < ps.len() {
        spec_xyz_line_of(ps[i], dc, dp) + spec_save_xyz_from(ps, i + 1, dc, dp)
    } else {
        Seq::empty()
    }
}

/// Appends the decimal digits of `n` to `out`.
fn push_u64_dec(out: &mut Vec<u8>, n: u64)
    ensures
        final(out)@ == old(out)@ + dec_of_u64(n),
    decreases n,
{
    if n >= 10 {
        push_u64_dec(out, n / 10);
    }
    out.push(48 + (n % 10) as u8);
    proof {
        if n >= 10 {
            assert(old(out)@ + dec_of_u64(n / 10) + seq![(48 + n % 10) as u8] =~= old(out)@
                + dec_of_u64(n));
        } else {
            assert(old(out)@ + seq![(48 + n) as u8] =~= old(out)@ + dec_of_u64(n));
        }
    }
}

/// Appends the decimal digits of `v`, sign included, to `out`.
fn push_i64_dec(out: &mut Vec<u8>, v: i64)
    ensures
        final(out)@ == old(out)@ + dec_of_i64(v),
{
    if v < 0 {
        out.push(45);
        let m = (-(v as i128)) as u64;
        push_u64_dec(out, m);
        proof {
            assert(old(out)@ + seq![45u8] + dec_of_u64(m) =~= old(out)@ + dec_of_i64(v));
        }
    } else {
        push_u64_dec(out, v as u64);
    }
}

/// Saves points as lines of three coordinates, `delim_coord` between the
/// coordinates of one point and `delim_pos` after each point.  Returns the
/// bytes to be written.
pub fn save_xyz(ra: &Vec<Point3D>, delim_coord: &[u8], delim_pos: &[u8]) -> (r: Vec<u8>)
    ensures
        r@ == spec_save_xyz_from(ra@, 0, delim_coord@, delim_pos@),
{
    let mut out: Vec<u8> = Vec::new();
    let n = ra.len();
    let mut i: usize = 0;
    while i < n
        invariant
            n == ra@.len(),
            i <= n,
            spec_save_xyz_from(ra@, 0, delim_coord@, delim_pos@) == out@ + spec_save_xyz_from(
                ra@,
                i as int,
                delim_coord@,
                delim_pos@,
            ),
        decreases n - i,
    {
        let ghost out0 = out@;
        let p = ra[i];
        push_i64_dec(&mut out, p.x);
        out.extend_from_slice(delim_coord);
        push_i64_dec(&mut out, p.y);
        out.extend_from_slice(delim_coord);
        push_i64_dec(&mut out, p.z);
        out.extend_from_slice(delim_pos);
        proof {
            assert(out@ =~= out0 + spec_xyz_line_of(ra@[i as int], delim_coord@, delim_pos@));
            assert(out0 + (spec_xyz_line_of(ra@[i as int], delim_coord@, delim_pos@)
                + spec_save_xyz_from(ra@, i + 1, delim_coord@, delim_pos@)) =~= out@
                + spec_save_xyz_from(ra@, i + 1, delim_coord@, delim_pos@));
        }
        i += 1;
    }
    proof {
        assert(out@ + Seq::<u8>::empty() =~= out@);
    }
    out
}

} // verus!
