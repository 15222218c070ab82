//! FASTA text to bases: header lines (starting with `>`) are skipped, every
//! other line is trimmed of whitespace, upper-cased and appended as UTF-8
//! bytes.

use vstd::prelude::*;
use vstd::utf8::encode_utf8;

verus! {

/// The character that opens a header line.
pub const HEADER_MARK: char = '>';
/// ASCII code of `/`, which separates the components of a path.
pub const PATH_SEPARATOR: u8 = 47;

/// The characters of `s` without leading and trailing Unicode whitespace,
/// as `str::trim` gives them.
pub uninterp spec fn trim_of(s: Seq<char>) -> Seq<char>;

/// The Unicode upper case of `s`, as `str::to_uppercase` gives it.
pub uninterp spec fn upper_of(s: Seq<char>) -> Seq<char>;

/// Relies on `str::trim`: the slice of `s` without leading and trailing
/// whitespace.
#[verifier::external_body]
fn trim_line(s: &str) -> (r: &str)
    ensures
        r@ == trim_of(s@),
{
    s.trim()
}

/// Relies on `str::to_uppercase`: the upper-case equivalent of `s`.
#[verifier::external_body]
fn upper_line(s: &str) -> (r: String)
    ensures
        r@ == upper_of(s@),
{
    s.to_uppercase()
}

/// Whether `line` is a header line.
pub open spec fn is_header(line: Seq<char>) -> bool {
    line.len() > 0 && line[0] == HEADER_MARK
}

/// What one line contributes to the sequence: nothing for a header line,
/// else the UTF-8 bytes of the line trimmed and upper-cased.
pub open spec fn line_bases(line: Seq<char>) -> Seq<u8> {
    if is_header(line) {
        Seq::empty()
    } else {
        encode_utf8(upper_of(trim_of(line)))
    }
}

/// The sequence that `lines` spell, line after line.
pub open spec fn sequence_of(lines: Seq<Seq<char>>) -> Seq<u8>
    decreases lines.len(),
{
    if lines.len() == 0 {
        Seq::empty()
    } else {
        sequence_of(lines.drop_last()) + line_bases(lines.last())
    }
}

/// The bases that one line contributes: nothing for a header line, else the
/// line trimmed of whitespace and upper-cased.
pub fn fasta_line_bases(line: &str) -> (r: Vec<u8>)
    ensures
        r@ == line_bases(line@),
{
    let mut out: Vec<u8> = Vec::new();
    if line.unicode_len() > 0 && line.get_char(0) == HEADER_MARK {
        assert(out@ =~= line_bases(line@));
        return out;
    }
    let trimmed = trim_line(line);
    let upper = upper_line(trimmed);
    let bytes = upper.as_str().as_bytes();
    let mut i: usize = 0;
    while i < bytes.len()
        invariant
            i <= bytes@.len(),
            bytes@ == encode_utf8(upper_of(trim_of(line@))),
            out@ == bytes@.subrange(0, i as int),
        decreases bytes@.len() - i,
    {
        out.push(bytes[i]);
        i = i + 1;
        assert(out@ =~= bytes@.subrange(0, i as int));
    }
    assert(bytes@.subrange(0, i as int) =~= bytes@);
    out
}

/// The sequence spelled by the lines of a FASTA text, in order.
pub fn sequence_from_lines(lines: &Vec<String>) -> (r: Vec<u8>)
    ensures
        r@ == sequence_of(lines@.map_values(|l: String| l@)),
{
    let ghost views = lines@.map_values(|l: String| l@);
    let mut seq: Vec<u8> = Vec::new();
    let mut i: usize = 0;
    while i < lines.len()
        invariant
            i <= lines.len(),
            views == lines@.map_values(|l: String| l@),
            seq@ == sequence_of(views.subrange(0, i as int)),
        decreases lines.len() - i,
    {
        let bases = fasta_line_bases(lines[i].as_str());
        let ghost before = seq@;
        let mut j: usize = 0;
        while j < bases.len()
            invariant
                j <= bases.len(),
                seq@ == before + bases@.subrange(0, j as int),
            decreases bases.len() - j,
        {
            seq.push(bases[j]);
            j = j + 1;
            assert(seq@ =~= before + bases@.subrange(0, j as int));
        }
        proof {
            let next = views.subrange(0, i + 1);
            assert(next.drop_last() =~= views.subrange(0, i as int));
            assert(next.last() == lines@[i as int]@);
            assert(bases@.subrange(0, j as int) =~= bases@);
        }
        i = i + 1;
    }
    assert(views.subrange(0, i as int) =~= views);
    seq
}

/// Index at which the last component of `path` starts: just after its last
/// `/`, or 0 where it has none.
pub fn last_component_start(path: &Vec<u8>) -> (r: usize)
    ensures
        r <= path@.len(),
        forall|i: int| r <= i < path@.len() ==> path@[i] != PATH_SEPARATOR,
        r > 0 ==> path@[r - 1] == PATH_SEPARATOR,
{
    let mut r: usize = path.len();
    while r > 0 && path[r - 1] != PATH_SEPARATOR
        invariant
            r <= path@.len(),
            forall|i: int| r <= i < path@.len() ==> path@[i] != PATH_SEPARATOR,
        decreases r,
    {
        r = r - 1;
    }
    r
}

} // verus!
