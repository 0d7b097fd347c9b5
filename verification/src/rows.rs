//! Line rules of the comma-separated tables that the GPU scans read: the
//! standard rotation-curve table and the baryon-component table.

use crate::error::InputError;
use crate::text::{
    chars_of, chars_start_with, count_char, lemma_field_count, split_trimmed, str_eq, string_views,
    trim, trimmed_fields, trimmed_range,
};
use vstd::prelude::*;

verus! {

/// What a rotation-curve line holds: `None` for a line to skip (blank, or the
/// `R_kpc` header on the first line), the trimmed fields otherwise, and an
/// error for a line with fewer than three fields.
pub open spec fn rc_line_outcome(line_index: nat, line: Seq<char>) -> Result<
    Option<Seq<Seq<char>>>,
    nat,
> {
    let t = trim(line);
    if t.len() == 0 {
        Ok(None)
    } else if line_index == 0 && "R_kpc"@.is_prefix_of(t) {
        Ok(None)
    } else if trimmed_fields(t).len() < 3 {
        Err(line_index)
    } else {
        Ok(Some(trimmed_fields(t)))
    }
}

/// What a baryon-component line holds: `None` for a line to skip (blank,
/// a `#` comment, or the `label,` header on the first line), the trimmed
/// fields otherwise, and an error unless there are exactly four fields.
pub open spec fn baryon_line_outcome(line_index: nat, line: Seq<char>) -> Result<
    Option<Seq<Seq<char>>>,
    nat,
> {
    let t = trim(line);
    if t.len() == 0 || "#"@.is_prefix_of(t) {
        Ok(None)
    } else if line_index == 0 && "label,"@.is_prefix_of(t) {
        Ok(None)
    } else if trimmed_fields(t).len() != 4 {
        Err(line_index)
    } else {
        Ok(Some(trimmed_fields(t)))
    }
}

/// Whether `r` is the executable form of `outcome`.
pub open spec fn matches_outcome(
    r: Result<Option<Vec<String>>, InputError>,
    outcome: Result<Option<Seq<Seq<char>>>, nat>,
) -> bool {
    match r {
        Ok(None) => outcome == Ok::<Option<Seq<Seq<char>>>, nat>(None),
        Ok(Some(v)) => outcome == Ok::<Option<Seq<Seq<char>>>, nat>(Some(string_views(v@))),
        Err(e) => match e {
            InputError::BadRow { line_index } => outcome == Err::<
                Option<Seq<Seq<char>>>,
                nat,
            >(line_index as nat),
            _ => false,
        },
    }
}

fn trimmed_line(line: &str) -> (r: (String, Vec<char>))
    ensures
        r.0@ == trim(line@),
        r.1@ == trim(line@),
{
    let chars = chars_of(line);
    let n = chars.len();
    let t = trimmed_range(&chars, 0, n);
    proof {
        assert(chars@.subrange(0, n as int) =~= line@);
    }
    let tc = chars_of(t.as_str());
    (t, tc)
}

/// Reads one line of a standard rotation-curve table.
pub fn rc_line_fields(line_index: usize, line: &str) -> (r: Result<Option<Vec<String>>, InputError>)
    ensures
        matches_outcome(r, rc_line_outcome(line_index as nat, line@)),
        trim(line@).len() == 0 ==> r matches Ok(None),
        line_index == 0 && seq!['R', '_', 'k', 'p', 'c'].is_prefix_of(trim(line@)) ==> r matches Ok(
            None,
        ),
        (trim(line@).len() > 0 && !(line_index == 0 && seq!['R', '_', 'k', 'p', 'c'].is_prefix_of(
            trim(line@),
        ))) ==> {
            &&& r is Err <==> count_char(trim(line@), ',') < 2
            &&& r matches Err(InputError::BadRow { line_index: i }) ==> i == line_index
            &&& r matches Ok(Some(v)) ==> v.len() == count_char(trim(line@), ',') + 1
            &&& !(r matches Ok(None))
        },
{
    proof {
        reveal_strlit("R_kpc");
        assert("R_kpc"@ =~= seq!['R', '_', 'k', 'p', 'c']);
        lemma_field_count(trim(line@), ',');
    }
    let (t, tc) = trimmed_line(line);
    if tc.len() == 0 {
        return Ok(None);
    }
    if line_index == 0 && chars_start_with(&tc, "R_kpc") {
        return Ok(None);
    }
    let parts = split_trimmed(t.as_str());
    if parts.len() < 3 {
        return Err(InputError::BadRow { line_index });
    }
    Ok(Some(parts))
}

/// Reads one line of a baryon-component table.
pub fn baryon_line_fields(line_index: usize, line: &str) -> (r: Result<
    Option<Vec<String>>,
    InputError,
>)
    ensures
        matches_outcome(r, baryon_line_outcome(line_index as nat, line@)),
        trim(line@).len() == 0 || trim(line@)[0] == '#' ==> r matches Ok(None),
        line_index == 0 && seq!['l', 'a', 'b', 'e', 'l', ','].is_prefix_of(trim(line@)) ==> r matches Ok(
            None,
        ),
        (trim(line@).len() > 0 && trim(line@)[0] != '#' && !(line_index == 0 && seq![
            'l',
            'a',
            'b',
            'e',
            'l',
            ',',
        ].is_prefix_of(trim(line@)))) ==> {
            &&& r is Err <==> count_char(trim(line@), ',') != 3
            &&& r matches Err(InputError::BadRow { line_index: i }) ==> i == line_index
            &&& r matches Ok(Some(v)) ==> v.len() == 4
            &&& !(r matches Ok(None))
        },
{
    proof {
        reveal_strlit("label,");
        reveal_strlit("#");
        assert("label,"@ =~= seq!['l', 'a', 'b', 'e', 'l', ',']);
        assert("#"@ =~= seq!['#']);
        let t = trim(line@);
        assert("#"@.is_prefix_of(t) ==> t[0] == "#"@[0]);
        lemma_field_count(trim(line@), ',');
    }
    let (t, tc) = trimmed_line(line);
    if tc.len() == 0 || chars_start_with(&tc, "#") {
        return Ok(None);
    }
    if line_index == 0 && chars_start_with(&tc, "label,") {
        return Ok(None);
    }
    let parts = split_trimmed(t.as_str());
    if parts.len() != 4 {
        return Err(InputError::BadRow { line_index });
    }
    Ok(Some(parts))
}

/// A `#` comment or a blank line of the baryon table is skipped on every
/// line, whatever its index; apart from the header rule of the first line,
/// two lines with the same text are read alike at any two indices, and an
/// error names the index it was given.
pub proof fn lemma_baryon_skip_any_index(i: nat, j: nat, line: Seq<char>)
    ensures
        trim(line).len() == 0 || trim(line)[0] == '#' ==> baryon_line_outcome(i, line) == Ok::<
            Option<Seq<Seq<char>>>,
            nat,
        >(None),
        i > 0 && j > 0 ==> (baryon_line_outcome(i, line) is Ok <==> baryon_line_outcome(j, line) is Ok),
        i > 0 && j > 0 && baryon_line_outcome(i, line) is Ok ==> baryon_line_outcome(i, line)
            == baryon_line_outcome(j, line),
        baryon_line_outcome(i, line) matches Err(k) ==> k == i,
{
    reveal_strlit("#");
    assert("#"@ =~= seq!['#']);
    let t = trim(line);
    if t.len() > 0 && t[0] == '#' {
        assert("#"@.is_prefix_of(t));
    }
}

/// A blank line of the rotation-curve table is skipped on every line; apart
/// from the header rule of the first line, two lines with the same text are
/// read alike at any two indices, and an error names the index it was given.
pub proof fn lemma_rc_skip_any_index(i: nat, j: nat, line: Seq<char>)
    ensures
        trim(line).len() == 0 ==> rc_line_outcome(i, line) == Ok::<Option<Seq<Seq<char>>>, nat>(None),
        i > 0 && j > 0 ==> (rc_line_outcome(i, line) is Ok <==> rc_line_outcome(j, line) is Ok),
        i > 0 && j > 0 && rc_line_outcome(i, line) is Ok ==> rc_line_outcome(i, line)
            == rc_line_outcome(j, line),
        rc_line_outcome(i, line) matches Err(k) ==> k == i,
{
}

/// The two baryonic mass profiles: an exponential disk and a Hernquist
/// bulge.
#[derive(Debug, Clone, Copy, PartialEq, Eq, Structural)]
pub enum BaryonKind {
    ExponentialDisk,
    HernquistBulge,
}

/// The profile that a component kind names: `disk`, `exponential_disk` or
/// `exponential-disk`; `bulge`, `hernquist`, `hernquist_bulge` or
/// `hernquist-bulge`.
pub open spec fn baryon_kind_of(kind: Seq<char>) -> Option<BaryonKind> {
    if kind == "disk"@ || kind == "exponential_disk"@ || kind == "exponential-disk"@ {
        Some(BaryonKind::ExponentialDisk)
    } else if kind == "bulge"@ || kind == "hernquist"@ || kind == "hernquist_bulge"@ || kind
        == "hernquist-bulge"@ {
        Some(BaryonKind::HernquistBulge)
    } else {
        None
    }
}

/// The disk names spelled out: `disk`, `exponential_disk`, `exponential-disk`.
pub open spec fn names_disk(s: Seq<char>) -> bool {
    s == seq!['d', 'i', 's', 'k'] || s == seq![
        'e', 'x', 'p', 'o', 'n', 'e', 'n', 't', 'i', 'a', 'l', '_', 'd', 'i', 's', 'k'
    ] || s == seq!['e', 'x', 'p', 'o', 'n', 'e', 'n', 't', 'i', 'a', 'l', '-', 'd', 'i', 's', 'k']
}

/// The bulge names spelled out: `bulge`, `hernquist`, `hernquist_bulge`,
/// `hernquist-bulge`.
pub open spec fn names_bulge(s: Seq<char>) -> bool {
    s == seq!['b', 'u', 'l', 'g', 'e'] || s == seq!['h', 'e', 'r', 'n', 'q', 'u', 'i', 's', 't']
        || s == seq!['h', 'e', 'r', 'n', 'q', 'u', 'i', 's', 't', '_', 'b', 'u', 'l', 'g', 'e']
        || s == seq!['h', 'e', 'r', 'n', 'q', 'u', 'i', 's', 't', '-', 'b', 'u', 'l', 'g', 'e']
}

/// The kind column reads as the spelled-out name lists say.
pub proof fn lemma_baryon_kind_plain(s: Seq<char>)
    ensures
        baryon_kind_of(s) == Some(BaryonKind::ExponentialDisk) <==> names_disk(s),
        baryon_kind_of(s) == Some(BaryonKind::HernquistBulge) <==> names_bulge(s),
        baryon_kind_of(s) is None <==> (!names_disk(s) && !names_bulge(s)),
{
    reveal_strlit("disk");
    reveal_strlit("exponential_disk");
    reveal_strlit("exponential-disk");
    reveal_strlit("bulge");
    reveal_strlit("hernquist");
    reveal_strlit("hernquist_bulge");
    reveal_strlit("hernquist-bulge");
    assert("disk"@ =~= seq!['d', 'i', 's', 'k']);
    assert("exponential_disk"@ =~= seq![
        'e', 'x', 'p', 'o', 'n', 'e', 'n', 't', 'i', 'a', 'l', '_', 'd', 'i', 's', 'k'
    ]);
    assert("exponential-disk"@ =~= seq![
        'e', 'x', 'p', 'o', 'n', 'e', 'n', 't', 'i', 'a', 'l', '-', 'd', 'i', 's', 'k'
    ]);
    assert("bulge"@ =~= seq!['b', 'u', 'l', 'g', 'e']);
    assert("hernquist"@ =~= seq!['h', 'e', 'r', 'n', 'q', 'u', 'i', 's', 't']);
    assert("hernquist_bulge"@ =~= seq![
        'h', 'e', 'r', 'n', 'q', 'u', 'i', 's', 't', '_', 'b', 'u', 'l', 'g', 'e'
    ]);
    assert("hernquist-bulge"@ =~= seq![
        'h', 'e', 'r', 'n', 'q', 'u', 'i', 's', 't', '-', 'b', 'u', 'l', 'g', 'e'
    ]);
    if names_disk(s) && names_bulge(s) {
        assert(s[0] == 'd' || s[0] == 'e');
        assert(s[0] == 'b' || s[0] == 'h');
    }
}

/// Reads the kind column of a baryon component.
pub fn baryon_kind(kind: &str) -> (r: Option<BaryonKind>)
    ensures
        r == baryon_kind_of(kind@),
        r == Some(BaryonKind::ExponentialDisk) <==> names_disk(kind@),
        r == Some(BaryonKind::HernquistBulge) <==> names_bulge(kind@),
{
    proof {
        lemma_baryon_kind_plain(kind@);
    }
    if str_eq(kind, "disk") || str_eq(kind, "exponential_disk") || str_eq(kind, "exponential-disk") {
        Some(BaryonKind::ExponentialDisk)
    } else if str_eq(kind, "bulge") || str_eq(kind, "hernquist") || str_eq(kind, "hernquist_bulge")
        || str_eq(kind, "hernquist-bulge") {
        Some(BaryonKind::HernquistBulge)
    } else {
        None
    }
}

} // verus!
