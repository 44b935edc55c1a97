//! The storage backends under comparison, and the encoding hint each
//! one requests.
//!
//! A backend either asks its engine for a specific per-column
//! compression strategy through string metadata on the schema, or
//! passes no hint and lets the engine choose.  Selecting the hint is
//! the library's decision and is verified here; attaching the metadata
//! to an engine's native schema is plumbing left to the caller.

use vstd::prelude::*;

verus! {

/// One concrete storage/encoding engine configuration, in report
/// column order.  The first two share an engine and differ only in the
/// requested hint; the third is the reference format with its own
/// adaptive encoding selection.
#[derive(Clone, Copy, Debug, PartialEq, Eq, Structural)]
pub enum BackendKind {
    /// The columnar engine asked to bit-pack every column.
    LanceBitpacking,
    /// The columnar engine asked to run-length encode every column.
    LanceRle,
    /// The reference format choosing its own per-column encodings.
    Parquet,
}

/// The metadata key a compression hint is attached under.
pub open spec fn spec_hint_key() -> Seq<char> {
    "compression"@
}

/// The hint value a backend attaches to every column; `None` requests
/// the engine's default.
pub open spec fn spec_encoding_hint(kind: BackendKind) -> Option<Seq<char>> {
    match kind {
        BackendKind::LanceBitpacking => Some("bitpacking"@),
        BackendKind::LanceRle => Some("rle"@),
        BackendKind::Parquet => None,
    }
}

/// The metadata key a compression hint is attached under.
pub fn hint_key() -> (r: &'static str)
    ensures
        r@ == spec_hint_key(),
{
    "compression"
}

/// The hint value `kind` attaches to every column, if any.
pub fn encoding_hint(kind: BackendKind) -> (r: Option<&'static str>)
    ensures
        match r {
            Some(s) => spec_encoding_hint(kind) == Some(s@),
            None => spec_encoding_hint(kind) is None,
        },
{
    match kind {
        BackendKind::LanceBitpacking => Some("bitpacking"),
        BackendKind::LanceRle => Some("rle"),
        BackendKind::Parquet => None,
    }
}

/// The schema a backend writes: every field name paired with the
/// backend's hint value (the same for every column, or none).
pub fn hinted_fields(names: &Vec<String>, kind: BackendKind) -> (r: Vec<(String, Option<String>)>)
    ensures
        r@.len() == names@.len(),
        forall|i: int| 0 <= i < r@.len() ==> (#[trigger] r@[i].0)@ == names@[i]@,
        forall|i: int|
            0 <= i < r@.len() ==> match #[trigger] r@[i].1 {
                Some(s) => spec_encoding_hint(kind) == Some(s@),
                None => spec_encoding_hint(kind) is None,
            },
{
    let mut out: Vec<(String, Option<String>)> = Vec::new();
    let mut i: usize = 0;
    while i < names.len()
        invariant
            i <= names@.len(),
            out@.len() == i,
            forall|q: int| 0 <= q < i ==> (#[trigger] out@[q].0)@ == names@[q]@,
            forall|q: int|
                0 <= q < i ==> match #[trigger] out@[q].1 {
                    Some(s) => spec_encoding_hint(kind) == Some(s@),
                    None => spec_encoding_hint(kind) is None,
                },
        decreases names@.len() - i,
    {
        let hint: Option<String> = match encoding_hint(kind) {
            Some(s) => Some(String::from_str(s)),
            None => None,
        };
        out.push((names[i].clone(), hint));
        i = i + 1;
    }
    out
}

} // verus!
