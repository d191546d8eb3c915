//! External symbol inventory decoding: the compact text format a
//! third-party documentation toolchain produces to enumerate a
//! documentation set's addressable symbols. A file opens with a fixed
//! signature line and metadata lines, followed by one compressed block of
//! newline-separated records `<name> <domain>:<role> <priority> <location>
//! <display>`; a `$` closing the location stands for the name, and a
//! display of exactly `-` means the name itself is displayed.

use vstd::prelude::*;
use vstd::string::*;
use crate::docstring::{line_views, split_into_lines, split_lines};
use crate::index::{assoc_overwrite, Index};
use crate::object_ref::chars_range_to_string;
use crate::paths::scan_to_char;
use crate::text::{range_eq_str, str_to_chars};

verus! {

/// The language-domain category of one inventory entry. Only the source
/// language's own symbols and documentation pages are imported; labels and
/// foreign domains are dropped during import.
#[derive(Clone, Copy, Debug, PartialEq, Eq, Structural)]
pub enum InventoryKind {
    PythonModule,
    PythonClass,
    PythonFunction,
    PythonMethod,
    PythonAttribute,
    PythonData,
    PythonException,
    PythonProperty,
    PythonOther,
    DocumentPage,
    Label,
    Foreign,
}

/// One record of an inventory file.
#[derive(Debug, PartialEq, Eq)]
pub struct ExternalInventoryEntry {
    pub name: String,
    pub display_name: String,
    pub kind: InventoryKind,
    pub location: String,
}

/// The mathematical value of an inventory entry.
pub ghost struct InventoryEntryView {
    pub name: Seq<char>,
    pub display_name: Seq<char>,
    pub kind: InventoryKind,
    pub location: Seq<char>,
}

impl View for ExternalInventoryEntry {
    type V = InventoryEntryView;

    open spec fn view(&self) -> InventoryEntryView {
        InventoryEntryView {
            name: self.name@,
            display_name: self.display_name@,
            kind: self.kind,
            location: self.location@,
        }
    }
}

/// An inventory file that cannot be decoded; the format has no concept of
/// partial success, so any failure is fatal for the whole file.
#[derive(Debug, PartialEq, Eq, Structural)]
pub enum InventoryError {
    /// The file does not begin with the expected signature line.
    MissingSignature,
    /// The compressed block does not inflate to text.
    CompressedBlock,
    /// A record line does not have the expected shape.
    MalformedRecord,
}

/// The category encoded by a `domain:role` tag.
pub open spec fn spec_kind_of(domain: Seq<char>, role: Seq<char>) -> InventoryKind {
    if domain == "py"@ {
        if role == "module"@ {
            InventoryKind::PythonModule
        } else if role == "class"@ {
            InventoryKind::PythonClass
        } else if role == "function"@ {
            InventoryKind::PythonFunction
        } else if role == "method"@ {
            InventoryKind::PythonMethod
        } else if role == "attribute"@ {
            InventoryKind::PythonAttribute
        } else if role == "data"@ {
            InventoryKind::PythonData
        } else if role == "exception"@ {
            InventoryKind::PythonException
        } else if role == "property"@ {
            InventoryKind::PythonProperty
        } else {
            InventoryKind::PythonOther
        }
    } else if domain == "std"@ && role == "doc"@ {
        InventoryKind::DocumentPage
    } else if domain == "std"@ && role == "label"@ {
        InventoryKind::Label
    } else {
        InventoryKind::Foreign
    }
}

/// The categories the external mapping imports: the source language's own
/// symbols and documentation pages.
pub open spec fn kind_allowed(k: InventoryKind) -> bool {
    match k {
        InventoryKind::PythonModule => true,
        InventoryKind::PythonClass => true,
        InventoryKind::PythonFunction => true,
        InventoryKind::PythonMethod => true,
        InventoryKind::PythonAttribute => true,
        InventoryKind::PythonData => true,
        InventoryKind::PythonException => true,
        InventoryKind::PythonProperty => true,
        InventoryKind::PythonOther => true,
        InventoryKind::DocumentPage => true,
        InventoryKind::Label => false,
        InventoryKind::Foreign => false,
    }
}

/// The entry's category is in the import allow-list.
pub fn is_imported_kind(k: InventoryKind) -> (r: bool)
    ensures
        r == kind_allowed(k),
{
    match k {
        InventoryKind::Label => false,
        InventoryKind::Foreign => false,
        _ => true,
    }
}

/// The record parsed from one line, or nothing where the line does not
/// have the five-field shape.
pub open spec fn spec_parse_record(line: Seq<char>) -> Option<InventoryEntryView> {
    let ne = scan_to_char(line, 0, ' ');
    if ne <= 0 || ne >= line.len() {
        None
    } else {
        let te = scan_to_char(line, ne + 1, ' ');
        let colon = scan_to_char(line, ne + 1, ':');
        if te >= line.len() || colon >= te {
            None
        } else {
            let pe = scan_to_char(line, te + 1, ' ');
            if pe >= line.len() {
                None
            } else {
                let le = scan_to_char(line, pe + 1, ' ');
                if le >= line.len() {
                    None
                } else {
                    let name = line.subrange(0, ne);
                    let domain = line.subrange(ne + 1, colon);
                    let role = line.subrange(colon + 1, te);
                    let loc_raw = line.subrange(pe + 1, le);
                    let disp_raw = line.subrange(le + 1, line.len() as int);
                    let location = if loc_raw.len() > 0 && loc_raw.last() == '$' {
                        loc_raw.drop_last() + name
                    } else {
                        loc_raw
                    };
                    let display = if disp_raw == seq!['-'] {
                        name
                    } else {
                        disp_raw
                    };
                    Some(
                        InventoryEntryView {
                            name,
                            display_name: display,
                            kind: spec_kind_of(domain, role),
                            location,
                        },
                    )
                }
            }
        }
    }
}

/// The records of the decompressed block's lines, in order; empty lines
/// are skipped, and one malformed line is fatal.
pub open spec fn spec_parse_lines(ls: Seq<Seq<char>>) -> Result<
    Seq<InventoryEntryView>,
    InventoryError,
>
    decreases ls.len(),
{
    if ls.len() == 0 {
        Ok(Seq::empty())
    } else {
        match spec_parse_lines(ls.drop_last()) {
            Err(e) => Err(e),
            Ok(rest) => if ls.last().len() == 0 {
                Ok(rest)
            } else {
                match spec_parse_record(ls.last()) {
                    None => Err(InventoryError::MalformedRecord),
                    Some(entry) => Ok(rest.push(entry)),
                }
            },
        }
    }
}

/// The records of the whole decompressed block.
pub open spec fn spec_parse_records(text: Seq<char>) -> Result<
    Seq<InventoryEntryView>,
    InventoryError,
> {
    spec_parse_lines(split_lines(text))
}

/// The index of the first occurrence of byte `b` at or after `p`, or the
/// length.
pub open spec fn scan_to_byte(s: Seq<u8>, p: int, b: u8) -> int
    recommends
        0 <= p <= s.len(),
    decreases s.len() - p,
{
    if p >= s.len() {
        s.len() as int
    } else if s[p] == b {
        p
    } else {
        scan_to_byte(s, p + 1, b)
    }
}

pub proof fn lemma_scan_to_byte_bounds(s: Seq<u8>, p: int, b: u8)
    requires
        0 <= p <= s.len(),
    ensures
        p <= scan_to_byte(s, p, b) <= s.len(),
    decreases s.len() - p,
{
    if p < s.len() && s[p] != b {
        lemma_scan_to_byte_bounds(s, p + 1, b);
    }
}

/// The signature line that identifies the format and version.
pub open spec fn sig_bytes() -> Seq<u8> {
    seq![
        '#' as u8,
        ' ' as u8,
        'S' as u8,
        'p' as u8,
        'h' as u8,
        'i' as u8,
        'n' as u8,
        'x' as u8,
        ' ' as u8,
        'i' as u8,
        'n' as u8,
        'v' as u8,
        'e' as u8,
        'n' as u8,
        't' as u8,
        'o' as u8,
        'r' as u8,
        'y' as u8,
        ' ' as u8,
        'v' as u8,
        'e' as u8,
        'r' as u8,
        's' as u8,
        'i' as u8,
        'o' as u8,
        'n' as u8,
        ' ' as u8,
        '2' as u8,
    ]
}

/// The file opens with the signature line.
pub open spec fn spec_header_ok(bytes: Seq<u8>) -> bool {
    bytes.subrange(0, scan_to_byte(bytes, 0, '\n' as u8)) == sig_bytes()
}

/// The position where the compressed block begins: past every leading line
/// that opens with `#`.
pub open spec fn meta_end_from(bytes: Seq<u8>, p: int) -> int
    recommends
        0 <= p <= bytes.len(),
    decreases bytes.len() - p,
    via meta_end_from_decreases
{
    if p < 0 || p >= bytes.len() {
        bytes.len() as int
    } else if bytes[p] == '#' as u8 {
        let e = scan_to_byte(bytes, p, '\n' as u8);
        if e >= bytes.len() {
            bytes.len() as int
        } else {
            meta_end_from(bytes, e + 1)
        }
    } else {
        p
    }
}

#[via_fn]
proof fn meta_end_from_decreases(bytes: Seq<u8>, p: int) {
    if 0 <= p && p < bytes.len() && bytes[p] == '#' as u8 {
        lemma_scan_to_byte_bounds(bytes, p, '\n' as u8);
    }
}

/// The decoded records of one inventory file: nothing unless the file
/// opens with the signature line; then the compressed block must inflate
/// to text whose every non-empty line is a well-formed record.
pub open spec fn spec_decode_inventory(bytes: Seq<u8>) -> Result<
    Seq<InventoryEntryView>,
    InventoryError,
> {
    if !spec_header_ok(bytes) {
        Err(InventoryError::MissingSignature)
    } else {
        match zlib_inflated_text(bytes.subrange(meta_end_from(bytes, 0), bytes.len() as int)) {
            None => Err(InventoryError::CompressedBlock),
            Some(text) => spec_parse_records(text),
        }
    }
}

/// The text an inventory data block inflates to, where it is valid zlib
/// data inflating to valid text.
pub uninterp spec fn zlib_inflated_text(bytes: Seq<u8>) -> Option<Seq<char>>;

/// Relies on `flate2::read::ZlibDecoder` to inflate the block and on
/// `String::from_utf8` to hand the result back as text: both are functions
/// of the bytes alone, and either failing yields nothing.
#[verifier::external_body]
fn inflate_to_text(bytes: &Vec<u8>) -> (r: Option<String>)
    ensures
        match r {
            Some(s) => zlib_inflated_text(bytes@) == Some(s@),
            None => zlib_inflated_text(bytes@) is None,
        },
{
    let mut decoder = flate2::read::ZlibDecoder::new(bytes.as_slice());
    let mut out: Vec<u8> = Vec::new();
    match std::io::Read::read_to_end(&mut decoder, &mut out) {
        Ok(_) => String::from_utf8(out).ok(),
        Err(_) => None,
    }
}

/// The first occurrence of byte `b` in `v` at or after `p`, or the length.
fn find_byte_from(v: &Vec<u8>, p: usize, b: u8) -> (r: usize)
    requires
        p <= v@.len(),
    ensures
        r == scan_to_byte(v@, p as int, b),
        p <= r <= v@.len(),
{
    let mut j = p;
    while j < v.len() && v[j] != b
        invariant
            p <= j <= v@.len(),
            scan_to_byte(v@, p as int, b) == scan_to_byte(v@, j as int, b),
        decreases v@.len() - j,
    {
        j = j + 1;
    }
    j
}

/// The signature line, as bytes.
fn signature_vec() -> (r: Vec<u8>)
    ensures
        r@ == sig_bytes(),
{
    let mut r: Vec<u8> = Vec::new();
    r.push('#' as u8);
    r.push(' ' as u8);
    r.push('S' as u8);
    r.push('p' as u8);
    r.push('h' as u8);
    r.push('i' as u8);
    r.push('n' as u8);
    r.push('x' as u8);
    r.push(' ' as u8);
    r.push('i' as u8);
    r.push('n' as u8);
    r.push('v' as u8);
    r.push('e' as u8);
    r.push('n' as u8);
    r.push('t' as u8);
    r.push('o' as u8);
    r.push('r' as u8);
    r.push('y' as u8);
    r.push(' ' as u8);
    r.push('v' as u8);
    r.push('e' as u8);
    r.push('r' as u8);
    r.push('s' as u8);
    r.push('i' as u8);
    r.push('o' as u8);
    r.push('n' as u8);
    r.push(' ' as u8);
    r.push('2' as u8);
    proof {
        assert(r@ =~= sig_bytes());
    }
    r
}

/// The bytes of `v` between `lo` and `hi` equal `w`.
fn byte_range_eq(v: &Vec<u8>, lo: usize, hi: usize, w: &Vec<u8>) -> (r: bool)
    requires
        lo <= hi <= v@.len(),
    ensures
        r == (v@.subrange(lo as int, hi as int) == w@),
{
    if hi - lo != w.len() {
        return false;
    }
    let mut i: usize = 0;
    while i < w.len()
        invariant
            i <= w@.len(),
            w@.len() == hi - lo,
            lo <= hi <= v@.len(),
            forall|k: int| 0 <= k < i ==> v@[lo + k] == w@[k],
        decreases w@.len() - i,
    {
        if v[lo + i] != w[i] {
            return false;
        }
        i = i + 1;
    }
    proof {
        assert(v@.subrange(lo as int, hi as int) =~= w@);
    }
    true
}

/// The classification of the `domain:role` tag held in `v` at the given
/// ranges.
fn classify_kind(v: &Vec<char>, dlo: usize, dhi: usize, rlo: usize, rhi: usize) -> (r:
    InventoryKind)
    requires
        dlo <= dhi <= v@.len(),
        rlo <= rhi <= v@.len(),
    ensures
        r == spec_kind_of(v@.subrange(dlo as int, dhi as int), v@.subrange(rlo as int, rhi as int)),
{
    if range_eq_str(v, dlo, dhi, "py") {
        if range_eq_str(v, rlo, rhi, "module") {
            InventoryKind::PythonModule
        } else if range_eq_str(v, rlo, rhi, "class") {
            InventoryKind::PythonClass
        } else if range_eq_str(v, rlo, rhi, "function") {
            InventoryKind::PythonFunction
        } else if range_eq_str(v, rlo, rhi, "method") {
            InventoryKind::PythonMethod
        } else if range_eq_str(v, rlo, rhi, "attribute") {
            InventoryKind::PythonAttribute
        } else if range_eq_str(v, rlo, rhi, "data") {
            InventoryKind::PythonData
        } else if range_eq_str(v, rlo, rhi, "exception") {
            InventoryKind::PythonException
        } else if range_eq_str(v, rlo, rhi, "property") {
            InventoryKind::PythonProperty
        } else {
            InventoryKind::PythonOther
        }
    } else if range_eq_str(v, dlo, dhi, "std") && range_eq_str(v, rlo, rhi, "doc") {
        InventoryKind::DocumentPage
    } else if range_eq_str(v, dlo, dhi, "std") && range_eq_str(v, rlo, rhi, "label") {
        InventoryKind::Label
    } else {
        InventoryKind::Foreign
    }
}

/// Parses one record line.
fn parse_record_line(line: &Vec<char>) -> (r: Option<ExternalInventoryEntry>)
    ensures
        match r {
            Some(e) => spec_parse_record(line@) == Some(e@),
            None => spec_parse_record(line@) is None,
        },
{
    let n = line.len();
    let ne = crate::paths::find_char_from(line, 0, ' ');
    if ne == 0 || ne >= n {
        return None;
    }
    let te = crate::paths::find_char_from(line, ne + 1, ' ');
    let colon = crate::paths::find_char_from(line, ne + 1, ':');
    if te >= n || colon >= te {
        return None;
    }
    let pe = crate::paths::find_char_from(line, te + 1, ' ');
    if pe >= n {
        return None;
    }
    let le = crate::paths::find_char_from(line, pe + 1, ' ');
    if le >= n {
        return None;
    }
    let name = chars_range_to_string(line, 0, ne);
    let kind = classify_kind(line, ne + 1, colon, colon + 1, te);
    let loc_ends_dollar = le > pe + 1 && line[le - 1] == '$';
    let location = if loc_ends_dollar {
        let mut l = chars_range_to_string(line, pe + 1, le - 1);
        l.append(name.as_str());
        proof {
            assert(line@.subrange(pe + 1, le as int).drop_last() =~= line@.subrange(
                pe + 1,
                le - 1,
            ));
        }
        l
    } else {
        chars_range_to_string(line, pe + 1, le)
    };
    let display_is_dash = le + 1 < n && le + 2 == n && line[le + 1] == '-';
    let display_name = if display_is_dash {
        proof {
            assert(line@.subrange(le + 1, n as int) =~= seq!['-']);
        }
        name.clone()
    } else {
        proof {
            if line@.subrange(le + 1, n as int) == seq!['-'] {
                assert(line@.subrange(le + 1, n as int).len() == 1);
                assert(le + 2 == n);
                assert(line@.subrange(le + 1, n as int)[0] == line@[le + 1]);
                assert(false);
            }
        }
        chars_range_to_string(line, le + 1, n)
    };
    Some(ExternalInventoryEntry { name, display_name, kind, location })
}

/// The views of decoded entries.
pub open spec fn inventory_entry_views(es: Seq<ExternalInventoryEntry>) -> Seq<
    InventoryEntryView,
> {
    es.map_values(|e: ExternalInventoryEntry| e@)
}

/// Parses the decompressed record block.
fn parse_records(text: &str) -> (r: Result<Vec<ExternalInventoryEntry>, InventoryError>)
    ensures
        match r {
            Ok(es) => spec_parse_records(text@) == Ok::<_, InventoryError>(
                inventory_entry_views(es@),
            ),
            Err(e) => spec_parse_records(text@) == Err::<Seq<InventoryEntryView>, _>(e),
        },
{
    let v = str_to_chars(text);
    let lines = split_into_lines(&v);
    let ghost lviews = split_lines(text@);
    let mut es: Vec<ExternalInventoryEntry> = Vec::new();
    proof {
        assert(lviews.take(0) =~= Seq::<Seq<char>>::empty());
        assert(inventory_entry_views(es@) =~= Seq::<InventoryEntryView>::empty());
    }
    let mut i: usize = 0;
    while i < lines.len()
        invariant
            i <= lines@.len(),
            line_views(lines@) == lviews,
            lviews == split_lines(text@),
            spec_parse_lines(lviews.take(i as int)) == Ok::<_, InventoryError>(
                inventory_entry_views(es@),
            ),
        decreases lines@.len() - i,
    {
        proof {
            assert(line_views(lines@)[i as int] == lines@[i as int]@);
            assert(lviews.take(i as int + 1).drop_last() =~= lviews.take(i as int));
            assert(lviews.take(i as int + 1).last() == lviews[i as int]);
        }
        let line = &lines[i];
        if line.len() > 0 {
            match parse_record_line(line) {
                Some(entry) => {
                    let ghost old_views = inventory_entry_views(es@);
                    es.push(entry);
                    proof {
                        assert(inventory_entry_views(es@) =~= old_views.push(
                            es@.last()@,
                        ));
                    }
                },
                None => {
                    proof {
                        assert(spec_parse_lines(lviews.take(i as int + 1)) == Err::<
                            Seq<InventoryEntryView>,
                            _,
                        >(InventoryError::MalformedRecord));
                        crate::inventory::lemma_parse_lines_err_persists(
                            lviews,
                            i as int + 1,
                        );
                    }
                    return Err(InventoryError::MalformedRecord);
                },
            }
        }
        i = i + 1;
    }
    proof {
        assert(lviews.take(lviews.len() as int) =~= lviews);
    }
    Ok(es)
}

/// Once a prefix of the lines is malformed, the whole file is.
pub proof fn lemma_parse_lines_err_persists(ls: Seq<Seq<char>>, n: int)
    requires
        0 <= n <= ls.len(),
        spec_parse_lines(ls.take(n)) is Err,
    ensures
        spec_parse_lines(ls) is Err,
        spec_parse_lines(ls) == spec_parse_lines(ls.take(n)),
    decreases ls.len() - n,
{
    if n < ls.len() {
        assert(ls.take(n + 1).drop_last() =~= ls.take(n));
        lemma_parse_lines_err_persists(ls, n + 1);
    } else {
        assert(ls.take(n) =~= ls);
    }
}

/// Decodes one inventory file: checks the signature line, skips the
/// metadata lines, inflates the compressed block and parses its records.
pub fn decode_inventory(bytes: &Vec<u8>) -> (r: Result<
    Vec<ExternalInventoryEntry>,
    InventoryError,
>)
    ensures
        match r {
            Ok(es) => spec_decode_inventory(bytes@) == Ok::<_, InventoryError>(
                inventory_entry_views(es@),
            ),
            Err(e) => spec_decode_inventory(bytes@) == Err::<Seq<InventoryEntryView>, _>(e),
        },
{
    let e0 = find_byte_from(bytes, 0, '\n' as u8);
    let sig = signature_vec();
    if !byte_range_eq(bytes, 0, e0, &sig) {
        return Err(InventoryError::MissingSignature);
    }
    let mut p: usize = 0;
    while p < bytes.len() && bytes[p] == '#' as u8
        invariant
            p <= bytes@.len(),
            meta_end_from(bytes@, 0) == meta_end_from(bytes@, p as int),
        decreases bytes@.len() - p,
    {
        let e = find_byte_from(bytes, p, '\n' as u8);
        if e >= bytes.len() {
            p = bytes.len();
        } else {
            p = e + 1;
        }
    }
    proof {
        assert(meta_end_from(bytes@, 0) == p as int);
    }
    let mut tail: Vec<u8> = Vec::new();
    let mut q = p;
    while q < bytes.len()
        invariant
            p <= q <= bytes@.len(),
            tail@ == bytes@.subrange(p as int, q as int),
        decreases bytes@.len() - q,
    {
        tail.push(bytes[q]);
        q = q + 1;
        assert(tail@ =~= bytes@.subrange(p as int, q as int));
    }
    proof {
        assert(tail@ =~= bytes@.subrange(p as int, bytes@.len() as int));
    }
    match inflate_to_text(&tail) {
        None => Err(InventoryError::CompressedBlock),
        Some(text) => parse_records(text.as_str()),
    }
}

/// The external mapping after importing the entries: every entry whose
/// category is in the allow-list binds its name to the base URL joined
/// with its location, later entries overwriting earlier ones.
pub open spec fn spec_import_entries(
    ev: Seq<(Seq<char>, Seq<char>)>,
    base: Seq<char>,
    es: Seq<InventoryEntryView>,
) -> Seq<(Seq<char>, Seq<char>)>
    decreases es.len(),
{
    if es.len() == 0 {
        ev
    } else {
        let prev = spec_import_entries(ev, base, es.drop_last());
        if kind_allowed(es.last().kind) {
            assoc_overwrite(prev, es.last().name, spec_joined_url(base, es.last().location))
        } else {
            prev
        }
    }
}

/// The absolute URL of an entry: the base URL and the relative location,
/// joined with a single slash.
pub open spec fn spec_joined_url(base: Seq<char>, loc: Seq<char>) -> Seq<char> {
    if base.len() > 0 && base.last() == '/' {
        base + loc
    } else {
        base + seq!['/'] + loc
    }
}

/// Builds the absolute URL of an entry.
fn joined_url(base: &str, loc: &str) -> (r: String)
    ensures
        r@ == spec_joined_url(base@, loc@),
{
    let mut out = String::from_str(base);
    let n = base.unicode_len();
    let ends_slash = n > 0 && base.get_char(n - 1) == '/';
    if !ends_slash {
        out.push('/');
    }
    out.append(loc);
    proof {
        assert(out@ =~= spec_joined_url(base@, loc@));
    }
    out
}

/// Imports decoded inventory entries into the index's external mapping:
/// entries outside the allow-list are dropped, the rest bind their name to
/// their absolute URL, later entries overwriting earlier ones.
pub fn import_inventory(index: &mut Index, base_url: &str, entries: &Vec<ExternalInventoryEntry>)
    requires
        old(index).wf(),
    ensures
        final(index).wf(),
        final(index).external_view() == spec_import_entries(
            old(index).external_view(),
            base_url@,
            inventory_entry_views(entries@),
        ),
        final(index).internal_view() == old(index).internal_view(),
        final(index).pkg_name == old(index).pkg_name,
        final(index).skip_undoc == old(index).skip_undoc,
        final(index).skip_private == old(index).skip_private,
        final(index).pkg_root == old(index).pkg_root,
{
    let ghost evs = inventory_entry_views(entries@);
    let mut i: usize = 0;
    while i < entries.len()
        invariant
            i <= entries@.len(),
            evs == inventory_entry_views(entries@),
            index.wf(),
            index.external_view() == spec_import_entries(
                old(index).external_view(),
                base_url@,
                evs.take(i as int),
            ),
            index.internal_view() == old(index).internal_view(),
            index.pkg_name == old(index).pkg_name,
            index.skip_undoc == old(index).skip_undoc,
            index.skip_private == old(index).skip_private,
            index.pkg_root == old(index).pkg_root,
        decreases entries@.len() - i,
    {
        proof {
            assert(evs[i as int] == entries@[i as int]@);
            assert(evs.take(i as int + 1).drop_last() =~= evs.take(i as int));
            assert(evs.take(i as int + 1).last() == evs[i as int]);
        }
        let e = &entries[i];
        if is_imported_kind(e.kind) {
            let url = joined_url(base_url, e.location.as_str());
            index.insert_external(e.name.clone(), url);
        }
        i = i + 1;
    }
    proof {
        assert(evs.take(evs.len() as int) =~= evs);
    }
}

} // verus!
