//! Plug and Play device properties: the byte buffers that SetupAPI returns
//! decoded into names, identifier lists and GUIDs, and the keyboard metadata
//! assembled from them.
use vstd::prelude::*;
use crate::digits::{hex_padded, push_hex};
use crate::text::{is_blank, lower, str_is_blank, to_lower, trim, trimmed};

verus! {

/// `DEVPROP_TYPE_GUID`.
pub const DEVPROP_TYPE_GUID: u32 = 13;

/// `DEVPROP_TYPE_STRING`.
pub const DEVPROP_TYPE_STRING: u32 = 18;

/// `DEVPROP_TYPE_STRING_INDIRECT`.
pub const DEVPROP_TYPE_STRING_INDIRECT: u32 = 25;

/// `DEVPROP_TYPE_STRING_LIST` (`DEVPROP_TYPEMOD_LIST | DEVPROP_TYPE_STRING`).
pub const DEVPROP_TYPE_STRING_LIST: u32 = 8210;

/// What SetupAPI reports of one keyboard interface.
#[derive(Debug, Clone, Default, PartialEq, Eq)]
pub struct PnpKeyboardMetadata {
    pub display_name: Option<String>,
    pub manufacturer: Option<String>,
    pub instance_id: Option<String>,
    pub container_id: Option<String>,
    pub hardware_ids: Vec<String>,
    pub location_paths: Vec<String>,
}

/// Interface paths are compared without regard to ASCII case.
pub fn normalize_device_path(path: &str) -> (r: String)
    ensures
        r@ == lower(path@),
{
    to_lower(path)
}

/// The first candidate that holds a name that is not blank, as it was
/// written (`None` if there is none).
pub open spec fn first_named(candidates: Seq<Option<Seq<char>>>, i: int) -> Option<Seq<char>>
    decreases candidates.len() - i,
{
    if i < 0 || i >= candidates.len() {
        None
    } else {
        match candidates[i] {
            Some(name) => if !is_blank(name) {
                Some(name)
            } else {
                first_named(candidates, i + 1)
            },
            None => first_named(candidates, i + 1),
        }
    }
}

pub open spec fn opt_text(o: Option<String>) -> Option<Seq<char>> {
    match o {
        Some(s) => Some(s@),
        None => None,
    }
}

pub open spec fn opt_texts(v: Seq<Option<String>>) -> Seq<Option<Seq<char>>> {
    v.map_values(|o: Option<String>| opt_text(o))
}

/// The display name of a device: the first of the candidates, in the order
/// given (bus-reported name, friendly name, description), that is not blank.
pub fn preferred_display_name(candidates: &[Option<String>]) -> (r: Option<String>)
    ensures
        opt_text(r) == first_named(opt_texts(candidates@), 0),
{
    let ghost all = opt_texts(candidates@);
    let n = candidates.len();
    let mut i: usize = 0;
    while i < n
        invariant
            n == candidates@.len(),
            all == opt_texts(candidates@),
            i <= n,
            first_named(all, 0) == first_named(all, i as int),
        decreases n - i,
    {
        match &candidates[i] {
            Some(name) => {
                if !str_is_blank(name.as_str()) {
                    return Some(name.clone());
                }
            },
            None => {},
        }
        i = i + 1;
    }
    None
}

/// A high (leading) surrogate code unit.
pub open spec fn is_high_surrogate(u: u16) -> bool {
    0xD800 <= u <= 0xDBFF
}

/// A low (trailing) surrogate code unit.
pub open spec fn is_low_surrogate(u: u16) -> bool {
    0xDC00 <= u <= 0xDFFF
}

/// UTF-16 decoding in which each unpaired surrogate becomes U+FFFD.
pub open spec fn utf16_decode_lossy(u: Seq<u16>) -> Seq<char>
    decreases u.len(),
{
    if u.len() == 0 {
        Seq::empty()
    } else if is_high_surrogate(u[0]) && u.len() >= 2 && is_low_surrogate(u[1]) {
        seq![(0x10000 + (u[0] - 0xD800) * 0x400 + (u[1] - 0xDC00)) as char] + utf16_decode_lossy(
            u.subrange(2, u.len() as int),
        )
    } else if is_high_surrogate(u[0]) || is_low_surrogate(u[0]) {
        seq!['\u{FFFD}'] + utf16_decode_lossy(u.subrange(1, u.len() as int))
    } else {
        seq![u[0] as char] + utf16_decode_lossy(u.subrange(1, u.len() as int))
    }
}

/// UTF-16 in which every surrogate is half of a pair.
pub open spec fn utf16_well_formed(u: Seq<u16>) -> bool
    decreases u.len(),
{
    if u.len() == 0 {
        true
    } else if is_high_surrogate(u[0]) && u.len() >= 2 && is_low_surrogate(u[1]) {
        utf16_well_formed(u.subrange(2, u.len() as int))
    } else if is_high_surrogate(u[0]) || is_low_surrogate(u[0]) {
        false
    } else {
        utf16_well_formed(u.subrange(1, u.len() as int))
    }
}

/// `String::from_utf16`: decodes UTF-16 code units, and fails when they
/// hold an unpaired surrogate. The error is handed on as its text
/// (`FromUtf16Error`'s `Display`), of which nothing is stated.
#[verifier::external_body]
pub(crate) fn string_from_utf16(units: &[u16]) -> (r: Result<String, String>)
    ensures
        r is Ok <==> utf16_well_formed(units@),
        r matches Ok(s) ==> s@ == utf16_decode_lossy(units@),
{
    match String::from_utf16(units) {
        Ok(s) => Ok(s),
        Err(e) => Err(e.to_string()),
    }
}

/// `String::from_utf16_lossy`: decodes UTF-16 code units, putting U+FFFD in
/// place of each unpaired surrogate.
#[verifier::external_body]
pub(crate) fn string_from_utf16_lossy(units: &[u16]) -> (r: String)
    ensures
        r@ == utf16_decode_lossy(units@),
{
    String::from_utf16_lossy(units)
}

/// The 16-bit little-endian code units of a byte buffer of even length.
pub open spec fn le_units(bytes: Seq<u8>) -> Option<Seq<u16>> {
    if bytes.len() % 2 != 0 {
        None
    } else {
        Some(
            Seq::new(
                (bytes.len() / 2) as nat,
                |i: int| (bytes[2 * i] + bytes[2 * i + 1] * 256) as u16,
            ),
        )
    }
}

pub fn utf16_units(bytes: &[u8]) -> (r: Option<Vec<u16>>)
    ensures
        match r {
            Some(v) => le_units(bytes@) == Some(v@),
            None => le_units(bytes@) is None,
        },
{
    let n = bytes.len();
    if n % 2 != 0 {
        return None;
    }
    let mut units: Vec<u16> = Vec::new();
    let mut i: usize = 0;
    while i < n / 2
        invariant
            n == bytes@.len(),
            n % 2 == 0,
            i <= n / 2,
            units@ =~= Seq::new(
                i as nat,
                |k: int| (bytes@[2 * k] + bytes@[2 * k + 1] * 256) as u16,
            ),
        decreases n / 2 - i,
    {
        let lo = bytes[2 * i] as u16;
        let hi = bytes[2 * i + 1] as u16;
        units.push(lo + hi * 256);
        i = i + 1;
    }
    Some(units)
}

/// The index of the first zero unit at or after `from`, or the length.
pub open spec fn zero_from(u: Seq<u16>, from: int) -> int
    decreases u.len() - from,
{
    if from < 0 || from >= u.len() {
        u.len() as int
    } else if u[from] == 0 {
        from
    } else {
        zero_from(u, from + 1)
    }
}

pub(crate) proof fn lemma_zero_from_bounds(u: Seq<u16>, from: int)
    requires
        0 <= from <= u.len(),
    ensures
        from <= zero_from(u, from) <= u.len(),
        zero_from(u, from) < u.len() ==> u[zero_from(u, from)] == 0,
    decreases u.len() - from,
{
    if from < u.len() && u[from] != 0 {
        lemma_zero_from_bounds(u, from + 1);
    }
}

pub fn zero_from_exec(u: &[u16], from: usize) -> (r: usize)
    requires
        from <= u@.len(),
    ensures
        r == zero_from(u@, from as int),
{
    let mut i = from;
    while i < u.len()
        invariant
            from <= i <= u@.len(),
            zero_from(u@, from as int) == zero_from(u@, i as int),
        decreases u@.len() - i,
    {
        if u[i] == 0 {
            return i;
        }
        i = i + 1;
    }
    i
}

/// A zero-terminated UTF-16 string, trimmed; `None` when nothing but
/// whitespace is left.
pub open spec fn decode_z(u: Seq<u16>) -> Option<Seq<char>> {
    let value = trim(utf16_decode_lossy(u.subrange(0, zero_from(u, 0))));
    if value.len() == 0 {
        None
    } else {
        Some(value)
    }
}

pub(crate) fn slice_units(u: &[u16], from: usize, to: usize) -> (r: Vec<u16>)
    requires
        from <= to <= u@.len(),
    ensures
        r@ == u@.subrange(from as int, to as int),
{
    let mut out: Vec<u16> = Vec::new();
    let mut i = from;
    while i < to
        invariant
            from <= i <= to <= u@.len(),
            out@ == u@.subrange(from as int, i as int),
        decreases to - i,
    {
        out.push(u[i]);
        assert(out@ =~= u@.subrange(from as int, i + 1));
        i = i + 1;
    }
    out
}

pub fn decode_utf16_z(units: &[u16]) -> (r: Option<String>)
    ensures
        opt_text(r) == decode_z(units@),
{
    let end = zero_from_exec(units, 0);
    proof {
        lemma_zero_from_bounds(units@, 0);
    }
    let head = slice_units(units, 0, end);
    let decoded = string_from_utf16_lossy(head.as_slice());
    let value = trimmed(decoded.as_str());
    if value.unicode_len() == 0 {
        None
    } else {
        Some(value)
    }
}

/// A `DEVPROP_TYPE_STRING` buffer: little-endian UTF-16, zero-terminated.
pub open spec fn decode_bytes(bytes: Seq<u8>) -> Option<Seq<char>> {
    match le_units(bytes) {
        Some(u) => decode_z(u),
        None => None,
    }
}

pub fn decode_utf16_bytes(bytes: &[u8]) -> (r: Option<String>)
    ensures
        opt_text(r) == decode_bytes(bytes@),
{
    match utf16_units(bytes) {
        Some(units) => decode_utf16_z(units.as_slice()),
        None => None,
    }
}

/// The strings of a `REG_MULTI_SZ`-style list that starts at `start`: each
/// zero-terminated string in turn, the blank ones left out, up to the empty
/// string that ends the list or the end of the buffer.
pub open spec fn multi_sz_from(u: Seq<u16>, start: int) -> Seq<Seq<char>>
    decreases u.len() - start,
{
    if start < 0 || start >= u.len() {
        Seq::empty()
    } else {
        let end = zero_from(u, start);
        if end <= start {
            Seq::empty()
        } else {
            let here = match decode_z(u.subrange(start, end)) {
                Some(v) => seq![v],
                None => Seq::empty(),
            };
            if end >= u.len() {
                here
            } else {
                here + multi_sz_from(u, end + 1)
            }
        }
    }
}

pub open spec fn decode_multi_sz(bytes: Seq<u8>) -> Seq<Seq<char>> {
    match le_units(bytes) {
        Some(u) => multi_sz_from(u, 0),
        None => Seq::empty(),
    }
}

pub open spec fn texts(v: Seq<String>) -> Seq<Seq<char>> {
    v.map_values(|s: String| s@)
}

pub fn decode_multi_sz_bytes(bytes: &[u8]) -> (r: Vec<String>)
    ensures
        texts(r@) == decode_multi_sz(bytes@),
{
    let units = match utf16_units(bytes) {
        Some(u) => u,
        None => {
            let v: Vec<String> = Vec::new();
            assert(texts(v@) =~= Seq::<Seq<char>>::empty());
            return v;
        },
    };
    let ghost u = units@;
    let n = units.len();
    let mut values: Vec<String> = Vec::new();
    let mut start: usize = 0;
    assert(texts(values@) + multi_sz_from(u, 0) =~= multi_sz_from(u, 0));
    while start < n
        invariant_except_break
            n == u.len(),
            units@ == u,
            start <= n,
            texts(values@) + multi_sz_from(u, start as int) == multi_sz_from(u, 0),
        ensures
            texts(values@) == multi_sz_from(u, 0),
        decreases n - start,
    {
        proof {
            lemma_zero_from_bounds(u, start as int);
        }
        let end = zero_from_exec(units.as_slice(), start);
        if end == start {
            assert(texts(values@) + Seq::<Seq<char>>::empty() =~= texts(values@));
            break;
        }
        let piece = slice_units(units.as_slice(), start, end);
        let ghost before = texts(values@);
        match decode_utf16_z(piece.as_slice()) {
            Some(v) => {
                values.push(v);
                assert(texts(values@) =~= before + seq![v@]);
            },
            None => {},
        }
        if end == n {
            assert(texts(values@) + Seq::<Seq<char>>::empty() =~= texts(values@));
            break;
        }
        proof {
            let here = match decode_z(u.subrange(start as int, end as int)) {
                Some(v) => seq![v],
                None => Seq::<Seq<char>>::empty(),
            };
            assert(texts(values@) == before + here);
            assert(multi_sz_from(u, start as int) == here + multi_sz_from(u, end + 1));
            assert(before + (here + multi_sz_from(u, end + 1)) =~= (before + here) + multi_sz_from(
                u,
                end + 1,
            ));
        }
        start = end + 1;
    }
    values
}

/// A `DEVPROP_TYPE_GUID` buffer in the in-memory layout of a Windows GUID:
/// a little-endian 32-bit and two little-endian 16-bit fields, then eight
/// bytes in order.
pub open spec fn guid_text(b: Seq<u8>) -> Option<Seq<char>> {
    if b.len() < 16 {
        None
    } else {
        let data1 = b[0] + b[1] * 0x100 + b[2] * 0x10000 + b[3] * 0x1000000;
        let data2 = b[4] + b[5] * 0x100;
        let data3 = b[6] + b[7] * 0x100;
        Some(
            hex_padded(data1 as nat, 8, true) + "-"@ + hex_padded(data2 as nat, 4, true) + "-"@
                + hex_padded(data3 as nat, 4, true) + "-"@ + hex_padded(b[8] as nat, 2, true)
                + hex_padded(b[9] as nat, 2, true) + "-"@ + hex_padded(b[10] as nat, 2, true)
                + hex_padded(b[11] as nat, 2, true) + hex_padded(b[12] as nat, 2, true)
                + hex_padded(b[13] as nat, 2, true) + hex_padded(b[14] as nat, 2, true)
                + hex_padded(b[15] as nat, 2, true),
        )
    }
}

#[verifier::spinoff_prover]
#[verifier::rlimit(40)]
pub fn decode_guid_bytes(bytes: &[u8]) -> (r: Option<String>)
    ensures
        opt_text(r) == guid_text(bytes@),
{
    if bytes.len() < 16 {
        return None;
    }
    let data1: u64 = bytes[0] as u64 + bytes[1] as u64 * 0x100 + bytes[2] as u64 * 0x10000
        + bytes[3] as u64 * 0x1000000;
    let data2: u64 = bytes[4] as u64 + bytes[5] as u64 * 0x100;
    let data3: u64 = bytes[6] as u64 + bytes[7] as u64 * 0x100;
    let mut s = String::new();
    push_hex(&mut s, data1 as u128, 8, true);
    s.append("-");
    push_hex(&mut s, data2 as u128, 4, true);
    s.append("-");
    push_hex(&mut s, data3 as u128, 4, true);
    s.append("-");
    push_hex(&mut s, bytes[8] as u128, 2, true);
    push_hex(&mut s, bytes[9] as u128, 2, true);
    s.append("-");
    let mut k: usize = 10;
    let ghost prefix = s@;
    assert(prefix + hex_run(bytes@, 10, 10) =~= prefix);
    while k < 16
        invariant
            10 <= k <= 16,
            bytes@.len() >= 16,
            s@ == prefix + hex_run(bytes@, 10, k as int),
        decreases 16 - k,
    {
        push_hex(&mut s, bytes[k] as u128, 2, true);
        assert(hex_run(bytes@, 10, k + 1) == hex_run(bytes@, 10, k as int) + hex_padded(
            bytes@[k as int] as nat,
            2,
            true,
        ));
        assert(prefix + hex_run(bytes@, 10, k + 1) =~= prefix + hex_run(bytes@, 10, k as int)
            + hex_padded(bytes@[k as int] as nat, 2, true));
        k = k + 1;
    }
    proof {
        reveal_with_fuel(hex_run, 7);
    }
    assert(s@ =~= guid_text(bytes@)->0);
    Some(s)
}

/// Two-digit upper-case hexadecimal for the bytes `from..to`.
pub open spec fn hex_run(b: Seq<u8>, from: int, to: int) -> Seq<char>
    decreases to - from,
{
    if to <= from {
        Seq::empty()
    } else {
        hex_run(b, from, to - 1) + hex_padded(b[to - 1] as nat, 2, true)
    }
}

/// A string property: a `STRING` or `STRING_INDIRECT` value, decoded.
pub open spec fn string_property_value(property_type: u32, bytes: Seq<u8>) -> Option<Seq<char>> {
    if property_type == DEVPROP_TYPE_STRING || property_type == DEVPROP_TYPE_STRING_INDIRECT {
        decode_bytes(bytes)
    } else {
        None
    }
}

pub fn string_property(property_type: u32, bytes: &[u8]) -> (r: Option<String>)
    ensures
        opt_text(r) == string_property_value(property_type, bytes@),
{
    if property_type == DEVPROP_TYPE_STRING || property_type == DEVPROP_TYPE_STRING_INDIRECT {
        decode_utf16_bytes(bytes)
    } else {
        None
    }
}

/// A string-list property: the strings of a `STRING_LIST` value, or the one
/// string of a `STRING` value.
pub open spec fn string_list_property_value(property_type: u32, bytes: Seq<u8>) -> Seq<Seq<char>> {
    if property_type == DEVPROP_TYPE_STRING_LIST {
        decode_multi_sz(bytes)
    } else if property_type == DEVPROP_TYPE_STRING {
        match decode_bytes(bytes) {
            Some(v) => seq![v],
            None => Seq::empty(),
        }
    } else {
        Seq::empty()
    }
}

pub fn string_list_property(property_type: u32, bytes: &[u8]) -> (r: Vec<String>)
    ensures
        texts(r@) == string_list_property_value(property_type, bytes@),
{
    let mut out: Vec<String> = Vec::new();
    if property_type == DEVPROP_TYPE_STRING_LIST {
        return decode_multi_sz_bytes(bytes);
    } else if property_type == DEVPROP_TYPE_STRING {
        match decode_utf16_bytes(bytes) {
            Some(v) => {
                out.push(v);
            },
            None => {},
        }
    }
    assert(texts(out@) =~= string_list_property_value(property_type, bytes@));
    out
}

/// A GUID property, as text.
pub open spec fn guid_property_value(property_type: u32, bytes: Seq<u8>) -> Option<Seq<char>> {
    if property_type == DEVPROP_TYPE_GUID {
        guid_text(bytes)
    } else {
        None
    }
}

pub fn guid_property(property_type: u32, bytes: &[u8]) -> (r: Option<String>)
    ensures
        opt_text(r) == guid_property_value(property_type, bytes@),
{
    if property_type == DEVPROP_TYPE_GUID {
        decode_guid_bytes(bytes)
    } else {
        None
    }
}

} // verus!
