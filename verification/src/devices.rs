//! Connected keyboards: what Raw Input and Plug and Play report of each
//! keyboard endpoint, the selectors that pick keyboards out by their stable
//! identity, and the sorted inventory shown to the user.
use vstd::prelude::*;
pub use crate::model::DeviceSelector;
use crate::digits::{hex_padded, push_hex};
use crate::pnp::{
    opt_text, string_from_utf16_lossy, utf16_decode_lossy, zero_from, zero_from_exec,
    PnpKeyboardMetadata,
};
use crate::text::{
    contains_ignore_case, contains_seq, contains_str, eq_ignore_ascii_case, find_from, find_str,
    lower, seq_lt, str_lt, substring, to_lower, to_upper, trim, trimmed, upper,
};

verus! {

/// One keyboard endpoint as Raw Input reports it, enriched with what Plug
/// and Play knows of the same interface.
#[derive(Debug, Clone, PartialEq, Eq)]
pub struct KeyboardDeviceInfo {
    pub id: String,
    pub name: String,
    pub device_path: String,
    pub manufacturer: Option<String>,
    pub instance_id: Option<String>,
    pub container_id: Option<String>,
    pub hardware_ids: Vec<String>,
    pub location_paths: Vec<String>,
    pub vendor_id: Option<String>,
    pub product_id: Option<String>,
    pub interface_id: Option<String>,
    pub keyboard_type: u32,
    pub keyboard_sub_type: u32,
    pub keyboard_mode: u32,
    pub function_key_count: u32,
    pub indicator_count: u32,
    pub total_key_count: u32,
    pub is_virtual: bool,
    pub source: String,
}

#[derive(Debug, Clone, PartialEq, Eq)]
pub enum DeviceInventoryError {
    /// The inventory is only available on Windows.
    Unsupported,
    /// Windows failed to enumerate the keyboards.
    Windows(String),
}

/// The message shown for an inventory error.
pub open spec fn inventory_error_message(e: DeviceInventoryError) -> Seq<char> {
    match e {
        DeviceInventoryError::Unsupported => "connected keyboard inventory is only available on Windows"@,
        DeviceInventoryError::Windows(detail) => "failed to enumerate connected keyboards: "@ + detail@,
    }
}

impl DeviceInventoryError {
    /// The message shown to the user.
    pub fn message(&self) -> (r: String)
        ensures
            r@ == inventory_error_message(*self),
    {
        match self {
            DeviceInventoryError::Unsupported => {
                "connected keyboard inventory is only available on Windows".to_owned()
            },
            DeviceInventoryError::Windows(detail) => {
                let mut s = "failed to enumerate connected keyboards: ".to_owned();
                s.append(detail.as_str());
                s
            },
        }
    }
}

/// An identifier, trimmed and upper-cased.
pub open spec fn normalized_hex_of(o: Option<Seq<char>>) -> Option<Seq<char>> {
    match o {
        Some(v) => Some(upper(trim(v))),
        None => None,
    }
}

/// A text, trimmed; `None` when nothing is left.
pub open spec fn normalized_text_of(o: Option<Seq<char>>) -> Option<Seq<char>> {
    match o {
        Some(v) => if trim(v).len() == 0 {
            None
        } else {
            Some(trim(v))
        },
        None => None,
    }
}

fn normalized_hex(value: &Option<String>) -> (r: Option<String>)
    ensures
        opt_text(r) == normalized_hex_of(opt_text(*value)),
{
    match value {
        Some(v) => {
            let t = trimmed(v.as_str());
            Some(to_upper(t.as_str()))
        },
        None => None,
    }
}

fn normalized_text(value: &Option<String>) -> (r: Option<String>)
    ensures
        opt_text(r) == normalized_text_of(opt_text(*value)),
{
    match value {
        Some(v) => {
            let t = trimmed(v.as_str());
            if t.unicode_len() == 0 {
                None
            } else {
                Some(t)
            }
        },
        None => None,
    }
}

impl KeyboardDeviceInfo {
    /// The selector that picks out this keyboard by the fields that stay the
    /// same across ports and sessions (not its interface path).
    pub fn canonical_selector(&self) -> (r: DeviceSelector)
        ensures
            opt_text(r.vendor_id) == normalized_hex_of(opt_text(self.vendor_id)),
            opt_text(r.product_id) == normalized_hex_of(opt_text(self.product_id)),
            opt_text(r.interface_id) == normalized_hex_of(opt_text(self.interface_id)),
            opt_text(r.manufacturer_contains) == normalized_text_of(opt_text(self.manufacturer)),
            opt_text(r.name_contains) == normalized_text_of(Some(self.name@)),
            r.is_virtual == Some(self.is_virtual),
    {
        let name = Some(self.name.clone());
        DeviceSelector {
            vendor_id: normalized_hex(&self.vendor_id),
            product_id: normalized_hex(&self.product_id),
            interface_id: normalized_hex(&self.interface_id),
            manufacturer_contains: normalized_text(&self.manufacturer),
            name_contains: normalized_text(&name),
            is_virtual: Some(self.is_virtual),
        }
    }
}

/// An identifier the selector asks for is present and equal, ignoring ASCII
/// case.
pub open spec fn id_matches(actual: Option<Seq<char>>, expected: Option<Seq<char>>) -> bool {
    match expected {
        None => true,
        Some(e) => match actual {
            Some(a) => lower(a) == lower(e),
            None => false,
        },
    }
}

/// A text the selector asks for is contained, ignoring ASCII case.
pub open spec fn text_contains(actual: Option<Seq<char>>, expected: Option<Seq<char>>) -> bool {
    match expected {
        None => true,
        Some(e) => match actual {
            Some(a) => contains_seq(lower(a), lower(e)),
            None => false,
        },
    }
}

pub open spec fn selector_matches(k: KeyboardDeviceInfo, s: DeviceSelector) -> bool {
    &&& id_matches(opt_text(k.vendor_id), opt_text(s.vendor_id))
    &&& id_matches(opt_text(k.product_id), opt_text(s.product_id))
    &&& id_matches(opt_text(k.interface_id), opt_text(s.interface_id))
    &&& text_contains(opt_text(k.manufacturer), opt_text(s.manufacturer_contains))
    &&& text_contains(Some(k.name@), opt_text(s.name_contains))
    &&& match s.is_virtual {
        Some(v) => k.is_virtual == v,
        None => true,
    }
}

fn id_matches_exec(actual: &Option<String>, expected: &Option<String>) -> (r: bool)
    ensures
        r == id_matches(opt_text(*actual), opt_text(*expected)),
{
    match expected {
        None => true,
        Some(e) => match actual {
            Some(a) => eq_ignore_ascii_case(a.as_str(), e.as_str()),
            None => false,
        },
    }
}

fn contains_ignore_ascii_case(actual: &Option<String>, expected: &Option<String>) -> (r: bool)
    ensures
        r == text_contains(opt_text(*actual), opt_text(*expected)),
{
    match expected {
        None => true,
        Some(e) => match actual {
            Some(a) => contains_ignore_case(a.as_str(), e.as_str()),
            None => false,
        },
    }
}

pub fn keyboard_matches_selector(keyboard: &KeyboardDeviceInfo, selector: &DeviceSelector) -> (r:
    bool)
    ensures
        r == selector_matches(*keyboard, *selector),
{
    let name = Some(keyboard.name.clone());
    id_matches_exec(&keyboard.vendor_id, &selector.vendor_id) && id_matches_exec(
        &keyboard.product_id,
        &selector.product_id,
    ) && id_matches_exec(&keyboard.interface_id, &selector.interface_id)
        && contains_ignore_ascii_case(&keyboard.manufacturer, &selector.manufacturer_contains)
        && contains_ignore_ascii_case(&name, &selector.name_contains) && match selector.is_virtual {
        Some(v) => keyboard.is_virtual == v,
        None => true,
    }
}

/// An ASCII hexadecimal digit, of either case.
pub open spec fn is_hex_digit(c: char) -> bool {
    ('0' <= c <= '9') || ('a' <= c <= 'f') || ('A' <= c <= 'F')
}

/// The `length` characters that follow the first `marker` in the upper-cased
/// path, if there are that many and all are hexadecimal digits.
pub open spec fn path_component_of(path: Seq<char>, marker: Seq<char>, length: nat) -> Option<
    Seq<char>,
> {
    let up = upper(path);
    match find_from(up, marker, 0) {
        None => None,
        Some(i) => {
            let start = i + marker.len();
            if start + length <= up.len() && (forall|k: int|
                start <= k < start + length ==> is_hex_digit(#[trigger] up[k])) {
                Some(up.subrange(start, start + length))
            } else {
                None
            }
        },
    }
}

proof fn lemma_find_from_bounds(hay: Seq<char>, needle: Seq<char>, at: int)
    requires
        0 <= at,
    ensures
        find_from(hay, needle, at) matches Some(i) ==> at <= i && i + needle.len() <= hay.len(),
    decreases hay.len() + 1 - at,
{
    if at + needle.len() <= hay.len() && !crate::text::occurs_at(hay, needle, at) {
        lemma_find_from_bounds(hay, needle, at + 1);
    }
}

/// The hexadecimal field after a marker such as `VID_` in a device path.
#[verifier::loop_isolation(false)]
pub fn path_component(path: &str, marker: &str, length: usize) -> (r: Option<String>)
    ensures
        opt_text(r) == path_component_of(path@, marker@, length as nat),
{
    let up = to_upper(path);
    let found = find_str(up.as_str(), marker);
    proof {
        lemma_find_from_bounds(up@, marker@, 0);
    }
    let i = match found {
        Some(i) => i,
        None => return None,
    };
    let n = up.unicode_len();
    let start = i + marker.unicode_len();
    if length > n - start {
        return None;
    }
    let mut k = start;
    while k < start + length
        invariant
            start <= k <= start + length <= n,
            n == up@.len(),
            forall|j: int| start <= j < k ==> is_hex_digit(#[trigger] up@[j]),
        decreases start + length - k,
    {
        let c = up.as_str().get_char(k);
        if !(('0' <= c && c <= '9') || ('a' <= c && c <= 'f') || ('A' <= c && c <= 'F')) {
            assert(!is_hex_digit(up@[k as int]));
            return None;
        }
        k = k + 1;
    }
    Some(substring(up.as_str(), start, start + length))
}

/// Paths of remote-desktop, software and virtual-machine keyboards.
pub open spec fn is_virtual_path(path: Seq<char>) -> bool {
    let up = upper(path);
    ||| contains_seq(up, "RDP_KBD"@)
    ||| contains_seq(up, "ROOT#"@)
    ||| contains_seq(up, "VIRTUAL"@)
    ||| contains_seq(up, "VMWARE"@)
    ||| contains_seq(up, "VMBUS"@)
}

pub fn is_virtual_device_path(path: &str) -> (r: bool)
    ensures
        r == is_virtual_path(path@),
{
    let up = to_upper(path);
    let u = up.as_str();
    contains_str(u, "RDP_KBD") || contains_str(u, "ROOT#") || contains_str(u, "VIRTUAL")
        || contains_str(u, "VMWARE") || contains_str(u, "VMBUS")
}

/// The name a keyboard is listed under before Plug and Play names it.
pub open spec fn display_name_of(
    vendor: Option<Seq<char>>,
    product: Option<Seq<char>>,
    virtual_device: bool,
) -> Seq<char> {
    if virtual_device {
        "가상 또는 원격 키보드"@
    } else {
        match (vendor, product) {
            (Some(v), Some(p)) => "HID 키보드 · VID_"@ + v + " / PID_"@ + p,
            _ => "Windows 키보드"@,
        }
    }
}

pub fn keyboard_display_name(
    vendor: &Option<String>,
    product: &Option<String>,
    virtual_device: bool,
) -> (r: String)
    ensures
        r@ == display_name_of(opt_text(*vendor), opt_text(*product), virtual_device),
{
    if virtual_device {
        return "가상 또는 원격 키보드".to_owned();
    }
    match (vendor, product) {
        (Some(v), Some(p)) => {
            let mut s = "HID 키보드 · VID_".to_owned();
            s.append(v.as_str());
            s.append(" / PID_");
            s.append(p.as_str());
            s
        },
        _ => "Windows 키보드".to_owned(),
    }
}

/// One step of the 64-bit FNV-1a hash.
pub open spec fn fnv_step(hash: u64, byte: u8) -> u64 {
    (((hash ^ (byte as u64)) as nat * 0x100000001b3nat) % 0x1_0000_0000_0000_0000nat) as u64
}

/// The 64-bit FNV-1a hash of a byte string.
pub open spec fn fnv1a(bytes: Seq<u8>) -> u64
    decreases bytes.len(),
{
    if bytes.len() == 0 {
        0xcbf29ce484222325u64
    } else {
        fnv_step(fnv1a(bytes.drop_last()), bytes.last())
    }
}

/// A stable identifier of an endpoint: `rawkbd-` and the FNV-1a hash of the
/// UTF-8 bytes of its path, as sixteen lower-case hexadecimal digits.
pub open spec fn inventory_id_of(path: Seq<char>) -> Seq<char> {
    "rawkbd-"@ + hex_padded(fnv1a(vstd::utf8::encode_utf8(path)) as nat, 16, false)
}

pub fn inventory_id(path: &str) -> (r: String)
    ensures
        r@ == inventory_id_of(path@),
{
    let bytes = path.as_bytes();
    let ghost b = bytes@;
    let mut hash: u64 = 0xcbf29ce484222325u64;
    let mut i: usize = 0;
    assert(b.subrange(0, 0) =~= Seq::<u8>::empty());
    while i < bytes.len()
        invariant
            b == bytes@,
            i <= b.len(),
            hash == fnv1a(b.subrange(0, i as int)),
        decreases b.len() - i,
    {
        assert(b.subrange(0, i + 1).drop_last() =~= b.subrange(0, i as int));
        hash = (hash ^ (bytes[i] as u64)).wrapping_mul(0x100000001b3u64);
        i = i + 1;
    }
    assert(b.subrange(0, b.len() as int) =~= b);
    let mut s = "rawkbd-".to_owned();
    push_hex(&mut s, hash as u128, 16, false);
    s
}

/// The `RID_DEVICE_INFO_KEYBOARD` fields of an endpoint: type, subtype,
/// scan-code mode, function keys, indicators and total keys.
#[derive(Debug, Clone, Copy, PartialEq, Eq, Default)]
pub struct RawKeyboardInfo {
    pub keyboard_type: u32,
    pub sub_type: u32,
    pub keyboard_mode: u32,
    pub function_key_count: u32,
    pub indicator_count: u32,
    pub total_key_count: u32,
}

/// The path in a `RIDI_DEVICENAME` buffer: up to the first zero unit, or up
/// to the number of units Windows reported copying.
pub open spec fn reported_path(buffer: Seq<u16>, copied: int) -> Seq<char> {
    let end = if zero_from(buffer, 0) < buffer.len() {
        zero_from(buffer, 0)
    } else {
        copied
    };
    utf16_decode_lossy(buffer.subrange(0, end))
}

/// What the inventory knows of an endpoint from Raw Input alone: its path,
/// the identifiers in the path, and the keyboard fields (all zero when
/// Windows did not report them).
pub open spec fn endpoint_info(path: Seq<char>, info: RawKeyboardInfo, k: KeyboardDeviceInfo) -> bool {
    let vendor = path_component_of(path, "VID_"@, 4);
    let product = path_component_of(path, "PID_"@, 4);
    let virtual_device = is_virtual_path(path);
    &&& k.id@ == inventory_id_of(path)
    &&& k.name@ == display_name_of(vendor, product, virtual_device)
    &&& k.device_path@ == path
    &&& k.manufacturer is None
    &&& k.instance_id is None
    &&& k.container_id is None
    &&& k.hardware_ids@.len() == 0
    &&& k.location_paths@.len() == 0
    &&& opt_text(k.vendor_id) == vendor
    &&& opt_text(k.product_id) == product
    &&& opt_text(k.interface_id) == path_component_of(path, "MI_"@, 2)
    &&& k.keyboard_type == info.keyboard_type
    &&& k.keyboard_sub_type == info.sub_type
    &&& k.keyboard_mode == info.keyboard_mode
    &&& k.function_key_count == info.function_key_count
    &&& k.indicator_count == info.indicator_count
    &&& k.total_key_count == info.total_key_count
    &&& k.is_virtual == virtual_device
    &&& k.source@ == "raw_input"@
}

/// An endpoint from its `RIDI_DEVICENAME` buffer, the number of units
/// Windows reported, and its `RIDI_DEVICEINFO` keyboard fields if Windows
/// reported a keyboard.
pub fn keyboard_device_info(
    path_buffer: &[u16],
    copied: usize,
    info: Option<RawKeyboardInfo>,
) -> (r: KeyboardDeviceInfo)
    requires
        copied <= path_buffer@.len(),
    ensures
        endpoint_info(
            reported_path(path_buffer@, copied as int),
            match info {
                Some(i) => i,
                None => RawKeyboardInfo {
                    keyboard_type: 0,
                    sub_type: 0,
                    keyboard_mode: 0,
                    function_key_count: 0,
                    indicator_count: 0,
                    total_key_count: 0,
                },
            },
            r,
        ),
{
    let zero = zero_from_exec(path_buffer, 0);
    let end = if zero < path_buffer.len() {
        zero
    } else {
        copied
    };
    let mut units: Vec<u16> = Vec::new();
    let mut i: usize = 0;
    while i < end
        invariant
            end <= path_buffer@.len(),
            i <= end,
            units@ == path_buffer@.subrange(0, i as int),
        decreases end - i,
    {
        units.push(path_buffer[i]);
        assert(units@ =~= path_buffer@.subrange(0, i + 1));
        i = i + 1;
    }
    let device_path = string_from_utf16_lossy(units.as_slice());
    let keyboard = match info {
        Some(i) => i,
        None => RawKeyboardInfo {
            keyboard_type: 0,
            sub_type: 0,
            keyboard_mode: 0,
            function_key_count: 0,
            indicator_count: 0,
            total_key_count: 0,
        },
    };
    let vendor_id = path_component(device_path.as_str(), "VID_", 4);
    let product_id = path_component(device_path.as_str(), "PID_", 4);
    let interface_id = path_component(device_path.as_str(), "MI_", 2);
    let is_virtual = is_virtual_device_path(device_path.as_str());
    let id = inventory_id(device_path.as_str());
    let name = keyboard_display_name(&vendor_id, &product_id, is_virtual);
    KeyboardDeviceInfo {
        id,
        name,
        device_path,
        manufacturer: None,
        instance_id: None,
        container_id: None,
        hardware_ids: Vec::new(),
        location_paths: Vec::new(),
        vendor_id,
        product_id,
        interface_id,
        keyboard_type: keyboard.keyboard_type,
        keyboard_sub_type: keyboard.sub_type,
        keyboard_mode: keyboard.keyboard_mode,
        function_key_count: keyboard.function_key_count,
        indicator_count: keyboard.indicator_count,
        total_key_count: keyboard.total_key_count,
        is_virtual,
        source: "raw_input".to_owned(),
    }
}

/// An endpoint with the Plug and Play metadata of its interface: the
/// display name where Plug and Play has one, and the fields that only Plug
/// and Play reports.
pub open spec fn with_metadata(k: KeyboardDeviceInfo, m: PnpKeyboardMetadata) -> KeyboardDeviceInfo {
    KeyboardDeviceInfo {
        id: k.id,
        name: match m.display_name {
            Some(n) => n,
            None => k.name,
        },
        device_path: k.device_path,
        manufacturer: m.manufacturer,
        instance_id: m.instance_id,
        container_id: m.container_id,
        hardware_ids: m.hardware_ids,
        location_paths: m.location_paths,
        vendor_id: k.vendor_id,
        product_id: k.product_id,
        interface_id: k.interface_id,
        keyboard_type: k.keyboard_type,
        keyboard_sub_type: k.keyboard_sub_type,
        keyboard_mode: k.keyboard_mode,
        function_key_count: k.function_key_count,
        indicator_count: k.indicator_count,
        total_key_count: k.total_key_count,
        is_virtual: k.is_virtual,
        source: k.source,
    }
}

/// The index of the first metadata entry at or after `i` keyed by `key`.
pub open spec fn entry_for(meta: Seq<(String, PnpKeyboardMetadata)>, key: Seq<char>, i: int) -> Option<
    int,
>
    decreases meta.len() - i,
{
    if i < 0 || i >= meta.len() {
        None
    } else if meta[i].0@ == key {
        Some(i)
    } else {
        entry_for(meta, key, i + 1)
    }
}

pub(crate) proof fn lemma_entry_for_bounds(meta: Seq<(String, PnpKeyboardMetadata)>, key: Seq<char>, i: int)
    requires
        0 <= i,
    ensures
        entry_for(meta, key, i) matches Some(j) ==> i <= j < meta.len() && meta[j].0@ == key,
    decreases meta.len() - i,
{
    if i < meta.len() && meta[i].0@ != key {
        lemma_entry_for_bounds(meta, key, i + 1);
    }
}

/// The endpoints, in order, each with the metadata keyed by its lower-cased
/// interface path. An entry serves the first endpoint with that key and is
/// then used up.
pub open spec fn enrich(
    ks: Seq<KeyboardDeviceInfo>,
    meta: Seq<(String, PnpKeyboardMetadata)>,
) -> Seq<KeyboardDeviceInfo>
    decreases ks.len(),
{
    if ks.len() == 0 {
        Seq::empty()
    } else {
        match entry_for(meta, lower(ks[0].device_path@), 0) {
            Some(j) => seq![with_metadata(ks[0], meta[j].1)] + enrich(ks.drop_first(), meta.remove(j)),
            None => seq![ks[0]] + enrich(ks.drop_first(), meta),
        }
    }
}

/// The inventory order: by name, then by interface path (the order of
/// `String`'s `Ord`, which compares code points).
pub open spec fn inventory_lt(a: KeyboardDeviceInfo, b: KeyboardDeviceInfo) -> bool {
    seq_lt(a.name@, b.name@) || (a.name@ == b.name@ && seq_lt(a.device_path@, b.device_path@))
}

/// The first index at or after `i` whose entry sorts strictly after `x`.
pub open spec fn insert_pos(s: Seq<KeyboardDeviceInfo>, x: KeyboardDeviceInfo, i: int) -> int
    decreases s.len() - i,
{
    if i < 0 || i >= s.len() {
        s.len() as int
    } else if inventory_lt(x, s[i]) {
        i
    } else {
        insert_pos(s, x, i + 1)
    }
}

proof fn lemma_insert_pos_bounds(s: Seq<KeyboardDeviceInfo>, x: KeyboardDeviceInfo, i: int)
    requires
        0 <= i <= s.len(),
    ensures
        i <= insert_pos(s, x, i) <= s.len(),
    decreases s.len() - i,
{
    if i < s.len() && !inventory_lt(x, s[i]) {
        lemma_insert_pos_bounds(s, x, i + 1);
    }
}

/// A stable sort in the inventory order: each entry in turn goes after every
/// entry before it that does not sort after it.
pub open spec fn sort_inventory(s: Seq<KeyboardDeviceInfo>) -> Seq<KeyboardDeviceInfo>
    decreases s.len(),
{
    if s.len() == 0 {
        s
    } else {
        let sorted = sort_inventory(s.drop_last());
        sorted.insert(insert_pos(sorted, s.last(), 0), s.last())
    }
}

/// Consecutive entries whose interface paths differ only in ASCII case are
/// kept once, the first of them.
pub open spec fn dedup_paths(s: Seq<KeyboardDeviceInfo>) -> Seq<KeyboardDeviceInfo>
    decreases s.len(),
{
    if s.len() == 0 {
        s
    } else {
        let d = dedup_paths(s.drop_last());
        if d.len() > 0 && lower(d.last().device_path@) == lower(s.last().device_path@) {
            d
        } else {
            d.push(s.last())
        }
    }
}

/// The inventory: the endpoints with their metadata, sorted, without
/// repeated interfaces.
pub open spec fn inventory(
    ks: Seq<KeyboardDeviceInfo>,
    meta: Seq<(String, PnpKeyboardMetadata)>,
) -> Seq<KeyboardDeviceInfo> {
    dedup_paths(sort_inventory(enrich(ks, meta)))
}

fn inventory_lt_exec(a: &KeyboardDeviceInfo, b: &KeyboardDeviceInfo) -> (r: bool)
    ensures
        r == inventory_lt(*a, *b),
{
    str_lt(a.name.as_str(), b.name.as_str()) || (crate::text::str_eq(a.name.as_str(), b.name.as_str())
        && str_lt(a.device_path.as_str(), b.device_path.as_str()))
}

fn apply_metadata(k: KeyboardDeviceInfo, m: PnpKeyboardMetadata) -> (r: KeyboardDeviceInfo)
    ensures
        r == with_metadata(k, m),
{
    let mut k = k;
    if let Some(display_name) = m.display_name {
        k.name = display_name;
    }
    k.manufacturer = m.manufacturer;
    k.instance_id = m.instance_id;
    k.container_id = m.container_id;
    k.hardware_ids = m.hardware_ids;
    k.location_paths = m.location_paths;
    k
}

fn enrich_exec(
    keyboards: Vec<KeyboardDeviceInfo>,
    metadata: Vec<(String, PnpKeyboardMetadata)>,
) -> (r: Vec<KeyboardDeviceInfo>)
    ensures
        r@ == enrich(keyboards@, metadata@),
{
    let ghost whole = enrich(keyboards@, metadata@);
    let mut rest = keyboards;
    let mut meta = metadata;
    let mut out: Vec<KeyboardDeviceInfo> = Vec::new();
    while rest.len() > 0
        invariant
            out@ + enrich(rest@, meta@) == whole,
        decreases rest@.len(),
    {
        let ghost before_rest = rest@;
        let ghost before_meta = meta@;
        let k = rest.remove(0);
        assert(rest@ =~= before_rest.drop_first());
        let key = to_lower(k.device_path.as_str());
        let mut j: usize = 0;
        let mut found = false;
        while j < meta.len()
            invariant_except_break
                meta@ == before_meta,
                !found,
                j <= meta@.len(),
                entry_for(meta@, key@, 0) == entry_for(meta@, key@, j as int),
            ensures
                meta@ == before_meta,
                found ==> j < meta@.len() && entry_for(meta@, key@, 0) == Some(j as int),
                !found ==> entry_for(meta@, key@, 0) is None,
            decreases meta@.len() - j,
        {
            if crate::text::str_eq(meta[j].0.as_str(), key.as_str()) {
                found = true;
                break;
            }
            j = j + 1;
        }
        let ghost prev = out@;
        if found {
            let (_, m) = meta.remove(j);
            let enriched = apply_metadata(k, m);
            out.push(enriched);
            assert(out@ + enrich(rest@, meta@) =~= prev + enrich(before_rest, before_meta));
        } else {
            out.push(k);
            assert(out@ + enrich(rest@, meta@) =~= prev + enrich(before_rest, before_meta));
        }
    }
    assert(enrich(rest@, meta@) =~= Seq::<KeyboardDeviceInfo>::empty());
    assert(out@ + Seq::<KeyboardDeviceInfo>::empty() =~= out@);
    out
}

fn sort_exec(items: Vec<KeyboardDeviceInfo>) -> (r: Vec<KeyboardDeviceInfo>)
    ensures
        r@ == sort_inventory(items@),
{
    let ghost all = items@;
    let n = items.len();
    let mut rest = items;
    let mut sorted: Vec<KeyboardDeviceInfo> = Vec::new();
    let mut i: usize = 0;
    assert(all.subrange(0, 0) =~= Seq::<KeyboardDeviceInfo>::empty());
    assert(all.subrange(0, n as int) =~= all);
    while i < n
        invariant
            n == all.len(),
            i <= n,
            rest@ == all.subrange(i as int, n as int),
            sorted@ == sort_inventory(all.subrange(0, i as int)),
        decreases n - i,
    {
        let x = rest.remove(0);
        assert(rest@ =~= all.subrange(i + 1, n as int));
        let mut p: usize = 0;
        while p < sorted.len()
            invariant_except_break
                p <= sorted@.len(),
                insert_pos(sorted@, x, 0) == insert_pos(sorted@, x, p as int),
            ensures
                p <= sorted@.len(),
                insert_pos(sorted@, x, 0) == p,
            decreases sorted@.len() - p,
        {
            if inventory_lt_exec(&x, &sorted[p]) {
                break;
            }
            p = p + 1;
        }
        let ghost prefix = all.subrange(0, i + 1);
        assert(prefix.drop_last() =~= all.subrange(0, i as int));
        assert(prefix.last() == x);
        sorted.insert(p, x);
        i = i + 1;
    }
    sorted
}

fn dedup_exec(items: Vec<KeyboardDeviceInfo>) -> (r: Vec<KeyboardDeviceInfo>)
    ensures
        r@ == dedup_paths(items@),
{
    let ghost all = items@;
    let n = items.len();
    let mut rest = items;
    let mut out: Vec<KeyboardDeviceInfo> = Vec::new();
    let mut i: usize = 0;
    assert(all.subrange(0, 0) =~= Seq::<KeyboardDeviceInfo>::empty());
    assert(all.subrange(0, n as int) =~= all);
    while i < n
        invariant
            n == all.len(),
            i <= n,
            rest@ == all.subrange(i as int, n as int),
            out@ == dedup_paths(all.subrange(0, i as int)),
        decreases n - i,
    {
        let x = rest.remove(0);
        assert(rest@ =~= all.subrange(i + 1, n as int));
        let ghost prefix = all.subrange(0, i + 1);
        assert(prefix.drop_last() =~= all.subrange(0, i as int));
        assert(prefix.last() == x);
        let len = out.len();
        if len > 0 && eq_ignore_ascii_case(out[len - 1].device_path.as_str(), x.device_path.as_str()) {
        } else {
            out.push(x);
        }
        i = i + 1;
    }
    out
}

/// The connected keyboards: the Raw Input endpoints (or the reason there
/// are none) enriched with the Plug and Play metadata keyed by lower-cased
/// interface path, sorted by name and path, each interface listed once.
pub fn list_connected_keyboards(
    endpoints: Result<Vec<KeyboardDeviceInfo>, DeviceInventoryError>,
    metadata: Vec<(String, PnpKeyboardMetadata)>,
) -> (r: Result<Vec<KeyboardDeviceInfo>, DeviceInventoryError>)
    ensures
        match endpoints {
            Err(e) => r == Err::<Vec<KeyboardDeviceInfo>, DeviceInventoryError>(e),
            Ok(ks) => (r matches Ok(v) && v@ == inventory(ks@, metadata@)),
        },
{
    let keyboards = match endpoints {
        Ok(ks) => ks,
        Err(e) => return Err(e),
    };
    let enriched = enrich_exec(keyboards, metadata);
    let sorted = sort_exec(enriched);
    Ok(dedup_exec(sorted))
}

} // verus!
