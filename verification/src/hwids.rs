//! Hardware-ID to human-readable names, from a pci.ids database (the pciutils
//! text format). Turns a raw `PCI\VEN_10EC&DEV_8168&...` string into the vendor
//! name and the device name that the database lists for those ids.
//!
//! The database text is line oriented: a vendor line is `VVVV  name`, a device
//! line under it is `\tDDDD  name`, subsystem lines start with two tabs and are
//! ignored, as are empty lines and `#` comments.

use std::collections::HashMap;
use vstd::prelude::*;

use crate::text::{
    chars_of, find, find_spec, matches_at, hex_u16_spec, parse_hex_u16, slice_chars, string_from, to_uppercase,
    trim, trim_end_len, trim_end_spec, trim_spec, uppercase_of, is_hex_digit,
};

verus! {

broadcast use vstd::std_specs::hash::group_hash_axioms;

// ---------------------------------------------------------------------------
// The model
// ---------------------------------------------------------------------------

/// The contents of a database: vendor names by vendor id, and device names by
/// (vendor id, device id).
#[verifier::ext_equal]
pub struct PciDbView {
    pub vendors: Map<u16, Seq<char>>,
    pub devices: Map<(u16, u16), Seq<char>>,
}

/// The state of a line-by-line read of the database text: what has been
/// collected so far and the vendor that device lines currently belong to.
#[verifier::ext_equal]
pub struct ParseState {
    pub vendors: Map<u16, Seq<char>>,
    pub devices: Map<(u16, u16), Seq<char>>,
    pub current: Option<u16>,
}

pub open spec fn empty_state() -> ParseState {
    ParseState { vendors: Map::empty(), devices: Map::empty(), current: None }
}

/// The index of the first `'\n'` in `s`, or `s.len()` when there is none.
pub open spec fn newline_pos(s: Seq<char>) -> nat
    decreases s.len(),
{
    if s.len() == 0 {
        0
    } else if s[0] == '\n' {
        0
    } else {
        1 + newline_pos(s.drop_first())
    }
}

/// `l` without one trailing carriage return.
pub open spec fn strip_cr(l: Seq<char>) -> Seq<char> {
    if l.len() > 0 && l.last() == '\r' {
        l.drop_last()
    } else {
        l
    }
}

/// The lines of `s` (`str::lines`): split at `'\n'`, one `'\r'` before it
/// dropped; the text after the last `'\n'` is a line only when it is not empty.
pub open spec fn lines_of(s: Seq<char>) -> Seq<Seq<char>>
    decreases s.len(),
{
    if s.len() == 0 {
        seq![]
    } else {
        let k = newline_pos(s);
        if k < s.len() {
            seq![strip_cr(s.take(k as int))] + lines_of(s.skip(k + 1 as int))
        } else {
            seq![s]
        }
    }
}

/// An `ID<space><space>name` line: the id is the trimmed text before the first
/// double space, read as 16-bit hexadecimal; the name is the trimmed rest.
pub open spec fn split_id_name_spec(s: Seq<char>) -> Option<(u16, Seq<char>)> {
    let t = trim_end_spec(s);
    match find_spec(t, seq![' ', ' ']) {
        None => None,
        Some(i) => match hex_u16_spec(trim_spec(t.take(i))) {
            None => None,
            Some(id) => Some((id, trim_spec(t.skip(i + 2)))),
        },
    }
}

/// The effect of one line of the database text.
pub open spec fn parse_step(st: ParseState, line: Seq<char>) -> ParseState {
    if line.len() == 0 || line[0] == '#' {
        st
    } else if line.len() >= 2 && line[0] == '\t' && line[1] == '\t' {
        st
    } else if line[0] == '\t' {
        match (st.current, split_id_name_spec(line.skip(1))) {
            (Some(v), Some((id, name))) => ParseState {
                devices: st.devices.insert((v, id), name),
                ..st
            },
            _ => st,
        }
    } else {
        match split_id_name_spec(line) {
            Some((id, name)) => ParseState {
                vendors: st.vendors.insert(id, name),
                current: Some(id),
                ..st
            },
            None => ParseState { current: None, ..st },
        }
    }
}

/// The state after reading `lines` in order, starting from `st`.
pub open spec fn parse_lines(st: ParseState, lines: Seq<Seq<char>>) -> ParseState
    decreases lines.len(),
{
    if lines.len() == 0 {
        st
    } else {
        parse_lines(parse_step(st, lines[0]), lines.drop_first())
    }
}

/// The database that the text `text` describes.
pub open spec fn pci_db_spec(text: Seq<char>) -> PciDbView {
    let st = parse_lines(empty_state(), lines_of(text));
    PciDbView { vendors: st.vendors, devices: st.devices }
}

/// Extract the four hexadecimal characters after the first occurrence of
/// `key` (fewer when the text ends sooner) and read them as a 16-bit number.
pub open spec fn extract_hex_spec(s: Seq<char>, key: Seq<char>) -> Option<u16> {
    match find_spec(s, key) {
        None => None,
        Some(i) => {
            let rest = s.skip(i + key.len());
            hex_u16_spec(
                if rest.len() <= 4 {
                    rest
                } else {
                    rest.take(4)
                },
            )
        },
    }
}

/// Vendor and device names, as character sequences.
#[verifier::ext_equal]
pub struct HwNameView {
    pub vendor: Option<Seq<char>>,
    pub device: Option<Seq<char>>,
}

/// The names that `db` gives an (already upper-cased) hardware id.
pub open spec fn lookup_spec(db: PciDbView, up: Seq<char>) -> HwNameView {
    let ven = extract_hex_spec(up, "VEN_"@);
    let dev = extract_hex_spec(up, "DEV_"@);
    HwNameView {
        vendor: match ven {
            Some(v) => if db.vendors.contains_key(v) {
                Some(db.vendors[v])
            } else {
                None
            },
            None => None,
        },
        device: match (ven, dev) {
            (Some(v), Some(d)) => if db.devices.contains_key((v, d)) {
                Some(db.devices[(v, d)])
            } else {
                None
            },
            _ => None,
        },
    }
}

// ---------------------------------------------------------------------------
// The executable database
// ---------------------------------------------------------------------------

/// The key under which the device `(v, d)` is stored.
pub open spec fn device_key(v: u16, d: u16) -> u32 {
    (v as int * 65536 + d as int) as u32
}

proof fn lemma_device_key_injective(v1: u16, d1: u16, v2: u16, d2: u16)
    requires
        device_key(v1, d1) == device_key(v2, d2),
    ensures
        v1 == v2 && d1 == d2,
{
    assert(0 <= v1 as int * 65536 + d1 as int <= 0xFFFF_FFFF);
    assert(0 <= v2 as int * 65536 + d2 as int <= 0xFFFF_FFFF);
    assert(v1 as int * 65536 + d1 as int == v2 as int * 65536 + d2 as int);
}

/// A parsed pci.ids database.
pub struct PciDb {
    vendors: HashMap<u16, String>,
    devices: HashMap<u32, String>,
}

pub open spec fn vendors_view(m: Map<u16, String>) -> Map<u16, Seq<char>> {
    Map::new(|k: u16| m.contains_key(k), |k: u16| m[k]@)
}

pub open spec fn devices_view(m: Map<u32, String>) -> Map<(u16, u16), Seq<char>> {
    Map::new(
        |p: (u16, u16)| m.contains_key(device_key(p.0, p.1)),
        |p: (u16, u16)| m[device_key(p.0, p.1)]@,
    )
}

impl View for PciDb {
    type V = PciDbView;

    closed spec fn view(&self) -> PciDbView {
        PciDbView { vendors: vendors_view(self.vendors@), devices: devices_view(self.devices@) }
    }
}

/// Splits an `ID  name` line into its hexadecimal id and its trimmed name.
pub fn split_id_name(s: &[char]) -> (r: Option<(u16, String)>)
    ensures
        match r {
            Some((id, name)) => split_id_name_spec(s@) == Some((id, name@)),
            None => split_id_name_spec(s@) is None,
        },
{
    let n = trim_end_len(s);
    let t = slice_chars(s, 0, n);
    assert(t@ =~= trim_end_spec(s@));
    let sep: [char; 2] = [' ', ' '];
    let sep_v = slice_chars(&sep, 0, 2);
    assert(sep_v@ =~= seq![' ', ' ']);
    let i = match find(&t, &sep_v) {
        Some(i) => i,
        None => return None,
    };
    assert(i + 2 <= t.len());
    let id_part = slice_chars(&t, 0, i);
    assert(id_part@ =~= t@.take(i as int));
    let id_str = trim(&id_part);
    let id = match parse_hex_u16(&id_str) {
        Some(id) => id,
        None => return None,
    };
    let name_part = slice_chars(&t, i + 2, t.len());
    assert(name_part@ =~= t@.skip(i + 2));
    let name = trim(&name_part);
    Some((id, string_from(&name)))
}

/// The abstract state that the executable parse state stands for.
pub open spec fn state_of(
    vendors: Map<u16, String>,
    devices: Map<u32, String>,
    current: Option<u16>,
) -> ParseState {
    ParseState { vendors: vendors_view(vendors), devices: devices_view(devices), current }
}

/// Applies one line of the database text to the parse state.
fn parse_line(
    vendors: &mut HashMap<u16, String>,
    devices: &mut HashMap<u32, String>,
    current: &mut Option<u16>,
    line: &[char],
)
    ensures
        state_of(final(vendors)@, final(devices)@, *final(current)) == parse_step(
            state_of(old(vendors)@, old(devices)@, *old(current)),
            line@,
        ),
{
    let ghost st = state_of(vendors@, devices@, *current);
    if line.len() == 0 || line[0] == '#' {
        return;
    }
    if line.len() >= 2 && line[0] == '\t' && line[1] == '\t' {
        return;
    }
    if line[0] == '\t' {
        let rest = slice_chars(line, 1, line.len());
        assert(rest@ =~= line@.skip(1));
        match *current {
            Some(v) => match split_id_name(&rest) {
                Some((id, name)) => {
                    let key: u32 = (v as u32) * 65536 + (id as u32);
                    assert(key == device_key(v, id));
                    let ghost old_devices = devices@;
                    let ghost name_v = name@;
                    devices.insert(key, name);
                    assert(devices_view(devices@) =~= devices_view(old_devices).insert(
                        (v, id),
                        name_v,
                    )) by {
                        assert forall|p: (u16, u16)|
                            #![trigger devices_view(devices@).contains_key(p)]
                            devices_view(devices@).contains_key(p) == devices_view(
                                old_devices,
                            ).insert((v, id), name_v).contains_key(p) by {
                            if device_key(p.0, p.1) == key {
                                lemma_device_key_injective(p.0, p.1, v, id);
                            }
                        }
                        assert forall|p: (u16, u16)| #[trigger]
                            devices_view(devices@).contains_key(p) implies devices_view(
                            devices@,
                        )[p] == devices_view(old_devices).insert((v, id), name_v)[p] by {
                            if device_key(p.0, p.1) == key {
                                lemma_device_key_injective(p.0, p.1, v, id);
                            }
                        }
                    }
                },
                None => {},
            },
            None => {},
        }
        return;
    }
    if line[0] == 'C' && !is_hex_digit(line[0]) {
        *current = None;
        return;
    }
    match split_id_name(line) {
        Some((id, name)) => {
            let ghost old_vendors = vendors@;
            let ghost name_v = name@;
            vendors.insert(id, name);
            assert(vendors_view(vendors@) =~= vendors_view(old_vendors).insert(id, name_v));
            *current = Some(id);
        },
        None => {
            *current = None;
        },
    }
}

/// `newline_pos` is the index of the first `'\n'`.
proof fn lemma_newline_pos(s: Seq<char>, k: int)
    requires
        0 <= k <= s.len(),
        k == s.len() || s[k] == '\n',
        forall|j: int| 0 <= j < k ==> s[j] != '\n',
    ensures
        newline_pos(s) == k,
    decreases k,
{
    if k > 0 {
        lemma_newline_pos(s.drop_first(), k - 1);
    }
}

/// Parses the text of a pci.ids database.
pub fn parse(text: &str) -> (r: PciDb)
    ensures
        r@ == pci_db_spec(text@),
{
    let chars = chars_of(text);
    let mut vendors: HashMap<u16, String> = HashMap::new();
    let mut devices: HashMap<u32, String> = HashMap::new();
    let mut current: Option<u16> = None;
    let mut start: usize = 0;
    proof {
        assert(chars@.skip(0) =~= chars@);
        assert(state_of(vendors@, devices@, current) =~= empty_state());
    }
    while start < chars.len()
        invariant
            chars@ == text@,
            start <= chars.len(),
            parse_lines(empty_state(), lines_of(text@)) == parse_lines(
                state_of(vendors@, devices@, current),
                lines_of(chars@.skip(start as int)),
            ),
        decreases chars.len() - start,
    {
        let ghost rest = chars@.skip(start as int);
        let mut end: usize = start;
        while end < chars.len() && chars[end] != '\n'
            invariant
                start <= end <= chars.len(),
                forall|j: int| start <= j < end ==> chars@[j] != '\n',
            decreases chars.len() - end,
        {
            end = end + 1;
        }
        proof {
            lemma_newline_pos(rest, end - start);
        }
        let ghost st0 = state_of(vendors@, devices@, current);
        if end < chars.len() {
            let mut line_end = end;
            if end > start && chars[end - 1] == '\r' {
                line_end = end - 1;
            }
            let line = slice_chars(&chars, start, line_end);
            assert(line@ =~= strip_cr(rest.take(end - start)));
            parse_line(&mut vendors, &mut devices, &mut current, &line);
            assert(rest.skip(end - start + 1) =~= chars@.skip(end + 1));
            assert(lines_of(rest) == seq![line@] + lines_of(chars@.skip(end + 1)));
            assert((seq![line@] + lines_of(chars@.skip(end + 1))).drop_first() =~= lines_of(
                chars@.skip(end + 1),
            ));
            start = end + 1;
        } else {
            let line = slice_chars(&chars, start, chars.len());
            assert(line@ =~= rest);
            parse_line(&mut vendors, &mut devices, &mut current, &line);
            assert(lines_of(rest) == seq![line@]);
            assert(seq![line@].drop_first() =~= Seq::<Seq<char>>::empty());
            assert(chars@.skip(chars.len() as int) =~= Seq::<char>::empty());
            start = chars.len();
        }
    }
    assert(chars@.skip(start as int) =~= Seq::<char>::empty());
    PciDb { vendors, devices }
}

// ---------------------------------------------------------------------------
// Lookup
// ---------------------------------------------------------------------------

/// Vendor and device names resolved from a hardware id.
#[derive(Clone, Debug, PartialEq)]
pub struct HwName {
    pub vendor: Option<String>,
    pub device: Option<String>,
}

pub open spec fn opt_view(o: Option<String>) -> Option<Seq<char>> {
    match o {
        Some(s) => Some(s@),
        None => None,
    }
}

impl View for HwName {
    type V = HwNameView;

    open spec fn view(&self) -> HwNameView {
        HwNameView { vendor: opt_view(self.vendor), device: opt_view(self.device) }
    }
}

impl Default for HwName {
    fn default() -> (r: HwName)
        ensures
            r.vendor is None,
            r.device is None,
    {
        HwName { vendor: None, device: None }
    }
}

/// Reads the (up to) four hexadecimal characters after the first `key` in `s`.
pub fn extract_hex(s: &[char], key: &[char]) -> (r: Option<u16>)
    ensures
        r == extract_hex_spec(s@, key@),
{
    let found = find(s, key);
    let i = match found {
        Some(i) => i,
        None => return None,
    };
    let s_len = s.len();
    let key_len = key.len();
    assert(matches_at(s@, key@, i as int));
    assert(i + key_len <= s_len);
    let pos = i + key_len;
    let end = if s.len() - pos <= 4 {
        s.len()
    } else {
        pos + 4
    };
    let hex = slice_chars(s, pos, end);
    assert(hex@ =~= (if s@.skip(pos as int).len() <= 4 {
        s@.skip(pos as int)
    } else {
        s@.skip(pos as int).take(4)
    }));
    parse_hex_u16(&hex)
}

/// Resolves vendor and device names from an upper-cased hardware id.
pub fn lookup_upper(db: &PciDb, up: &str) -> (r: HwName)
    ensures
        r@ == lookup_spec(db@, up@),
{
    let s = chars_of(up);
    let ven_key = chars_of("VEN_");
    let dev_key = chars_of("DEV_");
    let ven = extract_hex(&s, &ven_key);
    let dev = extract_hex(&s, &dev_key);
    let vendor = match ven {
        Some(v) => match db.vendors.get(&v) {
            Some(name) => Some(name.clone()),
            None => None,
        },
        None => None,
    };
    let device = match (ven, dev) {
        (Some(v), Some(d)) => {
            let key: u32 = (v as u32) * 65536 + (d as u32);
            assert(key == device_key(v, d));
            match db.devices.get(&key) {
                Some(name) => Some(name.clone()),
                None => None,
            }
        },
        _ => None,
    };
    HwName { vendor, device }
}

/// Resolves vendor and device names from a hardware id such as
/// `PCI\VEN_10EC&DEV_8168&SUBSYS_...`; the id is upper-cased first.
/// Ids without a `VEN_` part (non-PCI ids) yield no names.
pub fn lookup_from_hwid(db: &PciDb, hwid: &str) -> (r: HwName)
    ensures
        r@ == lookup_spec(db@, uppercase_of(hwid@)),
{
    let up = to_uppercase(hwid);
    lookup_upper(db, up.as_str())
}

// ---------------------------------------------------------------------------
// Laws
// ---------------------------------------------------------------------------

/// Every device recorded so far belongs to a recorded vendor, and the vendor
/// that device lines currently attach to is recorded.
pub open spec fn devices_have_vendors(st: ParseState) -> bool {
    &&& forall|p: (u16, u16)| #[trigger]
        st.devices.contains_key(p) ==> st.vendors.contains_key(p.0)
    &&& (st.current matches Some(v) ==> st.vendors.contains_key(v))
}

proof fn lemma_step_keeps_devices_have_vendors(st: ParseState, line: Seq<char>)
    requires
        devices_have_vendors(st),
    ensures
        devices_have_vendors(parse_step(st, line)),
{
    let st2 = parse_step(st, line);
    assert forall|p: (u16, u16)| #[trigger] st2.devices.contains_key(p) implies st2.vendors.contains_key(
        p.0,
    ) by {
        if !st.devices.contains_key(p) {
            assert(st.current is Some);
        }
    }
}

proof fn lemma_lines_keep_devices_have_vendors(st: ParseState, lines: Seq<Seq<char>>)
    requires
        devices_have_vendors(st),
    ensures
        devices_have_vendors(parse_lines(st, lines)),
    decreases lines.len(),
{
    if lines.len() > 0 {
        lemma_step_keeps_devices_have_vendors(st, lines[0]);
        lemma_lines_keep_devices_have_vendors(parse_step(st, lines[0]), lines.drop_first());
    }
}

/// A device listed in a parsed database always sits under a listed vendor:
/// device lines attach to the vendor line above them.
pub proof fn lemma_parsed_devices_have_vendors(text: Seq<char>, v: u16, d: u16)
    requires
        pci_db_spec(text).devices.contains_key((v, d)),
    ensures
        pci_db_spec(text).vendors.contains_key(v),
{
    lemma_lines_keep_devices_have_vendors(empty_state(), lines_of(text));
    let st = parse_lines(empty_state(), lines_of(text));
    assert(st.devices.contains_key((v, d)));
}

/// A hardware id without a `VEN_` part (a non-PCI id) resolves to no names.
pub proof fn lemma_lookup_without_vendor_id(db: PciDbView, up: Seq<char>)
    requires
        find_spec(up, "VEN_"@) is None,
    ensures
        lookup_spec(db, up) == (HwNameView { vendor: None, device: None }),
{
}

/// With a parsed database, a resolved device name always comes with the
/// vendor name of the same id.
pub proof fn lemma_lookup_device_implies_vendor(text: Seq<char>, up: Seq<char>)
    requires
        lookup_spec(pci_db_spec(text), up).device is Some,
    ensures
        lookup_spec(pci_db_spec(text), up).vendor is Some,
{
    let v = extract_hex_spec(up, "VEN_"@).unwrap();
    let d = extract_hex_spec(up, "DEV_"@).unwrap();
    lemma_parsed_devices_have_vendors(text, v, d);
}

/// A subsystem line (one that starts with two tabs) changes nothing: the
/// vendor that device lines attach to stays the current one.
pub proof fn lemma_subsystem_line_changes_nothing(st: ParseState, line: Seq<char>)
    requires
        line.len() >= 2,
        line[0] == '\t',
        line[1] == '\t',
    ensures
        parse_step(st, line) == st,
{
}

proof fn lemma_parse_lines_append(st: ParseState, a: Seq<Seq<char>>, b: Seq<Seq<char>>)
    ensures
        parse_lines(st, a + b) == parse_lines(parse_lines(st, a), b),
    decreases a.len(),
{
    if a.len() > 0 {
        assert((a + b)[0] == a[0]);
        assert((a + b).drop_first() =~= a.drop_first() + b);
        lemma_parse_lines_append(parse_step(st, a[0]), a.drop_first(), b);
    } else {
        assert(a + b =~= b);
    }
}

/// `line` starts with two tabs.
pub open spec fn is_subsystem_line(line: Seq<char>) -> bool {
    line.len() >= 2 && line[0] == '\t' && line[1] == '\t'
}

proof fn lemma_subsystem_lines_change_nothing(st: ParseState, subs: Seq<Seq<char>>)
    requires
        forall|i: int| 0 <= i < subs.len() ==> is_subsystem_line(#[trigger] subs[i]),
    ensures
        parse_lines(st, subs) == st,
    decreases subs.len(),
{
    if subs.len() > 0 {
        assert(is_subsystem_line(subs[0]));
        assert forall|i: int| 0 <= i < subs.drop_first().len() implies is_subsystem_line(
            #[trigger] subs.drop_first()[i],
        ) by {
            assert(subs.drop_first()[i] == subs[i + 1]);
        }
        lemma_subsystem_lines_change_nothing(st, subs.drop_first());
    }
}

/// A device line after a vendor line is recorded under that vendor, with its
/// name, however many subsystem lines stand between them; and the vendor
/// stays current for the device lines that follow.
pub proof fn lemma_device_recorded_under_its_vendor(
    st: ParseState,
    vline: Seq<char>,
    subs: Seq<Seq<char>>,
    dline: Seq<char>,
    v: u16,
    vname: Seq<char>,
    d: u16,
    dname: Seq<char>,
)
    requires
        vline.len() > 0,
        vline[0] != '#',
        vline[0] != '\t',
        split_id_name_spec(vline) == Some((v, vname)),
        forall|i: int| 0 <= i < subs.len() ==> is_subsystem_line(#[trigger] subs[i]),
        dline.len() >= 2,
        dline[0] == '\t',
        dline[1] != '\t',
        split_id_name_spec(dline.skip(1)) == Some((d, dname)),
    ensures
        ({
            let end = parse_lines(st, seq![vline] + subs + seq![dline]);
            &&& end.vendors.contains_key(v) && end.vendors[v] == vname
            &&& end.devices.contains_key((v, d)) && end.devices[(v, d)] == dname
            &&& end.current == Some(v)
        }),
{
    let st1 = parse_step(st, vline);
    assert(st1.current == Some(v) && st1.vendors.contains_key(v) && st1.vendors[v] == vname);
    lemma_parse_lines_append(st, seq![vline] + subs, seq![dline]);
    lemma_parse_lines_append(st, seq![vline], subs);
    assert(parse_lines(st, seq![vline]) == parse_lines(st1, seq![vline].drop_first()));
    assert(seq![vline].drop_first() =~= Seq::<Seq<char>>::empty());
    lemma_subsystem_lines_change_nothing(st1, subs);
    assert(parse_lines(st1, seq![dline]) == parse_lines(parse_step(st1, dline), seq![dline].drop_first()));
    assert(seq![dline].drop_first() =~= Seq::<Seq<char>>::empty());
}

/// Database text made of `lines`, each followed by a newline.
pub open spec fn joined(lines: Seq<Seq<char>>) -> Seq<char>
    decreases lines.len(),
{
    if lines.len() == 0 {
        seq![]
    } else {
        lines[0] + seq!['\n'] + joined(lines.drop_first())
    }
}

/// A line as it can stand in database text: no newline, no trailing `\r`.
pub open spec fn plain_line(l: Seq<char>) -> bool {
    &&& forall|j: int| 0 <= j < l.len() ==> #[trigger] l[j] != '\n'
    &&& !(l.len() > 0 && l.last() == '\r')
}

/// Text written line by line is read back as those lines.
pub proof fn lemma_lines_of_joined(lines: Seq<Seq<char>>)
    requires
        forall|i: int| 0 <= i < lines.len() ==> plain_line(#[trigger] lines[i]),
    ensures
        lines_of(joined(lines)) == lines,
    decreases lines.len(),
{
    if lines.len() > 0 {
        let l0 = lines[0];
        let rest = lines.drop_first();
        let r = joined(rest);
        let s = l0 + seq!['\n'] + r;
        assert(plain_line(l0));
        assert forall|i: int| 0 <= i < rest.len() implies plain_line(#[trigger] rest[i]) by {
            assert(rest[i] == lines[i + 1]);
        }
        lemma_lines_of_joined(rest);
        assert(s[l0.len() as int] == '\n');
        assert forall|j: int| 0 <= j < l0.len() implies s[j] != '\n' by {
            assert(s[j] == l0[j]);
        }
        lemma_newline_pos(s, l0.len() as int);
        assert(s.take(l0.len() as int) =~= l0);
        assert(s.skip(l0.len() + 1int) =~= r);
        assert(strip_cr(l0) == l0);
        assert(lines =~= seq![l0] + rest);
    }
}

/// In database text, a device line under a vendor line is recorded under
/// that vendor, with its name, even when subsystem lines stand between them.
pub proof fn lemma_database_device_under_vendor(
    vline: Seq<char>,
    subs: Seq<Seq<char>>,
    dline: Seq<char>,
    v: u16,
    vname: Seq<char>,
    d: u16,
    dname: Seq<char>,
)
    requires
        vline.len() > 0,
        vline[0] != '#',
        vline[0] != '\t',
        plain_line(vline),
        split_id_name_spec(vline) == Some((v, vname)),
        forall|i: int| 0 <= i < subs.len() ==> is_subsystem_line(#[trigger] subs[i]) && plain_line(subs[i]),
        dline.len() >= 2,
        dline[0] == '\t',
        dline[1] != '\t',
        plain_line(dline),
        split_id_name_spec(dline.skip(1)) == Some((d, dname)),
    ensures
        pci_db_spec(joined(seq![vline] + subs + seq![dline])).vendors[v] == vname,
        pci_db_spec(joined(seq![vline] + subs + seq![dline])).devices.contains_key((v, d)),
        pci_db_spec(joined(seq![vline] + subs + seq![dline])).devices[(v, d)] == dname,
{
    let lines = seq![vline] + subs + seq![dline];
    assert forall|i: int| 0 <= i < lines.len() implies plain_line(#[trigger] lines[i]) by {
        if i == 0 {
            assert(lines[i] == vline);
        } else if i <= subs.len() {
            assert(lines[i] == subs[i - 1]);
        } else {
            assert(lines[i] == dline);
        }
    }
    lemma_lines_of_joined(lines);
    lemma_device_recorded_under_its_vendor(empty_state(), vline, subs, dline, v, vname, d, dname);
}

} // verus!
