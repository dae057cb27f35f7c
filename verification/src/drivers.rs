//! Installed signed drivers: enrichment with pci.ids names, and the order in
//! which they are listed (by device class, then device name).

use vstd::prelude::*;

use crate::hwids::{lookup_from_hwid, lookup_spec, opt_view, PciDb, PciDbView};
use crate::text::{
    chars_eq, chars_of, lemma_lex_total, lemma_lex_transitive, lex_less, lex_lt, uppercase_of,
};

verus! {

/// One installed signed driver.
#[derive(Clone, Debug, PartialEq)]
pub struct DriverInfo {
    pub device_name: String,
    pub manufacturer: Option<String>,
    pub device_class: Option<String>,
    pub driver_version: Option<String>,
    pub driver_date: Option<String>,
    pub hardware_id: Option<String>,
    pub device_id: String,
    pub inf_name: Option<String>,
    /// Canonical chip-vendor name from the pci.ids database (enrichment).
    pub vendor_name: Option<String>,
    /// Canonical chip/device name from pci.ids (enrichment).
    pub chip_name: Option<String>,
}

// ---------------------------------------------------------------------------
// Enrichment
// ---------------------------------------------------------------------------

/// `out` is `inp` with its vendor and chip names looked up in `db` from its
/// hardware id; a driver without a hardware id keeps its names.
pub open spec fn enriches(out: DriverInfo, inp: DriverInfo, db: PciDbView) -> bool {
    &&& out.device_name == inp.device_name
    &&& out.manufacturer == inp.manufacturer
    &&& out.device_class == inp.device_class
    &&& out.driver_version == inp.driver_version
    &&& out.driver_date == inp.driver_date
    &&& out.hardware_id == inp.hardware_id
    &&& out.device_id == inp.device_id
    &&& out.inf_name == inp.inf_name
    &&& match inp.hardware_id {
        Some(h) => {
            &&& opt_view(out.vendor_name) == lookup_spec(db, uppercase_of(h@)).vendor
            &&& opt_view(out.chip_name) == lookup_spec(db, uppercase_of(h@)).device
        },
        None => out.vendor_name == inp.vendor_name && out.chip_name == inp.chip_name,
    }
}

/// Fills in the pci.ids vendor and chip names of one driver.
pub fn enrich(d: DriverInfo, db: &PciDb) -> (r: DriverInfo)
    ensures
        enriches(r, d, db@),
{
    let mut d = d;
    let names = match &d.hardware_id {
        Some(h) => Some(lookup_from_hwid(db, h.as_str())),
        None => None,
    };
    match names {
        Some(n) => {
            d.vendor_name = n.vendor;
            d.chip_name = n.device;
        },
        None => {},
    }
    d
}

// ---------------------------------------------------------------------------
// Order
// ---------------------------------------------------------------------------

/// The device class, or the empty string when there is none.
pub open spec fn class_key(d: DriverInfo) -> Seq<char> {
    match d.device_class {
        Some(c) => c@,
        None => seq![],
    }
}

pub open spec fn name_key(d: DriverInfo) -> Seq<char> {
    d.device_name@
}

/// `a` sorts strictly before `b`: by device class, then by device name.
pub open spec fn key_lt(a: DriverInfo, b: DriverInfo) -> bool {
    ||| lex_lt(class_key(a), class_key(b))
    ||| (class_key(a) == class_key(b) && lex_lt(name_key(a), name_key(b)))
}

/// `a` and `b` have the same class and the same name.
pub open spec fn key_eq(a: DriverInfo, b: DriverInfo) -> bool {
    class_key(a) == class_key(b) && name_key(a) == name_key(b)
}

/// In the listing, `a` (from input position `ia`) comes before `b` (from input
/// position `ib`): its key is smaller, or the keys are equal and it came first.
pub open spec fn listed_before(a: DriverInfo, ia: int, b: DriverInfo, ib: int) -> bool {
    key_lt(a, b) || (key_eq(a, b) && ia < ib)
}

/// `out` is `inp` enriched from `db` and listed in order, where `out[k]` came
/// from `inp[idx[k]]`: every input appears once, sorted by class then name,
/// equal keys keeping their input order.
pub open spec fn is_listing(
    out: Seq<DriverInfo>,
    inp: Seq<DriverInfo>,
    db: PciDbView,
    idx: Seq<int>,
) -> bool {
    &&& out.len() == inp.len()
    &&& idx.len() == out.len()
    &&& forall|k: int| 0 <= k < idx.len() ==> 0 <= #[trigger] idx[k] < inp.len()
    &&& forall|k: int, l: int| 0 <= k < l < idx.len() ==> idx[k] != idx[l]
    &&& forall|k: int| 0 <= k < out.len() ==> enriches(#[trigger] out[k], inp[idx[k]], db)
    &&& forall|k: int, l: int|
        0 <= k < l < out.len() ==> listed_before(out[k], idx[k], out[l], idx[l])
}

proof fn lemma_key_total(a: DriverInfo, b: DriverInfo)
    ensures
        key_lt(a, b) || key_lt(b, a) || key_eq(a, b),
{
    lemma_lex_total(class_key(a), class_key(b));
    lemma_lex_total(name_key(a), name_key(b));
}

proof fn lemma_key_lt_then_le(a: DriverInfo, b: DriverInfo, c: DriverInfo)
    requires
        key_lt(a, b),
        key_lt(b, c) || key_eq(b, c),
    ensures
        key_lt(a, c),
{
    if lex_lt(class_key(a), class_key(b)) && lex_lt(class_key(b), class_key(c)) {
        lemma_lex_transitive(class_key(a), class_key(b), class_key(c));
    }
    if lex_lt(name_key(a), name_key(b)) && lex_lt(name_key(b), name_key(c)) {
        lemma_lex_transitive(name_key(a), name_key(b), name_key(c));
    }
}

/// The exec form of a driver's sort key.
struct SortKey {
    class: Vec<char>,
    name: Vec<char>,
}

spec fn key_of(k: SortKey, d: DriverInfo) -> bool {
    k.class@ == class_key(d) && k.name@ == name_key(d)
}

fn sort_key(d: &DriverInfo) -> (r: SortKey)
    ensures
        key_of(r, *d),
{
    let class = match &d.device_class {
        Some(c) => chars_of(c.as_str()),
        None => Vec::new(),
    };
    let name = chars_of(d.device_name.as_str());
    SortKey { class, name }
}

fn sort_key_less(a: &SortKey, b: &SortKey) -> (r: bool)
    ensures
        forall|x: DriverInfo, y: DriverInfo| key_of(*a, x) && key_of(*b, y) ==> r == key_lt(x, y),
{
    if lex_less(&a.class, &b.class) {
        true
    } else {
        chars_eq(&a.class, &b.class) && lex_less(&a.name, &b.name)
    }
}

/// Enriches every driver with its pci.ids names and lists them sorted by
/// device class (none counts as the empty class) and then by device name;
/// drivers with equal keys keep their input order.
pub fn scan(drivers: Vec<DriverInfo>, db: &PciDb) -> (r: Vec<DriverInfo>)
    ensures
        exists|idx: Seq<int>| is_listing(r@, drivers@, db@, idx),
{
    let ghost inp = drivers@;
    let mut rest = drivers;
    let n = rest.len();
    let mut out: Vec<DriverInfo> = Vec::new();
    let mut keys: Vec<SortKey> = Vec::new();
    let ghost mut idx: Seq<int> = Seq::empty();
    let mut i: usize = 0;
    assert(inp.skip(0) =~= inp);
    while i < n
        invariant
            n == inp.len(),
            0 <= i <= n,
            rest@ == inp.skip(i as int),
            out@.len() == i,
            keys@.len() == i,
            idx.len() == i,
            forall|k: int| 0 <= k < i ==> key_of(#[trigger] keys@[k], out@[k]),
            forall|k: int| 0 <= k < i ==> 0 <= #[trigger] idx[k] < i,
            forall|k: int, l: int| 0 <= k < l < i ==> idx[k] != idx[l],
            forall|k: int| 0 <= k < i ==> enriches(#[trigger] out@[k], inp[idx[k]], db@),
            forall|k: int, l: int|
                0 <= k < l < i ==> listed_before(out@[k], idx[k], out@[l], idx[l]),
        decreases n - i,
    {
        assert(rest@.len() > 0);
        let d = rest.remove(0);
        assert(d == inp[i as int]);
        assert(rest@ =~= inp.skip(i + 1));
        let x = enrich(d, db);
        let xk = sort_key(&x);
        let mut pos: usize = 0;
        while pos < out.len() && !sort_key_less(&xk, &keys[pos])
            invariant
                0 <= pos <= out@.len(),
                out@.len() == keys@.len(),
                key_of(xk, x),
                forall|k: int| 0 <= k < keys@.len() ==> key_of(#[trigger] keys@[k], out@[k]),
                forall|k: int| 0 <= k < pos ==> !key_lt(x, #[trigger] out@[k]),
            decreases out@.len() - pos,
        {
            pos = pos + 1;
        }
        let ghost old_out = out@;
        let ghost old_keys = keys@;
        let ghost old_idx = idx;
        let ghost ii = i as int;
        assert(pos < old_out.len() ==> key_lt(x, old_out[pos as int]));
        out.insert(pos, x);
        keys.insert(pos, xk);
        proof {
            idx = idx.insert(pos as int, ii);
            assert forall|k: int| 0 <= k < ii + 1 implies 0 <= #[trigger] idx[k] < ii + 1 by {
                if k < pos {
                    assert(idx[k] == old_idx[k]);
                } else if k > pos {
                    assert(idx[k] == old_idx[k - 1]);
                }
            }
            assert forall|k: int, l: int| 0 <= k < l < ii + 1 implies idx[k] != idx[l] by {
                if k < pos && l < pos {
                } else if k < pos && l == pos {
                    assert(idx[k] == old_idx[k]);
                } else if k < pos && l > pos {
                    assert(idx[k] == old_idx[k]);
                    assert(idx[l] == old_idx[l - 1]);
                } else if k == pos {
                    assert(idx[l] == old_idx[l - 1]);
                } else {
                    assert(idx[k] == old_idx[k - 1]);
                    assert(idx[l] == old_idx[l - 1]);
                }
            }
            assert forall|k: int| 0 <= k < ii + 1 implies key_of(#[trigger] keys@[k], out@[k]) by {
                if k < pos {
                    assert(keys@[k] == old_keys[k]);
                } else if k > pos {
                    assert(out@[k] == old_out[k - 1]);
                }
            }
            assert forall|k: int| 0 <= k < ii + 1 implies enriches(
                #[trigger] out@[k],
                inp[idx[k]],
                db@,
            ) by {
                if k < pos {
                    assert(out@[k] == old_out[k]);
                    assert(idx[k] == old_idx[k]);
                } else if k > pos {
                    assert(out@[k] == old_out[k - 1]);
                    assert(idx[k] == old_idx[k - 1]);
                }
            }
            assert forall|k: int, l: int| 0 <= k < l < ii + 1 implies listed_before(
                out@[k],
                idx[k],
                out@[l],
                idx[l],
            ) by {
                if l < pos {
                    assert(out@[k] == old_out[k] && out@[l] == old_out[l]);
                    assert(idx[k] == old_idx[k] && idx[l] == old_idx[l]);
                } else if l == pos {
                    assert(out@[k] == old_out[k] && idx[k] == old_idx[k]);
                    assert(!key_lt(x, old_out[k]));
                    lemma_key_total(x, old_out[k]);
                    if key_eq(x, old_out[k]) {
                        assert(key_eq(old_out[k], x));
                    }
                } else if k == pos {
                    assert(out@[l] == old_out[l - 1] && idx[l] == old_idx[l - 1]);
                    if l - 1 > pos {
                        let m = pos as int;
                        assert(listed_before(old_out[m], old_idx[m], old_out[l - 1], old_idx[l - 1]));
                        lemma_key_lt_then_le(x, old_out[m], old_out[l - 1]);
                    }
                } else if k < pos {
                    assert(out@[k] == old_out[k] && idx[k] == old_idx[k]);
                    assert(out@[l] == old_out[l - 1] && idx[l] == old_idx[l - 1]);
                } else {
                    assert(out@[k] == old_out[k - 1] && idx[k] == old_idx[k - 1]);
                    assert(out@[l] == old_out[l - 1] && idx[l] == old_idx[l - 1]);
                }
            }
        }
        i = i + 1;
    }
    assert(is_listing(out@, inp, db@, idx));
    out
}

} // verus!
