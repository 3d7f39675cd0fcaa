//! Keychron HID devices: which interfaces to listen to, how their reports
//! map to function keys, and how enumerated devices are listed.
use vstd::prelude::*;
use crate::text::{decimal, hex4, push_decimal, push_hex4, trim, trimmed, copy_str};

verus! {

pub const KEYCHRON_VENDOR_ID: u16 = 0x3434;

/// HID keyboard usage of F13.
pub const HID_USAGE_F13: u8 = 0x68;

/// HID keyboard usage of F24.
pub const HID_USAGE_F24: u8 = 0x73;

/// The name of function key number `n`, such as `"F13"`.
pub open spec fn f_key_name(n: nat) -> Seq<char> {
    seq!['F'] + decimal(n)
}

pub open spec fn usage_fkey(usage: u8) -> Option<Seq<char>> {
    if usage < HID_USAGE_F13 || usage > HID_USAGE_F24 {
        None
    } else {
        Some(f_key_name((13 + usage - HID_USAGE_F13) as nat))
    }
}

pub open spec fn key_id_fkey(key_id: u8) -> Option<Seq<char>> {
    if key_id < 1 || key_id > 12 {
        None
    } else {
        Some(f_key_name((12 + key_id) as nat))
    }
}

pub open spec fn opt_string_view(o: Option<String>) -> Option<Seq<char>> {
    match o {
        Some(s) => Some(s@),
        None => None,
    }
}

fn f_key_string(n: u32) -> (r: String)
    ensures
        r@ == f_key_name(n as nat),
{
    let mut r = String::new();
    r.push('F');
    push_decimal(&mut r, n);
    assert(r@ =~= f_key_name(n as nat));
    r
}

/// The function key that a keyboard usage code reports: F13 to F24 for the
/// usages `0x68` to `0x73`, nothing for any other.
pub fn usage_to_fkey(usage: u8) -> (r: Option<String>)
    ensures
        opt_string_view(r) == usage_fkey(usage),
{
    if usage < HID_USAGE_F13 || usage > HID_USAGE_F24 {
        return None;
    }
    Some(f_key_string(13 + (usage - HID_USAGE_F13) as u32))
}

/// The function key of an assist key id: F13 to F24 for the ids 1 to 12.
pub fn hid_key_id_to_f_key(key_id: u8) -> (r: Option<String>)
    ensures
        opt_string_view(r) == key_id_fkey(key_id),
{
    if key_id < 1 || key_id > 12 {
        return None;
    }
    Some(f_key_string(12 + key_id as u32))
}

/// Usage `0x67 + i` and assist key `i` name the same function key, for every
/// assist key id; no other usage or id names one.
pub proof fn lemma_usage_and_key_id_agree(key_id: u8)
    ensures
        1 <= key_id <= 12 ==> usage_fkey((0x67 + key_id) as u8) == key_id_fkey(key_id),
        key_id_fkey(key_id) is Some <==> 1 <= key_id <= 12,
        usage_fkey(key_id) is Some <==> HID_USAGE_F13 <= key_id <= HID_USAGE_F24,
{
}

/// A HID event from a Keychron keyboard.
#[derive(Debug, Clone)]
pub enum HidEvent {
    QuickstartKey { f_key: String },
    AssistKey { key_id: u8, data: Vec<u8> },
}

/// Which of a Keychron device's interfaces an interface is.
#[derive(Debug, Clone, Copy, PartialEq, Eq)]
pub enum HidInterface {
    /// The NKRO keyboard interface (usage page 0x01, usage 0x06).
    Keyboard,
    /// The vendor-defined assist interface (usage page 0xff00, usage 0x0d).
    Assist,
    Other,
}

pub open spec fn interface_of(usage_page: u16, usage: u16) -> HidInterface {
    if usage_page == 0x01 && usage == 0x06 {
        HidInterface::Keyboard
    } else if usage_page == 0xff00 && usage == 0x0d {
        HidInterface::Assist
    } else {
        HidInterface::Other
    }
}

/// Which interface a HID interface with this usage page and usage is.
pub fn classify_interface(usage_page: u16, usage: u16) -> (r: HidInterface)
    ensures
        r == interface_of(usage_page, usage),
{
    if usage_page == 0x01 && usage == 0x06 {
        HidInterface::Keyboard
    } else if (usage_page == 0xff00 || usage_page == 65280) && (usage == 0x0d || usage == 13) {
        HidInterface::Assist
    } else {
        HidInterface::Other
    }
}

/// Which interface of a Keychron keyboard a HID interface is; `Other` for
/// any other vendor's device.
pub fn keychron_interface(vendor_id: u16, usage_page: u16, usage: u16) -> (r: HidInterface)
    ensures
        r == if vendor_id == KEYCHRON_VENDOR_ID {
            interface_of(usage_page, usage)
        } else {
            HidInterface::Other
        },
{
    if vendor_id != KEYCHRON_VENDOR_ID {
        HidInterface::Other
    } else {
        classify_interface(usage_page, usage)
    }
}

pub open spec fn is_fkey_usage(u: u8) -> bool {
    HID_USAGE_F13 <= u <= HID_USAGE_F24
}

/// The function-key usages that a keyboard report holds, each once, in the
/// order of their first occurrence.
pub open spec fn report_fkey_usages(report: Seq<u8>) -> Seq<u8>
    decreases report.len(),
{
    if report.len() == 0 {
        Seq::empty()
    } else {
        let prev = report_fkey_usages(report.drop_last());
        let u = report.last();
        if is_fkey_usage(u) && !prev.contains(u) {
            prev.push(u)
        } else {
            prev
        }
    }
}

proof fn lemma_report_usages_are_fkeys(report: Seq<u8>)
    ensures
        forall|k: int|
            0 <= k < report_fkey_usages(report).len() ==> is_fkey_usage(
                #[trigger] report_fkey_usages(report)[k],
            ),
    decreases report.len(),
{
    if report.len() > 0 {
        lemma_report_usages_are_fkeys(report.drop_last());
        let prev = report_fkey_usages(report.drop_last());
        let cur = report_fkey_usages(report);
        assert forall|k: int| 0 <= k < cur.len() implies is_fkey_usage(#[trigger] cur[k]) by {
            if k < prev.len() {
                assert(cur[k] == prev[k]);
            }
        }
    }
}

/// The function keys that a report presses and that were not pressed before.
pub open spec fn newly_pressed(pressed: Seq<u8>, report: Seq<u8>) -> Seq<u8> {
    report_fkey_usages(report).filter(|u: u8| !pressed.contains(u))
}

proof fn lemma_report_usages_distinct(report: Seq<u8>)
    ensures
        report_fkey_usages(report).no_duplicates(),
    decreases report.len(),
{
    if report.len() > 0 {
        lemma_report_usages_distinct(report.drop_last());
    }
}

proof fn lemma_filter_no_duplicates(s: Seq<u8>, pred: spec_fn(u8) -> bool)
    requires
        s.no_duplicates(),
    ensures
        s.filter(pred).no_duplicates(),
    decreases s.len(),
{
    if s.len() > 0 {
        let t = s.drop_last();
        let x = s.last();
        assert(t.no_duplicates());
        lemma_filter_no_duplicates(t, pred);
        assert(s =~= t.push(x));
        t.lemma_filter_push(x, pred);
        if pred(x) && t.filter(pred).contains(x) {
            t.lemma_filter_contains_rev(pred, x);
            let k = choose|k: int| 0 <= k < t.len() && t[k] == x;
            assert(s[k] == s[s.len() - 1]);
        }
    }
}

/// A key held from one report to the next is announced once: a report read
/// while its own function keys are held announces none, and no report
/// announces a key twice.
pub proof fn lemma_held_keys_announced_once(pressed: Seq<u8>, report: Seq<u8>)
    ensures
        newly_pressed(report_fkey_usages(report), report).len() == 0,
        newly_pressed(pressed, report).no_duplicates(),
{
    let p = report_fkey_usages(report);
    let pred = |u: u8| !p.contains(u);
    assert forall|k: int| 0 <= k < p.len() implies !pred(#[trigger] p[k]) by {
        assert(p.contains(p[k]));
    }
    p.lemma_all_neg_filter_empty(pred);
    lemma_report_usages_distinct(report);
    lemma_filter_no_duplicates(p, |u: u8| !pressed.contains(u));
}

fn seq_has(v: &Vec<u8>, x: u8) -> (r: bool)
    ensures
        r == v@.contains(x),
{
    let mut i: usize = 0;
    while i < v.len()
        invariant
            i <= v@.len(),
            forall|j: int| 0 <= j < i ==> v@[j] != x,
        decreases v@.len() - i,
    {
        if v[i] == x {
            return true;
        }
        i = i + 1;
    }
    false
}

/// One keyboard report read while `pressed` were held: the function keys now
/// held (as usages) and the names of those newly pressed, for which a
/// quick-start event is sent.
pub fn keyboard_report_step(pressed: &Vec<u8>, report: &Vec<u8>) -> (r: (Vec<u8>, Vec<String>))
    ensures
        r.0@ == report_fkey_usages(report@),
        r.1@.len() == newly_pressed(pressed@, report@).len(),
        forall|i: int| 0 <= i < r.1@.len() ==> usage_fkey(newly_pressed(pressed@, report@)[i]) == Some(
            #[trigger] r.1@[i]@,
        ),
{
    let mut now: Vec<u8> = Vec::new();
    let mut i: usize = 0;
    while i < report.len()
        invariant
            i <= report@.len(),
            now@ == report_fkey_usages(report@.take(i as int)),
        decreases report@.len() - i,
    {
        assert(report@.take(i + 1).drop_last() =~= report@.take(i as int));
        let u = report[i];
        if HID_USAGE_F13 <= u && u <= HID_USAGE_F24 && !seq_has(&now, u) {
            now.push(u);
        }
        i = i + 1;
    }
    assert(report@.take(report@.len() as int) =~= report@);
    proof {
        lemma_report_usages_are_fkeys(report@);
    }
    let ghost fresh = now@.filter(|u: u8| !pressed@.contains(u));
    let mut newly: Vec<String> = Vec::new();
    let ghost mut kept: Seq<u8> = Seq::empty();
    let mut j: usize = 0;
    while j < now.len()
        invariant
            j <= now@.len(),
            now@ == report_fkey_usages(report@),
            fresh == now@.filter(|u: u8| !pressed@.contains(u)),
            kept == now@.take(j as int).filter(|u: u8| !pressed@.contains(u)),
            newly@.len() == kept.len(),
            forall|k: int| 0 <= k < now@.len() ==> is_fkey_usage(#[trigger] now@[k]),
            forall|k: int| 0 <= k < newly@.len() ==> usage_fkey(kept[k]) == Some(#[trigger] newly@[k]@),
        decreases now@.len() - j,
    {
        assert(now@.take(j + 1) =~= now@.take(j as int).push(now@[j as int]));
        proof {
            now@.take(j as int).lemma_filter_push(now@[j as int], |u: u8| !pressed@.contains(u));
        }
        let u = now[j];
        if !seq_has(pressed, u) {
            let name = f_key_string(13 + (u - HID_USAGE_F13) as u32);
            newly.push(name);
            proof {
                kept = kept.push(u);
            }
        }
        j = j + 1;
    }
    assert(now@.take(now@.len() as int) =~= now@);
    (now, newly)
}

/// The key id that an assist report carries: its first byte, or 1 when the
/// report is empty or starts with 0.
pub fn assist_key_id(report: &Vec<u8>) -> (r: u8)
    ensures
        r == if report@.len() == 0 || report@[0] == 0 { 1 } else { report@[0] },
{
    if report.len() == 0 {
        1
    } else if report[0] == 0 {
        1
    } else {
        report[0]
    }
}

/// A connected Keychron keyboard.
#[derive(Debug, Clone, PartialEq)]
pub struct KeychronDevice {
    pub vp_id: u32,
    pub vendor_id: u16,
    pub product_id: u16,
    pub name: String,
}

pub struct KeychronDeviceView {
    pub vp_id: u32,
    pub vendor_id: u16,
    pub product_id: u16,
    pub name: Seq<char>,
}

impl View for KeychronDevice {
    type V = KeychronDeviceView;

    open spec fn view(&self) -> KeychronDeviceView {
        KeychronDeviceView {
            vp_id: self.vp_id,
            vendor_id: self.vendor_id,
            product_id: self.product_id,
            name: self.name@,
        }
    }
}

/// One HID interface as the system enumerates it.
#[derive(Debug, Clone)]
pub struct HidDeviceRecord {
    pub vendor_id: u16,
    pub product_id: u16,
    pub product_string: Option<String>,
}

pub struct HidDeviceRecordView {
    pub vendor_id: u16,
    pub product_id: u16,
    pub product_string: Option<Seq<char>>,
}

impl View for HidDeviceRecord {
    type V = HidDeviceRecordView;

    open spec fn view(&self) -> HidDeviceRecordView {
        HidDeviceRecordView {
            vendor_id: self.vendor_id,
            product_id: self.product_id,
            product_string: opt_string_view(self.product_string),
        }
    }
}

/// The vendor and product of a device, as one number.
pub open spec fn vp_id_of(vendor_id: u16, product_id: u16) -> u32 {
    (vendor_id as u32 * 65536 + product_id as u32) as u32
}

/// The name that a device is listed under: its trimmed product string, or
/// `Keychron (0x....)` with the product id when that is empty.
pub open spec fn display_name(r: HidDeviceRecordView) -> Seq<char> {
    let name = trim(
        match r.product_string {
            Some(s) => s,
            None => Seq::empty(),
        },
    );
    if name.len() > 0 {
        name
    } else {
        "Keychron (0x"@ + hex4(r.product_id) + ")"@
    }
}

pub open spec fn device_of(r: HidDeviceRecordView) -> KeychronDeviceView {
    KeychronDeviceView {
        vp_id: vp_id_of(r.vendor_id, r.product_id),
        vendor_id: r.vendor_id,
        product_id: r.product_id,
        name: display_name(r),
    }
}

pub open spec fn devices_view(v: Seq<KeychronDevice>) -> Seq<KeychronDeviceView> {
    v.map_values(|d: KeychronDevice| d@)
}

pub open spec fn records_view(v: Seq<HidDeviceRecord>) -> Seq<HidDeviceRecordView> {
    v.map_values(|r: HidDeviceRecord| r@)
}

/// The position of the device listed under `vp` in `ds`, or -1.
pub open spec fn device_index(ds: Seq<KeychronDeviceView>, vp: u32) -> int
    decreases ds.len(),
{
    if ds.len() == 0 {
        -1
    } else if ds.last().vp_id == vp {
        ds.len() - 1
    } else {
        device_index(ds.drop_last(), vp)
    }
}

/// The Keychron keyboards among the enumerated interfaces, one per vendor and
/// product, in the order of first appearance. A later interface of a listed
/// device replaces it only when it has a name and the listed one has none.
pub open spec fn keychron_devices(records: Seq<HidDeviceRecordView>) -> Seq<KeychronDeviceView>
    decreases records.len(),
{
    if records.len() == 0 {
        Seq::empty()
    } else {
        let prev = keychron_devices(records.drop_last());
        let r = records.last();
        if r.vendor_id != KEYCHRON_VENDOR_ID {
            prev
        } else {
            let vp = vp_id_of(r.vendor_id, r.product_id);
            let i = device_index(prev, vp);
            let name = trim(
                match r.product_string {
                    Some(s) => s,
                    None => Seq::empty(),
                },
            );
            if i < 0 {
                prev.push(device_of(r))
            } else if name.len() > 0 && prev[i].name.len() == 0 {
                prev.update(i, device_of(r))
            } else {
                prev
            }
        }
    }
}

proof fn lemma_device_index(ds: Seq<KeychronDeviceView>, vp: u32)
    ensures
        -1 <= device_index(ds, vp) < ds.len(),
        device_index(ds, vp) >= 0 ==> ds[device_index(ds, vp)].vp_id == vp,
        device_index(ds, vp) < 0 ==> forall|j: int| 0 <= j < ds.len() ==> ds[j].vp_id != vp,
    decreases ds.len(),
{
    if ds.len() > 0 && ds.last().vp_id != vp {
        lemma_device_index(ds.drop_last(), vp);
        assert forall|j: int| 0 <= j < ds.len() - 1 implies ds[j] == ds.drop_last()[j] by {}
    }
}

fn find_device(ds: &Vec<KeychronDevice>, vp: u32) -> (r: Option<usize>)
    ensures
        match r {
            Some(i) => i as int == device_index(devices_view(ds@), vp),
            None => device_index(devices_view(ds@), vp) < 0,
        },
    decreases ds@.len(),
{
    let ghost dv = devices_view(ds@);
    assert(dv.take(ds@.len() as int) =~= dv);
    let mut i: usize = ds.len();
    while i > 0
        invariant
            i <= ds@.len(),
            dv == devices_view(ds@),
            device_index(dv, vp) == device_index(dv.take(i as int), vp),
        decreases i,
    {
        assert(dv.take(i as int).drop_last() =~= dv.take(i - 1));
        assert(dv.take(i as int).last() == ds@[i - 1]@);
        if ds[i - 1].vp_id == vp {
            return Some(i - 1);
        }
        i = i - 1;
    }
    None
}

/// The name string of an interface, trimmed.
fn record_name(r: &HidDeviceRecord) -> (n: String)
    ensures
        n@ == trim(
            match r@.product_string {
                Some(s) => s,
                None => Seq::empty(),
            },
        ),
{
    match &r.product_string {
        Some(s) => trimmed(s.as_str()),
        None => {
            proof {
                reveal_strlit("");
            }
            trimmed("")
        },
    }
}

fn device_from_record(r: &HidDeviceRecord, name: String) -> (d: KeychronDevice)
    requires
        r.vendor_id == KEYCHRON_VENDOR_ID,
        name@ == trim(
            match r@.product_string {
                Some(s) => s,
                None => Seq::empty(),
            },
        ),
    ensures
        d@ == device_of(r@),
{
    let vp_id = ((r.vendor_id as u32) << 16) | (r.product_id as u32);
    let v = r.vendor_id as u32;
    let p = r.product_id as u32;
    assert(((v << 16) | p) == v * 65536 + p) by (bit_vector)
        requires
            v < 65536,
            p < 65536,
    ;
    let display = if !name.as_str().is_empty() {
        name
    } else {
        let mut s = copy_str("Keychron (0x");
        push_hex4(&mut s, r.product_id);
        s.push(')');
        proof {
            reveal_strlit(")");
            assert(s@ =~= "Keychron (0x"@ + hex4(r.product_id) + ")"@);
        }
        s
    };
    proof {
        if name@.len() > 0 {
        } else {
            assert(name@.len() == 0);
        }
    }
    KeychronDevice { vp_id, vendor_id: r.vendor_id, product_id: r.product_id, name: display }
}

/// The Keychron keyboards among the enumerated HID interfaces.
pub fn keychron_devices_of(records: &Vec<HidDeviceRecord>) -> (r: Vec<KeychronDevice>)
    ensures
        devices_view(r@) == keychron_devices(records_view(records@)),
{
    let ghost rv = records_view(records@);
    let mut out: Vec<KeychronDevice> = Vec::new();
    let mut i: usize = 0;
    while i < records.len()
        invariant
            i <= records@.len(),
            rv == records_view(records@),
            devices_view(out@) == keychron_devices(rv.take(i as int)),
        decreases records@.len() - i,
    {
        assert(rv.take(i + 1).drop_last() =~= rv.take(i as int));
        assert(rv.take(i + 1).last() == records@[i as int]@);
        let rec = &records[i];
        if rec.vendor_id == KEYCHRON_VENDOR_ID {
            let name = record_name(rec);
            proof {
                lemma_device_index(devices_view(out@), vp_id_of(rec.vendor_id, rec.product_id));
            }
            let vp = ((rec.vendor_id as u32) << 16) | (rec.product_id as u32);
            let v = rec.vendor_id as u32;
            let p = rec.product_id as u32;
            assert(((v << 16) | p) == v * 65536 + p) by (bit_vector)
                requires
                    v < 65536,
                    p < 65536,
            ;
            match find_device(&out, vp) {
                None => {
                    let d = device_from_record(rec, name);
                    out.push(d);
                    assert(devices_view(out@) =~= keychron_devices(rv.take(i as int)).push(d@));
                },
                Some(k) => {
                    assert(devices_view(out@)[k as int] == out@[k as int]@);
                    if !name.as_str().is_empty() && out[k].name.as_str().is_empty() {
                        let d = device_from_record(rec, name);
                        let ghost before = devices_view(out@);
                        out.set(k, d);
                        assert(devices_view(out@) =~= before.update(k as int, d@));
                    }
                },
            }
        }
        i = i + 1;
    }
    assert(rv.take(records@.len() as int) =~= rv);
    out
}

/// Each vendor-and-product pair is listed at most once, only Keychron
/// devices are listed, and each under a non-empty name (so the first
/// interface of a device is the one listed).
pub proof fn lemma_devices_distinct(records: Seq<HidDeviceRecordView>)
    ensures
        forall|i: int, j: int|
            0 <= i < j < keychron_devices(records).len() ==> keychron_devices(records)[i].vp_id
                != keychron_devices(records)[j].vp_id,
        forall|i: int|
            0 <= i < keychron_devices(records).len() ==> keychron_devices(records)[i].vendor_id
                == KEYCHRON_VENDOR_ID,
        forall|i: int|
            0 <= i < keychron_devices(records).len() ==> keychron_devices(records)[i].name.len() > 0,
    decreases records.len(),
{
    if records.len() > 0 {
        lemma_devices_distinct(records.drop_last());
        let prev = keychron_devices(records.drop_last());
        let r = records.last();
        lemma_device_index(prev, vp_id_of(r.vendor_id, r.product_id));
        assert(display_name(r).len() > 0);
    }
}

} // verus!
