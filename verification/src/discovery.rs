//! Pure discovery logic over a snapshot of the USB device tree: which
//! entries are debug adapters, and how each adapter's logical channel names
//! map to the serial devices found beside them.

use vstd::prelude::*;
use crate::chars::{has_prefix, str_has_prefix, str_equal};
use crate::servo::{
    key_index, lemma_key_index, servo_views, tty_views, LocalServo, ServoView,
};

verus! {

/// One interface directory of a USB device: its `interface` attribute
/// (absent when the attribute could not be read) and the names of the
/// directory entries beside it.
pub struct UsbInterface {
    pub name: Option<String>,
    pub entries: Vec<String>,
}

/// The mathematical value of one interface directory.
pub struct UsbInterfaceView {
    pub name: Option<Seq<char>>,
    pub entries: Seq<Seq<char>>,
}

impl View for UsbInterface {
    type V = UsbInterfaceView;

    open spec fn view(&self) -> UsbInterfaceView {
        UsbInterfaceView {
            name: crate::servo::opt_view(self.name),
            entries: self.entries@.map_values(|e: String| e@),
        }
    }
}

/// One entry of the USB device tree: its sysfs path, its `product` and
/// `serial` attributes (absent when unreadable), and its interface
/// directories (absent when the device directory could not be read).
pub struct UsbDeviceEntry {
    pub sysfs_path: String,
    pub product: Option<String>,
    pub serial: Option<String>,
    pub interfaces: Option<Vec<UsbInterface>>,
}

/// The mathematical value of one USB device-tree entry.
pub struct UsbDeviceView {
    pub sysfs_path: Seq<char>,
    pub product: Option<Seq<char>>,
    pub serial: Option<Seq<char>>,
    pub interfaces: Option<Seq<UsbInterfaceView>>,
}

impl View for UsbDeviceEntry {
    type V = UsbDeviceView;

    open spec fn view(&self) -> UsbDeviceView {
        UsbDeviceView {
            sysfs_path: self.sysfs_path@,
            product: crate::servo::opt_view(self.product),
            serial: crate::servo::opt_view(self.serial),
            interfaces: match self.interfaces {
                Some(l) => Some(l@.map_values(|i: UsbInterface| i@)),
                None => None,
            },
        }
    }
}

/// The views of a sequence of USB device-tree entries.
pub open spec fn usb_views(l: Seq<UsbDeviceEntry>) -> Seq<UsbDeviceView> {
    l.map_values(|d: UsbDeviceEntry| d@)
}

/// The product name belongs to one of the three recognized device families.
pub open spec fn recognized_product(p: Seq<char>) -> bool {
    has_prefix(p, "Servo"@) || has_prefix(p, "Cr50"@) || has_prefix(p, "Ti50"@)
}

/// The first directory entry naming a serial device (a `ttyUSB` name), if
/// any: an interface without one contributes nothing to the tty mapping.
pub open spec fn first_tty(entries: Seq<Seq<char>>) -> Option<Seq<char>>
    decreases entries.len(),
{
    if entries.len() == 0 {
        None
    } else if has_prefix(entries[0], "ttyUSB"@) {
        Some(entries[0])
    } else {
        first_tty(entries.skip(1))
    }
}

/// Insert with last-write-wins: a pair whose key is present replaces the
/// mapped value in place; a new key is appended.
pub open spec fn tty_insert(
    m: Seq<(Seq<char>, Seq<char>)>,
    k: Seq<char>,
    v: Seq<char>,
) -> Seq<(Seq<char>, Seq<char>)> {
    if key_index(m, k) >= 0 {
        m.update(key_index(m, k), (k, v))
    } else {
        m.push((k, v))
    }
}

/// The tty mapping accumulated over the interfaces, in order: each readable
/// interface that exposes a serial device adds one entry.
pub open spec fn spec_tty_map(ifaces: Seq<UsbInterfaceView>) -> Seq<(Seq<char>, Seq<char>)>
    decreases ifaces.len(),
{
    if ifaces.len() == 0 {
        Seq::empty()
    } else {
        let rest = spec_tty_map(ifaces.drop_last());
        match ifaces.last().name {
            None => rest,
            Some(k) => match first_tty(ifaces.last().entries) {
                None => rest,
                Some(t) => tty_insert(rest, k, t),
            },
        }
    }
}

/// A device-tree entry is a discovered adapter when its attributes are
/// readable, its product name is recognized, and its directory is readable.
pub open spec fn device_included(d: UsbDeviceView) -> bool {
    d.product is Some && d.serial is Some && recognized_product(d.product.unwrap())
        && d.interfaces is Some
}

/// The device record built from an included device-tree entry.
pub open spec fn servo_of(d: UsbDeviceView) -> ServoView {
    ServoView {
        product: d.product.unwrap(),
        serial: d.serial.unwrap(),
        usb_sysfs_path: d.sysfs_path,
        tty_list: spec_tty_map(d.interfaces.unwrap()),
        mac_addr: None,
        ec_version: None,
    }
}

/// The adapters discovered from a device-tree snapshot, in tree order.
pub open spec fn spec_discover(devs: Seq<UsbDeviceView>) -> Seq<ServoView>
    decreases devs.len(),
{
    if devs.len() == 0 {
        Seq::empty()
    } else {
        let rest = spec_discover(devs.drop_last());
        if device_included(devs.last()) {
            rest.push(servo_of(devs.last()))
        } else {
            rest
        }
    }
}

fn first_tty_exec(entries: &Vec<String>) -> (r: Option<String>)
    ensures
        crate::servo::opt_view(r) == first_tty(entries@.map_values(|e: String| e@)),
{
    let ghost views = entries@.map_values(|e: String| e@);
    assert(views.skip(0) =~= views);
    let mut i: usize = 0;
    while i < entries.len()
        invariant
            i <= views.len(),
            views == entries@.map_values(|e: String| e@),
            views.len() == entries@.len(),
            first_tty(views) == first_tty(views.skip(i as int)),
        decreases views.len() - i,
    {
        if str_has_prefix(entries[i].as_str(), "ttyUSB") {
            assert(views.skip(i as int)[0] == views[i as int]);
            return Some(entries[i].clone());
        }
        assert(views.skip(i as int)[0] == views[i as int]);
        assert(views.skip(i as int).skip(1) =~= views.skip(i + 1 as int));
        i = i + 1;
    }
    assert(views.skip(i as int).len() == 0);
    None
}

fn tty_map_insert(m: &mut Vec<(String, String)>, k: String, v: String)
    ensures
        tty_views(final(m)@) == tty_insert(tty_views(old(m)@), k@, v@),
{
    let ghost views = tty_views(m@);
    proof {
        lemma_key_index(views, k@);
    }
    let mut i: usize = 0;
    while i < m.len()
        invariant
            i <= views.len(),
            m@ == old(m)@,
            views == tty_views(m@),
            views.len() == m@.len(),
            forall|j: int| 0 <= j < i ==> (#[trigger] views[j]).0 != k@,
            key_index(views, k@) >= 0 ==> key_index(views, k@) < views.len() && views[key_index(
                views,
                k@,
            )].0 == k@ && (forall|j: int|
                0 <= j < key_index(views, k@) ==> (#[trigger] views[j]).0 != k@),
            key_index(views, k@) == -1 ==> (forall|j: int|
                0 <= j < views.len() ==> (#[trigger] views[j]).0 != k@),
        decreases views.len() - i,
    {
        if str_equal(m[i].0.as_str(), k.as_str()) {
            assert(views[i as int].0 == k@);
            assert(key_index(views, k@) == i);
            m.remove(i);
            m.insert(i, (k, v));
            assert(tty_views(m@) =~= tty_insert(views, k@, v@));
            return ;
        }
        i = i + 1;
    }
    m.push((k, v));
    assert(tty_views(m@) =~= tty_insert(views, k@, v@));
}

/// The adapters found in a snapshot of the USB device tree: entries with
/// readable attributes and a recognized product prefix, each with the tty
/// mapping built from its readable interfaces. A non-matching or unreadable
/// entry is excluded, not an error.
pub fn discover_from(entries: &Vec<UsbDeviceEntry>) -> (r: Vec<LocalServo>)
    ensures
        servo_views(r@) == spec_discover(usb_views(entries@)),
{
    let ghost devs = usb_views(entries@);
    let mut r: Vec<LocalServo> = Vec::new();
    let mut i: usize = 0;
    while i < entries.len()
        invariant
            i <= devs.len(),
            devs == usb_views(entries@),
            devs.len() == entries@.len(),
            servo_views(r@) =~= spec_discover(devs.subrange(0, i as int)),
        decreases devs.len() - i,
    {
        let e = &entries[i];
        let ghost d = devs[i as int];
        let included: bool = match (&e.product, &e.serial, &e.interfaces) {
            (Some(p), Some(_), Some(_)) => {
                str_has_prefix(p.as_str(), "Servo") || str_has_prefix(p.as_str(), "Cr50")
                    || str_has_prefix(p.as_str(), "Ti50")
            },
            _ => false,
        };
        assert(included == device_included(d));
        assert(devs.subrange(0, i + 1 as int).drop_last() =~= devs.subrange(0, i as int));
        assert(devs.subrange(0, i + 1 as int).last() == d);
        if included {
            let product = match &e.product {
                Some(p) => p.clone(),
                None => {
                    proof {
                        assert(false);
                    }
                    String::new()
                },
            };
            let serial = match &e.serial {
                Some(p) => p.clone(),
                None => {
                    proof {
                        assert(false);
                    }
                    String::new()
                },
            };
            let mut tty_list: Vec<(String, String)> = Vec::new();
            match &e.interfaces {
                Some(ifaces) => {
                    let ghost iviews = ifaces@.map_values(|x: UsbInterface| x@);
                    let mut j: usize = 0;
                    while j < ifaces.len()
                        invariant
                            j <= iviews.len(),
                            iviews == ifaces@.map_values(|x: UsbInterface| x@),
                            iviews.len() == ifaces@.len(),
                            tty_views(tty_list@) == spec_tty_map(iviews.subrange(0, j as int)),
                        decreases iviews.len() - j,
                    {
                        assert(iviews.subrange(0, j + 1 as int).drop_last() =~= iviews.subrange(
                            0,
                            j as int,
                        ));
                        assert(iviews.subrange(0, j + 1 as int).last() == iviews[j as int]);
                        match &ifaces[j].name {
                            Some(name) => {
                                match first_tty_exec(&ifaces[j].entries) {
                                    Some(tty) => {
                                        tty_map_insert(&mut tty_list, name.clone(), tty);
                                    },
                                    None => {},
                                }
                            },
                            None => {},
                        }
                        j = j + 1;
                    }
                    proof {
                        assert(iviews.subrange(0, iviews.len() as int) =~= iviews);
                    }
                },
                None => {
                    proof {
                        assert(false);
                    }
                },
            }
            let dev = LocalServo::new(
                product,
                serial,
                e.sysfs_path.clone(),
                tty_list,
                None,
                None,
            );
            proof {
                assert(dev@ =~= servo_of(d));
            }
            r.push(dev);
            assert(servo_views(r@) =~= spec_discover(devs.subrange(0, i + 1 as int)));
        } else {
            assert(servo_views(r@) =~= spec_discover(devs.subrange(0, i + 1 as int)));
        }
        i = i + 1;
    }
    assert(devs.subrange(0, devs.len() as int) =~= devs);
    r
}

/// Every discovered adapter's product name starts with one of the three
/// recognized family prefixes.
pub proof fn lemma_discovered_products_recognized(devs: Seq<UsbDeviceView>)
    ensures
        forall|i: int|
            0 <= i < spec_discover(devs).len() ==> recognized_product(
                (#[trigger] spec_discover(devs)[i]).product,
            ),
    decreases devs.len(),
{
    if devs.len() > 0 {
        lemma_discovered_products_recognized(devs.drop_last());
    }
}

/// A found serial device always carries the `ttyUSB` name prefix.
proof fn lemma_first_tty_prefix(entries: Seq<Seq<char>>)
    ensures
        first_tty(entries) matches Some(t) ==> has_prefix(t, "ttyUSB"@),
    decreases entries.len(),
{
    if entries.len() > 0 && !has_prefix(entries[0], "ttyUSB"@) {
        lemma_first_tty_prefix(entries.skip(1));
    }
}

/// Every value of the accumulated tty mapping is a found serial device.
proof fn lemma_tty_map_values(ifaces: Seq<UsbInterfaceView>)
    ensures
        forall|j: int|
            0 <= j < spec_tty_map(ifaces).len() ==> has_prefix(
                (#[trigger] spec_tty_map(ifaces)[j]).1,
                "ttyUSB"@,
            ),
    decreases ifaces.len(),
{
    if ifaces.len() > 0 {
        lemma_tty_map_values(ifaces.drop_last());
        let rest = spec_tty_map(ifaces.drop_last());
        match ifaces.last().name {
            None => {},
            Some(k) => match first_tty(ifaces.last().entries) {
                None => {},
                Some(t) => {
                    lemma_first_tty_prefix(ifaces.last().entries);
                    lemma_key_index(rest, k);
                    assert forall|j: int|
                        0 <= j < spec_tty_map(ifaces).len() implies has_prefix(
                        (#[trigger] spec_tty_map(ifaces)[j]).1,
                        "ttyUSB"@,
                    ) by {
                        let m = spec_tty_map(ifaces);
                        if key_index(rest, k) >= 0 {
                            if j != key_index(rest, k) {
                                assert(m[j] == rest[j]);
                            }
                        } else {
                            if j < rest.len() {
                                assert(m[j] == rest[j]);
                            }
                        }
                    }
                },
            },
        }
    }
}


/// Every entry of the accumulated tty mapping was found: it names an
/// interface of the device, and its value is the serial device that
/// `first_tty` found among that interface's directory entries. An interface
/// whose serial device was not found contributes no entry at all.
pub proof fn lemma_tty_map_entries_found(ifaces: Seq<UsbInterfaceView>)
    ensures
        forall|j: int|
            0 <= j < spec_tty_map(ifaces).len() ==> exists|a: int|
                0 <= a < ifaces.len() && (#[trigger] ifaces[a]).name == Some(
                    (#[trigger] spec_tty_map(ifaces)[j]).0,
                ) && first_tty(ifaces[a].entries) == Some(spec_tty_map(ifaces)[j].1),
    decreases ifaces.len(),
{
    if ifaces.len() > 0 {
        lemma_tty_map_entries_found(ifaces.drop_last());
        let rest = spec_tty_map(ifaces.drop_last());
        let m = spec_tty_map(ifaces);
        match ifaces.last().name {
            None => {
                assert forall|j: int| 0 <= j < m.len() implies exists|a: int|
                    0 <= a < ifaces.len() && (#[trigger] ifaces[a]).name == Some(
                        (#[trigger] m[j]).0,
                    ) && first_tty(ifaces[a].entries) == Some(m[j].1) by {
                    assert(m[j] == rest[j]);
                    let a = choose|a: int|
                        0 <= a < ifaces.drop_last().len() && (#[trigger] ifaces.drop_last()[
                            a
                        ]).name == Some(rest[j].0) && first_tty(ifaces.drop_last()[a].entries)
                            == Some(rest[j].1);
                    assert(ifaces[a] == ifaces.drop_last()[a]);
                }
            },
            Some(k) => match first_tty(ifaces.last().entries) {
                None => {
                    assert forall|j: int| 0 <= j < m.len() implies exists|a: int|
                        0 <= a < ifaces.len() && (#[trigger] ifaces[a]).name == Some(
                            (#[trigger] m[j]).0,
                        ) && first_tty(ifaces[a].entries) == Some(m[j].1) by {
                        assert(m[j] == rest[j]);
                        let a = choose|a: int|
                            0 <= a < ifaces.drop_last().len() && (#[trigger] ifaces.drop_last()[
                                a
                            ]).name == Some(rest[j].0) && first_tty(ifaces.drop_last()[a].entries)
                                == Some(rest[j].1);
                        assert(ifaces[a] == ifaces.drop_last()[a]);
                    }
                },
                Some(t) => {
                    lemma_key_index(rest, k);
                    assert forall|j: int| 0 <= j < m.len() implies exists|a: int|
                        0 <= a < ifaces.len() && (#[trigger] ifaces[a]).name == Some(
                            (#[trigger] m[j]).0,
                        ) && first_tty(ifaces[a].entries) == Some(m[j].1) by {
                        let own = ifaces.len() - 1;
                        if key_index(rest, k) >= 0 {
                            if j == key_index(rest, k) {
                                assert(m[j] == (k, t));
                                assert(ifaces[own].name == Some(m[j].0) && first_tty(
                                    ifaces[own].entries,
                                ) == Some(m[j].1));
                            } else {
                                assert(m[j] == rest[j]);
                                let a = choose|a: int|
                                    0 <= a < ifaces.drop_last().len() && (
                                    #[trigger] ifaces.drop_last()[a]).name == Some(rest[j].0)
                                        && first_tty(ifaces.drop_last()[a].entries) == Some(
                                        rest[j].1,
                                    );
                                assert(ifaces[a] == ifaces.drop_last()[a]);
                            }
                        } else {
                            if j < rest.len() {
                                assert(m[j] == rest[j]);
                                let a = choose|a: int|
                                    0 <= a < ifaces.drop_last().len() && (
                                    #[trigger] ifaces.drop_last()[a]).name == Some(rest[j].0)
                                        && first_tty(ifaces.drop_last()[a].entries) == Some(
                                        rest[j].1,
                                    );
                                assert(ifaces[a] == ifaces.drop_last()[a]);
                            } else {
                                assert(m[j] == (k, t));
                                assert(ifaces[own].name == Some(m[j].0) && first_tty(
                                    ifaces[own].entries,
                                ) == Some(m[j].1));
                            }
                        }
                    }
                },
            },
        }
    }
}

/// The tty mapping of every discovered adapter holds only interfaces whose
/// serial device was actually found: each mapped value is a directory entry
/// carrying the `ttyUSB` name prefix, never a placeholder for a missing one.
pub proof fn lemma_discovered_ttys_found(devs: Seq<UsbDeviceView>)
    ensures
        forall|i: int, j: int|
            0 <= i < spec_discover(devs).len() && 0 <= j < spec_discover(devs)[i].tty_list.len()
                ==> has_prefix((#[trigger] spec_discover(devs)[i].tty_list[j]).1, "ttyUSB"@),
    decreases devs.len(),
{
    if devs.len() > 0 {
        lemma_discovered_ttys_found(devs.drop_last());
        if device_included(devs.last()) {
            lemma_tty_map_values(devs.last().interfaces.unwrap());
        }
    }
}

/// A character that the MAC-address token shape accepts: a digit or an
/// upper-case letter, as the hexadecimal groups are reported by the device.
pub open spec fn is_mac_char(c: char) -> bool {
    ('0' <= c && c <= '9') || ('A' <= c && c <= 'Z')
}

/// A MAC-address-shaped token starts at `i`: six two-character groups
/// separated by colons.
pub open spec fn mac_at(s: Seq<char>, i: int) -> bool {
    0 <= i && i + 17 <= s.len() && (forall|j: int|
        0 <= j < 17 ==> ((j % 3 == 2 ==> #[trigger] s[i + j] == ':') && (j % 3 != 2
            ==> is_mac_char(s[i + j]))))
}

/// The first position at or after `i` where a MAC-shaped token starts.
pub open spec fn first_mac_from(s: Seq<char>, i: int) -> Option<int>
    decreases s.len() - i,
{
    if !(0 <= i && i + 17 <= s.len()) {
        None
    } else if mac_at(s, i) {
        Some(i)
    } else {
        first_mac_from(s, i + 1)
    }
}

/// The first MAC-shaped token of a serial-channel response, if any.
pub open spec fn spec_extract_mac(s: Seq<char>) -> Option<Seq<char>> {
    match first_mac_from(s, 0) {
        None => None,
        Some(i) => Some(s.subrange(i, i + 17)),
    }
}

fn mac_window_at(v: &Vec<char>, i: usize) -> (r: bool)
    requires
        i + 17 <= v@.len(),
    ensures
        r == mac_at(v@, i as int),
{
    let n = v.len();
    let mut j: usize = 0;
    while j < 17
        invariant
            j <= 17,
            i + 17 <= v@.len(),
            n == v@.len(),
            forall|k: int|
                0 <= k < j ==> ((k % 3 == 2 ==> #[trigger] v@[i + k] == ':') && (k % 3 != 2
                    ==> is_mac_char(v@[i + k]))),
        decreases 17 - j,
    {
        let c = v[i + j];
        if j % 3 == 2 {
            if c != ':' {
                assert(!mac_at(v@, i as int));
                return false;
            }
        } else {
            if !(('0' <= c && c <= '9') || ('A' <= c && c <= 'Z')) {
                assert(!is_mac_char(v@[i + j]));
                assert(!mac_at(v@, i as int));
                return false;
            }
        }
        j = j + 1;
    }
    true
}

/// The first MAC-address-shaped token of the response `resp`, as captured
/// from the device's shell channel; absent when no token is shaped right.
pub fn extract_mac(resp: &str) -> (r: Option<String>)
    ensures
        crate::servo::opt_view(r) == spec_extract_mac(resp@),
{
    let v = crate::chars::str_to_chars(resp);
    let n = v.len();
    if n < 17 {
        return None;
    }
    let mut i: usize = 0;
    while i <= n - 17
        invariant
            17 <= n,
            n == v@.len(),
            v@ == resp@,
            i <= n,
            first_mac_from(resp@, 0) == first_mac_from(resp@, i as int),
        decreases n - i,
    {
        if mac_window_at(&v, i) {
            let mut out: Vec<char> = Vec::new();
            let mut j: usize = 0;
            while j < 17
                invariant
                    j <= 17,
                    i + 17 <= v@.len(),
                    v@.len() <= usize::MAX,
                    out@ =~= v@.subrange(i as int, i + j),
                decreases 17 - j,
            {
                out.push(v[i + j]);
                assert(out@ =~= v@.subrange(i as int, i + j + 1));
                j = j + 1;
            }
            return Some(crate::chars::chars_to_string(&out));
        }
        i = i + 1;
    }
    assert(first_mac_from(resp@, i as int) is None);
    None
}

/// A line of the response starts at `i`.
pub open spec fn line_start(s: Seq<char>, i: int) -> bool {
    i == 0 || s[i - 1] == '\n'
}

/// The version-report marker opens a line at `i`.
pub open spec fn ro_at(s: Seq<char>, i: int) -> bool {
    0 <= i && i + 3 <= s.len() && line_start(s, i) && s.subrange(i, i + 3) == "RO:"@
}

/// The first position at or after `i` where a marker line starts.
pub open spec fn first_ro_from(s: Seq<char>, i: int) -> Option<int>
    decreases s.len() - i,
{
    if !(0 <= i && i + 3 <= s.len()) {
        None
    } else if ro_at(s, i) {
        Some(i)
    } else {
        first_ro_from(s, i + 1)
    }
}

/// The position of the first character at or after `i` that is not a space
/// or a tab.
pub open spec fn skip_ws_from(s: Seq<char>, i: int) -> int
    decreases s.len() - i,
{
    if 0 <= i && i < s.len() && (s[i] == ' ' || s[i] == '\t') {
        skip_ws_from(s, i + 1)
    } else {
        i
    }
}

/// The position of the end of the line that position `i` lies on.
pub open spec fn line_end_from(s: Seq<char>, i: int) -> int
    decreases s.len() - i,
{
    if 0 <= i && i < s.len() && s[i] != '\n' {
        line_end_from(s, i + 1)
    } else {
        i
    }
}

/// The version string of a serial-channel response: what follows the first
/// line-opening `RO:` marker, leading blanks stripped, up to the end of the
/// line; absent when there is no marker line or nothing follows it.
pub open spec fn spec_extract_version(s: Seq<char>) -> Option<Seq<char>> {
    match first_ro_from(s, 0) {
        None => None,
        Some(i) => {
            let j = skip_ws_from(s, i + 3);
            let e = line_end_from(s, j);
            if j < e {
                Some(s.subrange(j, e))
            } else {
                None
            }
        },
    }
}

/// The version string captured from the device's EC console response, if
/// the response carries one; an empty report counts as unavailable.
pub fn extract_ec_version(resp: &str) -> (r: Option<String>)
    ensures
        crate::servo::opt_view(r) == spec_extract_version(resp@),
{
    proof {
        reveal_strlit("RO:");
    }
    let v = crate::chars::str_to_chars(resp);
    let n = v.len();
    if n < 3 {
        return None;
    }
    let marker = crate::chars::str_to_chars("RO:");
    let mut i: usize = 0;
    let mut found: bool = false;
    while i <= n - 3 && !found
        invariant
            n == v@.len(),
            v@ == resp@,
            marker@ == "RO:"@,
            i <= n,
            3 <= n,
            found ==> first_ro_from(resp@, 0) == Some(i as int) && i + 3 <= n,
            !found ==> first_ro_from(resp@, 0) == first_ro_from(resp@, i as int),
        decreases n - i, (if found { 0int } else { 1int }),
    {
        proof {
            reveal_strlit("RO:");
        }
        let at_line_start = i == 0 || v[i - 1] == '\n';
        if at_line_start && crate::chars::chars_match_at(&v, i, &marker) {
            assert(resp@.subrange(i as int, i + 3) =~= resp@.skip(i as int).subrange(0, 3));
            assert(ro_at(resp@, i as int));
            found = true;
        } else {
            assert(!ro_at(resp@, i as int)) by {
                if ro_at(resp@, i as int) {
                    assert(resp@.subrange(i as int, i + 3) =~= resp@.skip(i as int).subrange(
                        0,
                        3,
                    ));
                }
            }
            i = i + 1;
        }
    }
    if !found {
        proof {
            reveal_strlit("RO:");
            assert(first_ro_from(resp@, i as int) is None);
        }
        return None;
    }
    let mut j: usize = i + 3;
    while j < n && (v[j] == ' ' || v[j] == '\t')
        invariant
            n == v@.len(),
            v@ == resp@,
            i + 3 <= j <= n,
            skip_ws_from(resp@, i + 3) == skip_ws_from(resp@, j as int),
        decreases n - j,
    {
        j = j + 1;
    }
    assert(skip_ws_from(resp@, j as int) == j);
    let mut e: usize = j;
    while e < n && v[e] != '\n'
        invariant
            n == v@.len(),
            v@ == resp@,
            j <= e <= n,
            line_end_from(resp@, j as int) == line_end_from(resp@, e as int),
        decreases n - e,
    {
        e = e + 1;
    }
    assert(line_end_from(resp@, e as int) == e);
    if j < e {
        let mut out: Vec<char> = Vec::new();
        let mut k: usize = j;
        while k < e
            invariant
                j <= k <= e <= n,
                n == v@.len(),
                v@ == resp@,
                out@ =~= resp@.subrange(j as int, k as int),
            decreases e - k,
        {
            out.push(v[k]);
            assert(out@ =~= resp@.subrange(j as int, k + 1 as int));
            k = k + 1;
        }
        Some(crate::chars::chars_to_string(&out))
    } else {
        None
    }
}

/// The MAC address an enrichment pass records: what the shell-channel
/// response yields, and only for a device that exposes that channel.
pub open spec fn spec_mac_enrichment(d: ServoView, resp: Option<Seq<char>>) -> Option<Seq<char>> {
    if crate::servo::tty_lookup(d.tty_list, "Servo EC Shell"@) is Some {
        match resp {
            Some(s) => spec_extract_mac(s),
            None => None,
        }
    } else {
        None
    }
}

/// The EC version an enrichment pass records: what the EC-console response
/// yields, and only for a device that exposes that channel.
pub open spec fn spec_version_enrichment(d: ServoView, resp: Option<Seq<char>>) -> Option<
    Seq<char>,
> {
    if crate::servo::tty_lookup(d.tty_list, "EC"@) is Some {
        match resp {
            Some(s) => spec_extract_version(s),
            None => None,
        }
    } else {
        None
    }
}

/// The device after one enrichment pass with the given channel responses.
pub open spec fn spec_enrich(
    d: ServoView,
    mac_resp: Option<Seq<char>>,
    ver_resp: Option<Seq<char>>,
) -> ServoView {
    ServoView {
        mac_addr: spec_mac_enrichment(d, mac_resp),
        ec_version: spec_version_enrichment(d, ver_resp),
        ..d
    }
}

/// One device of the slow discovery pass: the responses captured on the
/// device's shell and EC-console channels (absent when the channel is
/// missing or the query failed) degrade to absent enrichment fields, never
/// to an error.
pub fn enrich(device: &LocalServo, mac_response: Option<&str>, version_response: Option<&str>) -> (r: LocalServo)
    ensures
        r@ == spec_enrich(
            device@,
            match mac_response {
                Some(s) => Some(s@),
                None => None,
            },
            match version_response {
                Some(s) => Some(s@),
                None => None,
            },
        ),
{
    let mac_addr: Option<String> = match device.tty_path("Servo EC Shell") {
        Ok(_) => match mac_response {
            Some(s) => extract_mac(s),
            None => None,
        },
        Err(_) => None,
    };
    let ec_version: Option<String> = match device.tty_path("EC") {
        Ok(_) => match version_response {
            Some(s) => extract_ec_version(s),
            None => None,
        },
        Err(_) => None,
    };
    let r = device.with_enrichment(mac_addr, ec_version);
    proof {
        assert(r@ =~= spec_enrich(
            device@,
            match mac_response {
                Some(s) => Some(s@),
                None => None,
            },
            match version_response {
                Some(s) => Some(s@),
                None => None,
            },
        ));
    }
    r
}

/// The whole slow discovery pass over a post-reset snapshot: each device is
/// enriched from its own pair of channel responses, and one device's failed
/// queries never disturb the rest of the batch.
pub fn enrich_devices(
    devices: &Vec<LocalServo>,
    responses: &Vec<(Option<String>, Option<String>)>,
) -> (r: Vec<LocalServo>)
    requires
        devices@.len() == responses@.len(),
    ensures
        r@.len() == devices@.len(),
        forall|i: int|
            0 <= i < r@.len() ==> (#[trigger] servo_views(r@)[i]) == spec_enrich(
                servo_views(devices@)[i],
                crate::servo::opt_view(responses@[i].0),
                crate::servo::opt_view(responses@[i].1),
            ),
{
    let mut r: Vec<LocalServo> = Vec::new();
    let mut i: usize = 0;
    while i < devices.len()
        invariant
            i <= devices@.len(),
            devices@.len() == responses@.len(),
            r@.len() == i,
            forall|k: int|
                0 <= k < i ==> (#[trigger] servo_views(r@)[k]) == spec_enrich(
                    servo_views(devices@)[k],
                    crate::servo::opt_view(responses@[k].0),
                    crate::servo::opt_view(responses@[k].1),
                ),
        decreases devices@.len() - i,
    {
        let mac_resp: Option<&str> = match &responses[i].0 {
            Some(s) => Some(s.as_str()),
            None => None,
        };
        let ver_resp: Option<&str> = match &responses[i].1 {
            Some(s) => Some(s.as_str()),
            None => None,
        };
        let d = enrich(&devices[i], mac_resp, ver_resp);
        let ghost prev = r@;
        let ghost dv = d@;
        r.push(d);
        proof {
            assert(servo_views(r@).len() == i + 1);
            assert forall|k: int|
                0 <= k < i + 1 implies (#[trigger] servo_views(r@)[k]) == spec_enrich(
                servo_views(devices@)[k],
                crate::servo::opt_view(responses@[k].0),
                crate::servo::opt_view(responses@[k].1),
            ) by {
                if k < i {
                    assert(servo_views(r@)[k] == servo_views(prev)[k]);
                } else {
                    assert(servo_views(r@)[k] == dv);
                    assert(servo_views(devices@)[k] == devices@[k]@);
                }
            }
        }
        i = i + 1;
    }
    r
}

} // verus!
