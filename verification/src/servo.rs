//! The servo device model: one discovered debug adapter ([`LocalServo`]), the
//! persisted registry of adapters ([`ServoList`]), lookup by serial number and
//! reset planning.

use vstd::prelude::*;
use crate::chars::str_equal;
use crate::error::ServoError;

verus! {

/// The mathematical value of one discovered device: every field as a plain
/// sequence of characters, the tty mapping as an association list in
/// insertion order.
#[verifier::ext_equal]
pub struct ServoView {
    pub product: Seq<char>,
    pub serial: Seq<char>,
    pub usb_sysfs_path: Seq<char>,
    pub tty_list: Seq<(Seq<char>, Seq<char>)>,
    pub mac_addr: Option<Seq<char>>,
    pub ec_version: Option<Seq<char>>,
}

/// Index of the first pair in `m` whose key is `k`, or `-1` when no pair
/// has that key.
pub open spec fn key_index(m: Seq<(Seq<char>, Seq<char>)>, k: Seq<char>) -> int
    decreases m.len(),
{
    if m.len() == 0 {
        -1
    } else if m[0].0 == k {
        0
    } else {
        let r = key_index(m.skip(1), k);
        if r < 0 {
            -1
        } else {
            r + 1
        }
    }
}

/// The value mapped to `k`, if any.
pub open spec fn tty_lookup(m: Seq<(Seq<char>, Seq<char>)>, k: Seq<char>) -> Option<Seq<char>> {
    if key_index(m, k) >= 0 {
        Some(m[key_index(m, k)].1)
    } else {
        None
    }
}

/// `key_index` finds the first pair carrying the key, and `-1` exactly when
/// the key is absent.
pub proof fn lemma_key_index(m: Seq<(Seq<char>, Seq<char>)>, k: Seq<char>)
    ensures
        key_index(m, k) == -1 <==> (forall|j: int| 0 <= j < m.len() ==> (#[trigger] m[j]).0 != k),
        key_index(m, k) >= 0 ==> key_index(m, k) < m.len() && m[key_index(m, k)].0 == k
            && (forall|j: int| 0 <= j < key_index(m, k) ==> (#[trigger] m[j]).0 != k),
    decreases m.len(),
{
    if m.len() > 0 {
        let s = m.skip(1);
        lemma_key_index(s, k);
        if m[0].0 != k {
            let r = key_index(s, k);
            if r == -1 {
                assert forall|j: int| 0 <= j < m.len() implies (#[trigger] m[j]).0 != k by {
                    if j > 0 {
                        assert(s[j - 1] == m[j]);
                    }
                }
            } else {
                assert(m[r + 1] == s[r]);
                assert forall|j: int| 0 <= j < r + 1 implies (#[trigger] m[j]).0 != k by {
                    if j > 0 {
                        assert(s[j - 1] == m[j]);
                    }
                }
            }
        }
    }
}

/// One physical debug adapter, as discovered from the USB device tree.
#[derive(Debug)]
pub struct LocalServo {
    product: String,
    serial: String,
    usb_sysfs_path: String,
    tty_list: Vec<(String, String)>,
    mac_addr: Option<String>,
    ec_version: Option<String>,
}

/// The views of the pairs of a tty association list.
pub open spec fn tty_views(l: Seq<(String, String)>) -> Seq<(Seq<char>, Seq<char>)> {
    Seq::new(l.len(), |i: int| (l[i].0@, l[i].1@))
}

impl View for LocalServo {
    type V = ServoView;

    closed spec fn view(&self) -> ServoView {
        ServoView {
            product: self.product@,
            serial: self.serial@,
            usb_sysfs_path: self.usb_sysfs_path@,
            tty_list: tty_views(self.tty_list@),
            mac_addr: match self.mac_addr {
                Some(s) => Some(s@),
                None => None,
            },
            ec_version: match self.ec_version {
                Some(s) => Some(s@),
                None => None,
            },
        }
    }
}


/// The view of an optional string.
pub open spec fn opt_view(o: Option<String>) -> Option<Seq<char>> {
    match o {
        Some(s) => Some(s@),
        None => None,
    }
}

/// The views of a sequence of devices.
pub open spec fn servo_views(l: Seq<LocalServo>) -> Seq<ServoView> {
    l.map_values(|d: LocalServo| d@)
}

fn clone_opt_string(o: &Option<String>) -> (r: Option<String>)
    ensures
        r is Some <==> o is Some,
        r matches Some(s) ==> o matches Some(t) && s@ == t@,
{
    match o {
        Some(s) => Some(s.clone()),
        None => None,
    }
}

impl Clone for LocalServo {
    fn clone(&self) -> (r: Self)
        ensures
            r@ == self@,
    {
        let mut tty_list: Vec<(String, String)> = Vec::new();
        let mut i: usize = 0;
        while i < self.tty_list.len()
            invariant
                i <= self.tty_list@.len(),
                tty_list@.len() == i,
                forall|j: int|
                    0 <= j < i ==> (#[trigger] tty_list@[j]).0@ == self.tty_list@[j].0@
                        && tty_list@[j].1@ == self.tty_list@[j].1@,
            decreases self.tty_list@.len() - i,
        {
            let pair = (self.tty_list[i].0.clone(), self.tty_list[i].1.clone());
            tty_list.push(pair);
            i = i + 1;
        }
        assert forall|j: int| 0 <= j < tty_list@.len() implies #[trigger] tty_views(tty_list@)[j]
            == tty_views(self.tty_list@)[j] by {
            assert(tty_list@[j].0@ == self.tty_list@[j].0@);
        }
        assert(tty_views(tty_list@) =~= tty_views(self.tty_list@));
        let r = LocalServo {
            product: self.product.clone(),
            serial: self.serial.clone(),
            usb_sysfs_path: self.usb_sysfs_path.clone(),
            tty_list,
            mac_addr: clone_opt_string(&self.mac_addr),
            ec_version: clone_opt_string(&self.ec_version),
        };
        assert(r@ =~= self@);
        r
    }
}

impl LocalServo {
    /// A device record with the given fields.
    pub fn new(
        product: String,
        serial: String,
        usb_sysfs_path: String,
        tty_list: Vec<(String, String)>,
        mac_addr: Option<String>,
        ec_version: Option<String>,
    ) -> (r: Self)
        ensures
            r@.product == product@,
            r@.serial == serial@,
            r@.usb_sysfs_path == usb_sysfs_path@,
            r@.tty_list == tty_views(tty_list@),
            r@.mac_addr == match mac_addr {
                Some(s) => Some(s@),
                None => None,
            },
            r@.ec_version == match ec_version {
                Some(s) => Some(s@),
                None => None,
            },
    {
        LocalServo { product, serial, usb_sysfs_path, tty_list, mac_addr, ec_version }
    }

    /// The USB product name, which classifies the device family.
    pub fn product(&self) -> (r: &str)
        ensures
            r@ == self@.product,
    {
        self.product.as_str()
    }

    /// The USB serial number, the primary key of a device.
    pub fn serial(&self) -> (r: &str)
        ensures
            r@ == self@.serial,
    {
        self.serial.as_str()
    }

    /// The sysfs path of the device's USB control node.
    pub fn usb_sysfs_path(&self) -> (r: &str)
        ensures
            r@ == self@.usb_sysfs_path,
    {
        self.usb_sysfs_path.as_str()
    }

    /// The discovered mapping from logical channel name to tty device name.
    pub fn tty_list(&self) -> (r: &Vec<(String, String)>)
        ensures
            tty_views(r@) == self@.tty_list,
    {
        &self.tty_list
    }

    /// The MAC address captured by the slow discovery pass, if any.
    pub fn mac_addr(&self) -> (r: &Option<String>)
        ensures
            r is Some <==> self@.mac_addr is Some,
            r matches Some(s) ==> self@.mac_addr == Some(s@),
    {
        &self.mac_addr
    }

    /// The EC firmware version captured by the slow discovery pass, if any.
    pub fn ec_version(&self) -> (r: &Option<String>)
        ensures
            r is Some <==> self@.ec_version is Some,
            r matches Some(s) ==> self@.ec_version == Some(s@),
    {
        &self.ec_version
    }

    /// The OS serial-device path of the tty exposed under the logical channel
    /// name `tty_type`, or [`ServoError::TtyNotFound`] when the device
    /// exposes no such channel.
    pub fn tty_path(&self, tty_type: &str) -> (r: Result<String, ServoError>)
        ensures
            match r {
                Ok(p) => tty_lookup(self@.tty_list, tty_type@) matches Some(t) && p@ == "/dev/"@
                    + t,
                Err(e) => e == ServoError::TtyNotFound && tty_lookup(self@.tty_list, tty_type@)
                    is None,
            },
    {
        proof {
            lemma_key_index(self@.tty_list, tty_type@);
        }
        let ghost m = self@.tty_list;
        let mut i: usize = 0;
        while i < self.tty_list.len()
            invariant
                i <= m.len(),
                m == tty_views(self.tty_list@),
                m.len() == self.tty_list@.len(),
                forall|j: int| 0 <= j < i ==> (#[trigger] m[j]).0 != tty_type@,
                key_index(m, tty_type@) >= 0 ==> key_index(m, tty_type@) < m.len() && m[key_index(
                    m,
                    tty_type@,
                )].0 == tty_type@ && (forall|j: int|
                    0 <= j < key_index(m, tty_type@) ==> (#[trigger] m[j]).0 != tty_type@),
                key_index(m, tty_type@) == -1 ==> (forall|j: int|
                    0 <= j < m.len() ==> (#[trigger] m[j]).0 != tty_type@),
            decreases m.len() - i,
        {
            if str_equal(self.tty_list[i].0.as_str(), tty_type) {
                assert(m[i as int].0 == tty_type@);
                assert(key_index(m, tty_type@) == i);
                let mut p = String::new();
                p.append("/dev/");
                p.append(self.tty_list[i].1.as_str());
                return Ok(p);
            }
            i = i + 1;
        }
        Err(ServoError::TtyNotFound)
    }

    /// Whether the device belongs to one of the standalone debug-chip
    /// families rather than the external servo board family.
    pub fn is_cr50(&self) -> (r: bool)
        ensures
            r == (self@.product == "Cr50"@ || self@.product == "Ti50"@),
    {
        str_equal(self.product.as_str(), "Cr50") || str_equal(self.product.as_str(), "Ti50")
    }


    /// The same device with the enrichment fields replaced, as the slow
    /// discovery pass does after querying the device's serial channels.
    pub fn with_enrichment(&self, mac_addr: Option<String>, ec_version: Option<String>) -> (r:
        Self)
        ensures
            r@.product == self@.product,
            r@.serial == self@.serial,
            r@.usb_sysfs_path == self@.usb_sysfs_path,
            r@.tty_list == self@.tty_list,
            r@.mac_addr == opt_view(mac_addr),
            r@.ec_version == opt_view(ec_version),
    {
        let mut r = self.clone();
        r.mac_addr = mac_addr;
        r.ec_version = ec_version;
        r
    }


    /// The discovered device carrying the given serial, as a fresh record,
    /// or [`ServoError::NotFound`] when no device of the discovered set
    /// does.
    pub fn from_serial(devices: &Vec<LocalServo>, serial: &str) -> (r: Result<LocalServo,
        ServoError>)
        ensures
            match r {
                Ok(d) => serial_index(servo_views(devices@), serial@) >= 0 && d@ == servo_views(
                    devices@,
                )[serial_index(servo_views(devices@), serial@)] && d@.serial == serial@,
                Err(e) => e == ServoError::NotFound && (forall|j: int|
                    0 <= j < devices@.len() ==> (#[trigger] servo_views(devices@)[j]).serial
                        != serial@),
            },
    {
        proof {
            lemma_serial_index(servo_views(devices@), serial@);
        }
        let ghost devs = servo_views(devices@);
        let mut i: usize = 0;
        while i < devices.len()
            invariant
                i <= devs.len(),
                devs == servo_views(devices@),
                devs.len() == devices@.len(),
                forall|j: int| 0 <= j < i ==> (#[trigger] devs[j]).serial != serial@,
                serial_index(devs, serial@) >= 0 ==> serial_index(devs, serial@) < devs.len()
                    && devs[serial_index(devs, serial@)].serial == serial@ && (forall|j: int|
                    0 <= j < serial_index(devs, serial@) ==> (#[trigger] devs[j]).serial
                        != serial@),
                serial_index(devs, serial@) == -1 ==> (forall|j: int|
                    0 <= j < devs.len() ==> (#[trigger] devs[j]).serial != serial@),
            decreases devs.len() - i,
        {
            if str_equal(devices[i].serial.as_str(), serial) {
                assert(devs[i as int].serial == serial@);
                assert(serial_index(devs, serial@) == i);
                return Ok(devices[i].clone());
            }
            i = i + 1;
        }
        Err(ServoError::NotFound)
    }

    /// The sysfs attribute written to power-cycle the device: the
    /// `authorized` node under the device's USB control path.
    pub fn authorized_path(&self) -> (r: String)
        ensures
            r@ == self@.usb_sysfs_path + "/authorized"@,
    {
        let mut p = self.usb_sysfs_path.clone();
        p.append("/authorized");
        p
    }
}

/// The registry: the ordered collection of every discovered device.
#[derive(Debug)]
pub struct ServoList {
    devices: Vec<LocalServo>,
}

impl View for ServoList {
    type V = Seq<ServoView>;

    closed spec fn view(&self) -> Seq<ServoView> {
        servo_views(self.devices@)
    }
}

/// Index of the first device in `devs` whose serial is `serial`, or `-1`
/// when no device has that serial.
pub open spec fn serial_index(devs: Seq<ServoView>, serial: Seq<char>) -> int
    decreases devs.len(),
{
    if devs.len() == 0 {
        -1
    } else if devs[0].serial == serial {
        0
    } else {
        let r = serial_index(devs.skip(1), serial);
        if r < 0 {
            -1
        } else {
            r + 1
        }
    }
}

/// `serial_index` finds the first device carrying the serial, and `-1`
/// exactly when the serial is absent.
pub proof fn lemma_serial_index(devs: Seq<ServoView>, serial: Seq<char>)
    ensures
        serial_index(devs, serial) == -1 <==> (forall|j: int|
            0 <= j < devs.len() ==> (#[trigger] devs[j]).serial != serial),
        serial_index(devs, serial) >= 0 ==> serial_index(devs, serial) < devs.len()
            && devs[serial_index(devs, serial)].serial == serial && (forall|j: int|
            0 <= j < serial_index(devs, serial) ==> (#[trigger] devs[j]).serial != serial),
    decreases devs.len(),
{
    if devs.len() > 0 {
        let s = devs.skip(1);
        lemma_serial_index(s, serial);
        if devs[0].serial != serial {
            let r = serial_index(s, serial);
            if r == -1 {
                assert forall|j: int| 0 <= j < devs.len() implies (#[trigger] devs[j]).serial
                    != serial by {
                    if j > 0 {
                        assert(s[j - 1] == devs[j]);
                    }
                }
            } else {
                assert(devs[r + 1] == s[r]);
                assert forall|j: int| 0 <= j < r + 1 implies (#[trigger] devs[j]).serial
                    != serial by {
                    if j > 0 {
                        assert(s[j - 1] == devs[j]);
                    }
                }
            }
        }
    }
}

impl ServoList {
    /// A registry holding exactly the given devices.
    pub fn new(devices: Vec<LocalServo>) -> (r: Self)
        ensures
            r@ == servo_views(devices@),
    {
        ServoList { devices }
    }

    /// All devices of the registry, in registry order.
    pub fn devices(&self) -> (r: &Vec<LocalServo>)
        ensures
            servo_views(r@) == self@,
    {
        &self.devices
    }

    /// The first device carrying the given serial, or
    /// [`ServoError::NotFound`] when no device of the registry does.
    pub fn find_by_serial(&self, serial: &str) -> (r: Result<&LocalServo, ServoError>)
        ensures
            match r {
                Ok(d) => serial_index(self@, serial@) >= 0 && d@ == self@[serial_index(
                    self@,
                    serial@,
                )] && d@.serial == serial@,
                Err(e) => e == ServoError::NotFound && (forall|j: int|
                    0 <= j < self@.len() ==> (#[trigger] self@[j]).serial != serial@),
            },
    {
        proof {
            lemma_serial_index(self@, serial@);
        }
        let ghost devs = self@;
        let mut i: usize = 0;
        while i < self.devices.len()
            invariant
                i <= devs.len(),
                devs == servo_views(self.devices@),
                devs.len() == self.devices@.len(),
                forall|j: int| 0 <= j < i ==> (#[trigger] devs[j]).serial != serial@,
                serial_index(devs, serial@) >= 0 ==> serial_index(devs, serial@) < devs.len()
                    && devs[serial_index(devs, serial@)].serial == serial@ && (forall|j: int|
                    0 <= j < serial_index(devs, serial@) ==> (#[trigger] devs[j]).serial
                        != serial@),
                serial_index(devs, serial@) == -1 ==> (forall|j: int|
                    0 <= j < devs.len() ==> (#[trigger] devs[j]).serial != serial@),
            decreases devs.len() - i,
        {
            if str_equal(self.devices[i].serial.as_str(), serial) {
                assert(devs[i as int].serial == serial@);
                assert(serial_index(devs, serial@) == i);
                return Ok(&self.devices[i]);
            }
            i = i + 1;
        }
        Err(ServoError::NotFound)
    }
}

/// The devices of `devs` that a reset pass with the serial filter `filt`
/// targets, in discovery order: every device when the filter is empty, else
/// exactly those whose serial is in the filter.
pub open spec fn spec_reset_targets(devs: Seq<ServoView>, filt: Seq<Seq<char>>) -> Seq<ServoView>
    decreases devs.len(),
{
    if devs.len() == 0 {
        Seq::empty()
    } else {
        let rest = spec_reset_targets(devs.drop_last(), filt);
        if filt.len() == 0 || filt.contains(devs.last().serial) {
            rest.push(devs.last())
        } else {
            rest
        }
    }
}

fn contains_string(list: &Vec<String>, x: &str) -> (r: bool)
    ensures
        r == list@.map_values(|s: String| s@).contains(x@),
{
    let ghost views = list@.map_values(|s: String| s@);
    let mut i: usize = 0;
    while i < list.len()
        invariant
            i <= views.len(),
            views == list@.map_values(|s: String| s@),
            views.len() == list@.len(),
            forall|j: int| 0 <= j < i ==> views[j] != x@,
        decreases views.len() - i,
    {
        if str_equal(list[i].as_str(), x) {
            assert(views[i as int] == x@);
            return true;
        }
        i = i + 1;
    }
    false
}

/// The devices that a reset pass over the discovered set `devices` with the
/// serial filter `serials` power-cycles, in order. An empty filter selects
/// every device; otherwise exactly the devices whose serial is in the filter
/// are selected, and unknown serials in the filter are ignored.
pub fn reset_devices(devices: &Vec<LocalServo>, serials: &Vec<String>) -> (r: Vec<LocalServo>)
    ensures
        servo_views(r@) == spec_reset_targets(
            servo_views(devices@),
            serials@.map_values(|s: String| s@),
        ),
{
    let ghost devs = servo_views(devices@);
    let ghost filt = serials@.map_values(|s: String| s@);
    let mut r: Vec<LocalServo> = Vec::new();
    let mut i: usize = 0;
    while i < devices.len()
        invariant
            i <= devs.len(),
            devs == servo_views(devices@),
            filt == serials@.map_values(|s: String| s@),
            devs.len() == devices@.len(),
            servo_views(r@) =~= spec_reset_targets(devs.subrange(0, i as int), filt),
        decreases devs.len() - i,
    {
        let selected = if serials.len() == 0 {
            true
        } else {
            contains_string(serials, devices[i].serial.as_str())
        };
        assert(devs.subrange(0, i + 1 as int).drop_last() =~= devs.subrange(0, i as int));
        assert(devs.subrange(0, i + 1 as int).last() == devs[i as int]);
        if selected {
            r.push(devices[i].clone());
            assert(servo_views(r@) =~= spec_reset_targets(devs.subrange(0, i + 1 as int), filt));
        } else {
            assert(servo_views(r@) =~= spec_reset_targets(devs.subrange(0, i + 1 as int), filt));
        }
        i = i + 1;
    }
    assert(devs.subrange(0, devs.len() as int) =~= devs);
    r
}

/// With an empty filter, the reset pass targets every discovered device.
pub proof fn lemma_reset_all(devs: Seq<ServoView>)
    ensures
        spec_reset_targets(devs, Seq::empty()) == devs,
    decreases devs.len(),
{
    if devs.len() > 0 {
        lemma_reset_all(devs.drop_last());
        assert(spec_reset_targets(devs, Seq::empty()) =~= devs);
    } else {
        assert(spec_reset_targets(devs, Seq::empty()) =~= devs);
    }
}

/// With a non-empty filter, the reset pass targets exactly the devices whose
/// serial is in the filter, in discovery order.
pub proof fn lemma_reset_filtered(devs: Seq<ServoView>, filt: Seq<Seq<char>>)
    requires
        filt.len() > 0,
    ensures
        spec_reset_targets(devs, filt) == devs.filter(|d: ServoView| filt.contains(d.serial)),
    decreases devs.len(),
{
    reveal(Seq::filter);
    if devs.len() > 0 {
        lemma_reset_filtered(devs.drop_last(), filt);
    }
}

} // verus!
