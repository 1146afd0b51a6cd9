//! Which of the devices seen during a scan are kept.
//!
//! Some hosts report every device under the same address, so a device is
//! told apart by its clean name together with the identifier that the
//! transport gave it. A device seen again under the same key is the same
//! device and is kept once, in the place where it was first seen.

use crate::names::{sanitize_name, sanitized};
use vstd::prelude::*;
use vstd::string::StringExecFns;

verus! {

/// How long a scan lasts unless told otherwise, in seconds.
pub const DEFAULT_SCAN_DURATION_SECS: u64 = 10;

/// The pause between two polls of the adapter, in seconds.
pub const POLL_INTERVAL_SECS: u64 = 1;

/// What the adapter reports of one device that has properties.
#[derive(Debug)]
pub struct Sighting {
    /// The advertised name, if there is one.
    pub local_name: Option<String>,
    /// The identifier that the transport assigned.
    pub id: String,
    /// The six bytes of the device address.
    pub address: [u8; 6],
    /// The device address as it is shown.
    pub address_text: String,
}

/// A sighting as a mathematical value.
pub struct SightingView {
    pub local_name: Option<Seq<char>>,
    pub id: Seq<char>,
    pub address: Seq<u8>,
    pub address_text: Seq<char>,
}

impl View for Sighting {
    type V = SightingView;

    open spec fn view(&self) -> SightingView {
        SightingView {
            local_name: match self.local_name {
                Some(name) => Some(name@),
                None => None,
            },
            id: self.id@,
            address: self.address@,
            address_text: self.address_text@,
        }
    }
}

/// The views of a run of sightings.
pub open spec fn sighting_views(sightings: Seq<Sighting>) -> Seq<SightingView> {
    sightings.map_values(|s: Sighting| s@)
}

/// The key by which a device is known: clean name and transport identifier.
pub type KeyView = (Seq<char>, Seq<char>);

/// The name under which a device is shown: its advertised name, or
/// `Unknown` where it has none, in clean form.
pub open spec fn display_name(local_name: Option<Seq<char>>) -> Seq<char> {
    sanitized(
        match local_name {
            Some(name) => name,
            None => "Unknown"@,
        },
    )
}

/// The key of a sighting.
pub open spec fn key_of(sighting: SightingView) -> KeyView {
    (display_name(sighting.local_name), sighting.id)
}

/// The line that stands for a device in a selection list.
pub open spec fn label_of(sighting: SightingView) -> Seq<char> {
    display_name(sighting.local_name) + " ("@ + sighting.address_text + ")"@
}

/// The key by which a device is known.
#[derive(Debug)]
pub struct DeviceKey {
    pub name: String,
    pub id: String,
}

impl View for DeviceKey {
    type V = KeyView;

    open spec fn view(&self) -> KeyView {
        (self.name@, self.id@)
    }
}

impl Sighting {
    /// The name under which this device is shown.
    pub fn shown_name(&self) -> (name: String)
        ensures
            name@ == display_name(self@.local_name),
    {
        match &self.local_name {
            Some(name) => sanitize_name(name.as_str()),
            None => sanitize_name("Unknown"),
        }
    }

    /// The key of this device.
    pub fn key(&self) -> (key: DeviceKey)
        ensures
            key@ == key_of(self@),
    {
        DeviceKey { name: self.shown_name(), id: self.id.clone() }
    }

    /// The line that stands for this device in a selection list: the shown
    /// name, then the address in round brackets.
    pub fn label(&self) -> (label: String)
        ensures
            label@ == label_of(self@),
    {
        let mut label = self.shown_name();
        label.append(" (");
        label.append(self.address_text.as_str());
        label.append(")");
        label
    }
}

/// The keys of the devices seen so far, each once, in the order in which
/// they were first seen. The keys are held in a list, so that this order
/// and the absence of duplicates are both part of what is known of it.
pub struct SeenDevices {
    keys: Vec<DeviceKey>,
}

impl SeenDevices {
    /// The keys seen, in the order of first sighting.
    pub closed spec fn keys(&self) -> Seq<KeyView> {
        self.keys@.map_values(|k: DeviceKey| k@)
    }

    /// No key is held twice.
    pub open spec fn wf(&self) -> bool {
        self.keys().no_duplicates()
    }

    /// Nothing seen yet.
    pub fn new() -> (seen: SeenDevices)
        ensures
            seen.keys() == Seq::<KeyView>::empty(),
            seen.wf(),
    {
        SeenDevices { keys: Vec::new() }
    }

    /// Number of devices seen.
    pub fn len(&self) -> (n: usize)
        ensures
            n == self.keys().len(),
    {
        self.keys.len()
    }

    /// Whether `key` has been seen.
    pub fn contains(&self, key: &DeviceKey) -> (found: bool)
        ensures
            found == self.keys().contains(key@),
    {
        let mut i: usize = 0;
        while i < self.keys.len()
            invariant
                i <= self.keys@.len(),
                forall|k: int| 0 <= k < i ==> self.keys()[k] != key@,
            decreases self.keys@.len() - i,
        {
            let held = &self.keys[i];
            if held.name == key.name && held.id == key.id {
                assert(self.keys()[i as int] == key@);
                return true;
            }
            i += 1;
        }
        false
    }

    /// Takes note of `key`. Returns whether it is seen for the first time;
    /// only then is it added, behind the keys seen before.
    pub fn insert(&mut self, key: DeviceKey) -> (fresh: bool)
        ensures
            old(self).wf() ==> final(self).wf(),
            fresh == !old(self).keys().contains(key@),
            final(self).keys() == if fresh {
                old(self).keys().push(key@)
            } else {
                old(self).keys()
            },
    {
        if self.contains(&key) {
            false
        } else {
            proof {
                assert(self.keys@.push(key).map_values(|k: DeviceKey| k@) =~= self.keys().push(
                    key@,
                ));
            }
            self.keys.push(key);
            true
        }
    }
}

/// The keys of the devices among `sightings`, each once, in the order of
/// first sighting.
pub open spec fn seen_keys(sightings: Seq<SightingView>) -> Seq<KeyView>
    decreases sightings.len(),
{
    if sightings.len() == 0 {
        Seq::empty()
    } else {
        let before = seen_keys(sightings.drop_last());
        if before.contains(key_of(sightings.last())) {
            before
        } else {
            before.push(key_of(sightings.last()))
        }
    }
}

/// Whether sighting `i` is the first of its device.
pub open spec fn is_first_sighting(sightings: Seq<SightingView>, i: int) -> bool {
    !seen_keys(sightings.take(i)).contains(key_of(sightings[i]))
}

/// The positions of the sightings that a collecting scan keeps: the first
/// sighting of every device, in the order seen.
pub open spec fn collected(sightings: Seq<SightingView>) -> Seq<int>
    decreases sightings.len(),
{
    if sightings.len() == 0 {
        Seq::empty()
    } else {
        let before = collected(sightings.drop_last());
        if is_first_sighting(sightings, sightings.len() - 1) {
            before.push(sightings.len() - 1)
        } else {
            before
        }
    }
}

/// Whether a scan that has run for `elapsed_millis` goes on, given that it
/// is to last `duration_secs`.
pub fn scan_time_left(elapsed_millis: u64, duration_secs: u64) -> (left: bool)
    ensures
        left == (elapsed_millis < duration_secs * 1000),
{
    elapsed_millis / 1000 < duration_secs
}

/// Picks from the sightings of a scan, given in the order seen, the devices
/// to keep: each device once, at its first sighting.
///
/// Returns the positions of the sightings kept, in rising order.
pub fn collect_devices_common(sightings: &Vec<Sighting>) -> (kept: Vec<usize>)
    ensures
        kept@.map_values(|i: usize| i as int) == collected(sighting_views(sightings@)),
{
    let ghost views = sighting_views(sightings@);
    let mut seen = SeenDevices::new();
    let mut kept: Vec<usize> = Vec::new();
    let mut i: usize = 0;
    while i < sightings.len()
        invariant
            i <= sightings@.len(),
            views == sighting_views(sightings@),
            seen.wf(),
            seen.keys() == seen_keys(views.take(i as int)),
            kept@.map_values(|i: usize| i as int) == collected(views.take(i as int)),
        decreases sightings@.len() - i,
    {
        proof {
            let next = views.take(i + 1);
            assert(next.drop_last() =~= views.take(i as int));
        }
        let fresh = seen.insert(sightings[i].key());
        if fresh {
            kept.push(i);
        }
        i += 1;
    }
    proof {
        assert(views.take(i as int) =~= views);
    }
    kept
}

/// The keys of the devices seen hold no key twice, and hold exactly the
/// keys of the sightings.
pub proof fn lemma_seen_keys(sightings: Seq<SightingView>)
    ensures
        seen_keys(sightings).no_duplicates(),
        forall|i: int|
            0 <= i < sightings.len() ==> seen_keys(sightings).contains(
                key_of(#[trigger] sightings[i]),
            ),
        forall|k: int|
            0 <= k < seen_keys(sightings).len() ==> exists|i: int|
                0 <= i < sightings.len() && key_of(sightings[i]) == #[trigger] seen_keys(
                    sightings,
                )[k],
    decreases sightings.len(),
{
    if sightings.len() > 0 {
        let init = sightings.drop_last();
        let before = seen_keys(init);
        let key = key_of(sightings.last());
        lemma_seen_keys(init);
        let now = seen_keys(sightings);
        assert forall|i: int| 0 <= i < sightings.len() implies now.contains(
            key_of(#[trigger] sightings[i]),
        ) by {
            if i < init.len() {
                let k = choose|k: int| 0 <= k < before.len() && before[k] == key_of(init[i]);
                assert(now[k] == before[k]);
            } else if !before.contains(key) {
                assert(now[before.len() as int] == key);
            }
        }
    }
}

/// A collecting scan keeps one sighting for every device seen: there are as
/// many sightings kept as keys seen, and the sighting kept in place `k`
/// carries the key seen in place `k`.
pub proof fn lemma_collected_distinct(sightings: Seq<SightingView>)
    ensures
        collected(sightings).len() == seen_keys(sightings).len(),
        forall|k: int|
            0 <= k < collected(sightings).len() ==> 0 <= #[trigger] collected(sightings)[k]
                < sightings.len() && key_of(sightings[collected(sightings)[k]]) == seen_keys(
                sightings,
            )[k],
    decreases sightings.len(),
{
    if sightings.len() > 0 {
        let init = sightings.drop_last();
        lemma_collected_distinct(init);
    }
}

} // verus!
