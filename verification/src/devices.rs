//! Device-selection rules of the capture session.
//!
//! Talking to the audio host — enumerating devices, probing their default
//! input configuration, building and starting a stream — is driver I/O and
//! sits with the application. What it reports for each device comes back
//! here as plain values: the device's name, if the driver could give one,
//! and whether a default input configuration could be negotiated. The rules
//! for picking and listing devices from those values are verified here.

use vstd::prelude::*;

verus! {

/// Why the capture session could not be opened or queried.
#[derive(Clone, Copy, Debug, PartialEq, Eq, Structural)]
pub enum AudioError {
    /// No system default input device exists.
    NoDeviceAvailable,
    /// No input device carries the requested name.
    DeviceNotFound,
    /// The audio subsystem could not be queried for its devices.
    DeviceEnumerationError,
    /// No default input stream configuration could be negotiated.
    ConfigurationError,
    /// The driver rejected starting the stream.
    StreamStartError,
    /// The name of the session's device cannot be retrieved.
    DeviceNameUnavailable,
}

/// What the driver reports about one input device.
pub struct DeviceProbe {
    /// The device's name, if the driver could give one.
    pub name: Option<String>,
    /// Whether a default input configuration could be negotiated.
    pub config_ok: bool,
}

/// Whether a reported device name is present and reads `name`.
pub open spec fn matches_name(entry: Option<String>, name: Seq<char>) -> bool {
    match entry {
        Some(n) => n@ == name,
        None => false,
    }
}

/// Picks the device a session with an explicitly requested name captures
/// from: the first device whose name reads exactly `requested`. Devices
/// without a retrievable name never match. Fails with `DeviceNotFound` if
/// and only if no device matches.
pub fn select_named_device(names: &Vec<Option<String>>, requested: &String) -> (r: Result<
    usize,
    AudioError,
>)
    ensures
        match r {
            Ok(i) => {
                &&& i < names@.len()
                &&& matches_name(names@[i as int], requested@)
                &&& forall|k: int| 0 <= k < i ==> !matches_name(names@[k], requested@)
            },
            Err(e) => {
                &&& e == AudioError::DeviceNotFound
                &&& forall|k: int|
                    0 <= k < names@.len() ==> !matches_name(names@[k], requested@)
            },
        },
{
    let mut i: usize = 0;
    while i < names.len()
        invariant
            i <= names@.len(),
            forall|k: int| 0 <= k < i ==> !matches_name(names@[k], requested@),
        decreases names@.len() - i,
    {
        match &names[i] {
            Some(n) => {
                if *n == *requested {
                    return Ok(i);
                }
            },
            None => {},
        }
        i = i + 1;
    }
    Err(AudioError::DeviceNotFound)
}

/// The names a device listing shows, oldest first: one entry for each
/// probed device that negotiated a configuration and gave a name.
pub open spec fn usable_names(probes: Seq<DeviceProbe>) -> Seq<Seq<char>>
    decreases probes.len(),
{
    if probes.len() == 0 {
        Seq::empty()
    } else {
        usable_names(probes.drop_last()) + (match probes.last().name {
            Some(n) => if probes.last().config_ok {
                seq![n@]
            } else {
                Seq::empty()
            },
            None => Seq::empty(),
        })
    }
}

/// Lists the input devices a settings view offers: of the probed devices,
/// in order, those that negotiated a default input configuration and gave
/// a name.
pub fn available_names(probes: &Vec<DeviceProbe>) -> (r: Vec<String>)
    ensures
        r@.map_values(|s: String| s@) == usable_names(probes@),
{
    let mut out: Vec<String> = Vec::new();
    let mut i: usize = 0;
    while i < probes.len()
        invariant
            i <= probes@.len(),
            out@.map_values(|s: String| s@) == usable_names(probes@.take(i as int)),
        decreases probes@.len() - i,
    {
        if probes[i].config_ok {
            match &probes[i].name {
                Some(n) => {
                    out.push(n.clone());
                },
                None => {},
            }
        }
        proof {
            assert(probes@.take(i as int + 1).drop_last() =~= probes@.take(i as int));
            assert(probes@.take(i as int + 1).last() == probes@[i as int]);
        }
        i = i + 1;
    }
    proof {
        assert(probes@.take(probes@.len() as int) =~= probes@);
    }
    out
}

/// Index of the first entry of `list` that reads `name`, if any: how a
/// settings view finds the session's current device in the listed names.
pub fn position_of(list: &Vec<String>, name: &String) -> (r: Option<usize>)
    ensures
        match r {
            Some(i) => {
                &&& i < list@.len()
                &&& list@[i as int]@ == name@
                &&& forall|k: int| 0 <= k < i ==> list@[k]@ != name@
            },
            None => forall|k: int| 0 <= k < list@.len() ==> list@[k]@ != name@,
        },
{
    let mut i: usize = 0;
    while i < list.len()
        invariant
            i <= list@.len(),
            forall|k: int| 0 <= k < i ==> list@[k]@ != name@,
        decreases list@.len() - i,
    {
        if list[i] == *name {
            return Some(i);
        }
        i = i + 1;
    }
    None
}

} // verus!
