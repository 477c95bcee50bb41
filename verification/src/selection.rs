//! Choosing the two endpoints of a route among the devices of the host.
//!
//! The source is the main output, preferably one with a rear pair; the
//! target is the second output.  A device named in the configuration is
//! the last resort for either.

use vstd::prelude::*;
use crate::device::AudioDevice;

verus! {

/// Whether `part` occurs in `name` as a run of consecutive characters.
pub open spec fn occurs_in(part: Seq<char>, name: Seq<char>) -> bool {
    exists|i: int|
        0 <= i && i + part.len() <= name.len() && #[trigger] name.subrange(i, i + part.len())
            == part
}

/// `str::contains` with a string as the pattern: whether the pattern
/// matches a part of the name.
#[verifier::external_body]
fn name_contains(name: &str, part: &str) -> (r: bool)
    ensures
        r == occurs_in(part@, name@),
{
    name.contains(part)
}

/// What is looked for in a device.
pub enum Wanted<'a> {
    /// Main speakers that have a rear pair.
    RearSpeakers,
    /// Main speakers.
    Speakers,
    /// The second output.
    SecondOutput,
    /// A device whose name holds the given one.
    Named(&'a str),
}

impl<'a> Wanted<'a> {
    /// Whether the device is one that is looked for.
    pub open spec fn fits(self, device: AudioDevice) -> bool {
        match self {
            Wanted::RearSpeakers => (occurs_in("Speakers"@, device.name@) || occurs_in(
                "Speaker"@,
                device.name@,
            )) && device.channels >= 4,
            Wanted::Speakers => occurs_in("Speakers"@, device.name@) || occurs_in(
                "Speaker"@,
                device.name@,
            ),
            Wanted::SecondOutput => occurs_in("2nd output"@, device.name@) || occurs_in(
                "HD Audio 2nd"@,
                device.name@,
            ),
            Wanted::Named(name) => occurs_in(name@, device.name@),
        }
    }

    /// Tests a device.
    pub fn test(&self, device: &AudioDevice) -> (r: bool)
        ensures
            r == self.fits(*device),
    {
        let name: &str = device.name.as_str();
        match self {
            Wanted::RearSpeakers => (name_contains(name, "Speakers") || name_contains(
                name,
                "Speaker",
            )) && device.channels >= 4,
            Wanted::Speakers => name_contains(name, "Speakers") || name_contains(name, "Speaker"),
            Wanted::SecondOutput => name_contains(name, "2nd output") || name_contains(
                name,
                "HD Audio 2nd",
            ),
            Wanted::Named(part) => name_contains(name, part),
        }
    }
}

/// The index of the first device from `start` on that fits.
pub open spec fn first_fit(devices: Seq<AudioDevice>, wanted: Wanted, start: int) -> Option<int>
    decreases devices.len() - start,
{
    if start < 0 || start >= devices.len() {
        None
    } else if wanted.fits(devices[start]) {
        Some(start)
    } else {
        first_fit(devices, wanted, start + 1)
    }
}

/// Finds the first device that fits.
pub fn find_first(devices: &Vec<AudioDevice>, wanted: &Wanted) -> (r: Option<usize>)
    ensures
        r is Some <==> first_fit(devices@, *wanted, 0) is Some,
        r matches Some(i) ==> first_fit(devices@, *wanted, 0) == Some(i as int) && i
            < devices.len(),
{
    let mut i: usize = 0;
    while i < devices.len()
        invariant
            i <= devices.len(),
            first_fit(devices@, *wanted, 0) == first_fit(devices@, *wanted, i as int),
        decreases devices.len() - i,
    {
        if wanted.test(&devices[i]) {
            return Some(i);
        }
        i = i + 1;
    }
    None
}

/// `a`, or `b` where `a` is none.
pub open spec fn or_else(a: Option<int>, b: Option<int>) -> Option<int> {
    if a is Some {
        a
    } else {
        b
    }
}

/// The first device named in the configuration, if one is named.
pub open spec fn configured_fit(devices: Seq<AudioDevice>, configured: Option<&str>) -> Option<
    int,
> {
    match configured {
        Some(name) => first_fit(devices, Wanted::Named(name), 0),
        None => None,
    }
}

/// The source of the route: the first main speakers with a rear pair, else
/// the first main speakers, else the first device the configuration names.
pub open spec fn source_of(devices: Seq<AudioDevice>, configured: Option<&str>) -> Option<int> {
    or_else(
        first_fit(devices, Wanted::RearSpeakers, 0),
        or_else(first_fit(devices, Wanted::Speakers, 0), configured_fit(devices, configured)),
    )
}

/// The target of the route: the first second output, else the first
/// device the configuration names.
pub open spec fn target_of(devices: Seq<AudioDevice>, configured: Option<&str>) -> Option<int> {
    or_else(first_fit(devices, Wanted::SecondOutput, 0), configured_fit(devices, configured))
}

/// How the choice of a route ended.
#[derive(Debug, Clone, Copy, PartialEq, Eq, Structural)]
pub enum RouteChoice {
    /// Both ends were found, by their indices among the devices.
    Route { source: usize, target: usize },
    /// Source and target bear the same name: nothing can be routed.
    SameDevice,
    /// No source was found.
    NoSource,
    /// A source was found, but no target.
    NoTarget,
}

/// The route that the devices and the configuration give.
pub open spec fn route_of(
    devices: Seq<AudioDevice>,
    configured_source: Option<&str>,
    configured_target: Option<&str>,
) -> RouteChoice {
    match (source_of(devices, configured_source), target_of(devices, configured_target)) {
        (Some(s), Some(t)) => if devices[s].name@ != devices[t].name@ {
            RouteChoice::Route { source: s as usize, target: t as usize }
        } else {
            RouteChoice::SameDevice
        },
        (None, _) => RouteChoice::NoSource,
        (_, None) => RouteChoice::NoTarget,
    }
}

fn find_configured(devices: &Vec<AudioDevice>, configured: Option<&str>) -> (r: Option<usize>)
    ensures
        r is Some <==> configured_fit(devices@, configured) is Some,
        r matches Some(i) ==> configured_fit(devices@, configured) == Some(i as int) && i
            < devices.len(),
{
    match configured {
        Some(name) => find_first(devices, &Wanted::Named(name)),
        None => None,
    }
}

/// Chooses the source and the target of the route.
pub fn choose_route(
    devices: &Vec<AudioDevice>,
    configured_source: Option<&str>,
    configured_target: Option<&str>,
) -> (r: RouteChoice)
    ensures
        r == route_of(devices@, configured_source, configured_target),
        r matches RouteChoice::Route { source, target } ==> source < devices.len() && target
            < devices.len(),
{
    let mut source: Option<usize> = find_first(devices, &Wanted::RearSpeakers);
    if source.is_none() {
        source = find_first(devices, &Wanted::Speakers);
    }
    if source.is_none() {
        source = find_configured(devices, configured_source);
    }
    let mut target: Option<usize> = find_first(devices, &Wanted::SecondOutput);
    if target.is_none() {
        target = find_configured(devices, configured_target);
    }
    match (source, target) {
        (Some(s), Some(t)) => {
            if devices[s].name != devices[t].name {
                RouteChoice::Route { source: s, target: t }
            } else {
                RouteChoice::SameDevice
            }
        },
        (None, _) => RouteChoice::NoSource,
        (_, None) => RouteChoice::NoTarget,
    }
}

} // verus!
