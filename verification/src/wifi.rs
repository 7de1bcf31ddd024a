//! What joining the wireless network decides by itself: which channel to
//! ask for, given what a scan found.

use vstd::prelude::*;

verus! {

/// An access point that a scan found.
#[derive(Clone, Debug, PartialEq, Eq)]
pub struct AccessPoint {
    pub ssid: String,
    pub channel: u8,
}

/// Whether none of the first `n` access points carries the name `ssid`.
pub open spec fn none_named(aps: Seq<AccessPoint>, ssid: Seq<char>, n: int) -> bool {
    forall|j: int| 0 <= j < n ==> (#[trigger] aps[j]).ssid@ != ssid
}

/// The channel of the first access point named `ssid` in the order of the
/// scan; `None` exactly when the scan found none of that name, in which
/// case the network is joined without naming a channel.
pub fn channel_of(aps: &Vec<AccessPoint>, ssid: &str) -> (channel: Option<u8>)
    ensures
        match channel {
            Some(c) => exists|i: int|
                0 <= i < aps@.len() && none_named(aps@, ssid@, i) && (#[trigger] aps@[i]).ssid@
                    == ssid@ && aps@[i].channel == c,
            None => none_named(aps@, ssid@, aps@.len() as int),
        },
{
    let wanted = ssid.to_owned();
    let mut i: usize = 0;
    while i < aps.len()
        invariant
            i <= aps@.len(),
            wanted@ == ssid@,
            none_named(aps@, ssid@, i as int),
        decreases aps@.len() - i,
    {
        if aps[i].ssid == wanted {
            return Some(aps[i].channel);
        }
        i += 1;
    }
    None
}

} // verus!
