//! The choice of a device among those that the platforms list.

use vstd::prelude::*;

verus! {

/// A platform's answer lists at least one device. `None` stands for a
/// platform whose devices could not be listed.
pub open spec fn offers_device(listing: Option<usize>) -> bool {
    listing matches Some(n) && n > 0
}

/// `p` is the first platform that lists a device.
pub open spec fn is_first_offer(listings: Seq<Option<usize>>, p: int) -> bool {
    &&& 0 <= p < listings.len()
    &&& offers_device(listings[p])
    &&& forall|q: int| 0 <= q < p ==> !offers_device(#[trigger] listings[q])
}

/// Chooses the device to run on. `listings` holds, for each platform in the
/// order of enumeration, the number of devices of the wanted class that it
/// lists, or `None` where listing them failed.
///
/// The choice is the first device of the first platform that lists one, given
/// as the position of the platform and the position of the device in its
/// list. Where no platform lists a device there is no choice, and that is no
/// error: platforms without a matching device and platforms that fail are
/// passed over alike.
pub fn get_device(listings: &Vec<Option<usize>>) -> (choice: Option<(usize, usize)>)
    ensures
        match choice {
            Some((platform, device)) => is_first_offer(listings@, platform as int) && device == 0,
            None => forall|q: int|
                0 <= q < listings.len() ==> !offers_device(#[trigger] listings[q]),
        },
{
    let mut p: usize = 0;
    while p < listings.len()
        invariant
            p <= listings.len(),
            forall|q: int| 0 <= q < p ==> !offers_device(#[trigger] listings[q]),
        decreases listings.len() - p,
    {
        match listings[p] {
            Some(n) => {
                if n > 0 {
                    return Some((p, 0));
                }
            },
            None => {},
        }
        p += 1;
    }
    None
}

} // verus!
