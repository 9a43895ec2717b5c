//! The one swapchain that drives the shared channel.
//!
//! A process may present several swapchains: the game's window and an overlay, or the old and the
//! new window during a resize. The largest one is taken to be the game, and the others present
//! untouched.

use vstd::prelude::*;

verus! {

/// The swapchain that holds the claim.
#[derive(Clone, Copy, Debug, PartialEq, Eq, Structural)]
pub struct Primary {
    pub device: u64,
    pub swapchain: u64,
    pub area: u64,
}

/// The claim of a process.
#[derive(Clone, Copy, Debug, PartialEq, Eq, Structural)]
pub struct PrimaryClaim {
    pub holder: Option<Primary>,
}

pub open spec fn area_of(width: u32, height: u32) -> int {
    width * height
}

impl PrimaryClaim {
    /// Whether `swapchain` holds the claim.
    pub open spec fn held_by(self, device: u64, swapchain: u64) -> bool {
        self.holder matches Some(p) && p.device == device && p.swapchain == swapchain
    }

    /// Whether a swapchain of this size would be given the claim: it holds it, nobody does, or the
    /// holder's area is smaller.
    pub open spec fn grants(self, device: u64, swapchain: u64, width: u32, height: u32) -> bool {
        self.held_by(device, swapchain) || (self.holder matches Some(p) ==> area_of(width, height) > p.area)
    }

    /// The claim after a swapchain asked for it.
    pub open spec fn after_claim(self, device: u64, swapchain: u64, width: u32, height: u32) -> PrimaryClaim {
        if self.grants(device, swapchain, width, height) && !self.held_by(device, swapchain) {
            PrimaryClaim { holder: Some(Primary { device, swapchain, area: area_of(width, height) as u64 }) }
        } else {
            self
        }
    }

    /// The claim after a swapchain gave it up.
    pub open spec fn after_release(self, device: u64, swapchain: u64) -> PrimaryClaim {
        if self.held_by(device, swapchain) {
            PrimaryClaim { holder: None }
        } else {
            self
        }
    }

    /// The claim after a device was destroyed.
    pub open spec fn after_device_loss(self, device: u64) -> PrimaryClaim {
        if self.holder matches Some(p) && p.device == device {
            PrimaryClaim { holder: None }
        } else {
            self
        }
    }
}

fn area(width: u32, height: u32) -> (a: u64)
    ensures
        a == area_of(width, height),
{
    assert(0 <= width * height <= 0xffff_ffff * 0xffff_ffff) by (nonlinear_arith)
        requires
            width <= 0xffff_ffff,
            height <= 0xffff_ffff,
    ;
    width as u64 * height as u64
}

/// Asks for the claim on behalf of a swapchain: granted when it holds it already, when nobody
/// does, or when it is larger than the holder.
pub fn claim_primary(
    claim: &mut PrimaryClaim,
    device: u64,
    swapchain: u64,
    width: u32,
    height: u32,
) -> (granted: bool)
    ensures
        granted == old(claim).grants(device, swapchain, width, height),
        *final(claim) == old(claim).after_claim(device, swapchain, width, height),
{
    let wanted: u64 = area(width, height);
    match claim.holder {
        Some(p) => {
            if p.device == device && p.swapchain == swapchain {
                return true;
            }
            if wanted <= p.area {
                return false;
            }
        },
        None => {},
    }
    claim.holder = Some(Primary { device, swapchain, area: wanted });
    true
}

/// Gives the claim up, if the swapchain holds it.
pub fn release_primary(claim: &mut PrimaryClaim, device: u64, swapchain: u64)
    ensures
        *final(claim) == old(claim).after_release(device, swapchain),
{
    if let Some(p) = claim.holder {
        if p.device == device && p.swapchain == swapchain {
            claim.holder = None;
        }
    }
}

/// Gives up the claim of a device that is destroyed.
pub fn release_device(claim: &mut PrimaryClaim, device: u64)
    ensures
        *final(claim) == old(claim).after_device_loss(device),
{
    if let Some(p) = claim.holder {
        if p.device == device {
            claim.holder = None;
        }
    }
}

/// Whoever is granted the claim holds it, and is granted it again when it asks again; whoever is
/// refused changes nothing.
pub proof fn a_granted_claim_is_held(c: PrimaryClaim, device: u64, swapchain: u64, width: u32, height: u32)
    ensures
        c.grants(device, swapchain, width, height) ==> c.after_claim(device, swapchain, width, height).held_by(
            device,
            swapchain,
        ) && c.after_claim(device, swapchain, width, height).grants(device, swapchain, width, height),
        !c.grants(device, swapchain, width, height) ==> c.after_claim(device, swapchain, width, height) == c,
{
}

/// The claim only ever moves to a larger swapchain: no claim makes the held area smaller.
pub proof fn claims_only_move_to_larger_swapchains(
    c: PrimaryClaim,
    device: u64,
    swapchain: u64,
    width: u32,
    height: u32,
)
    requires
        c.holder is Some,
    ensures
        c.after_claim(device, swapchain, width, height).holder is Some,
        c.after_claim(device, swapchain, width, height).holder->0.area >= c.holder->0.area,
        c.after_claim(device, swapchain, width, height) != c ==> c.after_claim(
            device,
            swapchain,
            width,
            height,
        ).holder->0.area > c.holder->0.area,
{
    assert(0 <= width * height <= 0xffff_ffff * 0xffff_ffff) by (nonlinear_arith)
        requires
            width <= 0xffff_ffff,
            height <= 0xffff_ffff,
    ;
}

/// A released claim can be taken by anyone, and releasing what one does not hold changes nothing.
pub proof fn a_released_claim_is_free(
    c: PrimaryClaim,
    device: u64,
    swapchain: u64,
    other_device: u64,
    other: u64,
    width: u32,
    height: u32,
)
    ensures
        c.held_by(device, swapchain) ==> c.after_release(device, swapchain).grants(
            other_device,
            other,
            width,
            height,
        ),
        !c.held_by(device, swapchain) ==> c.after_release(device, swapchain) == c,
        !c.after_release(device, swapchain).held_by(device, swapchain),
        !c.after_device_loss(device).held_by(device, swapchain),
{
}

/// A swapchain that asks for the claim.
#[derive(Clone, Copy, Debug, PartialEq, Eq, Structural)]
pub struct Ask {
    pub device: u64,
    pub swapchain: u64,
    pub width: u32,
    pub height: u32,
}

/// The claim after several swapchains asked for it, one after the other.
pub open spec fn after_asks(c: PrimaryClaim, asks: Seq<Ask>) -> PrimaryClaim
    decreases asks.len(),
{
    if asks.len() == 0 {
        c
    } else {
        let a = asks.last();
        after_asks(c, asks.drop_last()).after_claim(a.device, a.swapchain, a.width, a.height)
    }
}

/// Whether a swapchain asks at one size only.
pub open spec fn sizes_are_fixed(asks: Seq<Ask>) -> bool {
    forall|i: int, j: int|
        0 <= i < asks.len() && 0 <= j < asks.len() && (#[trigger] asks[i]).device == (#[trigger] asks[j]).device
            && asks[i].swapchain == asks[j].swapchain ==> asks[i].width == asks[j].width && asks[i].height
            == asks[j].height
}

/// The largest swapchain drives the channel: whoever asked, in whatever order, the claim is held by one
/// of them, and none of them is larger.
pub proof fn the_largest_swapchain_drives_the_channel(asks: Seq<Ask>)
    requires
        asks.len() > 0,
        sizes_are_fixed(asks),
    ensures
        ({
            let c = after_asks(PrimaryClaim { holder: None }, asks);
            &&& exists|i: int|
                0 <= i < asks.len() && c.held_by((#[trigger] asks[i]).device, asks[i].swapchain) && c.holder->0.area
                    == area_of(asks[i].width, asks[i].height)
            &&& forall|i: int|
                0 <= i < asks.len() ==> area_of((#[trigger] asks[i]).width, asks[i].height) <= c.holder->0.area
        }),
    decreases asks.len(),
{
    let free = PrimaryClaim { holder: None };
    let last = asks.last();
    let (w, h) = (last.width, last.height);
    assert(0 <= w * h <= 0xffff_ffff * 0xffff_ffff) by (nonlinear_arith)
        requires
            w <= 0xffff_ffff,
            h <= 0xffff_ffff,
    ;
    let rest = asks.drop_last();
    let c = after_asks(free, asks);
    if rest.len() == 0 {
        assert(after_asks(free, rest) == free);
        assert(c.held_by(asks[0].device, asks[0].swapchain));
    } else {
        assert(sizes_are_fixed(rest)) by {
            assert forall|i: int, j: int|
                0 <= i < rest.len() && 0 <= j < rest.len() && (#[trigger] rest[i]).device == (#[trigger] rest[j]).device
                    && rest[i].swapchain == rest[j].swapchain implies rest[i].width == rest[j].width && rest[i].height
                == rest[j].height by {
                assert(rest[i] == asks[i] && rest[j] == asks[j]);
            }
        }
        the_largest_swapchain_drives_the_channel(rest);
        let b = after_asks(free, rest);
        let i = choose|i: int|
            0 <= i < rest.len() && b.held_by((#[trigger] rest[i]).device, rest[i].swapchain) && b.holder->0.area
                == area_of(rest[i].width, rest[i].height);
        assert(rest[i] == asks[i]);
        let n = asks.len() - 1;
        assert(asks[n] == last);
        if c == b {
            assert(c.held_by(asks[i].device, asks[i].swapchain));
        } else {
            assert(c.held_by(asks[n].device, asks[n].swapchain));
        }
        assert forall|j: int| 0 <= j < asks.len() implies area_of((#[trigger] asks[j]).width, asks[j].height)
            <= c.holder->0.area by {
            if j < n {
                assert(rest[j] == asks[j]);
            }
        }
    }
}

/// The claim goes to a swapchain that has more pixels than the holder when it took it, and to the first
/// where there is no holder; the holder is told so again, and keeps the size that it was granted at.
pub proof fn more_pixels_take_the_claim(c: PrimaryClaim, device: u64, swapchain: u64, width: u32, height: u32)
    ensures
        ({
            let after = c.after_claim(device, swapchain, width, height);
            let taken = PrimaryClaim {
                holder: Some(Primary { device, swapchain, area: (width * height) as u64 }),
            };
            match c.holder {
                None => c.grants(device, swapchain, width, height) && after == taken,
                Some(p) => if p.device == device && p.swapchain == swapchain {
                    c.grants(device, swapchain, width, height) && after == c
                } else if width * height > p.area {
                    c.grants(device, swapchain, width, height) && after == taken
                } else {
                    !c.grants(device, swapchain, width, height) && after == c
                },
            }
        }),
{
}

/// A claim is given up by the swapchain that holds it, of the device that it is on, and with that
/// device; nothing else ends it.
pub proof fn only_the_holder_gives_the_claim_up(p: Primary, device: u64, swapchain: u64)
    ensures
        ({
            let c = PrimaryClaim { holder: Some(p) };
            let none = PrimaryClaim { holder: None };
            &&& c.after_release(device, swapchain) == (if p.device == device && p.swapchain == swapchain {
                none
            } else {
                c
            })
            &&& c.after_device_loss(device) == (if p.device == device {
                none
            } else {
                c
            })
            &&& none.after_release(device, swapchain) == none
            &&& none.after_device_loss(device) == none
        }),
{
}

} // verus!
