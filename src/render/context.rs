use vstd::prelude::*;

use crate::error::Error;

verus! {

/// The kinds of physical device, as far as device selection cares.
#[derive(Debug, Clone, Copy, PartialEq, Eq, Structural)]
pub enum DeviceType {
    DiscreteGpu,
    IntegratedGpu,
    VirtualGpu,
    Cpu,
    Other,
}

/// Preference of a device type: lower is better.
pub open spec fn spec_rank(t: DeviceType) -> u8 {
    match t {
        DeviceType::DiscreteGpu => 0,
        DeviceType::IntegratedGpu => 1,
        DeviceType::VirtualGpu => 2,
        DeviceType::Cpu => 3,
        DeviceType::Other => 4,
    }
}

pub fn device_rank(t: DeviceType) -> (r: u8)
    ensures
        r == spec_rank(t),
{
    match t {
        DeviceType::DiscreteGpu => 0,
        DeviceType::IntegratedGpu => 1,
        DeviceType::VirtualGpu => 2,
        DeviceType::Cpu => 3,
        DeviceType::Other => 4,
    }
}

/// Picks among the devices that have a queue family able to draw to the
/// surface: the first one of the most preferred type.
pub fn select_physical_device(candidates: &Vec<DeviceType>) -> (r: Result<usize, Error>)
    ensures
        candidates@.len() == 0 ==> r == Err::<usize, Error>(Error::NoPhysicalDevice),
        candidates@.len() > 0 ==> (r matches Ok(i) && i < candidates@.len() && (forall|j: int|
            0 <= j < candidates@.len() ==> spec_rank(candidates@[i as int]) <= spec_rank(
                #[trigger] candidates@[j],
            )) && (forall|j: int|
            0 <= j < i ==> spec_rank(candidates@[i as int]) < spec_rank(#[trigger] candidates@[j]))),
{
    if candidates.len() == 0 {
        return Err(Error::NoPhysicalDevice);
    }
    let mut best: usize = 0;
    let mut best_rank = device_rank(candidates[0]);
    let mut j: usize = 1;
    while j < candidates.len()
        invariant
            0 < j <= candidates@.len(),
            best < j,
            best_rank == spec_rank(candidates@[best as int]),
            forall|k: int| 0 <= k < j ==> best_rank <= spec_rank(#[trigger] candidates@[k]),
            forall|k: int| 0 <= k < best ==> best_rank < spec_rank(#[trigger] candidates@[k]),
        decreases candidates@.len() - j,
    {
        let rank = device_rank(candidates[j]);
        if rank < best_rank {
            best = j;
            best_rank = rank;
        }
        j = j + 1;
    }
    Ok(best)
}

} // verus!
