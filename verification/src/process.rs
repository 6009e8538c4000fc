//! Finding the framebuffer in the memory of the `xochitl` process.

use vstd::prelude::*;

verus! {

/// The name of the process that draws the screen.
pub const XOCHITL: &'static str = "xochitl";

/// Why the framebuffer could not be located.
#[derive(Debug, Clone, Copy, PartialEq, Eq, Structural)]
pub enum ProcessError {
    NoXochitlProcess,
    SeveralXochitlProcesses,
    SeveralFramebufferMappings,
}

/// The process at `i` is named `xochitl`; a process whose status could not be
/// read has no name.
pub open spec fn is_xochitl(names: Seq<Option<String>>, i: int) -> bool {
    &&& 0 <= i < names.len()
    &&& names[i] matches Some(name) && name@ == XOCHITL@
}

/// The only process named `xochitl` among the processes named `names`, in the order
/// the system lists them.
pub fn find_xochitl_process(names: &Vec<Option<String>>) -> (r: Result<usize, ProcessError>)
    ensures
        match r {
            Ok(i) => is_xochitl(names@, i as int) && forall|j: int|
                is_xochitl(names@, j) ==> j == i,
            Err(ProcessError::NoXochitlProcess) => forall|j: int| !is_xochitl(names@, j),
            Err(ProcessError::SeveralXochitlProcesses) => exists|j: int, k: int|
                j != k && is_xochitl(names@, j) && is_xochitl(names@, k),
            Err(_) => false,
        },
{
    let target = String::from_str(XOCHITL);
    let mut found: Option<usize> = None;
    let mut i: usize = 0;
    while i < names.len()
        invariant
            i <= names.len(),
            target@ == XOCHITL@,
            match found {
                Some(f) => f < i && is_xochitl(names@, f as int) && forall|j: int|
                    0 <= j < i && is_xochitl(names@, j) ==> j == f,
                None => forall|j: int| 0 <= j < i ==> !is_xochitl(names@, j),
            },
        decreases names.len() - i,
    {
        let matches = match &names[i] {
            Some(name) => *name == target,
            None => false,
        };
        if matches {
            assert(is_xochitl(names@, i as int));
            match found {
                Some(f) => {
                    assert(is_xochitl(names@, f as int));
                    return Err(ProcessError::SeveralXochitlProcesses);
                },
                None => {
                    found = Some(i);
                },
            }
        }
        i = i + 1;
    }
    match found {
        Some(f) => Ok(f),
        None => Err(ProcessError::NoXochitlProcess),
    }
}

/// One mapping of a process's memory.
#[derive(Debug, Clone, PartialEq, Eq)]
pub struct MemoryMapping {
    /// The path of the file mapped, where the mapping is backed by a file; the kernel
    /// writes such paths in canonical form.
    pub pathname: Option<String>,
    /// The address at which the mapping starts.
    pub start_address: u64,
}

/// The path of the framebuffer device.
pub const FRAMEBUFFER_DEVICE_PATH: &'static str = "/dev/fb0";

pub open spec fn maps_framebuffer_device(m: MemoryMapping) -> bool {
    m.pathname matches Some(path) && path@ == FRAMEBUFFER_DEVICE_PATH@
}

/// `i` is the first mapping of the framebuffer device.
pub open spec fn is_first_framebuffer_mapping(maps: Seq<MemoryMapping>, i: int) -> bool {
    &&& 0 <= i < maps.len()
    &&& maps_framebuffer_device(maps[i])
    &&& forall|j: int| 0 <= j < i ==> !maps_framebuffer_device(#[trigger] maps[j])
}

/// Some mapping follows the first mapping of the framebuffer device.
pub open spec fn framebuffer_mapping_followed(maps: Seq<MemoryMapping>) -> bool {
    exists|i: int| is_first_framebuffer_mapping(maps, i) && i + 1 < maps.len()
}

fn is_framebuffer_mapping(m: &MemoryMapping, device: &String) -> (b: bool)
    requires
        device@ == FRAMEBUFFER_DEVICE_PATH@,
    ensures
        b == maps_framebuffer_device(*m),
{
    match &m.pathname {
        Some(path) => *path == *device,
        None => false,
    }
}

/// Where the framebuffer starts in the process memory: at the mapping that follows
/// the first mapping of the framebuffer device. Refused where the device is mapped
/// again after that following mapping.
pub fn framebuffer_offset(maps: &Vec<MemoryMapping>) -> (r: Result<usize, ProcessError>)
    requires
        framebuffer_mapping_followed(maps@),
    ensures
        forall|i: int|
            is_first_framebuffer_mapping(maps@, i) ==> match r {
                Ok(offset) => offset == (#[verifier::truncate] (maps@[i + 1].start_address as usize)) && forall|k: int|
                    i + 1 < k < maps@.len() ==> !maps_framebuffer_device(#[trigger] maps@[k]),
                Err(e) => e == ProcessError::SeveralFramebufferMappings && exists|k: int|
                    i + 1 < k < maps@.len() && maps_framebuffer_device(#[trigger] maps@[k]),
            },
{
    let device = String::from_str(FRAMEBUFFER_DEVICE_PATH);
    let n = maps.len();
    let ghost first = choose|i: int| is_first_framebuffer_mapping(maps@, i) && i + 1 < maps@.len();
    let mut i: usize = 0;
    while !is_framebuffer_mapping(&maps[i], &device)
        invariant
            i <= first,
            n == maps@.len(),
            is_first_framebuffer_mapping(maps@, first),
            first + 1 < maps@.len(),
            device@ == FRAMEBUFFER_DEVICE_PATH@,
        decreases first - i,
    {
        assert(i != first);
        i = i + 1;
    }
    assert(i == first) by {
        if i < first {
            assert(!maps_framebuffer_device(maps@[i as int]));
        }
    }
    let framebuffer_index = i + 1;
    let mut k: usize = framebuffer_index + 1;
    while k < maps.len()
        invariant
            i == first,
            is_first_framebuffer_mapping(maps@, first),
            framebuffer_index == i + 1,
            framebuffer_index < k <= maps@.len(),
            device@ == FRAMEBUFFER_DEVICE_PATH@,
            forall|j: int| framebuffer_index < j < k ==> !maps_framebuffer_device(#[trigger] maps@[j]),
        decreases maps.len() - k,
    {
        if is_framebuffer_mapping(&maps[k], &device) {
            proof {
                assert forall|f: int| is_first_framebuffer_mapping(maps@, f) implies f == first by {
                    if f < first {
                        assert(!maps_framebuffer_device(maps@[f]));
                    } else if f > first {
                        assert(!maps_framebuffer_device(maps@[first]));
                    }
                }
            }
            return Err(ProcessError::SeveralFramebufferMappings);
        }
        k = k + 1;
    }
    proof {
        assert forall|f: int| is_first_framebuffer_mapping(maps@, f) implies f == first by {
            if f < first {
                assert(!maps_framebuffer_device(maps@[f]));
            } else if f > first {
                assert(!maps_framebuffer_device(maps@[first]));
            }
        }
    }
    Ok(#[verifier::truncate] (maps[framebuffer_index].start_address as usize))
}

} // verus!
