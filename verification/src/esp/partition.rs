//! Finding the config partition in the flash partition table.
use vstd::prelude::*;
use crate::config::ConfigError;
use crate::strs::str_eq;

verus! {

/// One entry of the flash partition table.
pub struct PartitionEntry {
    /// The partition's label.
    pub label: String,
    /// Its offset in flash.
    pub offset: u32,
    /// Its length in bytes.
    pub len: u32,
}

/// The first partition labelled `name`, if any.
pub open spec fn find_partition(parts: Seq<PartitionEntry>, name: Seq<char>) -> Option<int>
    decreases parts.len(),
{
    if parts.len() == 0 {
        None
    } else if parts[0].label@ == name {
        Some(0)
    } else {
        match find_partition(parts.skip(1), name) {
            Some(i) => Some(i + 1),
            None => None,
        }
    }
}

/// The end of the partition found for `name` fits in `u32` (nothing is asked
/// when no partition has that label).
pub open spec fn found_range_fits(parts: Seq<PartitionEntry>, name: Seq<char>) -> bool {
    match find_partition(parts, name) {
        Some(i) => parts[i].offset + parts[i].len <= u32::MAX,
        None => true,
    }
}

/// The flash range of the first partition labelled `name`; `Backend` when
/// there is none. The end of the partition found must fit in `u32`.
pub fn resolve_partition_range(parts: &Vec<PartitionEntry>, name: &str) -> (r: Result<core::ops::Range<u32>, ConfigError>)
    requires
        found_range_fits(parts@, name@),
    ensures
        match find_partition(parts@, name@) {
            Some(i) => r matches Ok(range) && range.start == parts@[i].offset && range.end == parts@[i].offset
                + parts@[i].len,
            None => r matches Err(ConfigError::Backend),
        },
{
    let mut i: usize = 0;
    proof {
        assert(parts@.skip(0) =~= parts@);
    }
    while i < parts.len()
        invariant
            i <= parts.len(),
            found_range_fits(parts@, name@),
            match find_partition(parts@.skip(i as int), name@) {
                Some(k) => find_partition(parts@, name@) == Some(k + i),
                None => find_partition(parts@, name@) is None,
            },
        decreases parts.len() - i,
    {
        proof {
            assert(parts@.skip(i as int)[0] == parts@[i as int]);
            assert(parts@.skip(i as int).skip(1) =~= parts@.skip(i + 1));
        }
        let p = &parts[i];
        if str_eq(p.label.as_str(), name) {
            return Ok(p.offset..p.offset + p.len);
        }
        i = i + 1;
    }
    Err(ConfigError::Backend)
}

} // verus!
