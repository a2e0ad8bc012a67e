//! Where screenshots are cached: a configurable directory with a default.
use vstd::prelude::*;

verus! {

/// The directory in effect for a slot: the recorded one, else the default.
pub open spec fn dir_in_effect(slot: Option<String>, default_dir: Seq<char>) -> Seq<char> {
    match slot {
        Some(d) => d@,
        None => default_dir,
    }
}

/// Read after write: once a non-empty directory was set, it is the one in
/// effect, whatever the default.
pub proof fn lemma_set_then_get(path: String, default_dir: Seq<char>)
    requires
        path@.len() != 0,
    ensures
        dir_in_effect(Some(path), default_dir) == path@,
{
}

/// Records a new cache directory; an empty path is ignored so that captures
/// never go to an invalid place.
pub fn set_cache_dir(slot: &mut Option<String>, path: String)
    ensures
        path@.len() == 0 ==> *final(slot) == *old(slot),
        path@.len() != 0 ==> *final(slot) == Some(path),
{
    if !path.as_str().is_empty() {
        *slot = Some(path);
    }
}

/// The cache directory in effect: the recorded one, else `default_dir`.
pub fn get_cache_dir(slot: &Option<String>, default_dir: String) -> (res: String)
    ensures
        res@ == dir_in_effect(*slot, default_dir@),
{
    match slot {
        Some(d) => d.clone(),
        None => default_dir,
    }
}

} // verus!
