//! Choosing the indicator device among the output ports on offer.
//!
//! A port belongs to the device when its name contains the device's model name. Names are
//! compared as UTF-8 bytes.

use vstd::prelude::*;
use vstd::utf8::encode_utf8;

verus! {

/// The model name that marks a port of the device.
pub const DEVICE_NAME: &'static str = "LPD8";

/// `needle` stands in `haystack` at offset `at`.
pub open spec fn occurs_at(haystack: Seq<u8>, needle: Seq<u8>, at: int) -> bool {
    &&& 0 <= at
    &&& at + needle.len() <= haystack.len()
    &&& haystack.subrange(at, at + needle.len()) == needle
}

/// `needle` stands somewhere in `haystack` as one contiguous run.
pub open spec fn contains(haystack: Seq<u8>, needle: Seq<u8>) -> bool {
    exists|at: int| occurs_at(haystack, needle, at)
}

/// A port whose name could be read and contains `tag`. A port whose name could not be
/// read never matches.
pub open spec fn is_device_port(name: Option<String>, tag: Seq<char>) -> bool {
    match name {
        Some(n) => contains(encode_utf8(n@), encode_utf8(tag)),
        None => false,
    }
}

fn occurs_here(haystack: &[u8], needle: &[u8], at: usize) -> (hit: bool)
    requires
        at + needle@.len() <= haystack@.len() <= usize::MAX,
    ensures
        hit == occurs_at(haystack@, needle@, at as int),
{
    let mut j: usize = 0;
    while j < needle.len()
        invariant
            j <= needle@.len(),
            at + needle@.len() <= haystack@.len() <= usize::MAX,
            forall|k: int| 0 <= k < j ==> haystack@[at + k] == needle@[k],
        decreases needle@.len() - j,
    {
        if haystack[at + j] != needle[j] {
            assert(haystack@.subrange(at as int, at + needle@.len())[j as int] != needle@[j as int]);
            return false;
        }
        j += 1;
    }
    assert(haystack@.subrange(at as int, at + needle@.len()) =~= needle@);
    true
}

/// Whether `needle` stands somewhere in `haystack`.
pub fn contains_bytes(haystack: &[u8], needle: &[u8]) -> (found: bool)
    ensures
        found == contains(haystack@, needle@),
{
    if needle.len() > haystack.len() {
        return false;
    }
    let last: usize = haystack.len() - needle.len();
    let mut at: usize = 0;
    loop
        invariant
            at <= last,
            last == haystack@.len() - needle@.len(),
            haystack@.len() <= usize::MAX,
            forall|p: int| 0 <= p < at ==> !occurs_at(haystack@, needle@, p),
        decreases last - at,
    {
        if occurs_here(haystack, needle, at) {
            return true;
        }
        if at == last {
            return false;
        }
        at += 1;
    }
}

/// The first port, in the order of discovery, that belongs to the device with model name
/// `tag`; `None` when no port does.
pub fn find_port(names: &Vec<Option<String>>, tag: &str) -> (port: Option<usize>)
    ensures
        match port {
            Some(i) => {
                &&& i < names.len()
                &&& is_device_port(names[i as int], tag@)
                &&& forall|j: int| 0 <= j < i ==> !is_device_port(#[trigger] names[j], tag@)
            },
            None => forall|j: int|
                0 <= j < names.len() ==> !is_device_port(#[trigger] names[j], tag@),
        },
{
    let mut i: usize = 0;
    while i < names.len()
        invariant
            i <= names.len(),
            forall|j: int| 0 <= j < i ==> !is_device_port(#[trigger] names[j], tag@),
        decreases names.len() - i,
    {
        let hit = match &names[i] {
            Some(name) => contains_bytes(name.as_str().as_bytes(), tag.as_bytes()),
            None => false,
        };
        if hit {
            return Some(i);
        }
        i += 1;
    }
    None
}

} // verus!
