//! Key identities and the lookup of a key by its name.

use crate::text::matches_range;
use crate::text::chars_of;
use vstd::prelude::*;

verus! {

/// The identity of a key: a name for people, the virtual code by which input
/// is recognised, and the scan code that is sent along when the key is
/// synthesized.
#[derive(Debug, Clone, Copy, PartialEq, Eq)]
pub struct KeyDef {
    pub name: &'static str,
    pub virt_code: u32,
    pub scan_code: u32,
}

/// The first key of `keys` that is called `name`, letter for letter.
pub open spec fn first_named(keys: Seq<KeyDef>, name: Seq<char>) -> Option<KeyDef>
    decreases keys.len(),
{
    if keys.len() == 0 {
        None
    } else if keys[0].name@ == name {
        Some(keys[0])
    } else {
        first_named(keys.drop_first(), name)
    }
}

/// Looks up in `keys` the key whose name is the characters `lo..hi` of `text`.
pub fn find_key_in_range(keys: &Vec<KeyDef>, text: &Vec<char>, lo: usize, hi: usize) -> (found:
    Option<KeyDef>)
    requires
        lo <= hi <= text.len(),
    ensures
        found == first_named(keys@, text@.subrange(lo as int, hi as int)),
{
    let ghost name = text@.subrange(lo as int, hi as int);
    let mut i: usize = 0;
    assert(keys@.skip(0) =~= keys@);
    while i < keys.len()
        invariant
            i <= keys.len(),
            lo <= hi <= text.len(),
            name == text@.subrange(lo as int, hi as int),
            first_named(keys@, name) == first_named(keys@.skip(i as int), name),
        decreases keys.len() - i,
    {
        let key = keys[i];
        proof {
            let rest = keys@.skip(i as int);
            assert(rest[0] == keys@[i as int]);
            assert(rest.drop_first() =~= keys@.skip(i as int + 1));
        }
        if matches_range(key.name, text, lo, hi) {
            return Some(key);
        }
        i += 1;
    }
    None
}

/// Looks up a key by name. Names match exactly; where two keys share a name
/// the earlier one is found.
pub fn find_key_by_name(keys: &Vec<KeyDef>, name: &str) -> (found: Option<KeyDef>)
    ensures
        found == first_named(keys@, name@),
{
    let chars = chars_of(name);
    assert(chars@.subrange(0, chars@.len() as int) =~= chars@);
    find_key_in_range(keys, &chars, 0, chars.len())
}

} // verus!
