use vstd::prelude::*;

verus! {

/// Compare two strings character by character.
pub fn str_eq(a: &str, b: &str) -> (r: bool)
    ensures
        r == (a@ == b@),
{
    let na = a.unicode_len();
    let nb = b.unicode_len();
    if na != nb {
        return false;
    }
    let mut i: usize = 0;
    while i < na
        invariant
            i <= na,
            na == a@.len(),
            na == b@.len(),
            forall|j: int| 0 <= j < i ==> a@[j] == b@[j],
        decreases na - i,
    {
        if a.get_char(i) != b.get_char(i) {
            return false;
        }
        i += 1;
    }
    proof {
        assert(a@ =~= b@);
    }
    true
}

/// The one remote command the supervisor recognizes.
pub open spec fn trigger_phrase() -> Seq<char> {
    "ForceRestartServer"@
}

/// Decide whether an incoming message is the force-restart command: it must
/// come from the designated control channel and carry exactly the trigger
/// phrase. Anything else is ignored, not an error.
pub fn is_restart_command(channel: u64, designated_channel: u64, content: &str) -> (r: bool)
    ensures
        r == (channel == designated_channel && content@ == trigger_phrase()),
{
    channel == designated_channel && str_eq(content, "ForceRestartServer")
}

/// Find the designated control channel in a guild's channel list: the first
/// channel carrying the expected name, if any.
pub fn find_first_named(names: &Vec<String>, wanted: &str) -> (r: Option<usize>)
    ensures
        match r {
            Some(i) => i < names@.len() && names@[i as int]@ == wanted@ && (forall|j: int|
                0 <= j < i ==> names@[j]@ != wanted@),
            None => forall|j: int| 0 <= j < names@.len() ==> names@[j]@ != wanted@,
        },
{
    let mut i: usize = 0;
    while i < names.len()
        invariant
            i <= names@.len(),
            forall|j: int| 0 <= j < i ==> names@[j]@ != wanted@,
        decreases names@.len() - i,
    {
        if str_eq(names[i].as_str(), wanted) {
            return Some(i);
        }
        i += 1;
    }
    None
}

} // verus!
