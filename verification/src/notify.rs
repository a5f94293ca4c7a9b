use vstd::prelude::*;
use crate::artifact::dec_str;

verus! {

/// The text announcing that an artifact upload is about to begin.
pub open spec fn upload_announcement_spec(name: Seq<char>) -> Seq<char> {
    "New file upload ["@ + name + "]"@
}

/// Build the announcement message that precedes an artifact's chunk
/// transfers.
pub fn upload_announcement(name: &str) -> (r: String)
    ensures
        r@ == upload_announcement_spec(name@),
{
    let mut s = String::from_str("New file upload [");
    s.append(name);
    s.append("]");
    proof {
        assert(s@ =~= upload_announcement_spec(name@));
    }
    s
}

/// The file name attached to one chunk transfer, carrying the chunk's
/// position in the sequence, counted from zero.
pub open spec fn chunk_label_spec(index: nat) -> Seq<char> {
    "Chunk"@ + dec_str(index) + ".chunk"@
}

/// Build the attachment name of the chunk at `index`.
pub fn chunk_label(index: u64) -> (r: String)
    ensures
        r@ == chunk_label_spec(index as nat),
{
    let mut s = String::from_str("Chunk");
    let digits = crate::artifact::u64_to_dec(index);
    s.append(digits.as_str());
    s.append(".chunk");
    proof {
        assert(s@ =~= chunk_label_spec(index as nat));
    }
    s
}

} // verus!
