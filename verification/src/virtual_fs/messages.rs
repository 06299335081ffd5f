use vstd::prelude::*;
use vstd::string::*;
use crate::commun_utils::fs_strategies::copy_range;

verus! {

/// A websocket message the server sends a client.
#[derive(Debug)]
pub enum OutMessage {
    Text(String),
    Binary(Vec<u8>),
    Close,
}

/// The messages that send a file: its header as text, then each of its
/// buffers as binary, in order.
pub open spec fn sends_file(r: Seq<OutMessage>, header: Seq<char>, buffers: Seq<Vec<u8>>) -> bool {
    &&& r.len() == buffers.len() + 1
    &&& r[0] matches OutMessage::Text(t) && t@ == header
    &&& forall|i: int| 0 <= i < buffers.len() ==> (#[trigger] r[i + 1] matches OutMessage::Binary(b)
        && b@ == buffers[i]@)
}

/// The messages that send a file with this header and these buffers.
pub fn payload_messages(header: &str, buffers: &[Vec<u8>]) -> (r: Vec<OutMessage>)
    ensures
        sends_file(r@, header@, buffers@),
{
    let mut r: Vec<OutMessage> = Vec::new();
    r.push(OutMessage::Text(header.to_string()));
    let mut i: usize = 0;
    while i < buffers.len()
        invariant
            i <= buffers@.len(),
            r@.len() == i + 1,
            r@[0] matches OutMessage::Text(t) && t@ == header@,
            forall|k: int| 0 <= k < i ==> (#[trigger] r@[k + 1] matches OutMessage::Binary(b)
                && b@ == buffers@[k]@),
        decreases buffers@.len() - i,
    {
        let data = copy_range(&buffers[i], 0, buffers[i].len());
        assert(data@ =~= buffers@[i as int]@);
        r.push(OutMessage::Binary(data));
        i += 1;
    }
    r
}

/// The messages that end a conversation: `end` as text, then a close.
pub fn end_messages() -> (r: Vec<OutMessage>)
    ensures
        r@.len() == 2,
        r@[0] matches OutMessage::Text(t) && t@ == "end"@,
        r@[1] is Close,
{
    proof { reveal_strlit("end"); }
    let mut r: Vec<OutMessage> = Vec::new();
    r.push(OutMessage::Text(String::from_str("end")));
    r.push(OutMessage::Close);
    r
}

} // verus!
