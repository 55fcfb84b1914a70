use vstd::prelude::*;

verus! {

/// How many items a subscriber may fall behind before it starts to miss some.
pub const HUB_CAPACITY: usize = 100;

/// Source label of an item pasted by a remote client.
pub const CLIENT_SOURCE: &'static str = "Client";

/// Source label of an item the service itself announces.
pub const SYSTEM_SOURCE: &'static str = "System";

/// Text that opens the announcement of an uploaded file.
pub const UPLOAD_NOTICE_PREFIX: &'static str = "File uploaded: ";

/// One clipboard change, as fanned out to every connected session.
#[derive(Debug)]
pub struct ClipboardItem {
    pub content: String,
    /// Unix seconds.
    pub timestamp: u64,
    pub source: String,
}

impl ClipboardItem {
    /// A field-for-field copy.
    pub fn duplicate(&self) -> (r: ClipboardItem)
        ensures
            r.content@ == self.content@,
            r.timestamp == self.timestamp,
            r.source@ == self.source@,
    {
        ClipboardItem {
            content: self.content.clone(),
            timestamp: self.timestamp,
            source: self.source.clone(),
        }
    }
}

/// The item a paste from a remote client becomes.
pub fn client_item(content: String, now: u64) -> (r: ClipboardItem)
    ensures
        r.content@ == content@,
        r.timestamp == now,
        r.source@ == CLIENT_SOURCE@,
{
    ClipboardItem { content, timestamp: now, source: String::from_str(CLIENT_SOURCE) }
}

/// The announcement sent to every session when a file has been stored.
pub fn upload_notice(filename: &String, now: u64) -> (r: ClipboardItem)
    ensures
        r.content@ == UPLOAD_NOTICE_PREFIX@ + filename@,
        r.timestamp == now,
        r.source@ == SYSTEM_SOURCE@,
{
    let mut content = String::from_str(UPLOAD_NOTICE_PREFIX);
    content.append(filename.as_str());
    ClipboardItem { content, timestamp: now, source: String::from_str(SYSTEM_SOURCE) }
}

} // verus!
