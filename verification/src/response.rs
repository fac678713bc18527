//! Server responses, as far as the commands of this crate look into them.

use vstd::prelude::*;

verus! {

/// The tag that a command is sent with and that its completion repeats.
#[derive(Debug, PartialEq, Eq, Clone)]
pub struct RequestId(pub String);

/// The status word of a status response.
#[derive(Debug, PartialEq, Eq, Structural, Clone, Copy)]
pub enum Status {
    /// `OK`
    Okay,
    /// `NO`
    No,
    /// `BAD`
    Bad,
    /// `PREAUTH`
    PreAuth,
    /// `BYE`
    Bye,
}

/// The meaning of a response code, for the codes that are acted upon.
#[derive(Debug, PartialEq, Eq)]
pub enum CodeKind {
    HighestModSeq(u64),
    PermanentFlags(Vec<String>),
    UidNext(u32),
    UidValidity(u32),
    Unseen(u32),
    /// Any other code.
    Other,
}

/// A bracketed response code.
#[derive(Debug, PartialEq, Eq)]
pub struct ResponseCode {
    pub kind: CodeKind,
    /// The code as the parser renders it, for messages.
    pub text: String,
}

/// What follows the status word of a status response.
#[derive(Debug, PartialEq, Eq)]
pub struct Outcome {
    pub code: Option<ResponseCode>,
    pub information: Option<String>,
}

/// One item of a `STATUS` response.
#[derive(Debug, PartialEq, Eq, Clone, Copy)]
pub enum StatusAttribute {
    HighestModSeq(u64),
    Messages(u32),
    Recent(u32),
    UidNext(u32),
    UidValidity(u32),
    Unseen(u32),
    /// An item that this crate does not know.
    Other,
}

/// One entry of a `METADATA` response.
#[derive(Debug, PartialEq, Eq)]
pub struct Metadata {
    pub entry: String,
    pub value: Option<String>,
}

/// A name attribute of a `LIST` response.
#[derive(Debug, PartialEq, Eq)]
pub enum NameAttribute {
    NoInferiors,
    NoSelect,
    Marked,
    Unmarked,
    All,
    Archive,
    Drafts,
    Flagged,
    Junk,
    Sent,
    Trash,
    Extension(String),
}

/// The content of a `LIST` or `LSUB` response.
#[derive(Debug, PartialEq, Eq)]
pub struct MailboxListData {
    pub name_attributes: Vec<NameAttribute>,
    pub delimiter: Option<String>,
    pub name: String,
}

/// One range of a sequence-set. The two ends may come in either order.
#[derive(Debug, PartialEq, Eq, Clone, Copy)]
pub struct IdRange {
    pub start: u32,
    pub end: u32,
}

/// One return item of an `ESEARCH` response.
#[derive(Debug, PartialEq, Eq)]
pub enum SearchReturnData {
    Min(u32),
    Max(u32),
    Count(u32),
    All(Vec<IdRange>),
    /// An item with another name, or with a value of another form.
    Other { name: String, value: Vec<u8> },
}

/// Data on a mailbox.
#[derive(Debug, PartialEq, Eq)]
pub enum MailboxDatum {
    Exists(u32),
    Flags(Vec<String>),
    List(MailboxListData),
    Search(Vec<u32>),
    ESearch { correlator: Option<String>, uid: bool, data: Vec<SearchReturnData> },
    Sort(Vec<u32>),
    Status { mailbox: String, status: Vec<StatusAttribute> },
    Recent(u32),
    MetadataSolicited { mailbox: String, values: Vec<Metadata> },
    MetadataUnsolicited { mailbox: String, values: Vec<String> },
    /// Data of any other kind.
    Other,
}

/// One server capability.
#[derive(Debug, PartialEq, Eq)]
pub enum Capability {
    Imap4rev1,
    Auth(String),
    Atom(String),
}

/// One data item of a `FETCH` response.
#[derive(Debug, PartialEq, Eq)]
pub enum AttributeValue {
    Flags(Vec<String>),
    Uid(u32),
    /// Any other data item.
    Other,
}

/// A server response.
#[derive(Debug, PartialEq, Eq)]
pub enum Response {
    Capabilities(Vec<Capability>),
    Done { tag: RequestId, status: Status, outcome: Outcome },
    Data { status: Status, outcome: Outcome },
    Expunge(u32),
    Fetch(u32, Vec<AttributeValue>),
    MailboxData(MailboxDatum),
    /// A response of any other kind.
    Other,
}

/// A response together with the bytes that it was read from.
#[derive(Debug, PartialEq, Eq)]
pub struct ResponseData {
    pub raw: Vec<u8>,
    pub response: Response,
}

impl ResponseData {
    /// The response itself.
    pub fn parsed(&self) -> (response: &Response)
        ensures
            *response == self.response,
    {
        &self.response
    }
}

} // verus!
