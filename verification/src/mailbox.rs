//! The state of a mailbox.

use vstd::prelude::*;

use crate::command::{same_tag, Item, Progress, Reaction};
use crate::error::{Error, IoError};
use crate::refusal::refusal;
use crate::response::{
    CodeKind, MailboxDatum, Outcome, RequestId, Response, ResponseData, Status, StatusAttribute,
};

verus! {

/// A message flag.
#[derive(Debug, PartialEq, Eq, Clone)]
pub enum Flag {
    Seen,
    Answered,
    Flagged,
    Deleted,
    Draft,
    Recent,
    /// New keywords may be made by storing them.
    MayCreate,
    /// A flag that the protocol does not define.
    Custom(String),
}

/// The flag that a text of the protocol stands for.
pub open spec fn flag_of(text: String) -> Flag {
    if text@ == "\\Seen"@ {
        Flag::Seen
    } else if text@ == "\\Answered"@ {
        Flag::Answered
    } else if text@ == "\\Flagged"@ {
        Flag::Flagged
    } else if text@ == "\\Deleted"@ {
        Flag::Deleted
    } else if text@ == "\\Draft"@ {
        Flag::Draft
    } else if text@ == "\\Recent"@ {
        Flag::Recent
    } else if text@ == "\\*"@ {
        Flag::MayCreate
    } else {
        Flag::Custom(text)
    }
}

impl From<String> for Flag {
    fn from(text: String) -> (flag: Self) {
        let name = text.as_str();
        if *name == *"\\Seen" {
            Flag::Seen
        } else if *name == *"\\Answered" {
            Flag::Answered
        } else if *name == *"\\Flagged" {
            Flag::Flagged
        } else if *name == *"\\Deleted" {
            Flag::Deleted
        } else if *name == *"\\Draft" {
            Flag::Draft
        } else if *name == *"\\Recent" {
            Flag::Recent
        } else if *name == *"\\*" {
            Flag::MayCreate
        } else {
            Flag::Custom(text)
        }
    }
}

impl vstd::std_specs::convert::FromSpecImpl<String> for Flag {
    open spec fn obeys_from_spec() -> bool {
        true
    }

    open spec fn from_spec(text: String) -> Flag {
        flag_of(text)
    }
}

/// What is known of a mailbox.
#[derive(Debug, PartialEq, Eq, Clone)]
pub struct Mailbox {
    /// The flags defined in the mailbox.
    pub flags: Vec<Flag>,
    /// The number of messages.
    pub exists: u32,
    /// The number of messages with the `\Recent` flag.
    pub recent: u32,
    /// The first message without the `\Seen` flag, or the number of such messages.
    pub unseen: Option<u32>,
    /// The flags that can be changed permanently.
    pub permanent_flags: Vec<Flag>,
    /// The next unique identifier.
    pub uid_next: Option<u32>,
    /// The validity of the unique identifiers.
    pub uid_validity: Option<u32>,
    /// The highest modification sequence.
    pub highest_modseq: Option<u64>,
}

/// The content of a [`Mailbox`].
#[verifier::ext_equal]
pub struct MailboxModel {
    pub flags: Seq<Flag>,
    pub exists: u32,
    pub recent: u32,
    pub unseen: Option<u32>,
    pub permanent_flags: Seq<Flag>,
    pub uid_next: Option<u32>,
    pub uid_validity: Option<u32>,
    pub highest_modseq: Option<u64>,
}

impl View for Mailbox {
    type V = MailboxModel;

    open spec fn view(&self) -> MailboxModel {
        MailboxModel {
            flags: self.flags@,
            exists: self.exists,
            recent: self.recent,
            unseen: self.unseen,
            permanent_flags: self.permanent_flags@,
            uid_next: self.uid_next,
            uid_validity: self.uid_validity,
            highest_modseq: self.highest_modseq,
        }
    }
}

/// A mailbox of which nothing is known.
pub open spec fn unknown_mailbox() -> MailboxModel {
    MailboxModel {
        flags: Seq::empty(),
        exists: 0,
        recent: 0,
        unseen: None,
        permanent_flags: Seq::empty(),
        uid_next: None,
        uid_validity: None,
        highest_modseq: None,
    }
}

impl Default for Mailbox {
    fn default() -> (mailbox: Self)
        ensures
            mailbox@ == unknown_mailbox(),
    {
        Mailbox {
            flags: Vec::new(),
            exists: 0,
            recent: 0,
            unseen: None,
            permanent_flags: Vec::new(),
            uid_next: None,
            uid_validity: None,
            highest_modseq: None,
        }
    }
}

/// The flags that texts of the protocol stand for.
pub open spec fn flags_of(texts: Seq<String>) -> Seq<Flag> {
    texts.map_values(|text: String| flag_of(text))
}

/// The mailbox after a response code of an `OK` response.
pub open spec fn with_code(m: MailboxModel, outcome: Outcome) -> MailboxModel {
    match outcome.code {
        None => m,
        Some(code) => match code.kind {
            CodeKind::UidValidity(n) => MailboxModel { uid_validity: Some(n), ..m },
            CodeKind::UidNext(n) => MailboxModel { uid_next: Some(n), ..m },
            CodeKind::HighestModSeq(n) => MailboxModel { highest_modseq: Some(n), ..m },
            CodeKind::Unseen(n) => MailboxModel { unseen: Some(n), ..m },
            CodeKind::PermanentFlags(texts) => MailboxModel {
                permanent_flags: m.permanent_flags + flags_of(texts@),
                ..m
            },
            CodeKind::Other => m,
        },
    }
}

/// What selecting a mailbox does on a response.
pub open spec fn mailbox_reaction(
    m: MailboxModel,
    response: Response,
    command_tag: RequestId,
) -> Reaction<MailboxModel> {
    match response {
        Response::Done { tag, status, outcome } => if tag.0@ != command_tag.0@ {
            Reaction::PassOn
        } else if status is Okay {
            Reaction::Complete
        } else {
            Reaction::Refuse(status, outcome)
        },
        Response::Data { status, outcome } => if status is Okay {
            Reaction::Keep(with_code(m, outcome))
        } else {
            Reaction::Refuse(status, outcome)
        },
        Response::MailboxData(datum) => match datum {
            MailboxDatum::Status { .. } => Reaction::PassOn,
            MailboxDatum::Exists(n) => Reaction::Keep(
                MailboxModel { exists: n, ..m },
            ),
            MailboxDatum::Recent(n) => Reaction::Keep(
                MailboxModel { recent: n, ..m },
            ),
            MailboxDatum::Flags(texts) => Reaction::Keep(
                MailboxModel { flags: m.flags + flags_of(texts@), ..m },
            ),
            _ => Reaction::Keep(m),
        },
        _ => Reaction::PassOn,
    }
}

/// Adds the flags that the texts stand for.
fn extend_flags(flags: &mut Vec<Flag>, texts: Vec<String>)
    ensures
        final(flags)@ == old(flags)@ + flags_of(texts@),
{
    let ghost before = flags@;
    for text in it: texts
        invariant
            it.seq() == texts@,
            flags@ == before + flags_of(texts@.take(it.index() as int)),
    {
        proof {
            let i = it.index() as int;
            assert(texts@.take(i + 1) == texts@.take(i).push(texts@[i]));
        }
        flags.push(Flag::from(text));
    }
    assert(texts@.take(texts@.len() as int) == texts@);
}

/// Takes over what the response code of an `OK` response says.
fn apply_code(mailbox: &mut Mailbox, outcome: Outcome)
    ensures
        final(mailbox)@ == with_code(old(mailbox)@, outcome),
{
    if let Some(code) = outcome.code {
        match code.kind {
            CodeKind::UidValidity(n) => {
                mailbox.uid_validity = Some(n);
            },
            CodeKind::UidNext(n) => {
                mailbox.uid_next = Some(n);
            },
            CodeKind::HighestModSeq(n) => {
                mailbox.highest_modseq = Some(n);
            },
            CodeKind::Unseen(n) => {
                mailbox.unseen = Some(n);
            },
            CodeKind::PermanentFlags(texts) => {
                extend_flags(&mut mailbox.permanent_flags, texts);
            },
            CodeKind::Other => {},
        }
    }
}

/// Collects the state of a mailbox from the responses to `SELECT` or `EXAMINE`.
pub fn parse_mailbox(
    mailbox: Mailbox,
    item: Item,
    command_tag: &RequestId,
) -> (progress: Progress<Mailbox, Mailbox>)
    ensures
        crate::command::advances(
            progress,
            mailbox,
            item,
            |response: Response| mailbox_reaction(mailbox@, response, *command_tag),
            Ok(mailbox),
        ),
{
    let res = match item {
        None => return Progress::Finished(Ok(mailbox)),
        Some(Err(error)) => return Progress::Finished(Err(Error::Io(IoError::Stream(error)))),
        Some(Ok(res)) => res,
    };
    let mut mailbox = mailbox;
    let ResponseData { raw, response } = res;
    match response {
        Response::Done { tag, status, outcome } if same_tag(&tag, command_tag) => {
            match status {
                Status::Okay => Progress::Finished(Ok(mailbox)),
                _ => Progress::Finished(Err(refusal(status, &outcome))),
            }
        },
        Response::Data { status, outcome } => match status {
            Status::Okay => {
                apply_code(&mut mailbox, outcome);
                Progress::More { state: mailbox, unilateral: None }
            },
            _ => Progress::Finished(Err(refusal(status, &outcome))),
        },
        Response::MailboxData(datum) => {
            match datum {
                MailboxDatum::Status { mailbox: name, status } => {
                    let response = Response::MailboxData(
                        MailboxDatum::Status { mailbox: name, status },
                    );
                    return Progress::More {
                        state: mailbox,
                        unilateral: Some(ResponseData { raw, response }),
                    };
                },
                MailboxDatum::Exists(n) => {
                    mailbox.exists = n;
                },
                MailboxDatum::Recent(n) => {
                    mailbox.recent = n;
                },
                MailboxDatum::Flags(texts) => {
                    extend_flags(&mut mailbox.flags, texts);
                },
                _ => {},
            }
            Progress::More { state: mailbox, unilateral: None }
        },
        response => Progress::More {
            state: mailbox,
            unilateral: Some(ResponseData { raw, response }),
        },
    }
}

/// The mailbox after one item of a `STATUS` response.
pub open spec fn with_attribute(m: MailboxModel, attribute: StatusAttribute) -> MailboxModel {
    match attribute {
        StatusAttribute::HighestModSeq(n) => MailboxModel { highest_modseq: Some(n), ..m },
        StatusAttribute::Messages(n) => MailboxModel { exists: n, ..m },
        StatusAttribute::Recent(n) => MailboxModel { recent: n, ..m },
        StatusAttribute::UidNext(n) => MailboxModel { uid_next: Some(n), ..m },
        StatusAttribute::UidValidity(n) => MailboxModel { uid_validity: Some(n), ..m },
        StatusAttribute::Unseen(n) => MailboxModel { unseen: Some(n), ..m },
        StatusAttribute::Other => m,
    }
}

/// The mailbox after the items of a `STATUS` response, one after the other.
pub open spec fn with_attributes(
    m: MailboxModel,
    attributes: Seq<StatusAttribute>,
) -> MailboxModel {
    attributes.fold_left(m, |m: MailboxModel, a: StatusAttribute| with_attribute(m, a))
}

/// What `STATUS` for a mailbox does on a response.
pub open spec fn status_reaction(
    m: MailboxModel,
    response: Response,
    expected_mailbox: Seq<char>,
    command_tag: RequestId,
) -> Reaction<MailboxModel> {
    match response {
        Response::Done { tag, status, outcome } => if tag.0@ != command_tag.0@ {
            Reaction::PassOn
        } else if status is Okay {
            Reaction::Complete
        } else {
            Reaction::Refuse(status, outcome)
        },
        Response::MailboxData(MailboxDatum::Status { mailbox, status }) => if mailbox@
            == expected_mailbox {
            Reaction::Keep(with_attributes(m, status@))
        } else {
            Reaction::PassOn
        },
        _ => Reaction::PassOn,
    }
}

/// Takes over one item of a `STATUS` response.
fn apply_attribute(mailbox: &mut Mailbox, attribute: StatusAttribute)
    ensures
        final(mailbox)@ == with_attribute(old(mailbox)@, attribute),
{
    match attribute {
        StatusAttribute::HighestModSeq(n) => {
            mailbox.highest_modseq = Some(n);
        },
        StatusAttribute::Messages(n) => {
            mailbox.exists = n;
        },
        StatusAttribute::Recent(n) => {
            mailbox.recent = n;
        },
        StatusAttribute::UidNext(n) => {
            mailbox.uid_next = Some(n);
        },
        StatusAttribute::UidValidity(n) => {
            mailbox.uid_validity = Some(n);
        },
        StatusAttribute::Unseen(n) => {
            mailbox.unseen = Some(n);
        },
        StatusAttribute::Other => {},
    }
}

/// Takes over the items of a `STATUS` response.
fn apply_attributes(mailbox: &mut Mailbox, attributes: &Vec<StatusAttribute>)
    ensures
        final(mailbox)@ == with_attributes(old(mailbox)@, attributes@),
{
    let ghost before = mailbox@;
    let mut i: usize = 0;
    while i < attributes.len()
        invariant
            i <= attributes@.len(),
            mailbox@ == with_attributes(before, attributes@.take(i as int)),
        decreases attributes@.len() - i,
    {
        proof {
            let next = attributes@.take(i + 1);
            assert(next.drop_last() == attributes@.take(i as int));
            assert(next.last() == attributes@[i as int]);
        }
        apply_attribute(mailbox, attributes[i]);
        i += 1;
    }
    assert(attributes@.take(i as int) == attributes@);
}

/// Collects the state of a mailbox from the responses to `STATUS`.
pub fn parse_status(
    mailbox: Mailbox,
    item: Item,
    expected_mailbox: &str,
    command_tag: &RequestId,
) -> (progress: Progress<Mailbox, Mailbox>)
    ensures
        crate::command::advances(
            progress,
            mailbox,
            item,
            |response: Response|
                status_reaction(mailbox@, response, expected_mailbox@, *command_tag),
            Ok(mailbox),
        ),
{
    let res = match item {
        None => return Progress::Finished(Ok(mailbox)),
        Some(Err(error)) => return Progress::Finished(Err(Error::Io(IoError::Stream(error)))),
        Some(Ok(res)) => res,
    };
    match res.parsed() {
        Response::Done { tag, status, outcome } if same_tag(tag, command_tag) => match status {
            Status::Okay => Progress::Finished(Ok(mailbox)),
            _ => Progress::Finished(Err(refusal(*status, outcome))),
        },
        Response::MailboxData(MailboxDatum::Status { mailbox: name, status }) if *name.as_str()
            == *expected_mailbox => {
            let mut mailbox = mailbox;
            apply_attributes(&mut mailbox, status);
            Progress::More { state: mailbox, unilateral: None }
        },
        _ => Progress::More { state: mailbox, unilateral: Some(res) },
    }
}

} // verus!
