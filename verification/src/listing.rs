//! Commands whose answer is a stream of results: `LIST`, `FETCH` and `EXPUNGE`.

use vstd::prelude::*;

use crate::command::{filter_sync, Item};
use crate::error::{Error, IoError};
use crate::response::{
    AttributeValue, MailboxDatum, NameAttribute, RequestId, Response, ResponseData,
};

verus! {

/// What an item of the stream of responses comes to in a stream of results.
#[derive(Debug)]
pub enum Step<T> {
    /// This is the next result.
    Yield(Result<T, Error>),
    /// There is no result, and this response is to be handled as an unsolicited one.
    Unilateral(ResponseData),
    /// There are no more results.
    End,
}

/// `step` is what an item comes to in the results of the command with this tag, where `result`
/// tells which result a response stands for, if it stands for one.
///
/// The results end where the command is complete or the stream ends. A failure to read is a
/// result, after which more may follow.
pub open spec fn steps<T>(
    step: Step<T>,
    item: Item,
    command_tag: RequestId,
    result: spec_fn(ResponseData) -> Option<T>,
) -> bool {
    match item {
        None => step == Step::<T>::End,
        Some(Err(error)) => step == Step::<T>::Yield(Err(Error::Io(IoError::Stream(error)))),
        Some(Ok(res)) => if crate::command::completes(res.response, command_tag) {
            step == Step::<T>::End
        } else {
            match result(res) {
                Some(result) => step == Step::Yield(Ok(result)),
                None => step == Step::<T>::Unilateral(res),
            }
        },
    }
}

/// The results among what items come to, in their order.
pub open spec fn results<T>(sequence: Seq<Step<T>>) -> Seq<Result<T, Error>>
    decreases sequence.len(),
{
    if sequence.len() == 0 {
        Seq::empty()
    } else {
        match sequence.last() {
            Step::Yield(result) => results(sequence.drop_last()).push(result),
            _ => results(sequence.drop_last()),
        }
    }
}

/// The responses that were handled as unsolicited ones among what items come to, in their order.
pub open spec fn passed_on<T>(sequence: Seq<Step<T>>) -> Seq<ResponseData>
    decreases sequence.len(),
{
    if sequence.len() == 0 {
        Seq::empty()
    } else {
        match sequence.last() {
            Step::Unilateral(res) => passed_on(sequence.drop_last()).push(res),
            _ => passed_on(sequence.drop_last()),
        }
    }
}

/// What the stream of results yields for an item, if it yields something.
pub open spec fn yielded<T>(
    item: Result<ResponseData, std::io::Error>,
    result: spec_fn(ResponseData) -> Option<T>,
) -> Option<Result<T, Error>> {
    match item {
        Ok(res) => match result(res) {
            Some(result) => Some(Ok(result)),
            None => None,
        },
        Err(error) => Some(Err(Error::Io(IoError::Stream(error)))),
    }
}

/// The item is a response that stands for no result.
pub open spec fn is_unsolicited<T>(
    item: Result<ResponseData, std::io::Error>,
    result: spec_fn(ResponseData) -> Option<T>,
) -> bool {
    item matches Ok(res) && result(res) is None
}

/// Until the command is complete, every response that stands for a result yields it, every failure
/// to read yields the error, both in the order of the items, and every other response is handled
/// as an unsolicited one.
pub proof fn law_results_are_what_was_sent<T>(
    sequence: Seq<Step<T>>,
    items: Seq<Result<ResponseData, std::io::Error>>,
    command_tag: RequestId,
    result: spec_fn(ResponseData) -> Option<T>,
)
    requires
        forall|i: int|
            0 <= i < items.len() ==> !(#[trigger] items[i] matches Ok(res)
                && crate::command::completes(res.response, command_tag)),
        sequence.len() == items.len(),
        forall|i: int|
            0 <= i < items.len() ==> steps(
                #[trigger] sequence[i],
                Some(items[i]),
                command_tag,
                result,
            ),
    ensures
        results(sequence) == items.filter(
            |item: Result<ResponseData, std::io::Error>| yielded(item, result) is Some,
        ).map_values(
            |item: Result<ResponseData, std::io::Error>| yielded(item, result)->0,
        ),
        passed_on(sequence) == items.filter(
            |item: Result<ResponseData, std::io::Error>| is_unsolicited(item, result),
        ).map_values(|item: Result<ResponseData, std::io::Error>| item->Ok_0),
    decreases items.len(),
{
    reveal(Seq::filter);
    if items.len() > 0 {
        let n = items.len() - 1;
        assert forall|i: int| 0 <= i < n implies !(#[trigger] items.drop_last()[i] matches Ok(res)
            && crate::command::completes(res.response, command_tag)) by {
            assert(items.drop_last()[i] == items[i]);
        }
        assert forall|i: int| 0 <= i < n implies steps(
            #[trigger] sequence.drop_last()[i],
            Some(items.drop_last()[i]),
            command_tag,
            result,
        ) by {
            assert(sequence.drop_last()[i] == sequence[i]);
        }
        law_results_are_what_was_sent(
            sequence.drop_last(),
            items.drop_last(),
            command_tag,
            result,
        );
        assert(sequence.last() == sequence[n]);
        assert(items.last() == items[n]);
    }
}

/// The item that a command with this tag has to look at, unless its results end with it.
fn current(item: Item, command_tag: &RequestId) -> (res: Item)
    ensures
        res == match item {
            Some(Ok(data)) if crate::command::completes(data.response, *command_tag) => None,
            _ => item,
        },
{
    match item {
        Some(res) if filter_sync(&res, command_tag) => Some(res),
        _ => None,
    }
}

/// The name of a mailbox, with its attributes.
#[derive(Debug, PartialEq, Eq)]
pub struct Name {
    pub attributes: Vec<NameAttribute>,
    pub delimiter: Option<String>,
    pub name: String,
}

/// The name that a response lists.
pub open spec fn name_of(res: ResponseData) -> Option<Name> {
    match res.response {
        Response::MailboxData(MailboxDatum::List(list)) => Some(
            Name {
                attributes: list.name_attributes,
                delimiter: list.delimiter,
                name: list.name,
            },
        ),
        _ => None,
    }
}

/// Picks the names out of the responses to `LIST` or `LSUB`.
pub fn parse_names(item: Item, command_tag: &RequestId) -> (step: Step<Name>)
    ensures
        steps(step, item, *command_tag, |res: ResponseData| name_of(res)),
{
    match current(item, command_tag) {
        None => Step::End,
        Some(Err(error)) => Step::Yield(Err(Error::Io(IoError::Stream(error)))),
        Some(Ok(ResponseData { raw, response })) => match response {
            Response::MailboxData(MailboxDatum::List(list)) => {
                Step::Yield(
                    Ok(
                        Name {
                            attributes: list.name_attributes,
                            delimiter: list.delimiter,
                            name: list.name,
                        },
                    ),
                )
            },
            response => Step::Unilateral(ResponseData { raw, response }),
        },
    }
}

/// The data of a message.
#[derive(Debug, PartialEq, Eq)]
pub struct Fetch {
    /// The sequence number of the message.
    pub message: u32,
    pub attributes: Vec<AttributeValue>,
    /// The bytes of the response that the data came with.
    pub raw: Vec<u8>,
}

/// The data of a message that a response holds.
pub open spec fn fetch_of(res: ResponseData) -> Option<Fetch> {
    match res.response {
        Response::Fetch(message, attributes) => Some(Fetch { message, attributes, raw: res.raw }),
        _ => None,
    }
}

/// Picks the data of messages out of the responses to `FETCH` or `STORE`.
pub fn parse_fetches(item: Item, command_tag: &RequestId) -> (step: Step<Fetch>)
    ensures
        steps(step, item, *command_tag, |res: ResponseData| fetch_of(res)),
{
    match current(item, command_tag) {
        None => Step::End,
        Some(Err(error)) => Step::Yield(Err(Error::Io(IoError::Stream(error)))),
        Some(Ok(ResponseData { raw, response })) => match response {
            Response::Fetch(message, attributes) => {
                Step::Yield(Ok(Fetch { message, attributes, raw }))
            },
            response => Step::Unilateral(ResponseData { raw, response }),
        },
    }
}

/// The sequence number of a message that a response reports as gone.
pub open spec fn expunged_of(res: ResponseData) -> Option<u32> {
    match res.response {
        Response::Expunge(id) => Some(id),
        _ => None,
    }
}

/// Picks the sequence numbers out of the responses to `EXPUNGE`.
pub fn parse_expunge(item: Item, command_tag: &RequestId) -> (step: Step<u32>)
    ensures
        steps(step, item, *command_tag, |res: ResponseData| expunged_of(res)),
{
    match current(item, command_tag) {
        None => Step::End,
        Some(Err(error)) => Step::Yield(Err(Error::Io(IoError::Stream(error)))),
        Some(Ok(res)) => match res.parsed() {
            Response::Expunge(id) => Step::Yield(Ok(*id)),
            _ => Step::Unilateral(res),
        },
    }
}

} // verus!
