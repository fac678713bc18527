//! Which responses the streams of results are made of.

use vstd::prelude::*;

use crate::command::Item;
use crate::error::{Error, IoError};
use crate::listing::{Fetch, Name, Step};
use crate::response::{MailboxDatum, RequestId, Response, ResponseData};

verus! {

/// What holds of an item in every stream of results: the end of the stream and the completion of
/// the command itself end the results, and nothing else does; a failure to read is a result; and a
/// response that is handed out is the one that came.
pub open spec fn goes_through<T>(step: Step<T>, item: Item, command_tag: RequestId) -> bool {
    match item {
        None => step is End,
        Some(Err(error)) => step == Step::<T>::Yield(Err(Error::Io(IoError::Stream(error)))),
        Some(Ok(res)) => {
            &&& step is End <==> (res.response matches Response::Done { tag, .. } && tag.0@
                == command_tag.0@)
            &&& step matches Step::Yield(result) ==> result is Ok
            &&& step matches Step::Unilateral(handed_out) ==> handed_out == res
        },
    }
}

/// A response to `LIST` yields a name if and only if it is a list of a mailbox, whatever that
/// holds. The name has the attributes, the delimiter and the name that were listed. Every other
/// response but the completion of the command is handed out.
pub proof fn law_every_listed_mailbox_is_a_name(
    step: Step<Name>,
    item: Item,
    command_tag: RequestId,
)
    requires
        crate::listing::steps(
            step,
            item,
            command_tag,
            |res: ResponseData| crate::listing::name_of(res),
        ),
    ensures
        goes_through(step, item, command_tag),
        item matches Some(Ok(res)) ==> {
            &&& step is Yield <==> (res.response matches Response::MailboxData(datum)
                && datum is List)
            &&& res.response matches Response::MailboxData(MailboxDatum::List(list)) ==> {
                &&& step matches Step::Yield(Ok(name))
                &&& name.attributes == list.name_attributes
                &&& name.delimiter == list.delimiter
                &&& name.name == list.name
            }
        },
{
}

/// A response to `FETCH` yields the data of a message if and only if it is a `FETCH`, whatever
/// that holds. The data has the sequence number, the attributes and the bytes that came. Every
/// other response but the completion of the command is handed out.
pub proof fn law_every_fetch_is_a_message(step: Step<Fetch>, item: Item, command_tag: RequestId)
    requires
        crate::listing::steps(
            step,
            item,
            command_tag,
            |res: ResponseData| crate::listing::fetch_of(res),
        ),
    ensures
        goes_through(step, item, command_tag),
        item matches Some(Ok(res)) ==> {
            &&& step is Yield <==> res.response is Fetch
            &&& res.response matches Response::Fetch(message, attributes) ==> {
                &&& step matches Step::Yield(Ok(fetch))
                &&& fetch.message == message
                &&& fetch.attributes == attributes
                &&& fetch.raw == res.raw
            }
        },
{
}

/// A response to `EXPUNGE` yields a number if and only if it is an `EXPUNGE`, and then the number
/// that it holds. Every other response but the completion of the command is handed out.
pub proof fn law_every_expunge_is_a_number(step: Step<u32>, item: Item, command_tag: RequestId)
    requires
        crate::listing::steps(
            step,
            item,
            command_tag,
            |res: ResponseData| crate::listing::expunged_of(res),
        ),
    ensures
        goes_through(step, item, command_tag),
        item matches Some(Ok(res)) ==> {
            &&& step is Yield <==> res.response is Expunge
            &&& res.response matches Response::Expunge(id) ==> step == Step::Yield(Ok(id))
        },
{
}

/// None of the items is the completion of the command.
pub open spec fn none_ends(
    items: Seq<Result<ResponseData, std::io::Error>>,
    command_tag: RequestId,
) -> bool {
    forall|i: int|
        0 <= i < items.len() ==> !(#[trigger] items[i] matches Ok(res)
            && res.response matches Response::Done { tag, .. } && tag.0@ == command_tag.0@)
}

/// Until `LIST` is complete, its results are one name for every listed mailbox, as it was listed,
/// and one error for every failure to read, in their order, and all other responses were handed
/// out in theirs.
pub proof fn law_names_are_the_listed_mailboxes(
    sequence: Seq<Step<Name>>,
    items: Seq<Result<ResponseData, std::io::Error>>,
    command_tag: RequestId,
)
    requires
        none_ends(items, command_tag),
        sequence.len() == items.len(),
        forall|i: int|
            0 <= i < items.len() ==> crate::listing::steps(
                #[trigger] sequence[i],
                Some(items[i]),
                command_tag,
                |res: ResponseData| crate::listing::name_of(res),
            ),
    ensures
        crate::listing::results(sequence) == items.filter(
            |item: Result<ResponseData, std::io::Error>|
                item matches Ok(res) ==> res.response matches Response::MailboxData(datum)
                    && datum is List,
        ).map_values(
            |item: Result<ResponseData, std::io::Error>|
                match item {
                    Err(error) => Err::<Name, Error>(Error::Io(IoError::Stream(error))),
                    Ok(res) => Ok(
                        Name {
                            attributes: res.response->MailboxData_0->List_0.name_attributes,
                            delimiter: res.response->MailboxData_0->List_0.delimiter,
                            name: res.response->MailboxData_0->List_0.name,
                        },
                    ),
                },
        ),
        crate::listing::passed_on(sequence) == items.filter(
            |item: Result<ResponseData, std::io::Error>|
                item matches Ok(res) && !(res.response matches Response::MailboxData(datum)
                    && datum is List),
        ).map_values(|item: Result<ResponseData, std::io::Error>| item->Ok_0),
    decreases items.len(),
{
    reveal(Seq::filter);
    if items.len() > 0 {
        let n = items.len() - 1;
        assert forall|i: int| 0 <= i < n implies !(#[trigger] items.drop_last()[i] matches Ok(res)
            && res.response matches Response::Done { tag, .. } && tag.0@ == command_tag.0@) by {
            assert(items.drop_last()[i] == items[i]);
        }
        assert forall|i: int| 0 <= i < n implies crate::listing::steps(
            #[trigger] sequence.drop_last()[i],
            Some(items.drop_last()[i]),
            command_tag,
            |res: ResponseData| crate::listing::name_of(res),
        ) by {
            assert(sequence.drop_last()[i] == sequence[i]);
        }
        law_names_are_the_listed_mailboxes(sequence.drop_last(), items.drop_last(), command_tag);
        assert(sequence.last() == sequence[n]);
        assert(items.last() == items[n]);
    }
}

/// Until `FETCH` is complete, its results are one message for every `FETCH` response, as it came,
/// and one error for every failure to read, in their order, and all other responses were handed
/// out in theirs.
pub proof fn law_messages_are_the_fetched_ones(
    sequence: Seq<Step<Fetch>>,
    items: Seq<Result<ResponseData, std::io::Error>>,
    command_tag: RequestId,
)
    requires
        none_ends(items, command_tag),
        sequence.len() == items.len(),
        forall|i: int|
            0 <= i < items.len() ==> crate::listing::steps(
                #[trigger] sequence[i],
                Some(items[i]),
                command_tag,
                |res: ResponseData| crate::listing::fetch_of(res),
            ),
    ensures
        crate::listing::results(sequence) == items.filter(
            |item: Result<ResponseData, std::io::Error>|
                item matches Ok(res) ==> res.response is Fetch,
        ).map_values(
            |item: Result<ResponseData, std::io::Error>|
                match item {
                    Err(error) => Err::<Fetch, Error>(Error::Io(IoError::Stream(error))),
                    Ok(res) => Ok(
                        Fetch {
                            message: res.response->Fetch_0,
                            attributes: res.response->Fetch_1,
                            raw: res.raw,
                        },
                    ),
                },
        ),
        crate::listing::passed_on(sequence) == items.filter(
            |item: Result<ResponseData, std::io::Error>|
                item matches Ok(res) && !(res.response is Fetch),
        ).map_values(|item: Result<ResponseData, std::io::Error>| item->Ok_0),
    decreases items.len(),
{
    reveal(Seq::filter);
    if items.len() > 0 {
        let n = items.len() - 1;
        assert forall|i: int| 0 <= i < n implies !(#[trigger] items.drop_last()[i] matches Ok(res)
            && res.response matches Response::Done { tag, .. } && tag.0@ == command_tag.0@) by {
            assert(items.drop_last()[i] == items[i]);
        }
        assert forall|i: int| 0 <= i < n implies crate::listing::steps(
            #[trigger] sequence.drop_last()[i],
            Some(items.drop_last()[i]),
            command_tag,
            |res: ResponseData| crate::listing::fetch_of(res),
        ) by {
            assert(sequence.drop_last()[i] == sequence[i]);
        }
        law_messages_are_the_fetched_ones(sequence.drop_last(), items.drop_last(), command_tag);
        assert(sequence.last() == sequence[n]);
        assert(items.last() == items[n]);
    }
}

/// Until `EXPUNGE` is complete, its results are the number of every `EXPUNGE` response and one
/// error for every failure to read, in their order, and all other responses were handed out in
/// theirs.
pub proof fn law_numbers_are_the_expunged_ones(
    sequence: Seq<Step<u32>>,
    items: Seq<Result<ResponseData, std::io::Error>>,
    command_tag: RequestId,
)
    requires
        none_ends(items, command_tag),
        sequence.len() == items.len(),
        forall|i: int|
            0 <= i < items.len() ==> crate::listing::steps(
                #[trigger] sequence[i],
                Some(items[i]),
                command_tag,
                |res: ResponseData| crate::listing::expunged_of(res),
            ),
    ensures
        crate::listing::results(sequence) == items.filter(
            |item: Result<ResponseData, std::io::Error>|
                item matches Ok(res) ==> res.response is Expunge,
        ).map_values(
            |item: Result<ResponseData, std::io::Error>|
                match item {
                    Err(error) => Err::<u32, Error>(Error::Io(IoError::Stream(error))),
                    Ok(res) => Ok(res.response->Expunge_0),
                },
        ),
        crate::listing::passed_on(sequence) == items.filter(
            |item: Result<ResponseData, std::io::Error>|
                item matches Ok(res) && !(res.response is Expunge),
        ).map_values(|item: Result<ResponseData, std::io::Error>| item->Ok_0),
    decreases items.len(),
{
    reveal(Seq::filter);
    if items.len() > 0 {
        let n = items.len() - 1;
        assert forall|i: int| 0 <= i < n implies !(#[trigger] items.drop_last()[i] matches Ok(res)
            && res.response matches Response::Done { tag, .. } && tag.0@ == command_tag.0@) by {
            assert(items.drop_last()[i] == items[i]);
        }
        assert forall|i: int| 0 <= i < n implies crate::listing::steps(
            #[trigger] sequence.drop_last()[i],
            Some(items.drop_last()[i]),
            command_tag,
            |res: ResponseData| crate::listing::expunged_of(res),
        ) by {
            assert(sequence.drop_last()[i] == sequence[i]);
        }
        law_numbers_are_the_expunged_ones(sequence.drop_last(), items.drop_last(), command_tag);
        assert(sequence.last() == sequence[n]);
        assert(items.last() == items[n]);
    }
}

} // verus!
