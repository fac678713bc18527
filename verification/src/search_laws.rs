//! What a search finds, over all the responses to it.

use vstd::prelude::*;

use crate::command::{Item, Progress, Run};
use crate::error::{Error, IoError, ParseError};
use crate::response::{
    IdRange, MailboxDatum, RequestId, Response, ResponseData, SearchReturnData,
};
use crate::search::{Failure, FoundIds, FoundIdsModel, MAX_ESEARCH_IDS};

verus! {

/// The id lies between the two ends of the range, whichever of them comes first.
pub open spec fn lies_in(id: u32, range: IdRange) -> bool {
    range.start <= id <= range.end || range.end <= id <= range.start
}

/// How many ids lie between the two ends of a range, both included.
pub open spec fn span(range: IdRange) -> nat {
    if range.start <= range.end {
        (range.end - range.start + 1) as nat
    } else {
        (range.start - range.end + 1) as nat
    }
}

/// An `ALL` item, in any case of letters, whose value is not a sequence-set.
pub open spec fn is_bad_all(item: SearchReturnData) -> bool {
    item matches SearchReturnData::Other { name, .. } && crate::text_laws::reads_as(
        name@,
        seq!['a', 'l', 'l'],
    )
}

/// The search takes for an unreadable `ALL` item what is one.
proof fn lemma_bad_all(item: SearchReturnData)
    ensures
        crate::search::is_unreadable_all(item) <==> is_bad_all(item),
{
    if let SearchReturnData::Other { name, .. } = item {
        crate::text_laws::lemma_all(name@);
    }
}

/// The ids of a sequence-set.
pub open spec fn set_ids(ranges: Seq<IdRange>) -> Set<u32> {
    Set::new(
        |id: u32| exists|k: int| 0 <= k < ranges.len() && lies_in(id, #[trigger] ranges[k]),
    )
}

/// The ids that a return item announces.
pub open spec fn item_ids(item: SearchReturnData) -> Set<u32> {
    match item {
        SearchReturnData::All(ranges) => set_ids(ranges@),
        _ => Set::empty(),
    }
}

/// The ids that the return items of a response announce.
pub open spec fn data_ids(data: Seq<SearchReturnData>) -> Set<u32> {
    Set::new(
        |id: u32|
            exists|k: int| 0 <= k < data.len() && item_ids(#[trigger] data[k]).contains(id),
    )
}

/// The ids that a response announces to the command with this tag.
pub open spec fn announced_ids(res: ResponseData, command_tag: RequestId) -> Set<u32> {
    match res.response {
        Response::MailboxData(MailboxDatum::Search(found)) => found@.to_set(),
        Response::MailboxData(MailboxDatum::ESearch { correlator, data, .. })
            if correlator is None || correlator->Some_0@ == command_tag.0@ => data_ids(data@),
        _ => Set::empty(),
    }
}

/// The return items of a response, if it is an `ESEARCH` that answers the command with this tag.
pub open spec fn returns_of(response: Response, command_tag: RequestId) -> Option<
    Seq<SearchReturnData>,
> {
    match response {
        Response::MailboxData(MailboxDatum::ESearch { correlator, data, .. })
            if correlator is None || correlator->Some_0@ == command_tag.0@ => Some(data@),
        _ => None,
    }
}

/// A search of which no response has come yet.
pub open spec fn nothing_found() -> FoundIdsModel {
    FoundIdsModel { ids: Set::empty(), esearch_error: None }
}

/// A search after the responses.
pub open spec fn search_run(responses: Seq<ResponseData>, command_tag: RequestId) -> Run<
    FoundIdsModel,
> {
    crate::command::run(
        |m: FoundIdsModel, response: Response|
            crate::search::search_reaction(m, response, command_tag),
        nothing_found(),
        responses,
    )
}

/// The two ends of a range may come in either order.
pub proof fn law_range_in_either_order(start: u32, end: u32)
    ensures
        crate::search::range_ids(IdRange { start, end }) == crate::search::range_ids(
            IdRange { start: end, end: start },
        ),
        crate::search::range_size(IdRange { start, end }) == crate::search::range_size(
            IdRange { start: end, end: start },
        ),
{
    assert(crate::search::range_ids(IdRange { start, end }) =~= crate::search::range_ids(
        IdRange { start: end, end: start },
    ));
}

/// A range holds the ids between its two ends, and its size is the number of them.
pub proof fn law_range_size(range: IdRange)
    ensures
        forall|id: u32| #[trigger]
            crate::search::range_ids(range).contains(id) <==> lies_in(id, range),
        crate::search::range_size(range) == span(range),
        crate::search::range_ids(range).finite(),
        crate::search::range_ids(range).len() == crate::search::range_size(range),
{
    broadcast use vstd::set_lib::range_set_properties;

    if range.start <= range.end {
        assert(crate::search::range_ids(range) =~= Set::range_inclusive(range.start, range.end));
        assert(!Set::range(range.start, range.end).contains(range.end));
    } else {
        assert(crate::search::range_ids(range) =~= Set::range_inclusive(range.end, range.start));
        assert(!Set::range(range.end, range.start).contains(range.start));
    }
}

/// The ranges of an `ALL` item are added as they stand, but for those that come after one that
/// does not fit.
proof fn lemma_with_ranges(ids: Set<u32>, ranges: Seq<IdRange>)
    ensures
        ({
            let (after, fit) = crate::search::with_ranges(ids, ranges);
            &&& ids.subset_of(after)
            &&& after.subset_of(ids.union(set_ids(ranges)))
            &&& fit ==> after == ids.union(set_ids(ranges))
        }),
    decreases ranges.len(),
{
    let (after, fit) = crate::search::with_ranges(ids, ranges);
    if ranges.len() == 0 {
        assert(after =~= ids.union(set_ids(ranges)));
    } else {
        let init = ranges.drop_last();
        lemma_with_ranges(ids, init);
        assert forall|id: u32|
            set_ids(ranges).contains(id) <==> set_ids(init).contains(id)
                || lies_in(id, ranges.last()) by {
            if set_ids(init).contains(id) {
                let k = choose|k: int|
                    0 <= k < init.len() && lies_in(id, #[trigger] init[k]);
                assert(lies_in(id, ranges[k]));
            }
            if lies_in(id, ranges.last()) {
                assert(lies_in(id, ranges[ranges.len() - 1]));
            }
            if set_ids(ranges).contains(id) {
                let k = choose|k: int|
                    0 <= k < ranges.len() && lies_in(id, #[trigger] ranges[k]);
                if k < init.len() {
                    assert(lies_in(id, init[k]));
                }
            }
        }
        if fit {
            assert(after =~= ids.union(set_ids(ranges)));
        }
    }
}

/// The return items of an `ESEARCH` response add the ids that they announce. Where one fails, a
/// part of them may have been added, and nothing is lost or made up.
pub proof fn law_items_add_what_they_announce(ids: Set<u32>, data: Seq<SearchReturnData>)
    ensures
        ({
            let (after, failure) = crate::search::with_items(ids, data);
            &&& ids.subset_of(after)
            &&& after.subset_of(ids.union(data_ids(data)))
            &&& failure is None ==> after == ids.union(data_ids(data))
        }),
    decreases data.len(),
{
    let (after, failure) = crate::search::with_items(ids, data);
    if data.len() == 0 {
        assert(after =~= ids.union(data_ids(data)));
    } else {
        let init = data.drop_last();
        let (before, earlier) = crate::search::with_items(ids, init);
        law_items_add_what_they_announce(ids, init);
        match data.last() {
            SearchReturnData::All(ranges) => lemma_with_ranges(before, ranges@),
            _ => {},
        }
        assert forall|id: u32|
            data_ids(data).contains(id) <==> data_ids(init).contains(id) || item_ids(
                data.last(),
            ).contains(id) by {
            if data_ids(init).contains(id) {
                let k = choose|k: int|
                    0 <= k < init.len() && item_ids(#[trigger] init[k]).contains(id);
                assert(item_ids(data[k]).contains(id));
            }
            if item_ids(data.last()).contains(id) {
                assert(item_ids(data[data.len() - 1]).contains(id));
            }
            if data_ids(data).contains(id) {
                let k = choose|k: int|
                    0 <= k < data.len() && item_ids(#[trigger] data[k]).contains(id);
                if k < init.len() {
                    assert(item_ids(init[k]).contains(id));
                }
            }
        }
        if failure is None {
            assert(earlier is None);
            assert(after =~= ids.union(data_ids(data)));
        }
    }
}

/// An `ESEARCH` response without `ALL` adds nothing and does no harm.
pub proof fn law_no_all_means_nothing_matched(ids: Set<u32>, data: Seq<SearchReturnData>)
    requires
        forall|k: int|
            0 <= k < data.len() ==> !(#[trigger] data[k] is All)
                && !is_bad_all(data[k]),
    ensures
        crate::search::with_items(ids, data) == (ids, None::<Failure>),
    decreases data.len(),
{
    if data.len() > 0 {
        let init = data.drop_last();
        assert forall|k: int| 0 <= k < init.len() implies !(#[trigger] init[k] is All)
            && !is_bad_all(init[k]) by {
            assert(init[k] == data[k]);
        }
        law_no_all_means_nothing_matched(ids, init);
        assert(data.last() == data[data.len() - 1]);
        lemma_bad_all(data.last());
    }
}

/// Return items that follow others go on from what those have found, unless one of those failed:
/// then they add nothing.
pub proof fn law_items_add_up(
    ids: Set<u32>,
    first: Seq<SearchReturnData>,
    second: Seq<SearchReturnData>,
)
    ensures
        ({
            let (between, failure) = crate::search::with_items(ids, first);
            crate::search::with_items(ids, first + second) == match failure {
                None => crate::search::with_items(between, second),
                Some(_) => (between, failure),
            }
        }),
    decreases second.len(),
{
    if second.len() == 0 {
        assert(first + second == first);
    } else {
        assert((first + second).drop_last() == first + second.drop_last());
        law_items_add_up(ids, first, second.drop_last());
    }
}

/// A search makes the same of return items in one `ESEARCH` response as of the same items in two,
/// whether one of them fails or not.
pub proof fn law_items_may_come_in_several_responses(
    m: FoundIdsModel,
    whole: Response,
    first: Response,
    second: Response,
    command_tag: RequestId,
)
    requires
        returns_of(whole, command_tag) is Some,
        returns_of(first, command_tag) is Some,
        returns_of(second, command_tag) is Some,
        returns_of(whole, command_tag)->0 == returns_of(first, command_tag)->0 + returns_of(
            second,
            command_tag,
        )->0,
    ensures
        crate::search::search_reaction(m, first, command_tag) is Keep,
        crate::search::search_reaction(m, whole, command_tag) == crate::search::search_reaction(
            crate::search::search_reaction(m, first, command_tag)->Keep_0,
            second,
            command_tag,
        ),
{
    law_items_add_up(
        m.ids,
        returns_of(first, command_tag)->0,
        returns_of(second, command_tag)->0,
    );
}

/// The response is one that a search makes no use of.
pub open spec fn is_foreign_to_search(res: ResponseData, command_tag: RequestId) -> bool {
    match res.response {
        Response::MailboxData(MailboxDatum::Search(_)) => false,
        Response::MailboxData(MailboxDatum::ESearch { correlator, .. }) => correlator is Some
            && correlator->Some_0@ != command_tag.0@,
        _ => true,
    }
}

/// Until it is complete, a search without a failure has found the ids that were announced to it,
/// in however many responses, and no others. With a failure it has found none but such.
pub proof fn law_found_ids_are_the_announced_ones(
    responses: Seq<ResponseData>,
    command_tag: RequestId,
)
    requires
        crate::command::none_completes(responses, command_tag),
    ensures
        search_run(responses, command_tag) is Open,
        ({
            let found = search_run(responses, command_tag)->Open_state;
            &&& forall|id: u32| #[trigger]
                found.ids.contains(id) ==> exists|i: int|
                    0 <= i < responses.len() && announced_ids(
                        #[trigger] responses[i],
                        command_tag,
                    ).contains(id)
            &&& found.esearch_error is None ==> forall|id: u32, i: int|
                0 <= i < responses.len() && announced_ids(
                    #[trigger] responses[i],
                    command_tag,
                ).contains(id) ==> #[trigger] found.ids.contains(id)
        }),
    decreases responses.len(),
{
    if responses.len() > 0 {
        let init = responses.drop_last();
        let last = responses.last();
        crate::command::lemma_none_completes(responses, command_tag);
        law_found_ids_are_the_announced_ones(init, command_tag);
        let before = search_run(init, command_tag)->Open_state;
        let found = search_run(responses, command_tag)->Open_state;
        if let Response::MailboxData(MailboxDatum::ESearch { correlator, data, .. })
            = last.response {
            law_items_add_what_they_announce(before.ids, data@);
        }
        assert(last == responses[responses.len() - 1]);
        assert forall|id: u32| #[trigger] found.ids.contains(id) implies exists|i: int|
            0 <= i < responses.len() && announced_ids(
                #[trigger] responses[i],
                command_tag,
            ).contains(id) by {
            if before.ids.contains(id) {
                let i = choose|i: int|
                    0 <= i < init.len() && announced_ids(#[trigger] init[i], command_tag).contains(
                        id,
                    );
                assert(announced_ids(responses[i], command_tag).contains(id));
            } else {
                assert(announced_ids(responses[responses.len() - 1], command_tag).contains(id));
            }
        }
        if found.esearch_error is None {
            assert(before.esearch_error is None);
            assert forall|id: u32, i: int|
                0 <= i < responses.len() && announced_ids(
                    #[trigger] responses[i],
                    command_tag,
                ).contains(id) implies #[trigger] found.ids.contains(id) by {
                if i < init.len() {
                    assert(announced_ids(init[i], command_tag).contains(id));
                    assert(before.ids.contains(id));
                }
            }
        }
    }
}

/// Whatever fails, a search consumes every response: it passes on those that are not its own, an
/// `ESEARCH` correlated with another command among them, in their order.
pub proof fn law_search_passes_on_the_rest(responses: Seq<ResponseData>, command_tag: RequestId)
    requires
        crate::command::none_completes(responses, command_tag),
    ensures
        search_run(responses, command_tag) is Open,
        search_run(responses, command_tag).passed_on() == responses.filter(
            |res: ResponseData| is_foreign_to_search(res, command_tag),
        ),
    decreases responses.len(),
{
    reveal(Seq::filter);
    if responses.len() > 0 {
        crate::command::lemma_none_completes(responses, command_tag);
        law_search_passes_on_the_rest(responses.drop_last(), command_tag);
    }
}

/// The first failure of a search is the one that it ends with.
pub proof fn law_first_failure_stays(
    responses: Seq<ResponseData>,
    more: Seq<ResponseData>,
    command_tag: RequestId,
)
    requires
        crate::command::none_completes(responses + more, command_tag),
        search_run(responses, command_tag) is Open,
        search_run(responses, command_tag)->Open_state.esearch_error is Some,
    ensures
        search_run(responses + more, command_tag) is Open,
        search_run(responses + more, command_tag)->Open_state.esearch_error == search_run(
            responses,
            command_tag,
        )->Open_state.esearch_error,
    decreases more.len(),
{
    if more.len() == 0 {
        assert(responses + more == responses);
    } else {
        assert((responses + more).drop_last() == responses + more.drop_last());
        crate::command::lemma_none_completes(responses + more, command_tag);
        law_first_failure_stays(responses, more.drop_last(), command_tag);
    }
}

/// The return item alone is enough to fail a search: it is an `ALL` item that is not a
/// sequence-set, or one with a range of too many ids.
pub open spec fn is_hopeless(item: SearchReturnData) -> bool {
    match item {
        SearchReturnData::All(ranges) => exists|k: int|
            0 <= k < ranges@.len() && span(#[trigger] ranges@[k])
                > MAX_ESEARCH_IDS,
        _ => is_bad_all(item),
    }
}

/// The response answers the command with this tag and holds a return item that fails it.
pub open spec fn brings_failure(res: ResponseData, command_tag: RequestId) -> bool {
    match res.response {
        Response::MailboxData(MailboxDatum::ESearch { correlator, data, .. }) =>
            (correlator is None || correlator->Some_0@ == command_tag.0@) && exists|k: int|
                0 <= k < data@.len() && is_hopeless(#[trigger] data@[k]),
        _ => false,
    }
}

/// A range of too many ids never fits.
proof fn lemma_large_range(ids: Set<u32>, ranges: Seq<IdRange>, k: int)
    requires
        0 <= k < ranges.len(),
        span(ranges[k]) > MAX_ESEARCH_IDS,
    ensures
        !crate::search::with_ranges(ids, ranges).1,
    decreases ranges.len(),
{
    if k < ranges.len() - 1 {
        lemma_large_range(ids, ranges.drop_last(), k);
    }
}

/// Return items with one that alone fails a search fail.
proof fn lemma_hopeless_items(ids: Set<u32>, data: Seq<SearchReturnData>, k: int)
    requires
        0 <= k < data.len(),
        is_hopeless(data[k]),
    ensures
        crate::search::with_items(ids, data).1 is Some,
    decreases data.len(),
{
    let before = crate::search::with_items(ids, data.drop_last()).0;
    lemma_bad_all(data[k]);
    if k < data.len() - 1 {
        lemma_hopeless_items(ids, data.drop_last(), k);
    } else {
        match data[k] {
            SearchReturnData::All(ranges) => {
                let j = choose|j: int|
                    0 <= j < ranges@.len() && span(#[trigger] ranges@[j])
                        > MAX_ESEARCH_IDS;
                lemma_large_range(before, ranges@, j);
            },
            _ => {},
        }
    }
}

/// An `ALL` value that is not a sequence-set, or a range of more than [`MAX_ESEARCH_IDS`] ids,
/// fails the search, whatever comes before and after it.
pub proof fn law_bad_esearch_fails_the_search(
    responses: Seq<ResponseData>,
    command_tag: RequestId,
    i: int,
)
    requires
        crate::command::none_completes(responses, command_tag),
        0 <= i < responses.len(),
        brings_failure(responses[i], command_tag),
    ensures
        search_run(responses, command_tag) is Open,
        search_run(responses, command_tag)->Open_state.esearch_error is Some,
    decreases responses.len(),
{
    let init = responses.drop_last();
    crate::command::lemma_none_completes(responses, command_tag);
    if i < init.len() {
        law_bad_esearch_fails_the_search(init, command_tag, i);
    } else {
        law_search_passes_on_the_rest(init, command_tag);
        let before = search_run(init, command_tag)->Open_state;
        if let Response::MailboxData(MailboxDatum::ESearch { data, .. }) = responses[i].response {
            let k = choose|k: int| 0 <= k < data@.len() && is_hopeless(#[trigger] data@[k]);
            lemma_hopeless_items(before.ids, data@, k);
        }
    }
}

/// The number of ids of a sequence-set, each counted as often as it occurs.
pub open spec fn set_size(ranges: Seq<IdRange>) -> nat
    decreases ranges.len(),
{
    if ranges.len() == 0 {
        0
    } else {
        set_size(ranges.drop_last()) + span(ranges.last())
    }
}

/// The number of ids that return items announce, each counted as often as it occurs.
pub open spec fn data_size(data: Seq<SearchReturnData>) -> nat
    decreases data.len(),
{
    if data.len() == 0 {
        0
    } else {
        data_size(data.drop_last()) + match data.last() {
            SearchReturnData::All(ranges) => set_size(ranges@),
            _ => 0,
        }
    }
}

/// The number of ids that a response announces to the command with this tag, each counted as often
/// as it occurs.
pub open spec fn response_size(res: ResponseData, command_tag: RequestId) -> nat {
    match res.response {
        Response::MailboxData(MailboxDatum::Search(found)) => found@.len(),
        Response::MailboxData(MailboxDatum::ESearch { correlator, data, .. })
            if correlator is None || correlator->Some_0@ == command_tag.0@ => data_size(data@),
        _ => 0,
    }
}

/// The number of ids that responses announce to the command with this tag, each counted as often
/// as it occurs.
pub open spec fn total_size(responses: Seq<ResponseData>, command_tag: RequestId) -> nat
    decreases responses.len(),
{
    if responses.len() == 0 {
        0
    } else {
        total_size(responses.drop_last(), command_tag) + response_size(
            responses.last(),
            command_tag,
        )
    }
}

/// None of the return items is an `ALL` item that is not a sequence-set.
pub open spec fn is_readable(res: ResponseData, command_tag: RequestId) -> bool {
    match res.response {
        Response::MailboxData(MailboxDatum::ESearch { correlator, data, .. }) =>
            (correlator is None || correlator->Some_0@ == command_tag.0@) ==> forall|k: int|
                0 <= k < data@.len() ==> !is_bad_all(#[trigger] data@[k]),
        _ => true,
    }
}

/// Ranges that fit in all are all added.
proof fn lemma_ranges_fit(ids: Set<u32>, ranges: Seq<IdRange>)
    requires
        ids.finite(),
        ids.len() + set_size(ranges) <= MAX_ESEARCH_IDS,
    ensures
        crate::search::with_ranges(ids, ranges).1,
        crate::search::with_ranges(ids, ranges).0.finite(),
        crate::search::with_ranges(ids, ranges).0.len() <= ids.len() + set_size(ranges),
    decreases ranges.len(),
{
    if ranges.len() > 0 {
        lemma_ranges_fit(ids, ranges.drop_last());
        let before = crate::search::with_ranges(ids, ranges.drop_last()).0;
        law_range_size(ranges.last());
        vstd::set_lib::lemma_len_union(before, crate::search::range_ids(ranges.last()));
    }
}

/// Return items that fit in all are all taken over.
proof fn lemma_items_fit(ids: Set<u32>, data: Seq<SearchReturnData>)
    requires
        ids.finite(),
        ids.len() + data_size(data) <= MAX_ESEARCH_IDS,
        forall|k: int|
            0 <= k < data.len() ==> !is_bad_all(#[trigger] data[k]),
    ensures
        crate::search::with_items(ids, data).1 is None,
        crate::search::with_items(ids, data).0.finite(),
        crate::search::with_items(ids, data).0.len() <= ids.len() + data_size(data),
    decreases data.len(),
{
    if data.len() > 0 {
        let init = data.drop_last();
        assert forall|k: int| 0 <= k < init.len() implies !is_bad_all(
            #[trigger] init[k],
        ) by {
            assert(init[k] == data[k]);
        }
        lemma_items_fit(ids, init);
        assert(data.last() == data[data.len() - 1]);
        lemma_bad_all(data.last());
        let before = crate::search::with_items(ids, init).0;
        if let SearchReturnData::All(ranges) = data.last() {
            lemma_ranges_fit(before, ranges@);
        }
    }
}

/// A search succeeds if every `ALL` value is a sequence-set and no more than [`MAX_ESEARCH_IDS`]
/// ids are announced in all.
pub proof fn law_success_is_owed(responses: Seq<ResponseData>, command_tag: RequestId)
    requires
        crate::command::none_completes(responses, command_tag),
        forall|i: int|
            0 <= i < responses.len() ==> is_readable(#[trigger] responses[i], command_tag),
        total_size(responses, command_tag) <= MAX_ESEARCH_IDS,
    ensures
        search_run(responses, command_tag) is Open,
        search_run(responses, command_tag)->Open_state.esearch_error is None,
        search_run(responses, command_tag)->Open_state.ids.finite(),
        search_run(responses, command_tag)->Open_state.ids.len() <= total_size(
            responses,
            command_tag,
        ),
    decreases responses.len(),
{
    if responses.len() > 0 {
        let init = responses.drop_last();
        let last = responses.last();
        crate::command::lemma_none_completes(responses, command_tag);
        assert forall|i: int| 0 <= i < init.len() implies is_readable(
            #[trigger] init[i],
            command_tag,
        ) by {
            assert(init[i] == responses[i]);
        }
        law_success_is_owed(init, command_tag);
        assert(last == responses[responses.len() - 1]);
        let before = search_run(init, command_tag)->Open_state;
        match last.response {
            Response::MailboxData(MailboxDatum::Search(found)) => {
                found@.lemma_cardinality_of_set();
                vstd::seq_lib::seq_to_set_is_finite(found@);
                vstd::set_lib::lemma_len_union(before.ids, found@.to_set());
            },
            Response::MailboxData(MailboxDatum::ESearch { correlator, data, .. }) => {
                if correlator is None || correlator->Some_0@ == command_tag.0@ {
                    lemma_items_fit(before.ids, data@);
                }
            },
            _ => {},
        }
    }
}

/// Ranges that fit leave at most [`MAX_ESEARCH_IDS`] ids, if there is one.
proof fn lemma_ranges_bounded(ids: Set<u32>, ranges: Seq<IdRange>)
    ensures
        ({
            let after = crate::search::with_ranges(ids, ranges).0;
            after == ids || after.len() <= MAX_ESEARCH_IDS
        }),
        crate::search::with_ranges(ids, ranges).1 && ranges.len() > 0
            ==> crate::search::with_ranges(ids, ranges).0.len() <= MAX_ESEARCH_IDS,
    decreases ranges.len(),
{
    if ranges.len() > 0 {
        lemma_ranges_bounded(ids, ranges.drop_last());
        let before = crate::search::with_ranges(ids, ranges.drop_last()).0;
        crate::search::lemma_ids_len(before);
        law_range_size(ranges.last());
        vstd::set_lib::lemma_len_union(before, crate::search::range_ids(ranges.last()));
    }
}

/// Expanding the return items of an `ESEARCH` response, whether it fails or not, leaves the ids
/// that there were, or at most [`MAX_ESEARCH_IDS`].
pub proof fn law_expansion_is_bounded(ids: Set<u32>, data: Seq<SearchReturnData>)
    ensures
        ({
            let after = crate::search::with_items(ids, data).0;
            after == ids || after.len() <= MAX_ESEARCH_IDS
        }),
    decreases data.len(),
{
    if data.len() > 0 {
        law_expansion_is_bounded(ids, data.drop_last());
        let before = crate::search::with_items(ids, data.drop_last()).0;
        if let SearchReturnData::All(ranges) = data.last() {
            lemma_ranges_bounded(before, ranges@);
        }
    }
}

/// Return items that do not fail leave at most [`MAX_ESEARCH_IDS`] ids, if they announce one.
proof fn lemma_items_bounded(ids: Set<u32>, data: Seq<SearchReturnData>, id: u32)
    requires
        crate::search::with_items(ids, data).1 is None,
        data_ids(data).contains(id),
    ensures
        crate::search::with_items(ids, data).0.len() <= MAX_ESEARCH_IDS,
    decreases data.len(),
{
    let init = data.drop_last();
    let before = crate::search::with_items(ids, init).0;
    let k = choose|k: int| 0 <= k < data.len() && item_ids(#[trigger] data[k]).contains(id);
    if k < init.len() {
        assert(item_ids(init[k]).contains(id));
        lemma_items_bounded(ids, init, id);
    }
    if let SearchReturnData::All(ranges) = data.last() {
        lemma_ranges_bounded(before, ranges@);
    }
}

/// The response announces the id to the command with this tag in an `ALL` item.
pub open spec fn announces_in_all(res: ResponseData, command_tag: RequestId, id: u32) -> bool {
    res.response matches Response::MailboxData(MailboxDatum::ESearch { correlator, data, .. })
        && (correlator is None || correlator->Some_0@ == command_tag.0@) && data_ids(data@).contains(id)
}

/// More than [`MAX_ESEARCH_IDS`] ids in `ALL` items, however they are spread over the responses,
/// fail a search.
pub proof fn law_more_ids_than_the_bound_fail(
    responses: Seq<ResponseData>,
    command_tag: RequestId,
    announced: Set<u32>,
)
    requires
        crate::command::none_completes(responses, command_tag),
        announced.len() > MAX_ESEARCH_IDS,
        forall|id: u32| #[trigger]
            announced.contains(id) ==> exists|i: int|
                0 <= i < responses.len() && announces_in_all(
                    #[trigger] responses[i],
                    command_tag,
                    id,
                ),
    ensures
        search_run(responses, command_tag) is Open,
        search_run(responses, command_tag)->Open_state.esearch_error is Some,
    decreases responses.len(),
{
    law_found_ids_are_the_announced_ones(responses, command_tag);
    let found = search_run(responses, command_tag)->Open_state;
    crate::search::lemma_ids_len(announced);
    if responses.len() == 0 {
        assert(announced =~= Set::empty());
    } else {
        let init = responses.drop_last();
        let last = responses[responses.len() - 1];
        crate::command::lemma_none_completes(responses, command_tag);
        law_found_ids_are_the_announced_ones(init, command_tag);
        let before = search_run(init, command_tag)->Open_state;
        if exists|id: u32| announces_in_all(last, command_tag, id) {
            // All that was announced is among the ids after the last response.
            if found.esearch_error is None {
                let id = choose|id: u32| announces_in_all(last, command_tag, id);
                if let Response::MailboxData(MailboxDatum::ESearch { data, .. }) = last.response {
                    lemma_items_bounded(before.ids, data@, id);
                }
                assert forall|id: u32| announced.contains(id) implies found.ids.contains(id) by {
                    let i = choose|i: int|
                        0 <= i < responses.len() && announces_in_all(
                            #[trigger] responses[i],
                            command_tag,
                            id,
                        );
                    assert(announced_ids(responses[i], command_tag).contains(id));
                }
                crate::search::lemma_ids_len(found.ids);
                vstd::set_lib::lemma_len_subset(announced, found.ids);
            }
        } else {
            assert forall|id: u32| #[trigger] announced.contains(id) implies exists|i: int|
                0 <= i < init.len() && announces_in_all(#[trigger] init[i], command_tag, id) by {
                let i = choose|i: int|
                    0 <= i < responses.len() && announces_in_all(
                        #[trigger] responses[i],
                        command_tag,
                        id,
                    );
                assert(i < init.len());
                assert(announces_in_all(init[i], command_tag, id));
            }
            law_more_ids_than_the_bound_fail(init, command_tag, announced);
        }
    }
}

/// Nothing to add leaves the ids as they are, and is no failure.
pub proof fn law_nothing_to_add(ids: Set<u32>)
    ensures
        crate::search::with_ranges(ids, Seq::empty()) == (ids, true),
        crate::search::with_items(ids, Seq::empty()) == (ids, None::<Failure>),
{
}

/// One more range fits if all before it did and its ids, counted without regard to those that are
/// there already, do not make more than 16777216. Then the ids between its two ends are added and
/// no others; else none is.
pub proof fn law_one_more_range(ids: Set<u32>, ranges: Seq<IdRange>, range: IdRange)
    ensures
        ({
            let (before, fit) = crate::search::with_ranges(ids, ranges);
            let (after, now_fit) = crate::search::with_ranges(ids, ranges.push(range));
            &&& now_fit <==> fit && before.len() + (if range.start <= range.end {
                range.end - range.start
            } else {
                range.start - range.end
            }) + 1 <= 16777216
            &&& now_fit ==> forall|id: u32| #[trigger]
                after.contains(id) <==> before.contains(id) || range.start <= id <= range.end
                    || range.end <= id <= range.start
            &&& !now_fit ==> after == before
        }),
{
    assert(ranges.push(range).drop_last() == ranges);
}

/// One more return item counts only if none before it failed. A sequence-set is then added range by
/// range, as far as it fits; any other `ALL`, in whatever case it is written, fails and shows its
/// value; and all other items do nothing.
pub proof fn law_one_more_item(
    ids: Set<u32>,
    data: Seq<SearchReturnData>,
    item: SearchReturnData,
)
    ensures
        ({
            let (before, failure) = crate::search::with_items(ids, data);
            let (after, now_failure) = crate::search::with_items(ids, data.push(item));
            match failure {
                Some(_) => after == before && now_failure == failure,
                None => match item {
                    SearchReturnData::All(ranges) => {
                        let (added, fit) = crate::search::with_ranges(before, ranges@);
                        &&& after == added
                        &&& fit ==> now_failure is None
                        &&& !fit ==> now_failure == Some(Failure::TooMany)
                    },
                    SearchReturnData::Other { name, value } => {
                        let all = name@.len() == 3 && (name@[0] == 'A' || name@[0] == 'a') && (
                        name@[1] == 'L' || name@[1] == 'l') && (name@[2] == 'L' || name@[2]
                            == 'l');
                        &&& after == before
                        &&& all ==> now_failure == Some(Failure::NotASet(value@))
                        &&& !all ==> now_failure is None
                    },
                    _ => after == before && now_failure is None,
                },
            }
        }),
{
    assert(data.push(item).drop_last() == data);
    lemma_bad_all(item);
    if let SearchReturnData::Other { name, .. } = item {
        let all = seq!['a', 'l', 'l'];
        assert(all[0] == 'a' && all[1] == 'l' && all[2] == 'l');
        if name@.len() == 3 && (name@[0] == 'A' || name@[0] == 'a') && (name@[1] == 'L' || name@[1]
            == 'l') && (name@[2] == 'L' || name@[2] == 'l') {
            assert forall|k: int| 0 <= k < name@.len() implies #[trigger] name@[k] == all[k]
                || crate::text_laws::is_upper_case_of(name@[k], all[k]) by {
                assert(k == 0 || k == 1 || k == 2);
            }
        }
        if crate::text_laws::reads_as(name@, all) {
            assert(name@[0] == all[0] || crate::text_laws::is_upper_case_of(name@[0], all[0]));
            assert(name@[1] == all[1] || crate::text_laws::is_upper_case_of(name@[1], all[1]));
            assert(name@[2] == all[2] || crate::text_laws::is_upper_case_of(name@[2], all[2]));
        }
    }
}

/// The message of a search with too many ids names the bound; that of a search with an `ALL` that
/// is no sequence-set shows the value, quoted.
pub proof fn law_messages_of_failures(value: Seq<u8>)
    ensures
        crate::search::failure_text(Failure::TooMany) == "ESEARCH result exceeds 16777216 ids"@,
        crate::search::failure_text(Failure::NotASet(value))
            == "ESEARCH ALL is not a sequence-set: "@ + crate::text::quoted(
            crate::text::lossy_text(value),
        ),
{
}

/// A search ends with its own completion, whatever the status of that is, with the end of the
/// stream or with a failure to read, and with nothing else. It ends well with the ids that it has
/// found unless an `ESEARCH` failed; then that message is its error.
pub proof fn law_search_ends_where_it_must(
    progress: Progress<FoundIds, std::collections::HashSet<u32>>,
    found: FoundIds,
    item: Item,
    command_tag: RequestId,
)
    requires
        crate::command::advances(
            progress,
            found,
            item,
            |response: Response|
                crate::search::search_reaction(found@, response, command_tag),
            crate::search::search_result(found),
        ),
    ensures
        progress is Finished <==> (item matches Some(Ok(res)) ==> (
        res.response matches Response::Done { tag, .. } && tag.0@ == command_tag.0@)),
        item matches Some(Err(error)) ==> progress == Progress::<
            FoundIds,
            std::collections::HashSet<u32>,
        >::Finished(Err(Error::Io(IoError::Stream(error)))),
        !(item matches Some(Err(_))) && progress is Finished ==> {
            &&& progress matches Progress::Finished(result)
            &&& result is Ok <==> found.esearch_error is None
            &&& result matches Ok(ids) ==> ids == found.ids
            &&& found.esearch_error matches Some(message) ==> result == Err::<
                std::collections::HashSet<u32>,
                Error,
            >(Error::Parse(ParseError::Unexpected(message)))
        },
{
}

/// A search uses up the `SEARCH` responses, and the `ESEARCH` responses that name no command or
/// the tag of this one, to the letter. One that names any other tag is handed out as it came, as
/// every other response is, and changes nothing.
pub proof fn law_search_knows_its_own_answers(
    progress: Progress<FoundIds, std::collections::HashSet<u32>>,
    found: FoundIds,
    res: ResponseData,
    command_tag: RequestId,
)
    requires
        crate::command::advances(
            progress,
            found,
            Some(Ok(res)),
            |response: Response|
                crate::search::search_reaction(found@, response, command_tag),
            crate::search::search_result(found),
        ),
        !(res.response matches Response::Done { tag, .. } && tag.0@ == command_tag.0@),
    ensures
        progress is More,
        progress->unilateral is None <==> match res.response {
            Response::MailboxData(MailboxDatum::Search(_)) => true,
            Response::MailboxData(MailboxDatum::ESearch { correlator, .. }) => match correlator {
                None => true,
                Some(tag) => tag@ == command_tag.0@,
            },
            _ => false,
        },
        progress->unilateral is Some ==> progress->unilateral == Some(res) && progress->state
            == found,
{
}

/// Every id of a `SEARCH` response is found, and no other is added or lost. What an `ESEARCH`
/// response to this command adds lies in one of its sequence-sets, and if it does not fail nothing
/// that lies there is missing. A failure is kept, and after it `ESEARCH` responses add nothing.
pub proof fn law_search_finds_what_it_is_told(
    progress: Progress<FoundIds, std::collections::HashSet<u32>>,
    found: FoundIds,
    res: ResponseData,
    command_tag: RequestId,
)
    requires
        crate::command::advances(
            progress,
            found,
            Some(Ok(res)),
            |response: Response|
                crate::search::search_reaction(found@, response, command_tag),
            crate::search::search_result(found),
        ),
    ensures
        progress matches Progress::More { state, unilateral: None } ==> {
            &&& forall|id: u32| found.ids@.contains(id) ==> #[trigger] state.ids@.contains(id)
            &&& found.esearch_error matches Some(message) ==> {
                &&& state.esearch_error matches Some(kept)
                &&& kept@ == message@
            }
            &&& match res.response {
                Response::MailboxData(MailboxDatum::Search(ids)) => {
                    &&& state.esearch_error is Some <==> found.esearch_error is Some
                    &&& forall|k: int|
                        0 <= k < ids@.len() ==> state.ids@.contains(#[trigger] ids@[k])
                    &&& forall|id: u32| #[trigger]
                        state.ids@.contains(id) ==> found.ids@.contains(id) || ids@.contains(id)
                },
                Response::MailboxData(MailboxDatum::ESearch { data, .. }) => {
                    &&& found.esearch_error is Some ==> state.ids@ == found.ids@
                    &&& found.esearch_error is None ==> {
                        let (ids, failure) = crate::search::with_items(found.ids@, data@);
                        &&& state.ids@ == ids
                        &&& state.esearch_error is None <==> failure is None
                        &&& state.esearch_error matches Some(message) ==> message@
                            == crate::search::failure_text(failure->0)
                    }
                    &&& forall|id: u32| #[trigger]
                        state.ids@.contains(id) ==> found.ids@.contains(id) || is_in_all(
                            id,
                            data@,
                        )
                    &&& state.esearch_error is None ==> forall|id: u32|
                        is_in_all(id, data@) ==> #[trigger] state.ids@.contains(id)
                },
                _ => false,
            }
        },
{
    match res.response {
        Response::MailboxData(MailboxDatum::Search(ids)) => {
            assert forall|k: int| 0 <= k < ids@.len() implies ids@.to_set().contains(
                #[trigger] ids@[k],
            ) by {}
        },
        Response::MailboxData(MailboxDatum::ESearch { data, .. }) => {
            law_items_add_what_they_announce(found.ids@, data@);
            assert forall|id: u32| is_in_all(id, data@) <==> #[trigger] data_ids(data@).contains(
                id,
            ) by {
                lemma_in_all(id, data@);
            }
        },
        _ => {},
    }
}

/// The id lies between the two ends of a range in one of the `ALL` items.
pub open spec fn is_in_all(id: u32, data: Seq<SearchReturnData>) -> bool {
    exists|i: int, k: int|
        0 <= i < data.len() && data[i] is All && 0 <= k < data[i]->All_0@.len() && lies_in(
            id,
            #[trigger] data[i]->All_0@[k],
        )
}

/// The ids that return items announce are those in their `ALL` items.
proof fn lemma_in_all(id: u32, data: Seq<SearchReturnData>)
    ensures
        is_in_all(id, data) <==> data_ids(data).contains(id),
{
    if is_in_all(id, data) {
        let (i, k) = choose|i: int, k: int|
            0 <= i < data.len() && data[i] is All && 0 <= k < data[i]->All_0@.len() && lies_in(
                id,
                #[trigger] data[i]->All_0@[k],
            );
        assert(set_ids(data[i]->All_0@).contains(id));
        assert(item_ids(data[i]).contains(id));
    }
    if data_ids(data).contains(id) {
        let i = choose|i: int| 0 <= i < data.len() && item_ids(#[trigger] data[i]).contains(id);
        let ranges = data[i]->All_0@;
        let k = choose|k: int| 0 <= k < ranges.len() && lies_in(id, #[trigger] ranges[k]);
        assert(lies_in(id, data[i]->All_0@[k]));
    }
}

/// A search at first has found nothing, and nothing has failed.
pub proof fn law_nothing_is_found_at_first(found: FoundIds)
    requires
        found@.ids == Set::<u32>::empty(),
        found@.esearch_error is None,
    ensures
        forall|id: u32| !found.ids@.contains(id),
        found.esearch_error is None,
{
}

} // verus!
