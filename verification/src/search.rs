//! The ids that `SEARCH` and `UID SEARCH` find.

use std::collections::HashSet;

use vstd::prelude::*;
use vstd::string::StringExecFns;

use crate::command::{same_tag, Item, Progress, Reaction};
use crate::error::{Error, IoError, ParseError};
use crate::response::{
    IdRange, MailboxDatum, RequestId, Response, ResponseData, SearchReturnData,
};
use crate::text::{decode_lossy, quote};

verus! {

broadcast use vstd::std_specs::hash::group_hash_axioms;

/// Upper bound on the ids expanded from `ESEARCH` `ALL` items of one command.
pub const MAX_ESEARCH_IDS: u64 = 16_777_216;

/// The ids of a range: all from its lower end to its upper end, whichever comes first.
pub open spec fn range_ids(range: IdRange) -> Set<u32> {
    Set::new(|id: u32| range.start <= id <= range.end || range.end <= id <= range.start)
}

/// The number of ids of a range.
pub open spec fn range_size(range: IdRange) -> nat {
    if range.start <= range.end {
        (range.end - range.start + 1) as nat
    } else {
        (range.start - range.end + 1) as nat
    }
}

/// Why an `ESEARCH` response cannot be used.
pub enum Failure {
    /// There would be too many ids.
    TooMany,
    /// An `ALL` item has this value in place of a sequence-set.
    NotASet(Seq<u8>),
}

/// The message of a failure.
pub open spec fn failure_text(failure: Failure) -> Seq<char> {
    match failure {
        Failure::TooMany => "ESEARCH result exceeds 16777216 ids"@,
        Failure::NotASet(value) => "ESEARCH ALL is not a sequence-set: "@ + crate::text::quoted(
            crate::text::lossy_text(value),
        ),
    }
}

/// The ids after the ranges of an `ALL` item have been added one after the other, up to the first
/// range that would not fit, and whether all did.
pub open spec fn with_ranges(ids: Set<u32>, ranges: Seq<IdRange>) -> (Set<u32>, bool)
    decreases ranges.len(),
{
    if ranges.len() == 0 {
        (ids, true)
    } else {
        let (before, fit) = with_ranges(ids, ranges.drop_last());
        if fit && before.len() + range_size(ranges.last()) <= MAX_ESEARCH_IDS {
            (before.union(range_ids(ranges.last())), true)
        } else {
            (before, false)
        }
    }
}

/// The item is an `ALL` item whose value is not a sequence-set.
pub open spec fn is_unreadable_all(item: SearchReturnData) -> bool {
    item matches SearchReturnData::Other { name, .. } && crate::text::same_ignoring_ascii_case(
        name@,
        "ALL"@,
    )
}

/// The ids after one return item, and the failure if there is one.
pub open spec fn with_item(ids: Set<u32>, item: SearchReturnData) -> (Set<u32>, Option<Failure>) {
    match item {
        SearchReturnData::All(ranges) => {
            let (after, fit) = with_ranges(ids, ranges@);
            (after, if fit { None } else { Some(Failure::TooMany) })
        },
        SearchReturnData::Other { value, .. } => (
            ids,
            if is_unreadable_all(item) { Some(Failure::NotASet(value@)) } else { None },
        ),
        _ => (ids, None),
    }
}

/// The ids after the return items of a response, up to the first that fails, and its failure.
pub open spec fn with_items(ids: Set<u32>, data: Seq<SearchReturnData>) -> (
    Set<u32>,
    Option<Failure>,
)
    decreases data.len(),
{
    if data.len() == 0 {
        (ids, None)
    } else {
        match with_items(ids, data.drop_last()) {
            (before, None) => with_item(before, data.last()),
            failed => failed,
        }
    }
}

/// No set of ids has more members than there are ids.
pub(crate) proof fn lemma_ids_len(ids: Set<u32>)
    ensures
        ids.finite(),
        ids.len() <= 0x1_0000_0000,
{
    broadcast use vstd::set_lib::range_set_properties;

    let all = Set::range_inclusive(0u32, u32::MAX);
    assert(ids.subset_of(all));
    vstd::set_lib::lemma_len_subset(ids, all);
}

/// Adds the ids from `low` to `high`.
fn extend_ids(ids: &mut HashSet<u32>, low: u32, high: u32)
    requires
        low <= high,
    ensures
        final(ids)@ == old(ids)@.union(range_ids(IdRange { start: low, end: high })),
{
    let ghost before = ids@;
    let mut next: u32 = low;
    while next < high
        invariant
            low <= next <= high,
            forall|id: u32| #[trigger]
                ids@.contains(id) <==> before.contains(id) || low <= id < next,
        decreases high - next,
    {
        ids.insert(next);
        next += 1;
    }
    ids.insert(high);
    assert(ids@ =~= before.union(range_ids(IdRange { start: low, end: high })));
}

/// Adds the ids of the ranges as long as they fit.
fn extend_ranges(ids: &mut HashSet<u32>, ranges: &Vec<IdRange>) -> (fit: bool)
    ensures
        (final(ids)@, fit) == with_ranges(old(ids)@, ranges@),
{
    let ghost before = ids@;
    let mut i: usize = 0;
    while i < ranges.len()
        invariant
            i <= ranges@.len(),
            before == old(ids)@,
            (ids@, true) == with_ranges(before, ranges@.take(i as int)),
        decreases ranges@.len() - i,
    {
        // A sequence-set range may be given in either order.
        let a: u32 = ranges[i].start;
        let b: u32 = ranges[i].end;
        let low: u32 = if a <= b { a } else { b };
        let high: u32 = if a <= b { b } else { a };
        proof {
            lemma_ids_len(ids@);
            let next = ranges@.take(i + 1);
            assert(next.drop_last() == ranges@.take(i as int));
            assert(next.last() == ranges@[i as int]);
        }
        if ids.len() as u64 + (high - low) as u64 + 1 > MAX_ESEARCH_IDS {
            proof {
                lemma_ranges_stop(before, ranges@, i + 1);
            }
            return false;
        }
        proof {
            assert(range_ids(IdRange { start: low, end: high }) =~= range_ids(ranges@[i as int]));
        }
        extend_ids(ids, low, high);
        i += 1;
    }
    assert(ranges@.take(i as int) == ranges@);
    true
}

/// Nothing is added after the first range that does not fit.
proof fn lemma_ranges_stop(ids: Set<u32>, ranges: Seq<IdRange>, n: int)
    requires
        0 <= n <= ranges.len(),
        !with_ranges(ids, ranges.take(n)).1,
    ensures
        with_ranges(ids, ranges) == with_ranges(ids, ranges.take(n)),
    decreases ranges.len(),
{
    if n < ranges.len() {
        assert(ranges.drop_last().take(n) == ranges.take(n));
        lemma_ranges_stop(ids, ranges.drop_last(), n);
    } else {
        assert(ranges.take(n) == ranges);
    }
}

/// Nothing is added after the first return item that fails.
proof fn lemma_items_stop(ids: Set<u32>, data: Seq<SearchReturnData>, n: int)
    requires
        0 <= n <= data.len(),
        with_items(ids, data.take(n)).1 is Some,
    ensures
        with_items(ids, data) == with_items(ids, data.take(n)),
    decreases data.len(),
{
    if n < data.len() {
        assert(data.drop_last().take(n) == data.take(n));
        lemma_items_stop(ids, data.drop_last(), n);
    } else {
        assert(data.take(n) == data);
    }
}

/// Adds the ids of the `ALL` items of one `ESEARCH` response to `ids`.
///
/// Fails when the ids would exceed [`MAX_ESEARCH_IDS`] or when an `ALL` value is not a plain
/// sequence-set; `ids` then holds what came before the failure.
pub fn collect_esearch_ids(
    ids: &mut HashSet<u32>,
    data: &Vec<SearchReturnData>,
) -> (result: Result<(), String>)
    ensures
        final(ids)@ == with_items(old(ids)@, data@).0,
        match with_items(old(ids)@, data@).1 {
            None => result is Ok,
            Some(failure) => result matches Err(message) && message@ == failure_text(failure),
        },
{
    let ghost before = ids@;
    let mut i: usize = 0;
    while i < data.len()
        invariant
            i <= data@.len(),
            before == old(ids)@,
            (ids@, None::<Failure>) == with_items(before, data@.take(i as int)),
        decreases data@.len() - i,
    {
        proof {
            let next = data@.take(i + 1);
            assert(next.drop_last() == data@.take(i as int));
            assert(next.last() == data@[i as int]);
        }
        match &data[i] {
            SearchReturnData::All(ranges) => {
                if !extend_ranges(ids, ranges) {
                    proof {
                        lemma_items_stop(before, data@, i + 1);
                    }
                    return Err("ESEARCH result exceeds 16777216 ids".to_owned());
                }
            },
            SearchReturnData::Other { name, value } => {
                if name.as_str().eq_ignore_ascii_case("ALL") {
                    proof {
                        lemma_items_stop(before, data@, i + 1);
                    }
                    let mut message = "ESEARCH ALL is not a sequence-set: ".to_owned();
                    let text = decode_lossy(value.as_slice());
                    message.append(quote(text.as_str()).as_str());
                    return Err(message);
                }
            },
            _ => {},
        }
        i += 1;
    }
    assert(data@.take(i as int) == data@);
    Ok(())
}

/// The ids found so far.
#[derive(Debug)]
pub struct FoundIds {
    pub ids: HashSet<u32>,
    /// The message of the first `ESEARCH` response that could not be used.
    pub esearch_error: Option<String>,
}

/// The content of [`FoundIds`].
pub struct FoundIdsModel {
    pub ids: Set<u32>,
    pub esearch_error: Option<Seq<char>>,
}

impl View for FoundIds {
    type V = FoundIdsModel;

    open spec fn view(&self) -> FoundIdsModel {
        FoundIdsModel {
            ids: self.ids@,
            esearch_error: match self.esearch_error {
                None => None,
                Some(message) => Some(message@),
            },
        }
    }
}

impl Default for FoundIds {
    fn default() -> (found: Self)
        ensures
            found@.ids == Set::<u32>::empty(),
            found@.esearch_error is None,
    {
        FoundIds { ids: HashSet::new(), esearch_error: None }
    }
}

/// What a search ends with when its responses have been consumed.
pub open spec fn search_result(found: FoundIds) -> Result<HashSet<u32>, Error> {
    match found.esearch_error {
        None => Ok(found.ids),
        Some(message) => Err(Error::Parse(ParseError::Unexpected(message))),
    }
}

/// An `ESEARCH` response with this correlator answers the command with this tag: it names no
/// command, or that one.
pub open spec fn correlates(correlator: Option<String>, command_tag: RequestId) -> bool {
    correlator matches Some(tag) ==> tag@ == command_tag.0@
}

/// What a search does on a response. After a failure the ids of `ESEARCH` responses no longer
/// matter, but the responses are consumed all the same.
pub open spec fn search_reaction(
    m: FoundIdsModel,
    response: Response,
    command_tag: RequestId,
) -> Reaction<FoundIdsModel> {
    match response {
        Response::Done { tag, .. } if tag.0@ == command_tag.0@ => Reaction::Complete,
        Response::MailboxData(MailboxDatum::Search(found)) => Reaction::Keep(
            FoundIdsModel { ids: m.ids.union(found@.to_set()), ..m },
        ),
        Response::MailboxData(MailboxDatum::ESearch { correlator, data, .. }) if correlates(
            correlator,
            command_tag,
        ) => Reaction::Keep(
            match m.esearch_error {
                Some(_) => m,
                None => {
                    let (ids, failure) = with_items(m.ids, data@);
                    FoundIdsModel {
                        ids,
                        esearch_error: match failure {
                            None => None,
                            Some(failure) => Some(failure_text(failure)),
                        },
                    }
                },
            },
        ),
        _ => Reaction::PassOn,
    }
}

/// Adds the ids of a `SEARCH` response.
fn insert_all(ids: &mut HashSet<u32>, found: &Vec<u32>)
    ensures
        final(ids)@ == old(ids)@.union(found@.to_set()),
{
    let ghost before = ids@;
    let mut i: usize = 0;
    while i < found.len()
        invariant
            i <= found@.len(),
            forall|id: u32| #[trigger]
                ids@.contains(id) <==> before.contains(id) || found@.take(i as int).contains(id),
        decreases found@.len() - i,
    {
        proof {
            let next = found@.take(i + 1);
            assert(next =~= found@.take(i as int).push(found@[i as int]));
            assert forall|id: u32|
                next.contains(id) <==> found@.take(i as int).contains(id) || id
                    == found@[i as int] by {
                if id == found@[i as int] {
                    assert(next[i as int] == id);
                }
                if found@.take(i as int).contains(id) {
                    let k = found@.take(i as int).index_of(id);
                    assert(next[k] == id);
                }
            }
        }
        ids.insert(found[i]);
        i += 1;
    }
    assert(found@.take(i as int) == found@);
    assert(ids@ =~= before.union(found@.to_set()));
}

/// Collects the ids of a `SEARCH` or `UID SEARCH` command.
///
/// IMAP4rev1 servers answer with `SEARCH` responses. IMAP4rev2 servers answer with `ESEARCH`
/// (RFC 9051 section 7.3.4) whose `ALL` item carries the ids; without `RETURN` options a search
/// behaves as `RETURN (ALL)`, and an `ESEARCH` without `ALL` means nothing matched. An `ESEARCH`
/// correlated with another command's tag is passed on as unsolicited.
///
/// An `ALL` sequence-set is compact, so a server could announce far more ids than any mailbox
/// holds; more than [`MAX_ESEARCH_IDS`] expanded ids fail the command once its responses have been
/// consumed. So does an `ALL` value that is not a plain sequence-set (e.g. one using `*`), rather
/// than silently dropping the ids it stands for.
pub fn parse_ids(
    found: FoundIds,
    item: Item,
    command_tag: &RequestId,
) -> (progress: Progress<FoundIds, HashSet<u32>>)
    ensures
        crate::command::advances(
            progress,
            found,
            item,
            |response: Response| search_reaction(found@, response, *command_tag),
            search_result(found),
        ),
{
    let res = match item {
        None => return Progress::Finished(finish_ids(found)),
        Some(Err(error)) => return Progress::Finished(Err(Error::Io(IoError::Stream(error)))),
        Some(Ok(res)) => res,
    };
    match res.parsed() {
        Response::Done { tag, .. } if same_tag(tag, command_tag) => {
            Progress::Finished(finish_ids(found))
        },
        Response::MailboxData(MailboxDatum::Search(new)) => {
            let mut found = found;
            insert_all(&mut found.ids, new);
            Progress::More { state: found, unilateral: None }
        },
        Response::MailboxData(MailboxDatum::ESearch { correlator, data, .. }) if is_correlated(
            correlator,
            command_tag,
        ) => {
            let mut found = found;
            // Keep only the first failure, but consume every response.
            if found.esearch_error.is_none() {
                found.esearch_error = collect_esearch_ids(&mut found.ids, data).err();
            }
            Progress::More { state: found, unilateral: None }
        },
        _ => Progress::More { state: found, unilateral: Some(res) },
    }
}

/// What a search ends with when its responses have been consumed.
fn finish_ids(found: FoundIds) -> (result: Result<HashSet<u32>, Error>)
    ensures
        result == search_result(found),
{
    match found.esearch_error {
        None => Ok(found.ids),
        Some(message) => Err(Error::Parse(ParseError::Unexpected(message))),
    }
}

/// Whether an `ESEARCH` response answers the command with this tag.
fn is_correlated(correlator: &Option<String>, command_tag: &RequestId) -> (correlated: bool)
    ensures
        correlated == correlates(*correlator, *command_tag),
{
    match correlator {
        None => true,
        Some(tag) => *tag == command_tag.0,
    }
}

} // verus!
