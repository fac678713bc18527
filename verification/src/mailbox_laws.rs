//! What is known of a mailbox, over all the responses to a command.

use vstd::prelude::*;

use crate::command::{Item, Progress, Run};
use crate::error::{Error, IoError};
use crate::mailbox::{Flag, Mailbox, MailboxModel};
use crate::response::{
    CodeKind, MailboxDatum, RequestId, Response, ResponseData, Status, StatusAttribute,
};

verus! {

/// The value of the last element that has one.
pub open spec fn latest<A, T>(elements: Seq<A>, value: spec_fn(A) -> Option<T>) -> Option<T>
    decreases elements.len(),
{
    if elements.len() == 0 {
        None
    } else {
        match value(elements.last()) {
            Some(value) => Some(value),
            None => latest(elements.drop_last(), value),
        }
    }
}

/// The new value, or the old one where there is none.
pub open spec fn or_before<T>(new: Option<T>, before: T) -> T {
    match new {
        Some(value) => value,
        None => before,
    }
}

/// The new value, or what was known before where there is none.
pub open spec fn or_known<T>(new: Option<T>, known: Option<T>) -> Option<T> {
    match new {
        Some(value) => Some(value),
        None => known,
    }
}

/// The code of an `OK` response.
pub open spec fn code_of(res: ResponseData) -> Option<CodeKind> {
    match res.response {
        Response::Data { status: Status::Okay, outcome } => match outcome.code {
            Some(code) => Some(code.kind),
            None => None,
        },
        _ => None,
    }
}

/// The number of messages that a response gives.
pub open spec fn exists_of(res: ResponseData) -> Option<u32> {
    match res.response {
        Response::MailboxData(MailboxDatum::Exists(n)) => Some(n),
        _ => None,
    }
}

/// The number of recent messages that a response gives.
pub open spec fn recent_of(res: ResponseData) -> Option<u32> {
    match res.response {
        Response::MailboxData(MailboxDatum::Recent(n)) => Some(n),
        _ => None,
    }
}

/// The first unseen message that a response gives.
pub open spec fn unseen_of(res: ResponseData) -> Option<u32> {
    match code_of(res) {
        Some(CodeKind::Unseen(n)) => Some(n),
        _ => None,
    }
}

/// The next unique identifier that a response gives.
pub open spec fn uid_next_of(res: ResponseData) -> Option<u32> {
    match code_of(res) {
        Some(CodeKind::UidNext(n)) => Some(n),
        _ => None,
    }
}

/// The validity of unique identifiers that a response gives.
pub open spec fn uid_validity_of(res: ResponseData) -> Option<u32> {
    match code_of(res) {
        Some(CodeKind::UidValidity(n)) => Some(n),
        _ => None,
    }
}

/// The highest modification sequence that a response gives.
pub open spec fn highest_modseq_of(res: ResponseData) -> Option<u64> {
    match code_of(res) {
        Some(CodeKind::HighestModSeq(n)) => Some(n),
        _ => None,
    }
}

/// The flags that a response gives.
pub open spec fn flags_in(res: ResponseData) -> Seq<Flag> {
    match res.response {
        Response::MailboxData(MailboxDatum::Flags(texts)) => crate::mailbox::flags_of(texts@),
        _ => Seq::empty(),
    }
}

/// The permanent flags that a response gives.
pub open spec fn permanent_flags_in(res: ResponseData) -> Seq<Flag> {
    match code_of(res) {
        Some(CodeKind::PermanentFlags(texts)) => crate::mailbox::flags_of(texts@),
        _ => Seq::empty(),
    }
}

/// The response is one that selecting a mailbox makes no use of.
pub open spec fn is_foreign_to_select(res: ResponseData) -> bool {
    match res.response {
        Response::Data { .. } => false,
        Response::MailboxData(datum) => datum is Status,
        _ => true,
    }
}

/// Selecting a mailbox, after the responses.
pub open spec fn select_run(
    start: MailboxModel,
    responses: Seq<ResponseData>,
    command_tag: RequestId,
) -> Run<MailboxModel> {
    crate::command::run(
        |m: MailboxModel, response: Response|
            crate::mailbox::mailbox_reaction(m, response, command_tag),
        start,
        responses,
    )
}

/// As long as the command is open, what is known of the mailbox is the latest that was said of it,
/// and all the flags that were, in their order. Responses that say nothing of the selected mailbox
/// were passed on.
pub proof fn law_select_keeps_the_latest(
    start: MailboxModel,
    responses: Seq<ResponseData>,
    command_tag: RequestId,
)
    requires
        select_run(start, responses, command_tag) is Open,
    ensures
        select_run(start, responses, command_tag)->Open_state == (MailboxModel {
            flags: start.flags + responses.map_values(|res: ResponseData| flags_in(res)).flatten(),
            exists: or_before(
                latest(responses, |res: ResponseData| exists_of(res)),
                start.exists,
            ),
            recent: or_before(
                latest(responses, |res: ResponseData| recent_of(res)),
                start.recent,
            ),
            unseen: or_known(latest(responses, |res: ResponseData| unseen_of(res)), start.unseen),
            permanent_flags: start.permanent_flags + responses.map_values(
                |res: ResponseData| permanent_flags_in(res),
            ).flatten(),
            uid_next: or_known(
                latest(responses, |res: ResponseData| uid_next_of(res)),
                start.uid_next,
            ),
            uid_validity: or_known(
                latest(responses, |res: ResponseData| uid_validity_of(res)),
                start.uid_validity,
            ),
            highest_modseq: or_known(
                latest(responses, |res: ResponseData| highest_modseq_of(res)),
                start.highest_modseq,
            ),
        }),
        select_run(start, responses, command_tag).passed_on() == responses.filter(
            |res: ResponseData| is_foreign_to_select(res),
        ),
    decreases responses.len(),
{
    reveal(Seq::filter);
    let flags = |res: ResponseData| flags_in(res);
    let permanent_flags = |res: ResponseData| permanent_flags_in(res);
    if responses.len() > 0 {
        let init = responses.drop_last();
        let last = responses.last();
        law_select_keeps_the_latest(start, init, command_tag);
        assert(responses.map_values(flags) =~= init.map_values(flags).push(flags(last)));
        init.map_values(flags).lemma_flatten_push(flags(last));
        assert(responses.map_values(permanent_flags) =~= init.map_values(permanent_flags).push(
            permanent_flags(last),
        ));
        init.map_values(permanent_flags).lemma_flatten_push(permanent_flags(last));
        let state = select_run(start, responses, command_tag)->Open_state;
        assert(state.flags =~= start.flags + responses.map_values(flags).flatten());
        assert(state.permanent_flags =~= start.permanent_flags + responses.map_values(
            permanent_flags,
        ).flatten());
    } else {
        assert(responses.map_values(flags).flatten() =~= Seq::<Flag>::empty());
        assert(responses.map_values(permanent_flags).flatten() =~= Seq::<Flag>::empty());
    }
}

/// A select that is open ends with the first completion of its own, and fails unless that is `OK`.
/// Any other status response without a tag but an `OK` fails it too.
pub proof fn law_refused_select_fails(
    start: MailboxModel,
    responses: Seq<ResponseData>,
    command_tag: RequestId,
    res: ResponseData,
)
    requires
        select_run(start, responses, command_tag) is Open,
    ensures
        ({
            let before = select_run(start, responses, command_tag);
            let after = select_run(start, responses.push(res), command_tag);
            match res.response {
                Response::Done { tag, status, outcome } if tag.0@ == command_tag.0@ => after == if status
                    is Okay {
                    Run::<MailboxModel>::Complete { state: before->Open_state, passed_on: before.passed_on() }
                } else {
                    Run::<MailboxModel>::Refused { status, outcome, passed_on: before.passed_on() }
                },
                Response::Data { status, outcome } if !(status is Okay) => after == (Run::<MailboxModel>::Refused {
                    status,
                    outcome,
                    passed_on: before.passed_on(),
                }),
                _ => after is Open,
            }
        }),
{
    assert(responses.push(res).drop_last() == responses);
}

/// The items that a response gives on a mailbox.
pub open spec fn attributes_for(
    res: ResponseData,
    expected_mailbox: Seq<char>,
) -> Seq<StatusAttribute> {
    match res.response {
        Response::MailboxData(MailboxDatum::Status { mailbox, status }) if mailbox@
            == expected_mailbox => status@,
        _ => Seq::empty(),
    }
}

/// The response gives items on a mailbox.
pub open spec fn is_status_of(res: ResponseData, expected_mailbox: Seq<char>) -> bool {
    res.response matches Response::MailboxData(MailboxDatum::Status { mailbox, .. }) && mailbox@
        == expected_mailbox
}

/// `STATUS`, after the responses.
pub open spec fn status_run(
    start: MailboxModel,
    responses: Seq<ResponseData>,
    expected_mailbox: Seq<char>,
    command_tag: RequestId,
) -> Run<MailboxModel> {
    crate::command::run(
        |m: MailboxModel, response: Response|
            crate::mailbox::status_reaction(m, response, expected_mailbox, command_tag),
        start,
        responses,
    )
}

/// As long as the command is open, what is known of the mailbox comes from the items that were
/// given on it, as if they had come in one response. Every other response was passed on, such as
/// those on another mailbox.
pub proof fn law_status_takes_the_items_of_its_mailbox(
    start: MailboxModel,
    responses: Seq<ResponseData>,
    expected_mailbox: Seq<char>,
    command_tag: RequestId,
)
    requires
        status_run(start, responses, expected_mailbox, command_tag) is Open,
    ensures
        status_run(start, responses, expected_mailbox, command_tag) == (Run::Open {
            state: crate::mailbox::with_attributes(
                start,
                responses.map_values(
                    |res: ResponseData| attributes_for(res, expected_mailbox),
                ).flatten(),
            ),
            passed_on: responses.filter(|res: ResponseData| !is_status_of(res, expected_mailbox)),
        }),
    decreases responses.len(),
{
    reveal(Seq::filter);
    let given = |res: ResponseData| attributes_for(res, expected_mailbox);
    let apply = |m: MailboxModel, a: StatusAttribute| crate::mailbox::with_attribute(m, a);
    if responses.len() > 0 {
        let init = responses.drop_last();
        let last = responses.last();
        law_status_takes_the_items_of_its_mailbox(start, init, expected_mailbox, command_tag);
        assert(responses.map_values(given) =~= init.map_values(given).push(given(last)));
        init.map_values(given).lemma_flatten_push(given(last));
        let earlier = init.map_values(given).flatten();
        let all = earlier + given(last);
        all.lemma_fold_left_split(start, apply, earlier.len() as int);
        assert(all.subrange(0, earlier.len() as int) =~= earlier);
        assert(all.subrange(earlier.len() as int, all.len() as int) =~= given(last));
    } else {
        assert(responses.map_values(given).flatten() =~= Seq::<StatusAttribute>::empty());
    }
}

/// Of the items on a mailbox the latest of each kind counts, and the flags stay as they were.
pub proof fn law_latest_item_counts(start: MailboxModel, attributes: Seq<StatusAttribute>)
    ensures
        crate::mailbox::with_attributes(start, attributes) == (MailboxModel {
            exists: or_before(
                latest(
                    attributes,
                    |a: StatusAttribute|
                        match a {
                            StatusAttribute::Messages(n) => Some(n),
                            _ => None,
                        },
                ),
                start.exists,
            ),
            recent: or_before(
                latest(
                    attributes,
                    |a: StatusAttribute|
                        match a {
                            StatusAttribute::Recent(n) => Some(n),
                            _ => None,
                        },
                ),
                start.recent,
            ),
            unseen: or_known(
                latest(
                    attributes,
                    |a: StatusAttribute|
                        match a {
                            StatusAttribute::Unseen(n) => Some(n),
                            _ => None,
                        },
                ),
                start.unseen,
            ),
            uid_next: or_known(
                latest(
                    attributes,
                    |a: StatusAttribute|
                        match a {
                            StatusAttribute::UidNext(n) => Some(n),
                            _ => None,
                        },
                ),
                start.uid_next,
            ),
            uid_validity: or_known(
                latest(
                    attributes,
                    |a: StatusAttribute|
                        match a {
                            StatusAttribute::UidValidity(n) => Some(n),
                            _ => None,
                        },
                ),
                start.uid_validity,
            ),
            highest_modseq: or_known(
                latest(
                    attributes,
                    |a: StatusAttribute|
                        match a {
                            StatusAttribute::HighestModSeq(n) => Some(n),
                            _ => None,
                        },
                ),
                start.highest_modseq,
            ),
            ..start
        }),
    decreases attributes.len(),
{
    if attributes.len() > 0 {
        law_latest_item_counts(start, attributes.drop_last());
    }
}

/// A `STATUS` that is open ends with the first completion of its own, and fails unless that is
/// `OK`.
pub proof fn law_refused_status_fails(
    start: MailboxModel,
    responses: Seq<ResponseData>,
    expected_mailbox: Seq<char>,
    command_tag: RequestId,
    res: ResponseData,
)
    requires
        status_run(start, responses, expected_mailbox, command_tag) is Open,
    ensures
        ({
            let before = status_run(start, responses, expected_mailbox, command_tag);
            let after = status_run(start, responses.push(res), expected_mailbox, command_tag);
            match res.response {
                Response::Done { tag, status, outcome } if tag.0@ == command_tag.0@ => after == if status
                    is Okay {
                    Run::<MailboxModel>::Complete { state: before->Open_state, passed_on: before.passed_on() }
                } else {
                    Run::<MailboxModel>::Refused { status, outcome, passed_on: before.passed_on() }
                },
                _ => after is Open,
            }
        }),
{
    assert(responses.push(res).drop_last() == responses);
}

/// The flag is the one that the text stands for: one of those that the protocol defines, or a flag
/// of its own under that text.
pub open spec fn stands_for(flag: Flag, text: String) -> bool {
    match flag {
        Flag::Seen => text@ == "\\Seen"@,
        Flag::Answered => text@ == "\\Answered"@,
        Flag::Flagged => text@ == "\\Flagged"@,
        Flag::Deleted => text@ == "\\Deleted"@,
        Flag::Draft => text@ == "\\Draft"@,
        Flag::Recent => text@ == "\\Recent"@,
        Flag::MayCreate => text@ == "\\*"@,
        Flag::Custom(own) => {
            &&& own == text
            &&& text@ != "\\Seen"@
            &&& text@ != "\\Answered"@
            &&& text@ != "\\Flagged"@
            &&& text@ != "\\Deleted"@
            &&& text@ != "\\Draft"@
            &&& text@ != "\\Recent"@
            &&& text@ != "\\*"@
        },
    }
}

/// Every text stands for exactly one flag: the seven texts of the protocol for the flags that it
/// defines, and any other text for a flag of its own.
pub proof fn law_each_text_has_its_flag(text: String, flag: Flag)
    ensures
        text@ == "\\Seen"@ ==> crate::mailbox::flag_of(text) is Seen,
        text@ == "\\Answered"@ ==> crate::mailbox::flag_of(text) is Answered,
        text@ == "\\Flagged"@ ==> crate::mailbox::flag_of(text) is Flagged,
        text@ == "\\Deleted"@ ==> crate::mailbox::flag_of(text) is Deleted,
        text@ == "\\Draft"@ ==> crate::mailbox::flag_of(text) is Draft,
        text@ == "\\Recent"@ ==> crate::mailbox::flag_of(text) is Recent,
        text@ == "\\*"@ ==> crate::mailbox::flag_of(text) is MayCreate,
        stands_for(flag, text) <==> flag == crate::mailbox::flag_of(text),
{
    reveal_strlit("\\Seen");
    reveal_strlit("\\Answered");
    reveal_strlit("\\Flagged");
    reveal_strlit("\\Deleted");
    reveal_strlit("\\Draft");
    reveal_strlit("\\Recent");
    reveal_strlit("\\*");
    // All but two differ in length.
    assert("\\Seen"@.len() == 5 && "\\Answered"@.len() == 9 && "\\Draft"@.len() == 6);
    assert("\\Flagged"@.len() == 8 && "\\Deleted"@.len() == 8);
    assert("\\Recent"@.len() == 7 && "\\*"@.len() == 2);
    assert("\\Flagged"@[1] != "\\Deleted"@[1]);
}

/// The second list is the first with one flag more for each of the texts, in their order.
pub open spec fn gains(before: Seq<Flag>, after: Seq<Flag>, texts: Seq<String>) -> bool {
    &&& after.len() == before.len() + texts.len()
    &&& forall|k: int| 0 <= k < before.len() ==> #[trigger] after[k] == before[k]
    &&& forall|k: int|
        0 <= k < texts.len() ==> stands_for(after[before.len() + k], #[trigger] texts[k])
}

/// A list that grows by the flags of texts gains one for each.
proof fn lemma_gains(before: Seq<Flag>, texts: Seq<String>)
    ensures
        gains(before, before + crate::mailbox::flags_of(texts), texts),
{
    let after = before + crate::mailbox::flags_of(texts);
    assert forall|k: int| 0 <= k < texts.len() implies stands_for(
        after[before.len() + k],
        #[trigger] texts[k],
    ) by {
        law_each_text_has_its_flag(texts[k], after[before.len() + k]);
    }
}

/// A mailbox of which nothing is known has no flags, no messages and none of the values that need
/// not be there.
pub proof fn law_nothing_is_known_at_first(mailbox: Mailbox)
    requires
        mailbox@ == crate::mailbox::unknown_mailbox(),
    ensures
        mailbox.flags@.len() == 0,
        mailbox.permanent_flags@.len() == 0,
        mailbox.exists == 0,
        mailbox.recent == 0,
        mailbox.unseen is None,
        mailbox.uid_next is None,
        mailbox.uid_validity is None,
        mailbox.highest_modseq is None,
{
}

/// The response changes what is known of the selected mailbox, or could.
pub open spec fn is_for_select(response: Response) -> bool {
    match response {
        Response::Data { .. } => true,
        Response::MailboxData(datum) => !(datum is Status),
        _ => false,
    }
}

/// A select ends with its own completion, with an untagged status other than `OK`, with the end of
/// the stream or with a failure to read, and with nothing else. Its result is what is known of the
/// mailbox, or the refusal. A response that it has no use for is handed out as it came, and changes
/// nothing.
pub proof fn law_select_ends_where_it_must(
    progress: Progress<Mailbox, Mailbox>,
    mailbox: Mailbox,
    item: Item,
    command_tag: RequestId,
)
    requires
        crate::command::advances(
            progress,
            mailbox,
            item,
            |response: Response|
                crate::mailbox::mailbox_reaction(mailbox@, response, command_tag),
            Ok(mailbox),
        ),
    ensures
        item is None ==> progress == Progress::<Mailbox, Mailbox>::Finished(Ok(mailbox)),
        item matches Some(Err(error)) ==> progress == Progress::<Mailbox, Mailbox>::Finished(
            Err(Error::Io(IoError::Stream(error))),
        ),
        item matches Some(Ok(res)) ==> match res.response {
            Response::Done { tag, status, outcome } if tag.0@ == command_tag.0@ => {
                &&& status is Okay ==> progress == Progress::<Mailbox, Mailbox>::Finished(
                    Ok(mailbox),
                )
                &&& !(status is Okay) ==> (progress matches Progress::Finished(Err(error))
                    && crate::refusal::is_refusal(error, status, outcome))
            },
            Response::Data { status, outcome } if !(status is Okay) => {
                &&& progress matches Progress::Finished(Err(error))
                &&& crate::refusal::is_refusal(error, status, outcome)
            },
            response => if is_for_select(response) {
                progress matches Progress::More { unilateral, .. } && unilateral is None
            } else {
                progress == (Progress::<Mailbox, Mailbox>::More {
                    state: mailbox,
                    unilateral: Some(res),
                })
            },
        },
{
}

/// What a response to a select says of the mailbox is known afterwards, and what it says nothing
/// of stays as it was: each number is changed by the response that gives it and by no other, and
/// the two lists of flags grow by one flag for each text, all of them and in their order.
pub proof fn law_select_learns_what_it_is_told(
    progress: Progress<Mailbox, Mailbox>,
    mailbox: Mailbox,
    res: ResponseData,
    command_tag: RequestId,
)
    requires
        crate::command::advances(
            progress,
            mailbox,
            Some(Ok(res)),
            |response: Response|
                crate::mailbox::mailbox_reaction(mailbox@, response, command_tag),
            Ok(mailbox),
        ),
    ensures
        progress matches Progress::More { state, .. } ==> {
            let code = match res.response {
                Response::Data { outcome, .. } => match outcome.code {
                    Some(code) => Some(code.kind),
                    None => None,
                },
                _ => None,
            };
            &&& state.exists == match res.response {
                Response::MailboxData(MailboxDatum::Exists(n)) => n,
                _ => mailbox.exists,
            }
            &&& state.recent == match res.response {
                Response::MailboxData(MailboxDatum::Recent(n)) => n,
                _ => mailbox.recent,
            }
            &&& state.unseen == match code {
                Some(CodeKind::Unseen(n)) => Some(n),
                _ => mailbox.unseen,
            }
            &&& state.uid_next == match code {
                Some(CodeKind::UidNext(n)) => Some(n),
                _ => mailbox.uid_next,
            }
            &&& state.uid_validity == match code {
                Some(CodeKind::UidValidity(n)) => Some(n),
                _ => mailbox.uid_validity,
            }
            &&& state.highest_modseq == match code {
                Some(CodeKind::HighestModSeq(n)) => Some(n),
                _ => mailbox.highest_modseq,
            }
            &&& match res.response {
                Response::MailboxData(MailboxDatum::Flags(texts)) => gains(
                    mailbox.flags@,
                    state.flags@,
                    texts@,
                ),
                _ => state.flags@ == mailbox.flags@,
            }
            &&& match code {
                Some(CodeKind::PermanentFlags(texts)) => gains(
                    mailbox.permanent_flags@,
                    state.permanent_flags@,
                    texts@,
                ),
                _ => state.permanent_flags@ == mailbox.permanent_flags@,
            }
        },
{
    match res.response {
        Response::MailboxData(MailboxDatum::Flags(texts)) => lemma_gains(mailbox.flags@, texts@),
        Response::Data { outcome, .. } => {
            if let Some(code) = outcome.code {
                if let CodeKind::PermanentFlags(texts) = code.kind {
                    lemma_gains(mailbox.permanent_flags@, texts@);
                }
            }
        },
        _ => {},
    }
}

/// The texts of flags that a response gives.
pub open spec fn flag_texts(res: ResponseData) -> Seq<String> {
    match res.response {
        Response::MailboxData(MailboxDatum::Flags(texts)) => texts@,
        _ => Seq::empty(),
    }
}

/// The texts of permanent flags that a response gives.
pub open spec fn permanent_flag_texts(res: ResponseData) -> Seq<String> {
    match code_of(res) {
        Some(CodeKind::PermanentFlags(texts)) => texts@,
        _ => Seq::empty(),
    }
}

/// A list that gains texts after others gains all of them.
proof fn lemma_gains_more(
    first: Seq<Flag>,
    second: Seq<Flag>,
    third: Seq<Flag>,
    texts: Seq<String>,
    more: Seq<String>,
)
    requires
        gains(first, second, texts),
        gains(second, third, more),
    ensures
        gains(first, third, texts + more),
{
    let all = texts + more;
    assert forall|k: int| 0 <= k < first.len() implies #[trigger] third[k] == first[k] by {
        assert(second[k] == first[k]);
    }
    assert forall|k: int| 0 <= k < all.len() implies stands_for(
        third[first.len() + k],
        #[trigger] all[k],
    ) by {
        if k < texts.len() {
            assert(third[first.len() + k] == second[first.len() + k]);
            assert(all[k] == texts[k]);
        } else {
            let j = k - texts.len();
            assert(all[k] == more[j]);
            assert(third[second.len() + j] == third[first.len() + k]);
        }
    }
}

/// As long as a select is open, no flag that the server gave is missing and none is made up: the
/// lists have grown by one flag for each text of all the responses, in their order.
pub proof fn law_select_collects_every_flag(
    start: MailboxModel,
    responses: Seq<ResponseData>,
    command_tag: RequestId,
)
    requires
        select_run(start, responses, command_tag) is Open,
    ensures
        gains(
            start.flags,
            select_run(start, responses, command_tag)->Open_state.flags,
            responses.map_values(|res: ResponseData| flag_texts(res)).flatten(),
        ),
        gains(
            start.permanent_flags,
            select_run(start, responses, command_tag)->Open_state.permanent_flags,
            responses.map_values(|res: ResponseData| permanent_flag_texts(res)).flatten(),
        ),
    decreases responses.len(),
{
    let flags = |res: ResponseData| flag_texts(res);
    let permanent_flags = |res: ResponseData| permanent_flag_texts(res);
    if responses.len() > 0 {
        let init = responses.drop_last();
        let last = responses.last();
        law_select_collects_every_flag(start, init, command_tag);
        let before = select_run(start, init, command_tag)->Open_state;
        let after = select_run(start, responses, command_tag)->Open_state;
        assert(responses.map_values(flags) =~= init.map_values(flags).push(flags(last)));
        init.map_values(flags).lemma_flatten_push(flags(last));
        assert(responses.map_values(permanent_flags) =~= init.map_values(permanent_flags).push(
            permanent_flags(last),
        ));
        init.map_values(permanent_flags).lemma_flatten_push(permanent_flags(last));
        lemma_gains(before.flags, flags(last));
        lemma_gains(before.permanent_flags, permanent_flags(last));
        assert(after.flags =~= before.flags + crate::mailbox::flags_of(flags(last)));
        assert(after.permanent_flags =~= before.permanent_flags + crate::mailbox::flags_of(
            permanent_flags(last),
        ));
        lemma_gains_more(
            start.flags,
            before.flags,
            after.flags,
            init.map_values(flags).flatten(),
            flags(last),
        );
        lemma_gains_more(
            start.permanent_flags,
            before.permanent_flags,
            after.permanent_flags,
            init.map_values(permanent_flags).flatten(),
            permanent_flags(last),
        );
    } else {
        assert(responses.map_values(flags).flatten() =~= Seq::<String>::empty());
        assert(responses.map_values(permanent_flags).flatten() =~= Seq::<String>::empty());
    }
}

/// A `STATUS` ends with its own completion, with the end of the stream or with a failure to read,
/// and with nothing else. Items on the mailbox in question change what they are about, the latest
/// of each kind counts, and what none of them is about stays as it was, the flags always. Any
/// other response is handed out as it came, also one on another mailbox, and changes nothing.
pub proof fn law_status_learns_what_it_is_told(
    progress: Progress<Mailbox, Mailbox>,
    mailbox: Mailbox,
    item: Item,
    expected_mailbox: Seq<char>,
    command_tag: RequestId,
)
    requires
        crate::command::advances(
            progress,
            mailbox,
            item,
            |response: Response|
                crate::mailbox::status_reaction(
                    mailbox@,
                    response,
                    expected_mailbox,
                    command_tag,
                ),
            Ok(mailbox),
        ),
    ensures
        item is None ==> progress == Progress::<Mailbox, Mailbox>::Finished(Ok(mailbox)),
        item matches Some(Err(error)) ==> progress == Progress::<Mailbox, Mailbox>::Finished(
            Err(Error::Io(IoError::Stream(error))),
        ),
        item matches Some(Ok(res)) ==> match res.response {
            Response::Done { tag, status, outcome } if tag.0@ == command_tag.0@ => {
                &&& status is Okay ==> progress == Progress::<Mailbox, Mailbox>::Finished(
                    Ok(mailbox),
                )
                &&& !(status is Okay) ==> (progress matches Progress::Finished(Err(error))
                    && crate::refusal::is_refusal(error, status, outcome))
            },
            Response::MailboxData(MailboxDatum::Status { mailbox: name, status }) if name@
                == expected_mailbox => {
                &&& progress matches Progress::More { state, unilateral: None }
                &&& state.flags@ == mailbox.flags@
                &&& state.permanent_flags@ == mailbox.permanent_flags@
                &&& state.exists == or_before(
                    latest(
                        status@,
                        |a: StatusAttribute|
                            match a {
                                StatusAttribute::Messages(n) => Some(n),
                                _ => None,
                            },
                    ),
                    mailbox.exists,
                )
                &&& state.recent == or_before(
                    latest(
                        status@,
                        |a: StatusAttribute|
                            match a {
                                StatusAttribute::Recent(n) => Some(n),
                                _ => None,
                            },
                    ),
                    mailbox.recent,
                )
                &&& state.unseen == or_known(
                    latest(
                        status@,
                        |a: StatusAttribute|
                            match a {
                                StatusAttribute::Unseen(n) => Some(n),
                                _ => None,
                            },
                    ),
                    mailbox.unseen,
                )
                &&& state.uid_next == or_known(
                    latest(
                        status@,
                        |a: StatusAttribute|
                            match a {
                                StatusAttribute::UidNext(n) => Some(n),
                                _ => None,
                            },
                    ),
                    mailbox.uid_next,
                )
                &&& state.uid_validity == or_known(
                    latest(
                        status@,
                        |a: StatusAttribute|
                            match a {
                                StatusAttribute::UidValidity(n) => Some(n),
                                _ => None,
                            },
                    ),
                    mailbox.uid_validity,
                )
                &&& state.highest_modseq == or_known(
                    latest(
                        status@,
                        |a: StatusAttribute|
                            match a {
                                StatusAttribute::HighestModSeq(n) => Some(n),
                                _ => None,
                            },
                    ),
                    mailbox.highest_modseq,
                )
            },
            _ => progress == (Progress::<Mailbox, Mailbox>::More {
                state: mailbox,
                unilateral: Some(res),
            }),
        },
{
    if let Some(Ok(res)) = item {
        if let Response::MailboxData(MailboxDatum::Status { mailbox: name, status })
            = res.response {
            law_latest_item_counts(mailbox@, status@);
        }
    }
}

} // verus!
