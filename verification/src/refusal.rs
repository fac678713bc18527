//! The errors that stand for a command that was not carried out.

use vstd::prelude::*;
use vstd::string::StringExecFns;

use crate::error::{Error, IoError};
use crate::response::{Outcome, Status};
use crate::text::{append_optional, quote};

verus! {

/// The name of a status.
pub open spec fn status_name(status: Status) -> Seq<char> {
    match status {
        Status::Okay => "Ok"@,
        Status::No => "No"@,
        Status::Bad => "Bad"@,
        Status::PreAuth => "PreAuth"@,
        Status::Bye => "Bye"@,
    }
}

/// The response code of an outcome, as messages show it.
pub open spec fn code_text(outcome: Outcome) -> Seq<char> {
    crate::text::optional_text(
        match outcome.code {
            None => None,
            Some(code) => Some(code.text@),
        },
    )
}

/// The human-readable part of an outcome, as messages show it.
pub open spec fn information_text(outcome: Outcome) -> Seq<char> {
    crate::text::optional_text(
        match outcome.information {
            None => None,
            Some(information) => Some(crate::text::quoted(information@)),
        },
    )
}

/// The message of a command that was answered `NO` or `BAD`.
pub open spec fn refusal_text(outcome: Outcome) -> Seq<char> {
    "code: "@ + code_text(outcome) + ", info: "@ + information_text(outcome)
}

/// The message of a command that was answered with a status that does not belong there.
pub open spec fn misplaced_text(status: Status, outcome: Outcome) -> Seq<char> {
    "status: "@ + status_name(status) + ", code: "@ + code_text(outcome) + ", information: "@
        + information_text(outcome)
}

/// `error` is what a command fails with when it is answered `status` in place of `OK`.
pub open spec fn is_refusal(error: Error, status: Status, outcome: Outcome) -> bool {
    match status {
        Status::Bad => error matches Error::Bad(message) && message@ == refusal_text(outcome),
        Status::No => error matches Error::No(message) && message@ == refusal_text(outcome),
        _ => error matches Error::Io(IoError::Other(message)) && message@ == misplaced_text(
            status,
            outcome,
        ),
    }
}

fn append_code(message: &mut String, outcome: &Outcome)
    ensures
        final(message)@ == old(message)@ + code_text(*outcome),
{
    match &outcome.code {
        None => append_optional(message, None),
        Some(code) => append_optional(message, Some(code.text.as_str())),
    }
}

fn append_information(message: &mut String, outcome: &Outcome)
    ensures
        final(message)@ == old(message)@ + information_text(*outcome),
{
    match &outcome.information {
        None => append_optional(message, None),
        Some(information) => {
            let rendered = quote(information.as_str());
            append_optional(message, Some(rendered.as_str()))
        },
    }
}

/// The error of a command that was answered `status` in place of `OK`.
pub fn refusal(status: Status, outcome: &Outcome) -> (error: Error)
    ensures
        is_refusal(error, status, *outcome),
{
    let mut message = String::new();
    match status {
        Status::Bad | Status::No => {
            message.append("code: ");
            append_code(&mut message, outcome);
            message.append(", info: ");
            append_information(&mut message, outcome);
            assert(message@ == refusal_text(*outcome));
            if status == Status::Bad {
                Error::Bad(message)
            } else {
                Error::No(message)
            }
        },
        _ => {
            message.append("status: ");
            message.append(
                match status {
                    Status::Okay => "Ok",
                    Status::No => "No",
                    Status::Bad => "Bad",
                    Status::PreAuth => "PreAuth",
                    Status::Bye => "Bye",
                },
            );
            message.append(", code: ");
            append_code(&mut message, outcome);
            message.append(", information: ");
            append_information(&mut message, outcome);
            assert(message@ == misplaced_text(status, *outcome));
            Error::Io(IoError::Other(message))
        },
    }
}

/// A command that was answered `BAD` fails with that, one that was answered `NO` with that, and
/// both messages show the code and the information of the answer. Any other answer than `OK` is an
/// input/output failure whose message shows the status as well.
pub proof fn law_refusals_show_the_answer(error: Error, status: Status, outcome: Outcome)
    requires
        is_refusal(error, status, outcome),
    ensures
        error is Bad <==> status is Bad,
        error is No <==> status is No,
        !(status is Bad) && !(status is No) ==> (error matches Error::Io(io)
            && io is Other),
        ({
            let code = match outcome.code {
                None => "None"@,
                Some(code) => "Some("@ + code.text@ + ")"@,
            };
            let information = match outcome.information {
                None => "None"@,
                Some(information) => "Some("@ + crate::text::quoted(information@) + ")"@,
            };
            match error {
                Error::Bad(message) => message@ == "code: "@ + code + ", info: "@ + information,
                Error::No(message) => message@ == "code: "@ + code + ", info: "@ + information,
                Error::Io(IoError::Other(message)) => message@ == "status: "@ + match status {
                    Status::PreAuth => "PreAuth"@,
                    Status::Bye => "Bye"@,
                    Status::Okay => "Ok"@,
                    Status::No => "No"@,
                    Status::Bad => "Bad"@,
                } + ", code: "@ + code + ", information: "@ + information,
                _ => false,
            }
        }),
{
}

} // verus!
