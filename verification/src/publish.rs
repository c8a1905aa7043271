//! Replacing a document as a whole.
//!
//! A document is put into words, written beside its place, and renamed into it. Whoever
//! reads the place finds the old document or the new one, and nothing in between.

use vstd::prelude::*;

use crate::failure;
use crate::failure::Failure;
use crate::text;

verus! {

/// The documents that are replaced in this way.
#[derive(Clone, Copy, PartialEq, Eq, Structural, Debug)]
pub enum Publication {
    Status,
    Progress,
    Lease,
    RunConfig,
}

/// The step at which a publication failed.
#[derive(Clone, Copy, PartialEq, Eq, Structural, Debug)]
pub enum PublishFault {
    Encoding,
    Writing,
    Renaming,
}

/// The steps of a publication.
#[derive(Clone, Copy, PartialEq, Eq, Structural, Debug)]
pub enum PublishStep {
    Encode,
    Write,
    Rename,
    Published,
    Refused(PublishFault),
}

impl PublishStep {
    pub open spec fn after(self, ok: bool) -> PublishStep {
        match self {
            PublishStep::Encode => if ok {
                PublishStep::Write
            } else {
                PublishStep::Refused(PublishFault::Encoding)
            },
            PublishStep::Write => if ok {
                PublishStep::Rename
            } else {
                PublishStep::Refused(PublishFault::Writing)
            },
            PublishStep::Rename => if ok {
                PublishStep::Published
            } else {
                PublishStep::Refused(PublishFault::Renaming)
            },
            other => other,
        }
    }

    /// The step behind this one.
    pub fn advance(self, ok: bool) -> (next: PublishStep)
        ensures
            next == self.after(ok),
    {
        match self {
            PublishStep::Encode => if ok {
                PublishStep::Write
            } else {
                PublishStep::Refused(PublishFault::Encoding)
            },
            PublishStep::Write => if ok {
                PublishStep::Rename
            } else {
                PublishStep::Refused(PublishFault::Writing)
            },
            PublishStep::Rename => if ok {
                PublishStep::Published
            } else {
                PublishStep::Refused(PublishFault::Renaming)
            },
            other => other,
        }
    }
}

/// The step that a publication has reached after a number of reports.
pub open spec fn publish_step(reports: Seq<bool>) -> PublishStep
    decreases reports.len(),
{
    if reports.len() == 0 {
        PublishStep::Encode
    } else {
        publish_step(reports.drop_last()).after(reports.last())
    }
}

/// The only step that touches the place of a document is the rename, and it comes only
/// behind a document that was written as a whole; a publication that fails before it
/// leaves the place as it was.
pub proof fn places_change_only_behind_a_whole_document(reports: Seq<bool>)
    ensures
        publish_step(reports) is Rename ==> reports =~= seq![true, true],
        publish_step(reports) is Published ==> reports.len() >= 3 && reports[0] && reports[1]
            && reports[2],
        publish_step(reports) matches PublishStep::Refused(fault) && !(fault is Renaming)
            ==> !(reports.len() >= 2 && reports[0] && reports[1]),
    decreases reports.len(),
{
    if reports.len() > 0 {
        let before = reports.drop_last();
        places_change_only_behind_a_whole_document(before);
        lemma_first_steps(before);
    }
}

proof fn lemma_first_steps(reports: Seq<bool>)
    ensures
        publish_step(reports) is Encode ==> reports.len() == 0,
        publish_step(reports) is Write ==> reports =~= seq![true],
        publish_step(reports) == PublishStep::Refused(PublishFault::Encoding) ==> reports.len() > 0
            && !reports[0],
        publish_step(reports) == PublishStep::Refused(PublishFault::Writing) ==> reports.len() > 1
            && !reports[1],
    decreases reports.len(),
{
    if reports.len() > 0 {
        lemma_first_steps(reports.drop_last());
    }
}

/// How many steps a publication still needs at most.
pub open spec fn publish_distance(step: PublishStep) -> nat {
    match step {
        PublishStep::Encode => 3,
        PublishStep::Write => 2,
        PublishStep::Rename => 1,
        PublishStep::Published | PublishStep::Refused(_) => 0,
    }
}

/// Every report brings a publication nearer to its end.
pub proof fn publications_end(step: PublishStep, ok: bool)
    requires
        publish_distance(step) > 0,
    ensures
        publish_distance(step.after(ok)) < publish_distance(step),
{
}

/// What went wrong with a publication. `tmp` is where the document was written, `place`
/// where it belongs, and `detail` what the system said.
pub open spec fn publish_failure_view(
    document: Publication,
    fault: PublishFault,
    tmp: Seq<char>,
    place: Seq<char>,
    detail: Seq<char>,
) -> failure::FailureView {
    match (document, fault) {
        (Publication::Status, PublishFault::Encoding) => failure::caused(
            "failed to serialize status"@,
            detail,
        ),
        (Publication::Status, PublishFault::Writing) => failure::caused(
            "failed to write temporary status: "@ + tmp,
            detail,
        ),
        (Publication::Status, PublishFault::Renaming) => failure::caused(
            "failed to publish status: "@ + place,
            detail,
        ),
        (Publication::Progress, PublishFault::Encoding) => failure::plain(
            "failed to serialize progress: "@ + detail,
        ),
        (Publication::Progress, PublishFault::Writing) => failure::caused(
            "failed to write progress: "@ + tmp,
            detail,
        ),
        (Publication::Progress, PublishFault::Renaming) => failure::caused(
            "failed to publish progress: "@ + place,
            detail,
        ),
        (Publication::Lease, PublishFault::Encoding) => failure::caused(
            "failed to serialize lease"@,
            detail,
        ),
        (Publication::Lease, PublishFault::Writing) => failure::caused(
            "failed to write lease"@,
            detail,
        ),
        (Publication::Lease, PublishFault::Renaming) => failure::caused(
            "failed to commit lease"@,
            detail,
        ),
        (Publication::RunConfig, PublishFault::Encoding) => failure::caused(
            "failed to serialize updated run config"@,
            detail,
        ),
        (Publication::RunConfig, PublishFault::Writing) => failure::caused(
            "failed to write updated run config"@,
            detail,
        ),
        (Publication::RunConfig, PublishFault::Renaming) => failure::caused(
            "failed to commit updated run config"@,
            detail,
        ),
    }
}

/// What went wrong with a publication.
pub fn publish_failure(
    document: Publication,
    fault: PublishFault,
    tmp: &str,
    place: &str,
    detail: &str,
) -> (f: Failure)
    ensures
        f@ == publish_failure_view(document, fault, tmp@, place@, detail@),
{
    let message = match (document, fault) {
        (Publication::Status, PublishFault::Encoding) => "failed to serialize status".to_owned(),
        (Publication::Status, PublishFault::Writing) => text::cat2(
            "failed to write temporary status: ",
            tmp,
        ),
        (Publication::Status, PublishFault::Renaming) => text::cat2(
            "failed to publish status: ",
            place,
        ),
        (Publication::Progress, PublishFault::Encoding) => {
            return Failure::new(text::cat2("failed to serialize progress: ", detail));
        },
        (Publication::Progress, PublishFault::Writing) => text::cat2(
            "failed to write progress: ",
            tmp,
        ),
        (Publication::Progress, PublishFault::Renaming) => text::cat2(
            "failed to publish progress: ",
            place,
        ),
        (Publication::Lease, PublishFault::Encoding) => "failed to serialize lease".to_owned(),
        (Publication::Lease, PublishFault::Writing) => "failed to write lease".to_owned(),
        (Publication::Lease, PublishFault::Renaming) => "failed to commit lease".to_owned(),
        (Publication::RunConfig, PublishFault::Encoding) =>
        "failed to serialize updated run config".to_owned(),
        (Publication::RunConfig, PublishFault::Writing) =>
        "failed to write updated run config".to_owned(),
        (Publication::RunConfig, PublishFault::Renaming) =>
        "failed to commit updated run config".to_owned(),
    };
    Failure::with_cause(message, detail)
}

/// A publication goes through exactly when its document was put into words, written and
/// renamed, each of which was reported as done; otherwise it is refused for the first of
/// them that was not.
pub proof fn publications_fail_at_the_first_fault(reports: Seq<bool>)
    ensures
        publish_step(reports) is Published <==> reports.len() >= 3 && reports[0] && reports[1]
            && reports[2],
        publish_step(reports) == PublishStep::Refused(PublishFault::Encoding) <==> reports.len() >= 1
            && !reports[0],
        publish_step(reports) == PublishStep::Refused(PublishFault::Writing) <==> reports.len() >= 2
            && reports[0] && !reports[1],
        publish_step(reports) == PublishStep::Refused(PublishFault::Renaming) <==> reports.len()
            >= 3 && reports[0] && reports[1] && !reports[2],
        publish_step(reports) is Write <==> reports.len() == 1 && reports[0],
        publish_step(reports) is Rename <==> reports.len() == 2 && reports[0] && reports[1],
        publish_step(reports) is Encode <==> reports.len() == 0,
    decreases reports.len(),
{
    if reports.len() > 0 {
        publications_fail_at_the_first_fault(reports.drop_last());
    }
}

/// A publication that failed is told with what the system said as its cause, but for
/// progress that cannot be put into words, where it stands in the message.
pub proof fn publication_failures_carry_their_cause(
    document: Publication,
    fault: PublishFault,
    tmp: Seq<char>,
    place: Seq<char>,
    detail: Seq<char>,
)
    ensures
        ({
            let told = publish_failure_view(document, fault, tmp, place, detail);
            let in_words = document is Progress && fault is Encoding;
            &&& !in_words ==> told.cause == Some(detail)
            &&& in_words ==> told.cause is None && detail.is_suffix_of(told.message)
            &&& document is Status && fault is Writing || document is Progress && fault is Writing
                ==> tmp.is_suffix_of(told.message)
            &&& document is Status && fault is Renaming || document is Progress && fault is Renaming
                ==> place.is_suffix_of(told.message)
        }),
{
    text::joined_texts_keep_both_ends("failed to serialize progress: "@, detail);
    text::joined_texts_keep_both_ends("failed to write temporary status: "@, tmp);
    text::joined_texts_keep_both_ends("failed to write progress: "@, tmp);
    text::joined_texts_keep_both_ends("failed to publish status: "@, place);
    text::joined_texts_keep_both_ends("failed to publish progress: "@, place);
}

} // verus!
