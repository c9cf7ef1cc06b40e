//! The types of `bson` and `mongodb` that the library carries without looking inside.
use vstd::prelude::*;

use bson::{Document, Timestamp};
use mongodb::change_stream::event::ResumeToken;
use mongodb::options::{ChangeStreamOptions, FullDocumentType};

verus! {

/// `bson::Timestamp`: an operation time of the server.
#[verifier::external_type_specification]
#[verifier::external_body]
pub struct ExTimestamp(Timestamp);

/// `bson::Document`: a document as the server sends it.
#[verifier::external_type_specification]
#[verifier::external_body]
pub struct ExDocument(Document);

/// `mongodb::change_stream::event::ResumeToken`: a place in a change stream.
#[verifier::external_type_specification]
#[verifier::external_body]
pub struct ExResumeToken(ResumeToken);

/// `mongodb::options::FullDocumentType`: how updates carry their document.
#[verifier::external_type_specification]
#[verifier::external_body]
pub struct ExFullDocumentType(FullDocumentType);

/// `mongodb::options::ChangeStreamOptions`: how a change stream is opened.
#[verifier::external_type_specification]
#[verifier::external_body]
pub struct ExChangeStreamOptions(ChangeStreamOptions);

/// `<bson::Document as Clone>::clone` hands out the same document again.
pub assume_specification[ <Document as Clone>::clone ](document: &Document) -> (copy: Document)
    ensures
        copy == *document,
;

/// `<bson::Timestamp as Clone>::clone` hands out the same time again; the type is `Copy`.
pub assume_specification[ <Timestamp as Clone>::clone ](timestamp: &Timestamp) -> (copy: Timestamp)
    ensures
        copy == *timestamp,
;

/// `<mongodb::change_stream::event::ResumeToken as Clone>::clone` hands out the same token again.
pub assume_specification[ <ResumeToken as Clone>::clone ](token: &ResumeToken) -> (copy:
    ResumeToken)
    ensures
        copy == *token,
;

/// `<mongodb::options::FullDocumentType as Clone>::clone` hands out the same setting again.
pub assume_specification[ <FullDocumentType as Clone>::clone ](full_document: &FullDocumentType)
    -> (copy: FullDocumentType)
    ensures
        copy == *full_document,
;

/// The options that `mongodb::options::ChangeStreamOptions::builder` builds when its fields
/// `full_document`, `start_at_operation_time`, `resume_after` and `start_after` are set to the
/// arguments, in this order, and every other field is left at its default.
pub uninterp spec fn stream_options(
    full_document: Option<FullDocumentType>,
    start_at_operation_time: Option<Timestamp>,
    resume_after: Option<ResumeToken>,
    start_after: Option<ResumeToken>,
) -> ChangeStreamOptions;

/// Calls `mongodb::options::ChangeStreamOptions::builder` and its setters of the fields that the
/// parameters are named after. An absent argument leaves its field as it is by default. The result
/// is a function of the arguments.
#[verifier::external_body]
pub(crate) fn build_stream_options(
    full_document: Option<FullDocumentType>,
    start_at_operation_time: Option<Timestamp>,
    resume_after: Option<ResumeToken>,
    start_after: Option<ResumeToken>,
) -> (options: ChangeStreamOptions)
    ensures
        options == stream_options(
            full_document,
            start_at_operation_time,
            resume_after,
            start_after,
        ),
{
    ChangeStreamOptions::builder()
        .full_document(full_document)
        .start_at_operation_time(start_at_operation_time)
        .resume_after(resume_after)
        .start_after(start_after)
        .build()
}

} // verus!
