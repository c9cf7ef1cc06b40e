//! Where a change stream that has to be opened again picks up.
use vstd::prelude::*;

use bson::Timestamp;
use mongodb::change_stream::event::ResumeToken;
use mongodb::options::{ChangeStreamOptions, FullDocumentType};

use crate::mongo::{build_stream_options, stream_options};

verus! {

/// A place from which a change stream can be opened.
#[derive(Debug, PartialEq)]
pub enum StreamCheckpoint {
    /// The changes at or after this operation time.
    OperationTime(Timestamp),
    /// The changes after this token of the same stream.
    ResumeAfter(ResumeToken),
    /// The changes after this token of a stream that was invalidated.
    StartAfter(ResumeToken),
}

impl Clone for StreamCheckpoint {
    fn clone(&self) -> (copy: Self)
        ensures
            copy == *self,
    {
        match self {
            StreamCheckpoint::OperationTime(timestamp) => StreamCheckpoint::OperationTime(
                *timestamp,
            ),
            StreamCheckpoint::ResumeAfter(token) => StreamCheckpoint::ResumeAfter(token.clone()),
            StreamCheckpoint::StartAfter(token) => StreamCheckpoint::StartAfter(token.clone()),
        }
    }
}

impl StreamCheckpoint {
    /// The options that open a stream at the checkpoint: one of the three that say where, and how
    /// updates carry their document.
    pub open spec fn options(self, full_document: Option<FullDocumentType>) -> ChangeStreamOptions {
        match self {
            StreamCheckpoint::OperationTime(timestamp) => stream_options(
                full_document,
                Some(timestamp),
                None,
                None,
            ),
            StreamCheckpoint::ResumeAfter(token) => stream_options(
                full_document,
                None,
                Some(token),
                None,
            ),
            StreamCheckpoint::StartAfter(token) => stream_options(
                full_document,
                None,
                None,
                Some(token),
            ),
        }
    }

    /// The operation time of a checkpoint that is one.
    pub open spec fn time(self) -> Option<Timestamp> {
        match self {
            StreamCheckpoint::OperationTime(timestamp) => Some(timestamp),
            _ => None,
        }
    }

    /// The options that open a stream at the checkpoint.
    pub fn into_options(self, full_document: Option<FullDocumentType>) -> (options:
        ChangeStreamOptions)
        ensures
            options == self.options(full_document),
    {
        match self {
            StreamCheckpoint::OperationTime(timestamp) => build_stream_options(
                full_document,
                Some(timestamp),
                None,
                None,
            ),
            StreamCheckpoint::ResumeAfter(token) => build_stream_options(
                full_document,
                None,
                Some(token),
                None,
            ),
            StreamCheckpoint::StartAfter(token) => build_stream_options(
                full_document,
                None,
                None,
                Some(token),
            ),
        }
    }

    /// The operation time at which a stream opened at the checkpoint starts, if that is known.
    pub fn start_at_operation_time(&self) -> (time: Option<Timestamp>)
        ensures
            time == self.time(),
    {
        match self {
            StreamCheckpoint::OperationTime(timestamp) => Some(*timestamp),
            StreamCheckpoint::ResumeAfter(_) | StreamCheckpoint::StartAfter(_) => None,
        }
    }
}

/// The place that a stream has come to.
#[derive(Debug)]
pub struct StreamCheckpointState {
    /// The place, once there is one.
    pub checkpoint: Option<StreamCheckpoint>,
}

impl Default for StreamCheckpointState {
    fn default() -> (state: Self)
        ensures
            state.checkpoint is None,
    {
        StreamCheckpointState { checkpoint: None }
    }
}

/// The place after the stream has moved on: behind its token, or where it was if it has none.
pub open spec fn moved(checkpoint: Option<StreamCheckpoint>, token: Option<ResumeToken>) -> Option<
    StreamCheckpoint,
> {
    match token {
        Some(token) => Some(StreamCheckpoint::ResumeAfter(token)),
        None => checkpoint,
    }
}

/// The place after the stream was invalidated: behind its token, for another stream to start
/// after, or where it was if it has none.
pub open spec fn invalidated(
    checkpoint: Option<StreamCheckpoint>,
    token: Option<ResumeToken>,
) -> Option<StreamCheckpoint> {
    match token {
        Some(token) => Some(StreamCheckpoint::StartAfter(token)),
        None => checkpoint,
    }
}

/// A stream is opened at its checkpoint and nowhere else, and its updates carry their document as
/// they are told to, wherever it is opened.
pub proof fn law_checkpoint_opens_its_place(
    full_document: Option<FullDocumentType>,
    timestamp: Timestamp,
    token: ResumeToken,
)
    ensures
        StreamCheckpoint::OperationTime(timestamp).options(full_document) == stream_options(
            full_document,
            Some(timestamp),
            None,
            None,
        ),
        StreamCheckpoint::ResumeAfter(token).options(full_document) == stream_options(
            full_document,
            None,
            Some(token),
            None,
        ),
        StreamCheckpoint::StartAfter(token).options(full_document) == stream_options(
            full_document,
            None,
            None,
            Some(token),
        ),
        StreamCheckpoint::OperationTime(timestamp).time() == Some(timestamp),
        StreamCheckpoint::ResumeAfter(token).time() is None,
        StreamCheckpoint::StartAfter(token).time() is None,
{
}

/// A stream is where its last token is, whatever came before; one that has no token stays where it
/// is. An invalidation makes the same token a place to start after.
pub proof fn law_place_is_that_of_the_last_token(
    place: Option<StreamCheckpoint>,
    earlier: Option<ResumeToken>,
    token: ResumeToken,
)
    ensures
        moved(moved(place, earlier), Some(token)) == Some(StreamCheckpoint::ResumeAfter(token)),
        moved(place, None) == place,
        invalidated(moved(place, earlier), Some(token)) == Some(
            StreamCheckpoint::StartAfter(token),
        ),
        invalidated(place, None) == place,
        moved(invalidated(place, earlier), Some(token)) == Some(
            StreamCheckpoint::ResumeAfter(token),
        ),
{
}

impl StreamCheckpointState {
    /// The place, once there is one.
    pub fn checkpoint(&self) -> (checkpoint: Option<StreamCheckpoint>)
        ensures
            checkpoint == self.checkpoint,
    {
        match &self.checkpoint {
            Some(checkpoint) => Some(checkpoint.clone()),
            None => None,
        }
    }

    /// The stream was invalidated. Says whether another can start after it.
    pub fn mark_invalidated(&mut self, resume_token: Option<ResumeToken>) -> (can_start_after: bool)
        ensures
            can_start_after == (resume_token is Some),
            final(self).checkpoint == invalidated(old(self).checkpoint, resume_token),
    {
        match resume_token {
            Some(resume_token) => {
                self.checkpoint = Some(StreamCheckpoint::StartAfter(resume_token));
                true
            },
            None => false,
        }
    }

    /// The stream is at this place.
    pub fn set_checkpoint(&mut self, checkpoint: StreamCheckpoint)
        ensures
            final(self).checkpoint == Some(checkpoint),
    {
        self.checkpoint = Some(checkpoint);
    }

    /// The stream has moved on to its token, if it has one.
    pub fn update_resume_token(&mut self, resume_token: Option<ResumeToken>)
        ensures
            final(self).checkpoint == moved(old(self).checkpoint, resume_token),
    {
        if let Some(resume_token) = resume_token {
            self.checkpoint = Some(StreamCheckpoint::ResumeAfter(resume_token));
        }
    }
}

} // verus!
