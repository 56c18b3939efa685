//! Events that the transcription of a track emits.

use vstd::prelude::*;

verus! {

/// Which side of the conversation an event belongs to.
#[derive(Debug, Clone, Copy, PartialEq, Eq, Structural)]
pub enum TrackId {
    Outgoing,
    Incoming,
}

/// Label of a flush reason, for logs.
pub type FlushReasonStr = &'static str;

#[derive(Debug)]
pub enum PipelineEvent {
    /// Live partial, not yet committed.
    Partial { track: TrackId, text: String },
    /// A final segment landed in the buffer. Not yet flushed.
    Finalised { track: TrackId, text: String },
    /// The transcript buffer flushed. Source text is ready; the translation
    /// arrives later as a `Translated` event.
    Flushed { track: TrackId, text: String, reason: FlushReasonStr },
    /// A translation came back for a flushed chunk.
    Translated { track: TrackId, source_text: String, translated: String },
    /// A non-fatal error from one of the streaming components.
    Error { track: TrackId, error: String },
}

/// What a [`PipelineEvent`] says.
pub enum EventModel {
    Partial { track: TrackId, text: Seq<char> },
    Finalised { track: TrackId, text: Seq<char> },
    Flushed { track: TrackId, text: Seq<char>, reason: Seq<char> },
    Translated { track: TrackId, source_text: Seq<char>, translated: Seq<char> },
    Error { track: TrackId, error: Seq<char> },
}

impl View for PipelineEvent {
    type V = EventModel;

    open spec fn view(&self) -> EventModel {
        match self {
            PipelineEvent::Partial { track, text } => EventModel::Partial {
                track: *track,
                text: text@,
            },
            PipelineEvent::Finalised { track, text } => EventModel::Finalised {
                track: *track,
                text: text@,
            },
            PipelineEvent::Flushed { track, text, reason } => EventModel::Flushed {
                track: *track,
                text: text@,
                reason: reason@,
            },
            PipelineEvent::Translated { track, source_text, translated } => EventModel::Translated {
                track: *track,
                source_text: source_text@,
                translated: translated@,
            },
            PipelineEvent::Error { track, error } => EventModel::Error {
                track: *track,
                error: error@,
            },
        }
    }
}

impl Clone for PipelineEvent {
    fn clone(&self) -> (r: Self)
        ensures
            r@ == self@,
    {
        match self {
            PipelineEvent::Partial { track, text } => PipelineEvent::Partial {
                track: *track,
                text: text.clone(),
            },
            PipelineEvent::Finalised { track, text } => PipelineEvent::Finalised {
                track: *track,
                text: text.clone(),
            },
            PipelineEvent::Flushed { track, text, reason } => PipelineEvent::Flushed {
                track: *track,
                text: text.clone(),
                reason: *reason,
            },
            PipelineEvent::Translated { track, source_text, translated } => {
                PipelineEvent::Translated {
                    track: *track,
                    source_text: source_text.clone(),
                    translated: translated.clone(),
                }
            },
            PipelineEvent::Error { track, error } => PipelineEvent::Error {
                track: *track,
                error: error.clone(),
            },
        }
    }
}

} // verus!
