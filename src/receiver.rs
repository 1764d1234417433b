//! A receiver that views one source at a time.
use vstd::prelude::*;

use crate::source::{NdiSource, SourceView};

verus! {

/// Why a receiver could not deliver a frame.
#[derive(Debug, Clone, Copy, PartialEq, Eq, Structural)]
pub enum ReceiverError {
    /// The receiver is not connected to a source.
    NotActive,
}

/// The mathematical value of a receiver.
pub struct ReceiverView {
    pub source: Option<SourceView>,
    pub active: bool,
}

/// A receiver for one source's stream.
pub struct NdiReceiver {
    source: Option<NdiSource>,
    is_active: bool,
}

impl View for NdiReceiver {
    type V = ReceiverView;

    closed spec fn view(&self) -> ReceiverView {
        ReceiverView {
            source: match self.source {
                Some(s) => Some(s@),
                None => None,
            },
            active: self.is_active,
        }
    }
}

impl Default for NdiReceiver {
    fn default() -> (r: NdiReceiver)
        ensures
            r@ == (ReceiverView { source: None, active: false }),
    {
        NdiReceiver::new()
    }
}

impl NdiReceiver {
    /// A receiver connected to nothing.
    pub fn new() -> (r: NdiReceiver)
        ensures
            r@ == (ReceiverView { source: None, active: false }),
    {
        NdiReceiver { source: None, is_active: false }
    }

    /// Connects to `source`, replacing any earlier one.
    pub fn connect(&mut self, source: NdiSource) -> (r: Result<(), ReceiverError>)
        ensures
            r is Ok,
            final(self)@ == (ReceiverView { source: Some(source@), active: true }),
    {
        self.source = Some(source);
        self.is_active = true;
        Ok(())
    }

    /// Disconnects from the current source, if any.
    pub fn disconnect(&mut self)
        ensures
            final(self)@ == (ReceiverView { source: None, active: false }),
    {
        self.is_active = false;
        self.source = None;
    }

    /// Whether the receiver is connected.
    pub fn is_active(&self) -> (r: bool)
        ensures
            r == self@.active,
    {
        self.is_active
    }

    /// A copy of the source the receiver is connected to, if any.
    pub fn current_source(&self) -> (r: Option<NdiSource>)
        ensures
            match r {
                Some(s) => self@.source == Some(s@),
                None => self@.source is None,
            },
    {
        match &self.source {
            Some(s) => Some(s.duplicate()),
            None => None,
        }
    }

    /// Receives one video frame; fails when not connected.
    pub fn receive_video_frame(&self) -> (r: Result<(), ReceiverError>)
        ensures
            r == if self@.active { Ok(()) } else { Err(ReceiverError::NotActive) },
    {
        if !self.is_active() {
            return Err(ReceiverError::NotActive);
        }
        Ok(())
    }

    /// Receives one audio frame; fails when not connected.
    pub fn receive_audio_frame(&self) -> (r: Result<(), ReceiverError>)
        ensures
            r == if self@.active { Ok(()) } else { Err(ReceiverError::NotActive) },
    {
        if !self.is_active() {
            return Err(ReceiverError::NotActive);
        }
        Ok(())
    }

    /// Receives the stream's metadata, an empty JSON object; fails when not
    /// connected.
    pub fn receive_metadata(&self) -> (r: Result<String, ReceiverError>)
        ensures
            match r {
                Ok(m) => self@.active && m@ == seq!['{', '}'],
                Err(e) => !self@.active && e == ReceiverError::NotActive,
            },
    {
        if !self.is_active() {
            return Err(ReceiverError::NotActive);
        }
        let m = String::from_str("{}");
        proof {
            reveal_strlit("{}");
        }
        Ok(m)
    }
}

} // verus!
