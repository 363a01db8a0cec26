//! The session coordinator: it owns the sample buffers and the speaker
//! bindings of one voice connection and decides, event by event, what
//! becomes of them.

use crate::decimal::{decimal, push_decimal};
use crate::identity::{label_of, IdentityResolver};
use crate::recognize::{text_view, VoiceRecognizer};
use crate::samples::{appended, SampleStore};
use crate::wav::{encode, wav_container, EncodeError, MAX_SAMPLES};
use vstd::prelude::*;
use vstd::string::StringExecFns;

verus! {

/// What the voice transport delivers.
#[derive(Debug, PartialEq, Eq)]
pub enum VoiceEvent {
    /// The gateway says which speaker a stream identifier belongs to; it may
    /// name none.
    SpeakingStateUpdate { ssrc: u32, user_id: Option<String> },
    /// A stream started (`true`) or stopped (`false`) carrying speech.
    SpeakingUpdate { ssrc: u32, speaking: bool },
    /// A packet of a stream, with its decoded samples where the transport
    /// decodes.
    VoicePacket { ssrc: u32, audio: Option<Vec<i16>> },
    /// Call statistics.
    RtcpPacket,
    /// A speaker left the channel.
    ClientDisconnect { user: String },
}

/// An encoded utterance under the name it is staged by.
#[derive(Debug, PartialEq, Eq)]
pub struct AudioFile {
    pub name: String,
    pub bytes: Vec<u8>,
}

/// A finished utterance on its way to the transcription service.
#[derive(Debug, PartialEq, Eq)]
pub struct Utterance {
    pub ssrc: u32,
    /// The name the utterance is reported under, as bound when the speaker
    /// stopped.
    pub speaker: String,
    /// The samples that were buffered.
    pub samples: Vec<i16>,
    /// Their container.
    pub file: AudioFile,
}

/// What the coordinator did with an event, and what is left for the caller.
#[derive(Debug, PartialEq, Eq)]
pub enum Outcome {
    /// A speaker was bound to the stream.
    Bound,
    /// The update named no speaker; nothing was recorded.
    Unattributed,
    /// Speech started; nothing was recorded.
    SpeakingStarted,
    /// The packet's samples were taken in.
    Buffered,
    /// The packet came without decoded samples and was skipped.
    Undecodable,
    /// Speech stopped on a stream without a buffer.
    NothingBuffered,
    /// Speech stopped on a stream whose buffer held no sample; the buffer is
    /// gone and nothing is to be transcribed.
    Silence,
    /// Speech stopped, the buffer is gone, and its samples could not be
    /// encoded.
    Unencodable(EncodeError),
    /// Speech stopped, the buffer is gone, and this is to be transcribed.
    Finished(Utterance),
    /// Statistics or a disconnect: nothing was recorded.
    Observed,
}

/// The coordinator's state as contracts see it.
pub struct SessionState {
    pub buffers: Map<u32, Seq<i16>>,
    pub speakers: Map<u32, Seq<char>>,
}

/// The state after an event.
pub open spec fn step(state: SessionState, event: VoiceEvent) -> SessionState {
    match event {
        VoiceEvent::SpeakingStateUpdate { ssrc, user_id: Some(name) } => SessionState {
            buffers: state.buffers,
            speakers: state.speakers.insert(ssrc, name@),
        },
        VoiceEvent::SpeakingUpdate { ssrc, speaking: false } => SessionState {
            buffers: state.buffers.remove(ssrc),
            speakers: state.speakers,
        },
        VoiceEvent::VoicePacket { ssrc, audio: Some(samples) } => SessionState {
            buffers: appended(state.buffers, ssrc, samples@),
            speakers: state.speakers,
        },
        _ => state,
    }
}

/// The name an utterance of `ssrc` is staged by.
pub open spec fn staging_name(ssrc: u32) -> Seq<char> {
    decimal(ssrc as nat) + "-output.wav"@
}

/// The announcement of a transcript.
pub open spec fn announcement_text(speaker: Seq<char>, transcript: Seq<char>) -> Seq<char> {
    speaker + " disse: "@ + transcript
}

/// Whether `utterance` is what a stop of `ssrc` hands on in `state`.
pub open spec fn finished_in(state: SessionState, ssrc: u32, utterance: Utterance) -> bool {
    &&& utterance.ssrc == ssrc
    &&& utterance.speaker@ == label_of(state.speakers, ssrc)
    &&& utterance.samples@ == state.buffers[ssrc]
    &&& utterance.file.name@ == staging_name(ssrc)
    &&& utterance.file.bytes@ == wav_container(state.buffers[ssrc])
}

/// Whether `outcome` is what a stop of `ssrc` yields in `state`.
pub open spec fn stop_outcome(state: SessionState, ssrc: u32, outcome: Outcome) -> bool {
    if !state.buffers.contains_key(ssrc) {
        outcome is NothingBuffered
    } else if state.buffers[ssrc].len() == 0 {
        outcome is Silence
    } else if state.buffers[ssrc].len() > MAX_SAMPLES {
        outcome == Outcome::Unencodable(EncodeError::TooLong)
    } else {
        match outcome {
            Outcome::Finished(utterance) => finished_in(state, ssrc, utterance),
            _ => false,
        }
    }
}

/// Whether `outcome` is what `event` yields in `state`.
pub open spec fn outcome_of(state: SessionState, event: VoiceEvent, outcome: Outcome) -> bool {
    match event {
        VoiceEvent::SpeakingStateUpdate { ssrc, user_id } => if user_id is Some {
            outcome is Bound
        } else {
            outcome is Unattributed
        },
        VoiceEvent::SpeakingUpdate { ssrc, speaking } => if speaking {
            outcome is SpeakingStarted
        } else {
            stop_outcome(state, ssrc, outcome)
        },
        VoiceEvent::VoicePacket { ssrc, audio } => if audio is Some {
            outcome is Buffered
        } else {
            outcome is Undecodable
        },
        VoiceEvent::RtcpPacket => outcome is Observed,
        VoiceEvent::ClientDisconnect { user } => outcome is Observed,
    }
}

/// Composes the announcement of `transcript`, attributed to `speaker`.
pub fn announcement(speaker: &str, transcript: &str) -> (text: String)
    ensures
        text@ == announcement_text(speaker@, transcript@),
{
    let mut text = String::from_str(speaker);
    text.append(" disse: ");
    text.append(transcript);
    text
}

impl Utterance {
    /// What is announced once the transcription service has answered: the
    /// transcript under the speaker's name, or nothing where the service
    /// produced none.
    pub fn report(&self, transcription: Option<String>) -> (text: Option<String>)
        ensures
            match transcription {
                Some(transcript) => text is Some && text->Some_0@ == announcement_text(
                    self.speaker@,
                    transcript@,
                ),
                None => text is None,
            },
    {
        match transcription {
            Some(transcript) => Some(announcement(self.speaker.as_str(), transcript.as_str())),
            None => None,
        }
    }

    /// Hands the container, and nothing else, to `recognizer` and composes
    /// the announcement of what it answers: the transcript under the
    /// speaker's name, or nothing where it produced none.
    pub fn finalize<R: VoiceRecognizer>(self, recognizer: &R) -> (text: Option<String>)
        ensures
            exists|answer: Option<Seq<char>>| #[trigger]
                recognizer.answers(self.file.bytes@, answer) && text_view(text) == match answer {
                    Some(transcript) => Some(announcement_text(self.speaker@, transcript)),
                    None => None,
                },
    {
        let Utterance { ssrc: _, speaker, samples: _, file } = self;
        let answer = recognizer.execute(file.bytes);
        assert(recognizer.answers(self.file.bytes@, text_view(answer)));
        match answer {
            Some(transcript) => Some(announcement(speaker.as_str(), transcript.as_str())),
            None => None,
        }
    }
}

/// The coordinator of one voice connection.
pub struct Receiver {
    buffers: SampleStore,
    speakers: IdentityResolver,
}

impl View for Receiver {
    type V = SessionState;

    closed spec fn view(&self) -> SessionState {
        SessionState { buffers: self.buffers@, speakers: self.speakers@ }
    }
}

impl Receiver {
    /// A coordinator without buffers and without bindings.
    pub fn new() -> (receiver: Receiver)
        ensures
            receiver@.buffers == Map::<u32, Seq<i16>>::empty(),
            receiver@.speakers == Map::<u32, Seq<char>>::empty(),
    {
        Receiver { buffers: SampleStore::new(), speakers: IdentityResolver::new() }
    }

    /// Whether a buffer exists for `ssrc`.
    pub fn is_buffering(&self, ssrc: u32) -> (present: bool)
        ensures
            present == self@.buffers.contains_key(ssrc),
    {
        self.buffers.contains(ssrc)
    }

    /// The name under which `ssrc` would be reported now.
    pub fn speaker_label(&self, ssrc: u32) -> (name: String)
        ensures
            name@ == label_of(self@.speakers, ssrc),
    {
        self.speakers.label(ssrc)
    }

    /// Takes the non-zero samples of `audio` into the buffer of `ssrc`.
    pub fn update_audio_buffer(&mut self, audio: Vec<i16>, ssrc: u32)
        ensures
            final(self)@.buffers == appended(old(self)@.buffers, ssrc, audio@),
            final(self)@.speakers == old(self)@.speakers,
    {
        self.buffers.append(ssrc, &audio);
    }

    /// Encodes `audio_buffer` under the staging name of `ssrc`.
    pub fn write_audio_to_file(&self, ssrc: u32, audio_buffer: &Vec<i16>) -> (written: Result<
        AudioFile,
        EncodeError,
    >)
        ensures
            match written {
                Ok(file) => {
                    &&& audio_buffer@.len() <= MAX_SAMPLES
                    &&& file.name@ == staging_name(ssrc)
                    &&& file.bytes@ == wav_container(audio_buffer@)
                },
                Err(e) => audio_buffer@.len() > MAX_SAMPLES && e == EncodeError::TooLong,
            },
    {
        match encode(audio_buffer) {
            Ok(bytes) => {
                let mut name = String::new();
                push_decimal(&mut name, ssrc);
                name.append("-output.wav");
                assert(name@ =~= staging_name(ssrc));
                Ok(AudioFile { name, bytes })
            },
            Err(e) => Err(e),
        }
    }

    /// Ends the utterance of `ssrc`: its buffer is removed whatever follows,
    /// and a buffer that held samples comes back encoded, under the name
    /// bound at this moment.
    pub fn finish_utterance(&mut self, ssrc: u32) -> (outcome: Outcome)
        ensures
            final(self)@.buffers == old(self)@.buffers.remove(ssrc),
            final(self)@.speakers == old(self)@.speakers,
            stop_outcome(old(self)@, ssrc, outcome),
    {
        match self.buffers.drain_remove(ssrc) {
            None => Outcome::NothingBuffered,
            Some(samples) => {
                if samples.len() == 0 {
                    return Outcome::Silence;
                }
                match self.write_audio_to_file(ssrc, &samples) {
                    Err(e) => Outcome::Unencodable(e),
                    Ok(file) => {
                        let speaker = self.speakers.label(ssrc);
                        Outcome::Finished(Utterance { ssrc, speaker, samples, file })
                    },
                }
            },
        }
    }

    /// Handles one event of the voice transport.
    pub fn act(&mut self, ctx: VoiceEvent) -> (outcome: Outcome)
        ensures
            final(self)@ == step(old(self)@, ctx),
            outcome_of(old(self)@, ctx, outcome),
    {
        match ctx {
            VoiceEvent::SpeakingStateUpdate { ssrc, user_id } => match user_id {
                Some(name) => {
                    self.speakers.bind(ssrc, name);
                    Outcome::Bound
                },
                None => Outcome::Unattributed,
            },
            VoiceEvent::SpeakingUpdate { ssrc, speaking } => {
                if speaking {
                    Outcome::SpeakingStarted
                } else {
                    self.finish_utterance(ssrc)
                }
            },
            VoiceEvent::VoicePacket { ssrc, audio } => match audio {
                Some(samples) => {
                    self.update_audio_buffer(samples, ssrc);
                    Outcome::Buffered
                },
                None => Outcome::Undecodable,
            },
            VoiceEvent::RtcpPacket => Outcome::Observed,
            VoiceEvent::ClientDisconnect { user } => Outcome::Observed,
        }
    }
}

} // verus!
