use voice_session::receiver::{announcement, AudioFile, Outcome, Receiver, Utterance, VoiceEvent};
use voice_session::recognize::VoiceRecognizer;
use voice_session::wav::encode;

struct Fixed(Option<&'static str>);

impl VoiceRecognizer for Fixed {
    fn execute(&self, _data: Vec<u8>) -> Option<String> {
        self.0.map(String::from)
    }
}

struct Sized;

impl VoiceRecognizer for Sized {
    fn execute(&self, data: Vec<u8>) -> Option<String> {
        Some(format!("{} bytes", data.len()))
    }
}

fn packet(ssrc: u32, samples: Vec<i16>) -> VoiceEvent {
    VoiceEvent::VoicePacket { ssrc, audio: Some(samples) }
}

fn stop(ssrc: u32) -> VoiceEvent {
    VoiceEvent::SpeakingUpdate { ssrc, speaking: false }
}

fn bind(ssrc: u32, name: &str) -> VoiceEvent {
    VoiceEvent::SpeakingStateUpdate { ssrc, user_id: Some(String::from(name)) }
}

fn finished(outcome: Outcome) -> Utterance {
    match outcome {
        Outcome::Finished(utterance) => utterance,
        other => panic!("nothing to transcribe: {:?}", other),
    }
}

#[test]
fn bound_speaker_is_announced_by_name() {
    let mut receiver = Receiver::new();
    assert_eq!(receiver.act(bind(7, "alice")), Outcome::Bound);
    assert_eq!(receiver.act(packet(7, vec![10, 0, 20, 0, 30])), Outcome::Buffered);
    let utterance = finished(receiver.act(stop(7)));
    assert_eq!(utterance.ssrc, 7);
    assert_eq!(utterance.samples, vec![10, 20, 30]);
    assert_eq!(utterance.speaker, "alice");
    assert_eq!(utterance.file.name, "7-output.wav");
    assert_eq!(utterance.file.bytes, encode(&vec![10, 20, 30]).unwrap());
    let text = utterance.finalize(&Fixed(Some("hello")));
    assert_eq!(text, Some(String::from("alice disse: hello")));
}

#[test]
fn unbound_speaker_is_announced_by_identifier() {
    let mut receiver = Receiver::new();
    receiver.act(packet(7, vec![10, 0, 20, 0, 30]));
    let utterance = finished(receiver.act(stop(7)));
    assert_eq!(utterance.samples, vec![10, 20, 30]);
    assert_eq!(utterance.speaker, "7");
    assert_eq!(
        utterance.report(Some(String::from("hello"))),
        Some(String::from("7 disse: hello"))
    );
}

#[test]
fn only_silence_is_not_transcribed() {
    let mut receiver = Receiver::new();
    assert_eq!(receiver.act(packet(3, vec![0, 0, 0])), Outcome::Buffered);
    assert!(receiver.is_buffering(3));
    assert_eq!(receiver.act(stop(3)), Outcome::Silence);
    assert!(!receiver.is_buffering(3));
}

#[test]
fn stop_without_packets_finds_nothing() {
    let mut receiver = Receiver::new();
    assert_eq!(receiver.act(stop(3)), Outcome::NothingBuffered);
    receiver.act(bind(3, "dave"));
    assert_eq!(receiver.act(stop(3)), Outcome::NothingBuffered);
}

#[test]
fn no_transcript_means_no_announcement_and_no_second_chance() {
    let mut receiver = Receiver::new();
    receiver.act(packet(5, vec![1, 2, 3]));
    let utterance = finished(receiver.act(stop(5)));
    assert_eq!(utterance.report(None), None);
    assert_eq!(utterance.finalize(&Fixed(None)), None);
    assert!(!receiver.is_buffering(5));
    assert_eq!(receiver.act(stop(5)), Outcome::NothingBuffered);
}

#[test]
fn recognizer_receives_the_container() {
    let mut receiver = Receiver::new();
    receiver.act(packet(5, vec![1, 2, 3]));
    let utterance = finished(receiver.act(stop(5)));
    assert_eq!(utterance.finalize(&Sized), Some(String::from("5 disse: 50 bytes")));
}

#[test]
fn next_utterance_has_no_residue() {
    let mut receiver = Receiver::new();
    receiver.act(packet(7, vec![1, 2, 3]));
    finished(receiver.act(stop(7)));
    receiver.act(packet(7, vec![0, 4]));
    let second = finished(receiver.act(stop(7)));
    assert_eq!(second.samples, vec![4]);
}

#[test]
fn rebinding_mid_utterance_changes_the_name_only() {
    let mut receiver = Receiver::new();
    receiver.act(bind(7, "alice"));
    receiver.act(packet(7, vec![1, 0, 2]));
    receiver.act(bind(7, "bob"));
    receiver.act(packet(7, vec![3]));
    let utterance = finished(receiver.act(stop(7)));
    assert_eq!(utterance.samples, vec![1, 2, 3]);
    assert_eq!(utterance.speaker, "bob");
}

#[test]
fn binding_survives_finalization() {
    let mut receiver = Receiver::new();
    receiver.act(bind(7, "alice"));
    receiver.act(packet(7, vec![1]));
    finished(receiver.act(stop(7)));
    assert_eq!(receiver.speaker_label(7), "alice");
    receiver.act(packet(7, vec![2]));
    assert_eq!(finished(receiver.act(stop(7))).speaker, "alice");
}

#[test]
fn interleaved_streams_are_isolated() {
    let mut receiver = Receiver::new();
    receiver.act(bind(1, "alice"));
    receiver.act(packet(1, vec![1, 0, 1]));
    receiver.act(packet(2, vec![0, 2]));
    receiver.act(packet(1, vec![11]));
    receiver.act(packet(2, vec![22, 0]));
    let first = finished(receiver.act(stop(1)));
    assert!(receiver.is_buffering(2));
    let second = finished(receiver.act(stop(2)));
    assert_eq!(first.samples, vec![1, 1, 11]);
    assert_eq!(first.speaker, "alice");
    assert_eq!(second.samples, vec![2, 22]);
    assert_eq!(second.speaker, "2");
    assert_eq!(first.file.name, "1-output.wav");
    assert_eq!(second.file.name, "2-output.wav");
}

#[test]
fn stops_in_either_order_yield_the_same() {
    let mut one = Receiver::new();
    let mut other = Receiver::new();
    for receiver in [&mut one, &mut other] {
        receiver.act(packet(1, vec![5, 6]));
        receiver.act(packet(2, vec![7]));
    }
    let a1 = one.act(stop(1));
    let b1 = one.act(stop(2));
    let b2 = other.act(stop(2));
    let a2 = other.act(stop(1));
    assert_eq!(a1, a2);
    assert_eq!(b1, b2);
}

#[test]
fn undecodable_packet_is_skipped() {
    let mut receiver = Receiver::new();
    let outcome = receiver.act(VoiceEvent::VoicePacket { ssrc: 9, audio: None });
    assert_eq!(outcome, Outcome::Undecodable);
    assert!(!receiver.is_buffering(9));
    assert_eq!(receiver.act(packet(9, vec![])), Outcome::Buffered);
    assert!(receiver.is_buffering(9));
}

#[test]
fn observational_events_change_nothing() {
    let mut receiver = Receiver::new();
    receiver.act(bind(4, "erin"));
    receiver.act(packet(4, vec![1, 2]));
    assert_eq!(
        receiver.act(VoiceEvent::SpeakingUpdate { ssrc: 4, speaking: true }),
        Outcome::SpeakingStarted
    );
    assert_eq!(receiver.act(VoiceEvent::RtcpPacket), Outcome::Observed);
    assert_eq!(
        receiver.act(VoiceEvent::ClientDisconnect { user: String::from("erin") }),
        Outcome::Observed
    );
    assert_eq!(
        receiver.act(VoiceEvent::SpeakingStateUpdate { ssrc: 4, user_id: None }),
        Outcome::Unattributed
    );
    let utterance = finished(receiver.act(stop(4)));
    assert_eq!(utterance.samples, vec![1, 2]);
    assert_eq!(utterance.speaker, "erin");
}

#[test]
fn speaking_start_allocates_no_buffer() {
    let mut receiver = Receiver::new();
    receiver.act(VoiceEvent::SpeakingUpdate { ssrc: 6, speaking: true });
    assert!(!receiver.is_buffering(6));
}

#[test]
fn update_audio_buffer_filters_and_appends() {
    let mut receiver = Receiver::new();
    receiver.update_audio_buffer(vec![0, 1, 0, 2], 8);
    receiver.update_audio_buffer(vec![3, 0], 8);
    assert_eq!(finished(receiver.finish_utterance(8)).samples, vec![1, 2, 3]);
}

#[test]
fn write_audio_to_file_names_and_encodes() {
    let receiver = Receiver::new();
    let file = receiver.write_audio_to_file(123, &vec![1, -1]).unwrap();
    assert_eq!(
        file,
        AudioFile { name: String::from("123-output.wav"), bytes: encode(&vec![1, -1]).unwrap() }
    );
    assert_eq!(&file.bytes[44..], &[1, 0, 0xff, 0xff]);
}

#[test]
fn announcement_joins_speaker_and_transcript() {
    assert_eq!(announcement("alice", "hello"), "alice disse: hello");
    assert_eq!(announcement("7", ""), "7 disse: ");
}
