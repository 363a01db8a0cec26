//! The transcription service's side of the session: the capability the
//! session is given, the request that carries an utterance to Google's
//! speech service, and the choice among the alternatives it answers with.

use base64::Engine;
use vstd::prelude::*;
use vstd::string::StringExecFns;

verus! {

/// Something that turns an encoded utterance into text. `None` means that no
/// transcript was produced.
pub trait VoiceRecognizer {
    /// Whether `text` is an answer that this recognizer may give for `data`.
    /// Each recognizer may say so for itself; one that does not promises
    /// nothing.
    open spec fn answers(&self, data: Seq<u8>, text: Option<Seq<char>>) -> bool {
        true
    }

    fn execute(&self, data: Vec<u8>) -> (text: Option<String>)
        ensures
            self.answers(data@, text_view(text)),
    ;
}

/// An optional text as contracts see it.
pub open spec fn text_view(text: Option<String>) -> Option<Seq<char>> {
    match text {
        Some(t) => Some(t@),
        None => None,
    }
}

/// The recognizer backed by Google's speech service.
pub struct GoogleSpeechRecognizer;

/// One transcript the service proposes.
#[derive(Debug, PartialEq, Eq)]
pub struct GoogleSpeechAlternative {
    pub transcript: String,
    /// How sure the service is, as a rank: of two alternatives the one with
    /// the larger number is the more confident.
    pub confidence: u32,
}

/// The alternatives for one stretch of audio.
#[derive(Debug, PartialEq, Eq)]
pub struct GoogleSpeechResult {
    pub alternatives: Vec<GoogleSpeechAlternative>,
}

/// A successful answer of the service.
#[derive(Debug, PartialEq, Eq)]
pub struct GoogleSpeechSuccessResponse {
    pub results: Vec<GoogleSpeechResult>,
}

/// The index of the most confident alternative, the last one among equals.
pub open spec fn last_best(alternatives: Seq<GoogleSpeechAlternative>) -> int
    decreases alternatives.len(),
{
    if alternatives.len() <= 1 {
        0
    } else {
        let earlier = last_best(alternatives.drop_last());
        if alternatives.last().confidence >= alternatives[earlier].confidence {
            alternatives.len() - 1
        } else {
            earlier
        }
    }
}

/// `last_best` names an alternative that none exceeds and that every later
/// one falls short of.
pub proof fn lemma_last_best(alternatives: Seq<GoogleSpeechAlternative>)
    requires
        alternatives.len() > 0,
    ensures
        0 <= last_best(alternatives) < alternatives.len(),
        forall|j: int|
            0 <= j < alternatives.len() ==> (#[trigger] alternatives[j]).confidence
                <= alternatives[last_best(alternatives)].confidence,
        forall|j: int|
            last_best(alternatives) < j < alternatives.len() ==> (
            #[trigger] alternatives[j]).confidence
                < alternatives[last_best(alternatives)].confidence,
    decreases alternatives.len(),
{
    if alternatives.len() > 1 {
        let shorter = alternatives.drop_last();
        lemma_last_best(shorter);
        let earlier = last_best(shorter);
        assert(shorter[earlier] == alternatives[earlier]);
        assert forall|j: int| 0 <= j < alternatives.len() implies (
        #[trigger] alternatives[j]).confidence
            <= alternatives[last_best(alternatives)].confidence by {
            if j < shorter.len() {
                assert(shorter[j] == alternatives[j]);
            }
        }
        assert forall|j: int| last_best(alternatives) < j < alternatives.len() implies (
        #[trigger] alternatives[j]).confidence
            < alternatives[last_best(alternatives)].confidence by {
            if j < shorter.len() {
                assert(shorter[j] == alternatives[j]);
            }
        }
    }
}

/// The text of base64, standard alphabet, without padding, of `data`.
pub uninterp spec fn base64_text(data: Seq<u8>) -> Seq<char>;

/// Whether `len` bytes are few enough for the length of their base64 text to
/// be computed in a `usize`.
pub open spec fn encodable_len(len: nat) -> bool {
    len / 3 * 4 + 3 <= usize::MAX
}

/// `base64::Engine::encode` on `STANDARD_NO_PAD`. The text it returns depends
/// on the bytes alone and is named `base64_text`; inputs whose encoded length
/// would not fit a `usize`, on which it panics, are left out.
#[verifier::external_body]
fn base64_no_pad(data: &Vec<u8>) -> (text: String)
    requires
        encodable_len(data@.len()),
    ensures
        text@ == base64_text(data@),
{
    base64::engine::general_purpose::STANDARD_NO_PAD.encode(data)
}

/// The request's text around the encoded audio: what comes before it.
pub open spec fn request_head() -> Seq<char> {
    "{\"audio\":{\"content\":\""@
}

/// The request's text around the encoded audio: what comes after it, the
/// description of the audio included.
pub open spec fn request_tail() -> Seq<char> {
    "\"},\"config\":{\"audioChannelCount\":1,\"languageCode\":\"pt-BR\",\"sampleRateHertz\":44100}}"@
}

/// The request for the audio whose base64 text is `encoded`.
pub open spec fn request_text(encoded: Seq<char>) -> Seq<char> {
    request_head() + encoded + request_tail()
}

/// Puts the encoded audio into the request's text.
pub fn frame_request(encoded: &str) -> (body: String)
    ensures
        body@ == request_text(encoded@),
{
    let mut body = String::from_str("{\"audio\":{\"content\":\"");
    body.append(encoded);
    body.append(
        "\"},\"config\":{\"audioChannelCount\":1,\"languageCode\":\"pt-BR\",\"sampleRateHertz\":44100}}",
    );
    body
}

impl GoogleSpeechSuccessResponse {
    /// The alternative that `get_best_alternative` picks: of the first
    /// result, the most confident, the last one among equals.
    pub open spec fn best_alternative(&self) -> Option<GoogleSpeechAlternative> {
        if self.results@.len() == 0 || self.results@[0].alternatives@.len() == 0 {
            None
        } else {
            let alternatives = self.results@[0].alternatives@;
            Some(alternatives[last_best(alternatives)])
        }
    }

    /// The most confident alternative of the first result, if there is one:
    /// none of that result exceeds it.
    pub fn get_best_alternative(&self) -> (best: Option<&GoogleSpeechAlternative>)
        ensures
            match best {
                Some(alternative) => {
                    &&& self.best_alternative() == Some(*alternative)
                    &&& forall|j: int|
                        0 <= j < self.results@[0].alternatives@.len() ==> (
                        #[trigger] self.results@[0].alternatives@[j]).confidence
                            <= alternative.confidence
                },
                None => self.best_alternative() is None,
            },
    {
        if self.results.len() == 0 {
            return None;
        }
        let alternatives = &self.results[0].alternatives;
        if alternatives.len() == 0 {
            return None;
        }
        let mut best: usize = 0;
        let mut i: usize = 1;
        assert(alternatives@.take(1).len() == 1);
        while i < alternatives.len()
            invariant
                1 <= i <= alternatives.len(),
                0 <= best < i,
                best == last_best(alternatives@.take(i as int)),
            decreases alternatives.len() - i,
        {
            proof {
                let next = alternatives@.take(i + 1);
                assert(next.drop_last() =~= alternatives@.take(i as int));
                assert(next.last() == alternatives@[i as int]);
                assert(next[best as int] == alternatives@[best as int]);
            }
            if alternatives[i].confidence >= alternatives[best].confidence {
                best = i;
            }
            i += 1;
        }
        proof {
            assert(alternatives@.take(i as int) =~= alternatives@);
            lemma_last_best(alternatives@);
        }
        Some(&alternatives[best])
    }
}

/// The transcript that an answer of the service stands for: that of its best
/// alternative; none where the answer is no success or proposes nothing.
pub open spec fn transcript_of(response: Result<GoogleSpeechSuccessResponse, ()>) -> Option<
    Seq<char>,
> {
    match response {
        Ok(success) => match success.best_alternative() {
            Some(alternative) => Some(alternative.transcript@),
            None => None,
        },
        Err(_) => None,
    }
}

impl GoogleSpeechRecognizer {
    /// The body of the request that asks for a transcript of `audio`, or
    /// `None` where `audio` is too long to be encoded.
    pub fn request_body(&self, audio: &Vec<u8>) -> (body: Option<String>)
        ensures
            match body {
                Some(text) => encodable_len(audio@.len()) && text@ == request_text(
                    base64_text(audio@),
                ),
                None => !encodable_len(audio@.len()),
            },
    {
        if audio.len() / 3 > (usize::MAX - 3) / 4 {
            return None;
        }
        let encoded = base64_no_pad(audio);
        Some(frame_request(encoded.as_str()))
    }

    /// Reads the transcript out of an answer of the service.
    pub fn transcription(&self, response: &Result<GoogleSpeechSuccessResponse, ()>) -> (text:
        Option<String>)
        ensures
            match text {
                Some(transcript) => transcript_of(*response) == Some(transcript@),
                None => transcript_of(*response) is None,
            },
    {
        match response {
            Ok(success) => match success.get_best_alternative() {
                Some(alternative) => Some(alternative.transcript.clone()),
                None => None,
            },
            Err(_) => None,
        }
    }
}

} // verus!
