use voice_session::recognize::{
    frame_request, GoogleSpeechAlternative, GoogleSpeechRecognizer, GoogleSpeechResult,
    GoogleSpeechSuccessResponse,
};

fn alternative(transcript: &str, confidence: u32) -> GoogleSpeechAlternative {
    GoogleSpeechAlternative { transcript: String::from(transcript), confidence }
}

fn response(groups: Vec<Vec<GoogleSpeechAlternative>>) -> GoogleSpeechSuccessResponse {
    GoogleSpeechSuccessResponse {
        results: groups.into_iter().map(|alternatives| GoogleSpeechResult { alternatives }).collect(),
    }
}

#[test]
fn best_alternative_is_the_most_confident() {
    let answer = response(vec![vec![
        alternative("ola", 10),
        alternative("olá", 90),
        alternative("hola", 50),
    ]]);
    assert_eq!(answer.get_best_alternative(), Some(&alternative("olá", 90)));
}

#[test]
fn best_alternative_among_equals_is_the_last() {
    let answer = response(vec![vec![
        alternative("first", 7),
        alternative("second", 3),
        alternative("third", 7),
    ]]);
    assert_eq!(answer.get_best_alternative(), Some(&alternative("third", 7)));
}

#[test]
fn best_alternative_looks_at_the_first_result_only() {
    let answer = response(vec![vec![alternative("near", 1)], vec![alternative("far", 99)]]);
    assert_eq!(answer.get_best_alternative(), Some(&alternative("near", 1)));
}

#[test]
fn best_alternative_of_nothing_is_none() {
    assert_eq!(response(vec![]).get_best_alternative(), None);
    assert_eq!(response(vec![vec![]]).get_best_alternative(), None);
    assert_eq!(
        response(vec![vec![], vec![alternative("late", 5)]]).get_best_alternative(),
        None
    );
}

#[test]
fn transcription_reads_the_best_transcript() {
    let recognizer = GoogleSpeechRecognizer;
    let answer = response(vec![vec![alternative("bom dia", 2), alternative("bom", 1)]]);
    assert_eq!(recognizer.transcription(&Ok(answer)), Some(String::from("bom dia")));
}

#[test]
fn transcription_of_failure_or_empty_answer_is_none() {
    let recognizer = GoogleSpeechRecognizer;
    assert_eq!(recognizer.transcription(&Err(())), None);
    assert_eq!(recognizer.transcription(&Ok(response(vec![]))), None);
    assert_eq!(recognizer.transcription(&Ok(response(vec![vec![]]))), None);
}

#[test]
fn request_body_carries_unpadded_base64() {
    let recognizer = GoogleSpeechRecognizer;
    let body = recognizer.request_body(&b"hello".to_vec()).unwrap();
    assert_eq!(
        body,
        "{\"audio\":{\"content\":\"aGVsbG8\"},\"config\":{\"audioChannelCount\":1,\"languageCode\":\"pt-BR\",\"sampleRateHertz\":44100}}"
    );
}

#[test]
fn request_body_of_no_audio() {
    let recognizer = GoogleSpeechRecognizer;
    let body = recognizer.request_body(&vec![]).unwrap();
    assert_eq!(body, frame_request(""));
}

#[test]
fn request_body_uses_the_standard_alphabet() {
    let recognizer = GoogleSpeechRecognizer;
    let body = recognizer.request_body(&vec![0xfb, 0xff, 0xfe]).unwrap();
    assert_eq!(body, frame_request("+//+"));
    let body = recognizer.request_body(&vec![0xff]).unwrap();
    assert_eq!(body, frame_request("/w"));
}

#[test]
fn request_body_is_valid_json() {
    let recognizer = GoogleSpeechRecognizer;
    let body = recognizer.request_body(&vec![1, 2, 3, 4]).unwrap();
    let value: serde_json::Value = serde_json::from_str(&body).unwrap();
    assert_eq!(value["audio"]["content"].as_str(), Some("AQIDBA"));
    assert_eq!(value["config"]["sampleRateHertz"].as_u64(), Some(44100));
    assert_eq!(value["config"]["audioChannelCount"].as_u64(), Some(1));
    assert_eq!(value["config"]["languageCode"].as_str(), Some("pt-BR"));
}
