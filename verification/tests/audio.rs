use oscilloscope::audio::{should_shutdown, thread_start, AudioMsg};
use std::sync::mpsc::sync_channel;

#[test]
fn only_shutdown_stops_the_loop() {
    assert!(should_shutdown(AudioMsg::Shutdown));
    assert!(!should_shutdown(AudioMsg::Pause));
    assert!(!should_shutdown(AudioMsg::Unpause));
}

#[test]
fn thread_start_returns_on_shutdown() {
    let (to_audio, audio_rx) = sync_channel::<AudioMsg>(8);
    let (audio_tx, _from_audio) = sync_channel::<AudioMsg>(8);
    // messages without a handler are ignored; Shutdown ends the loop
    to_audio.send(AudioMsg::Pause).unwrap();
    to_audio.send(AudioMsg::Unpause).unwrap();
    to_audio.send(AudioMsg::Shutdown).unwrap();
    thread_start(audio_tx, audio_rx);
}
