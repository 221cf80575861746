//! The copy-loop discipline and the stream-identity law at work.

use chappy::relay::{
    chunk_stream, relay_source, relay_step, ReadEvent, RelayAction, RelayOutcome, READ_CHUNK,
};

fn pattern(len: usize) -> Vec<u8> {
    (0..len).map(|v| (v % 255) as u8).collect()
}

#[test]
fn data_is_written_whole_and_flushed() {
    let step = relay_step(ReadEvent::Data(vec![1, 2, 3, 4]));
    assert_eq!(step.outcome, RelayOutcome::Continue);
    assert_eq!(step.actions.len(), 2);
    match &step.actions[0] {
        RelayAction::Write(bytes) => assert_eq!(bytes, &vec![1, 2, 3, 4]),
        other => panic!("expected a write, got {:?}", action_name(other)),
    }
    assert!(matches!(step.actions[1], RelayAction::Flush));
}

fn action_name(a: &RelayAction) -> &'static str {
    match a {
        RelayAction::Write(_) => "write",
        RelayAction::Flush => "flush",
        RelayAction::FinishWriter => "finish",
    }
}

#[test]
fn end_of_stream_half_closes() {
    let step = relay_step(ReadEvent::Eof);
    assert_eq!(step.outcome, RelayOutcome::DoneClean);
    assert_eq!(step.actions.len(), 1);
    assert!(matches!(step.actions[0], RelayAction::FinishWriter));

    let step = relay_step(ReadEvent::Data(Vec::new()));
    assert_eq!(step.outcome, RelayOutcome::DoneClean);
    assert!(matches!(step.actions[0], RelayAction::FinishWriter));
}

#[test]
fn quiet_disconnect_is_not_a_failure() {
    let step = relay_step(ReadEvent::NotConnected);
    assert_eq!(step.outcome, RelayOutcome::DoneQuiet);
    assert!(step.actions.is_empty());
}

#[test]
fn other_errors_abort_the_direction() {
    // a target dropped mid-stream: the next read fails and the
    // direction aborts
    let step = relay_step(ReadEvent::Failed);
    assert_eq!(step.outcome, RelayOutcome::DoneFailed);
    assert!(step.actions.is_empty());
}

#[test]
fn stream_reproduces_exactly_small_and_large() {
    // small, large, small: the sizes that shake out flushing trouble
    for len in [4usize, 10000, 4] {
        let data = pattern(len);
        let chunks = chunk_stream(&data, READ_CHUNK);
        let out = relay_source(chunks);
        assert_eq!(out, data);
    }
}

#[test]
fn stream_reproduces_exactly_at_chunk_boundaries() {
    for len in [0usize, 1, 4095, 4096, 4097, 8192, 12288] {
        let data = pattern(len);
        let chunks = chunk_stream(&data, READ_CHUNK);
        for c in &chunks {
            assert!(!c.is_empty() && c.len() <= READ_CHUNK);
        }
        let out = relay_source(chunks);
        assert_eq!(out, data);
    }
}

#[test]
fn mixed_targets_each_reproduce() {
    // twenty targets, sixty writes of pseudo-random sizes up to 12 KiB,
    // interleaved; every target's stream must come out whole and in order
    let nb_targets = 20usize;
    let mut seed: u64 = 1;
    let mut rand = move || {
        seed = seed.wrapping_mul(6364136223846793005).wrapping_add(1442695040888963407);
        (seed >> 33) as usize
    };
    let mut inputs: Vec<Vec<u8>> = vec![Vec::new(); nb_targets];
    let mut writes: Vec<(usize, Vec<u8>)> = Vec::new();
    for i in 0..(3 * nb_targets) {
        let target = rand() % nb_targets;
        let len = rand() % 12000;
        let data: Vec<u8> = (0..len).map(|v| ((v + i) % 255) as u8).collect();
        inputs[target].extend_from_slice(&data);
        writes.push((target, data));
    }
    // interleaved delivery: each write arrives as its own chunk burst
    let mut outputs: Vec<Vec<u8>> = vec![Vec::new(); nb_targets];
    for (target, data) in writes {
        let chunks = chunk_stream(&data, READ_CHUNK);
        let out = relay_source(chunks);
        outputs[target].extend_from_slice(&out);
    }
    for t in 0..nb_targets {
        assert_eq!(outputs[t], inputs[t], "target {} must echo exactly", t);
    }
}

#[test]
fn echo_comes_back_untouched() {
    // out through one direction, back through the other, each with its
    // own chunking: the application sees its own bytes again
    for len in [4usize, 10000, 4] {
        let data = pattern(len);
        let outbound = relay_source(chunk_stream(&data, READ_CHUNK));
        let echoed = relay_source(chunk_stream(&outbound, 1024));
        assert_eq!(echoed, data);
    }
}
