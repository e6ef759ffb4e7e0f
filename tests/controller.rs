use condenser::{Action, BlockMode, Controller, Ramp, State, Store};

/// Runs the trigger over one block with a fixed trigger decision, capturing into
/// `store` with the fade curve `curve`, the way the processing engine does.
fn gate_block(c: &mut Controller, store: &mut Store<f32>, block: &[f32], curve: &[f32], above: bool) {
    let mut idx = 0;
    while idx < block.len() {
        match c.step(block.len() - idx, above) {
            Action::Halt => break,
            Action::Settle => {}
            Action::Capture { ramp, span } => {
                let data: Vec<f32> = (0..span)
                    .map(|k| match ramp.curve_index(c.fade_len(), k) {
                        Some(i) => block[idx + k] * curve[i],
                        None => block[idx + k],
                    })
                    .collect();
                store.write(&data);
                idx += span;
            }
        }
    }
}

#[test]
fn loop_mode_playback() {
    let mut c = Controller::new(1, 0, true);
    let mut s: Store<f32> = Store::new(20, 0.0);
    s.preload(&[1.0, 2.0, 3.0]);
    assert_eq!(c.begin_block(4), BlockMode::Playback);
    assert_eq!(s.read(4), vec![1.0, 2.0, 3.0, 1.0]);
    assert_eq!(c.processed_frames(), 0);
}

#[test]
fn record_and_fade() {
    // 10 Hz, 300 ms fades: three-frame fade curve; 10 s of capacity.
    let curve = [0.0f32, 1.0, 0.0];
    let mut c = Controller::new(3, 0, false);
    let mut s: Store<f32> = Store::new(100, 0.0);

    let blk1 = [1.0f32; 3];
    assert_eq!(c.begin_block(3), BlockMode::Gate);
    gate_block(&mut c, &mut s, &blk1, &curve, true);
    assert_eq!(s.get_recorded(), vec![0.0, 1.0, 0.0]);
    assert_eq!(c.state(), State::Record);

    let blk2 = [0.0f32; 3];
    assert_eq!(c.begin_block(3), BlockMode::Gate);
    gate_block(&mut c, &mut s, &blk2, &curve, false);
    assert_eq!(s.get_recorded(), vec![0.0, 1.0, 0.0, 0.0, 0.0, 0.0]);
    assert_eq!(c.state(), State::Idle);
}

#[test]
fn warmup_skip() {
    // 10 Hz: 0.2 s of warmup is two frames; a 3 ms fade rounds up to one frame.
    let curve = [1.0f32];
    let mut c = Controller::new(0, 2, false);
    let mut s: Store<f32> = Store::new(100, 0.0);

    let pre = [1.0f32, 1.0];
    if c.begin_block(2) == BlockMode::Gate {
        gate_block(&mut c, &mut s, &pre, &curve, true);
    }
    assert_eq!(s.recorded_frames(), 0);

    let post = [1.0f32, 1.0];
    if c.begin_block(2) == BlockMode::Gate {
        gate_block(&mut c, &mut s, &post, &curve, true);
    }
    assert!(s.recorded_frames() > 0);
}

#[test]
fn fade_length_is_at_least_one_frame() {
    assert_eq!(Controller::new(0, 0, false).fade_len(), 1);
    assert_eq!(Controller::new(7, 0, false).fade_len(), 7);
}

#[test]
fn gate_opens_with_rising_ramp() {
    let mut c = Controller::new(4, 0, false);
    assert_eq!(c.begin_block(3), BlockMode::Gate);
    assert_eq!(c.step(3, false), Action::Halt);
    assert_eq!(c.state(), State::Idle);
    assert_eq!(c.step(3, true), Action::Capture { ramp: Ramp::Up(0), span: 3 });
    assert_eq!(c.state(), State::FadeIn);
    assert_eq!(c.fade_pos(), 3);
    // The rising edge does not look at the trigger.
    assert_eq!(c.step(5, false), Action::Capture { ramp: Ramp::Up(3), span: 1 });
    assert_eq!(c.state(), State::Record);
    assert_eq!(c.step(4, true), Action::Capture { ramp: Ramp::Unity, span: 4 });
    assert_eq!(c.state(), State::Record);
}

#[test]
fn gate_closes_through_full_fade_out() {
    let mut c = Controller::new(5, 0, false);
    assert_eq!(c.begin_block(5), BlockMode::Gate);
    assert_eq!(c.step(5, true), Action::Capture { ramp: Ramp::Up(0), span: 5 });
    assert_eq!(c.state(), State::Record);
    assert_eq!(c.step(2, false), Action::Settle);
    assert_eq!(c.state(), State::FadeOut);
    assert_eq!(c.fade_pos(), 0);
    assert_eq!(c.step(2, false), Action::Capture { ramp: Ramp::Down(0), span: 2 });
    assert_eq!(c.state(), State::FadeOut);
    assert_eq!(c.step(9, true), Action::Capture { ramp: Ramp::Down(2), span: 3 });
    assert_eq!(c.state(), State::Idle);
    assert_eq!(c.fade_pos(), 5);
}

#[test]
fn curve_indices_of_ramps() {
    assert_eq!(Ramp::Up(2).curve_index(5, 1), Some(3));
    assert_eq!(Ramp::Down(0).curve_index(5, 0), Some(4));
    assert_eq!(Ramp::Down(2).curve_index(5, 2), Some(0));
    assert_eq!(Ramp::Unity.curve_index(5, 9), None);
}

#[test]
fn warmup_counts_frames_then_gates() {
    let mut c = Controller::new(2, 5, false);
    assert_eq!(c.begin_block(3), BlockMode::Warmup);
    assert_eq!(c.processed_frames(), 3);
    assert_eq!(c.begin_block(3), BlockMode::Warmup);
    assert_eq!(c.processed_frames(), 6);
    assert_eq!(c.begin_block(3), BlockMode::Gate);
    assert_eq!(c.processed_frames(), 9);
}

#[test]
fn frame_count_saturates() {
    let mut c = Controller::new(1, 0, false);
    c.begin_block(usize::MAX - 1);
    c.begin_block(5);
    assert_eq!(c.processed_frames(), usize::MAX);
}

#[test]
fn setters_update_configuration() {
    let mut c = Controller::new(6, 0, false);
    c.begin_block(4);
    c.step(4, true);
    assert_eq!(c.fade_pos(), 4);
    c.set_fade_frames(3);
    assert_eq!(c.fade_len(), 3);
    assert_eq!(c.fade_pos(), 2);
    assert_eq!(c.step(9, true), Action::Capture { ramp: Ramp::Up(2), span: 1 });
    assert_eq!(c.state(), State::Record);
    c.set_warmup_frames(100);
    assert_eq!(c.begin_block(1), BlockMode::Warmup);
    c.set_loop_mode(true);
    assert!(c.loop_mode());
    assert_eq!(c.begin_block(1), BlockMode::Playback);
}

#[test]
fn nothing_captured_outside_a_triggering_block() {
    let mut c = Controller::new(2, 4, false);
    assert_eq!(c.step(3, true), Action::Halt);
    assert_eq!(c.begin_block(3), BlockMode::Warmup);
    assert_eq!(c.step(3, true), Action::Halt);
    assert_eq!(c.state(), State::Idle);
    assert_eq!(c.begin_block(3), BlockMode::Warmup);
    assert_eq!(c.begin_block(3), BlockMode::Gate);
    assert_eq!(c.step(3, true), Action::Capture { ramp: Ramp::Up(0), span: 2 });
    c.set_loop_mode(true);
    assert_eq!(c.begin_block(1), BlockMode::Playback);
    assert_eq!(c.step(1, true), Action::Halt);
    assert_eq!(c.state(), State::Record);
}

#[test]
fn reset_returns_to_idle() {
    let mut c = Controller::new(4, 2, false);
    c.begin_block(3);
    c.begin_block(3);
    c.step(3, true);
    assert_eq!(c.state(), State::FadeIn);
    c.reset();
    assert_eq!(c.state(), State::Idle);
    assert_eq!(c.processed_frames(), 0);
    assert_eq!(c.fade_len(), 4);
    assert_eq!(c.begin_block(1), BlockMode::Warmup);
}
