use skmotion::capture::{capture_rest, capture_step, CaptureRest, CaptureStep, Grabbed};
use skmotion::control::{ends_control, parse_command, Command, Flags};
use skmotion::encode::Saver;
use skmotion::filter::{Filter, Verdict};
use skmotion::pool::{Polled, Pool};
use skmotion::timing::{has_packet_time, packet_time, Timing};

#[test]
fn pool_hands_out_the_last_item_first() {
    let mut pool: Pool<u32> = Pool::new();
    assert!(pool.is_empty());
    assert_eq!(pool.pop(), None);
    pool.push(1);
    pool.push(2);
    pool.push(3);
    assert_eq!(pool.len(), 3);
    assert_eq!(pool.pop(), Some(3));
    pool.push(4);
    assert_eq!(pool.pop(), Some(4));
    assert_eq!(pool.pop(), Some(2));
    assert_eq!(pool.pop(), Some(1));
    assert_eq!(pool.pop(), None);
    assert!(pool.is_empty());
}

#[test]
fn an_empty_pool_waits_until_stop() {
    let mut pool: Pool<u8> = Pool::new();
    assert!(matches!(pool.poll(false), Polled::Idle));
    assert!(matches!(pool.poll(true), Polled::Drained));
    assert!(pool.is_empty());
}

#[test]
fn a_pool_is_emptied_after_stop() {
    let mut pool: Pool<Vec<u8>> = Pool::new();
    pool.push(vec![1]);
    pool.push(vec![2]);
    let mut taken = Vec::new();
    loop {
        match pool.poll(true) {
            Polled::Item(frame) => taken.push(frame),
            Polled::Idle => panic!("a stopped stage does not wait"),
            Polled::Drained => break,
        }
    }
    assert_eq!(taken, vec![vec![2u8], vec![1u8]]);
}

#[test]
fn commands_are_read_from_lines() {
    assert_eq!(parse_command("like"), Some(Command::Like));
    assert_eq!(parse_command("saved"), Some(Command::Saved));
    assert_eq!(parse_command("skipped"), Some(Command::Skipped));
    assert_eq!(parse_command("pause"), Some(Command::Pause));
    assert_eq!(parse_command("continue"), Some(Command::Continue));
    assert_eq!(parse_command("stop"), Some(Command::Stop));
}

#[test]
fn white_space_around_a_command_is_set_aside() {
    assert_eq!(parse_command("  stop \r\n"), Some(Command::Stop));
    assert_eq!(parse_command("\tpause"), Some(Command::Pause));
    assert_eq!(parse_command("continue\n"), Some(Command::Continue));
    assert_eq!(parse_command("\u{a0}saved\u{3000}"), Some(Command::Saved));
}

#[test]
fn other_lines_hold_no_command() {
    assert_eq!(parse_command(""), None);
    assert_eq!(parse_command("   "), None);
    assert_eq!(parse_command("Stop"), None);
    assert_eq!(parse_command("st op"), None);
    assert_eq!(parse_command("stop now"), None);
    assert_eq!(parse_command("\u{200b}stop"), None);
}

#[test]
fn commands_steer_the_flags() {
    let mut flags = Flags::new();
    assert_eq!(flags, Flags { pause: false, stop: false });
    flags.apply(Command::Saved);
    flags.apply(Command::Skipped);
    flags.apply(Command::Like);
    assert_eq!(flags, Flags { pause: false, stop: false });
    flags.apply(Command::Pause);
    assert_eq!(flags, Flags { pause: true, stop: false });
    flags.apply(Command::Pause);
    assert_eq!(flags, Flags { pause: true, stop: false });
    flags.apply(Command::Continue);
    assert_eq!(flags, Flags { pause: false, stop: false });
    flags.apply(Command::Pause);
    flags.apply(Command::Stop);
    assert_eq!(flags, Flags { pause: true, stop: true });
    flags.apply(Command::Continue);
    assert_eq!(flags, Flags { pause: false, stop: true });
}

#[test]
fn only_stop_ends_the_control_surface() {
    assert!(ends_control(Command::Stop));
    for command in [
        Command::Like,
        Command::Saved,
        Command::Skipped,
        Command::Pause,
        Command::Continue,
    ] {
        assert!(!ends_control(command));
    }
}

#[test]
fn cadence_of_common_rates() {
    assert!(Timing::new(0).is_none());
    let timing = Timing::new(30).unwrap();
    assert_eq!(timing.capture_interval(), 33_333_333);
    assert_eq!(timing.multiplier(), 3);
    let slow = Timing::new(5).unwrap();
    assert_eq!(slow.capture_interval(), 200_000_000);
    assert_eq!(slow.multiplier(), 1);
    let one = Timing::new(1).unwrap();
    assert_eq!(one.capture_interval(), 1_000_000_000);
    assert_eq!(one.multiplier(), 1);
    let fast = Timing::new(2_000_000_000).unwrap();
    assert_eq!(fast.capture_interval(), 0);
    assert_eq!(fast.multiplier(), 200_000_000);
}

#[test]
fn presentation_time_goes_by_the_frames_saved() {
    let timing = Timing::new(30).unwrap();
    assert_eq!(timing.frame_time(0), 0);
    assert_eq!(timing.frame_time(1), 99);
    assert_eq!(timing.frame_time(2), 199);
    assert_eq!(timing.frame_time(10), 999);
    assert_eq!(timing.frame_time(1000), 99_999);
    let slow = Timing::new(5).unwrap();
    assert_eq!(slow.frame_time(7), 1400);
}

#[test]
fn presentation_time_has_a_last_frame() {
    let timing = Timing::new(1).unwrap();
    assert!(timing.has_frame_time(0));
    assert!(timing.has_frame_time(18_446_744_073));
    assert!(!timing.has_frame_time(18_446_744_074));
    assert!(!timing.has_frame_time(u64::MAX));
    assert_eq!(timing.frame_time(18_446_744_073), 18_446_744_073_000);
}

#[test]
fn packet_times_that_can_be_stored() {
    assert!(has_packet_time(0));
    assert!(has_packet_time(18_446_744_073_709));
    assert!(!has_packet_time(18_446_744_073_710));
    assert!(!has_packet_time(-1));
    assert!(!has_packet_time(i64::MIN));
    assert!(!has_packet_time(i64::MAX));
    assert_eq!(packet_time(18_446_744_073_709), 18_446_744_073_709_000_000);
}

#[test]
fn packet_times_are_stored_in_nanoseconds() {
    assert_eq!(packet_time(0), 0);
    assert_eq!(packet_time(5), 5_000_000);
    assert_eq!(packet_time(99_999), 99_999_000_000);
}

#[test]
fn capture_ends_on_stop() {
    assert_eq!(capture_step(true, false, None, 0), CaptureStep::Finish);
    assert_eq!(capture_step(true, true, None, 0), CaptureStep::Finish);
    assert_eq!(capture_step(true, true, Some(10), 1), CaptureStep::Finish);
}

#[test]
fn capture_pulls_nothing_while_paused() {
    let mut filter = Filter::new(0);
    let mut pool: Pool<Vec<u8>> = Pool::new();
    let mut flags = Flags::new();
    flags.apply(parse_command("pause").unwrap());
    let mut pulled = 0;
    for cycle in 0..20u128 {
        match capture_step(flags.stop, flags.pause, Some(1), cycle * 1_000_000_000) {
            CaptureStep::Grab => {
                pulled += 1;
                pool.push(vec![0u8; 4]);
            }
            CaptureStep::Idle => {}
            CaptureStep::Finish => panic!("a paused session does not end by itself"),
        }
    }
    assert_eq!(pulled, 0);
    assert!(pool.is_empty());
    assert_eq!(filter.forwarded(), 0);
    assert_eq!(filter.skipped(), 0);
    flags.apply(parse_command("continue").unwrap());
    assert_eq!(capture_step(flags.stop, flags.pause, None, 0), CaptureStep::Grab);
    pool.push(vec![0u8; 4]);
    let frame = pool.pop().unwrap();
    assert_eq!(filter.check(&frame, 0), Verdict::Accept);
    assert_eq!(filter.forwarded(), 1);
}

#[test]
fn capture_ends_when_the_session_has_lasted_too_long() {
    assert_eq!(capture_step(false, false, Some(2), 1_999_999_999), CaptureStep::Grab);
    assert_eq!(capture_step(false, false, Some(2), 2_000_000_000), CaptureStep::Grab);
    assert_eq!(capture_step(false, false, Some(2), 2_000_000_001), CaptureStep::Finish);
    assert_eq!(capture_step(false, false, Some(0), 0), CaptureStep::Grab);
    assert_eq!(capture_step(false, false, Some(0), 1), CaptureStep::Finish);
    assert_eq!(capture_step(false, false, None, u128::MAX), CaptureStep::Grab);
    assert_eq!(
        capture_step(false, false, Some(u64::MAX), 18_446_744_073_709_551_615_000_000_000),
        CaptureStep::Grab
    );
    assert_eq!(
        capture_step(false, false, Some(u64::MAX), 18_446_744_073_709_551_615_000_000_001),
        CaptureStep::Finish
    );
}

#[test]
fn capture_rests_for_what_is_left_of_the_cycle() {
    assert_eq!(capture_rest(Grabbed::Frame, 1000, 0), CaptureRest::Rest(1000));
    assert_eq!(capture_rest(Grabbed::Frame, 1000, 400), CaptureRest::Rest(600));
    assert_eq!(capture_rest(Grabbed::Frame, 1000, 999), CaptureRest::Rest(1));
    assert_eq!(capture_rest(Grabbed::Frame, 1000, 1000), CaptureRest::Rest(0));
    assert_eq!(capture_rest(Grabbed::Frame, 1000, u128::MAX), CaptureRest::Rest(0));
    assert_eq!(capture_rest(Grabbed::NotReady, 1000, 10), CaptureRest::Retry);
    assert_eq!(capture_rest(Grabbed::Failed, 1000, 10), CaptureRest::Abort);
}

#[test]
fn saver_prepares_and_counts_frames() {
    let timing = Timing::new(30).unwrap();
    let mut saver = Saver::new(2, 2, timing);
    assert_eq!(saver.frames_saved(), 0);
    assert!(saver.yuv().is_empty());
    let frame = vec![255u8; 16];
    assert!(saver.can_prepare(&frame));
    assert_eq!(saver.prepare(&frame), 0);
    assert_eq!(saver.yuv(), &vec![235u8, 235, 235, 235, 128, 128]);
    assert_eq!(saver.frames_saved(), 0);
    saver.commit();
    assert_eq!(saver.frames_saved(), 1);
    let dark = vec![0u8; 16];
    assert_eq!(saver.prepare(&dark), 99);
    assert_eq!(saver.yuv(), &vec![16u8, 16, 16, 16, 128, 128]);
    saver.commit();
    assert_eq!(saver.frames_saved(), 2);
    assert_eq!(saver.prepare(&dark), 199);
}

#[test]
fn saver_refuses_frames_that_do_not_fit() {
    let mut saver = Saver::new(2, 2, Timing::new(30).unwrap());
    assert!(saver.can_commit());
    assert!(!saver.can_prepare(&[0u8; 15]));
    assert!(saver.can_prepare(&[0u8; 16]));
    assert!(saver.can_prepare(&[0u8; 40]));
    assert!(!saver.can_prepare(&[]));
    saver.commit();
    assert!(saver.can_prepare(&[0u8; 16]));
    let flat = Saver::new(2, 0, Timing::new(30).unwrap());
    assert!(!flat.can_prepare(&[0u8; 16]));
}

#[test]
fn frames_queued_before_stop_are_still_saved() {
    let mut to_check: Pool<Vec<u8>> = Pool::new();
    let mut to_save: Pool<Vec<u8>> = Pool::new();
    let mut filter = Filter::new(0);
    let mut saver = Saver::new(1, 1, Timing::new(10).unwrap());
    let mut flags = Flags::new();
    for value in 0..4u8 {
        assert_eq!(capture_step(flags.stop, flags.pause, None, 0), CaptureStep::Grab);
        to_check.push(vec![value; 4]);
    }
    flags.apply(Command::Stop);
    assert_eq!(capture_step(flags.stop, flags.pause, None, 0), CaptureStep::Finish);
    loop {
        match to_check.poll(flags.stop) {
            Polled::Item(frame) => {
                if filter.check(&frame, 0) == Verdict::Accept {
                    to_save.push(frame);
                }
            }
            Polled::Idle => panic!("a stopped stage does not wait"),
            Polled::Drained => break,
        }
    }
    let mut times = Vec::new();
    loop {
        match to_save.poll(flags.stop) {
            Polled::Item(frame) => {
                assert!(saver.can_prepare(&frame));
                times.push(saver.prepare(&frame));
                saver.commit();
            }
            Polled::Idle => panic!("a stopped stage does not wait"),
            Polled::Drained => break,
        }
    }
    assert_eq!(filter.forwarded(), 4);
    assert_eq!(saver.frames_saved(), 4);
    assert_eq!(saver.frames_saved() + filter.skipped(), 4);
    assert_eq!(times, vec![0, 100, 200, 300]);
}
