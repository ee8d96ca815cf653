use embedded_hal::delay::DelayNs;
use embedded_hal::digital::{InputPin, OutputPin};
use embedded_hal::spi::SpiDevice;
use embedded_hal_mock::eh1::{delay::NoopDelay, digital, spi};
use epd7in5_v2::geometry::{is_full_frame, region_fits};
use epd7in5_v2::{
    buffer_len, Action, Color, Command, Epd7in5, Event, Operation, Plan, RefreshLut, RefreshMode,
    DEFAULT_BACKGROUND_COLOR, HEIGHT, WIDTH,
};

const FRAME: usize = 48_000;

/// Carries out a plan on a bus.
fn perform<S: SpiDevice, B: InputPin, D: OutputPin, R: OutputPin, T: DelayNs>(
    epd: &mut Epd7in5,
    plan: Plan,
    spi: &mut S,
    busy: &mut B,
    dc: &mut D,
    rst: &mut R,
    delay: &mut T,
) -> Result<(), S::Error> {
    let mut operation = Operation::new(plan);
    let mut event = Event::Done;
    let mut error = None;
    loop {
        let written = match operation.advance(epd, event) {
            Action::Reset {
                initial_delay_us,
                duration_us,
            } => {
                let _ = rst.set_high();
                delay.delay_us(initial_delay_us);
                let _ = rst.set_low();
                delay.delay_us(duration_us);
                let _ = rst.set_high();
                Ok(())
            }
            Action::Command(command) => {
                let _ = dc.set_low();
                spi.write(&[command.address()])
            }
            Action::Data(data) => {
                let _ = dc.set_high();
                spi.write(&data)
            }
            Action::Frame(frame) => {
                let _ = dc.set_high();
                spi.write(frame)
            }
            Action::Fill { value, count } => {
                let _ = dc.set_high();
                (0..count).try_for_each(|_| spi.write(&[value]))
            }
            Action::DelayMs(ms) => {
                delay.delay_ms(ms);
                Ok(())
            }
            Action::DelayUs(us) => {
                delay.delay_us(us);
                Ok(())
            }
            Action::SampleBusy => {
                event = Event::BusyPin {
                    low: busy.is_low().unwrap_or(false),
                };
                continue;
            }
            Action::Finished => return Ok(()),
            Action::Failed => return Err(error.unwrap()),
        };
        event = match written {
            Ok(()) => Event::Done,
            Err(e) => {
                error = Some(e);
                Event::Failed
            }
        };
    }
}

#[test]
fn retained_resume_and_standby_never_reset_or_clear_ram() {
    let mut spi = spi::Mock::new(&[
        spi::Transaction::transaction_start(),
        spi::Transaction::write(0x04),
        spi::Transaction::transaction_end(),
        spi::Transaction::transaction_start(),
        spi::Transaction::write(0x71),
        spi::Transaction::transaction_end(),
        spi::Transaction::transaction_start(),
        spi::Transaction::write(0x71),
        spi::Transaction::transaction_end(),
        spi::Transaction::transaction_start(),
        spi::Transaction::write(0x02),
        spi::Transaction::transaction_end(),
        spi::Transaction::transaction_start(),
        spi::Transaction::write(0x71),
        spi::Transaction::transaction_end(),
    ]);
    let mut busy = digital::Mock::new(&[
        digital::Transaction::get(digital::State::High),
        digital::Transaction::get(digital::State::High),
        digital::Transaction::get(digital::State::High),
    ]);
    let mut dc = digital::Mock::new(&[
        digital::Transaction::set(digital::State::Low),
        digital::Transaction::set(digital::State::Low),
        digital::Transaction::set(digital::State::Low),
        digital::Transaction::set(digital::State::Low),
        digital::Transaction::set(digital::State::Low),
    ]);
    let mut rst = digital::Mock::new(&[]);
    let mut delay = NoopDelay::new();
    let (mut epd, plan) = Epd7in5::resume_retained(Some(0));
    perform(
        &mut epd,
        plan,
        &mut spi,
        &mut busy.clone(),
        &mut dc.clone(),
        &mut rst.clone(),
        &mut delay,
    )
    .unwrap();
    assert!(!epd.initial_refresh());
    assert!(epd.ram_initialized());
    let plan = epd.power_off_retaining_ram();
    perform(
        &mut epd,
        plan,
        &mut spi,
        &mut busy.clone(),
        &mut dc.clone(),
        &mut rst.clone(),
        &mut delay,
    )
    .unwrap();
    assert!(!epd.initial_refresh());
    assert!(epd.ram_initialized());
    spi.done();
    busy.done();
    dc.done();
    rst.done();
}

#[test]
fn epd_size() {
    assert_eq!(WIDTH, 800);
    assert_eq!(HEIGHT, 480);
    assert_eq!(DEFAULT_BACKGROUND_COLOR, Color::White);
}

/// What a bus has seen, one entry for each action.
#[derive(Clone, Debug, PartialEq)]
enum Seen {
    Reset(u32, u32),
    Command(u8),
    Data(Vec<u8>),
    Fill(u8, u32),
    DelayMs(u32),
    DelayUs(u32),
    Busy,
}

/// Runs a plan whose BUSY readings are given (idle after the last one), failing the action at
/// `fail_at`, and returns what the bus has seen and whether the operation succeeded.
fn record(
    epd: &mut Epd7in5,
    plan: Plan,
    busy_low: &[bool],
    fail_at: Option<usize>,
) -> (Vec<Seen>, bool) {
    let mut operation = Operation::new(plan);
    let mut event = Event::Done;
    let mut readings = busy_low.iter();
    let mut seen = Vec::new();
    loop {
        let action = operation.advance(epd, event);
        event = Event::Done;
        let entry = match action {
            Action::Reset {
                initial_delay_us,
                duration_us,
            } => Seen::Reset(initial_delay_us, duration_us),
            Action::Command(command) => Seen::Command(command.address()),
            Action::Data(data) => Seen::Data(data),
            Action::Frame(frame) => Seen::Data(frame.to_vec()),
            Action::Fill { value, count } => Seen::Fill(value, count),
            Action::DelayMs(ms) => Seen::DelayMs(ms),
            Action::DelayUs(us) => Seen::DelayUs(us),
            Action::SampleBusy => {
                event = Event::BusyPin {
                    low: *readings.next().unwrap_or(&false),
                };
                Seen::Busy
            }
            Action::Finished => return (seen, true),
            Action::Failed => return (seen, false),
        };
        if fail_at == Some(seen.len()) {
            event = Event::Failed;
        }
        seen.push(entry);
    }
}

fn cmd(address: u8) -> Seen {
    Seen::Command(address)
}

fn set(address: u8, data: &[u8]) -> Vec<Seen> {
    vec![Seen::Command(address), Seen::Data(data.to_vec())]
}

fn idle() -> Vec<Seen> {
    vec![Seen::Command(0x71), Seen::Busy]
}

fn ram(color: u8) -> Vec<Seen> {
    vec![
        cmd(0x92),
        cmd(0x10),
        Seen::Fill(0x00, 48_000),
        cmd(0x13),
        Seen::Fill(color, 48_000),
    ]
}

fn waveform(mode: RefreshMode) -> Vec<Seen> {
    let mut all = [set(0x00, &[0x1f]), set(0x50, &[0x29, 0x07])].concat();
    all.extend(match mode {
        RefreshMode::Full => [set(0xe0, &[0x00]), set(0x41, &[0x00])].concat(),
        RefreshMode::Fast => [set(0xe0, &[0x02]), set(0xe5, &[90])].concat(),
        RefreshMode::Partial => [set(0xe0, &[0x02]), set(0xe5, &[110])].concat(),
    });
    all
}

fn refresh(mode: RefreshMode) -> Vec<Seen> {
    [
        waveform(mode),
        vec![cmd(0x92)],
        set(0x90, &[0x00, 0x00, 0x03, 0x1f, 0x00, 0x00, 0x01, 0xdf, 0x01]),
        vec![cmd(0x12), Seen::DelayMs(1)],
        idle(),
    ]
    .concat()
}

fn bring_up() -> Vec<Seen> {
    [
        vec![Seen::Reset(10_000, 2_000)],
        set(0x01, &[0x07, 0x07, 0x3f, 0x3f, 0x09]),
        set(0x06, &[0x17, 0x17, 0x28, 0x17]),
        vec![cmd(0x04), Seen::DelayMs(100)],
        idle(),
        set(0x00, &[0x1f]),
        set(0x61, &[0x03, 0x20, 0x01, 0xe0]),
        set(0x15, &[0x00]),
        set(0x50, &[0x29, 0x07]),
        set(0x60, &[0x22]),
        set(0xe3, &[0x22]),
        waveform(RefreshMode::Full),
    ]
    .concat()
}

/// A driver whose panel was reset and which has not written anything yet.
fn started() -> Epd7in5 {
    let (mut epd, plan) = Epd7in5::new(Some(0));
    assert!(record(&mut epd, plan, &[], None).1);
    epd
}

/// A driver whose panel has shown a first image.
fn refreshed() -> Epd7in5 {
    let mut epd = started();
    let plan = epd.display_frame();
    assert!(record(&mut epd, plan, &[], None).1);
    epd
}

fn select(epd: &mut Epd7in5, mode: RefreshMode) {
    let plan = epd.set_refresh_mode(mode);
    assert_eq!(record(epd, plan, &[], None), (idle(), true));
}

#[test]
fn new_resets_and_configures() {
    let (mut epd, plan) = Epd7in5::new(Some(0));
    assert_eq!(record(&mut epd, plan, &[], None), (bring_up(), true));
    assert!(epd.initial_refresh());
    assert!(!epd.ram_initialized());
    assert_eq!(*epd.background_color(), Color::White);
    assert_eq!(epd.width(), 800);
    assert_eq!(epd.height(), 480);
    assert_eq!(epd.effective_refresh_mode(), RefreshMode::Full);
}

#[test]
fn polling_repeats_query_pause_and_look_while_busy_is_low() {
    let (mut epd, plan) = Epd7in5::resume_retained(Some(250));
    let (seen, ok) = record(&mut epd, plan, &[true, true, false], None);
    let poll = vec![cmd(0x71), Seen::DelayUs(250), Seen::Busy];
    assert!(ok);
    assert_eq!(
        seen,
        [
            vec![cmd(0x04), Seen::DelayMs(100)],
            poll.clone(),
            poll.clone(),
            poll
        ]
        .concat()
    );
}

#[test]
fn poll_delay_defaults_to_ten_milliseconds() {
    let (epd, _) = Epd7in5::new(None);
    assert_eq!(epd.poll_delay_us(), 10_000);
    let (epd, _) = Epd7in5::resume_retained(Some(7));
    assert_eq!(epd.poll_delay_us(), 7);
}

#[test]
fn update_frame_initializes_ram_once() {
    let mut epd = started();
    let frame = vec![0x5a; FRAME];
    let write = vec![cmd(0x92), cmd(0x13), Seen::Data(frame.clone())];
    let plan = epd.update_frame(&frame);
    assert_eq!(
        record(&mut epd, plan, &[], None),
        ([idle(), ram(0xff), write.clone()].concat(), true)
    );
    assert!(epd.ram_initialized());
    assert!(epd.initial_refresh());
    let plan = epd.update_frame(&frame);
    assert_eq!(
        record(&mut epd, plan, &[], None),
        ([idle(), write].concat(), true)
    );
}

#[test]
fn update_partial_frame_sets_the_window() {
    let mut epd = refreshed();
    let region = vec![0x0f; 160 * 80 / 8];
    let plan = epd.update_partial_frame(&region, 320, 300, 160, 80);
    assert_eq!(
        record(&mut epd, plan, &[], None),
        (
            [
                idle(),
                vec![cmd(0x91)],
                set(0x90, &[0x01, 0x40, 0x01, 0xdf, 0x01, 0x2c, 0x01, 0x7b, 0x01]),
                vec![cmd(0x13), Seen::Data(region.clone()), cmd(0x92)],
            ]
            .concat(),
            true
        )
    );
    assert!(!epd.initial_refresh());
}

#[test]
fn display_frame_executes_the_effective_mode() {
    for mode in [RefreshMode::Full, RefreshMode::Fast, RefreshMode::Partial] {
        let mut epd = started();
        select(&mut epd, mode);
        let first = match mode {
            RefreshMode::Partial => RefreshMode::Full,
            other => other,
        };
        assert_eq!(epd.effective_refresh_mode(), first);
        let plan = epd.display_frame();
        assert_eq!(
            record(&mut epd, plan, &[], None),
            ([idle(), ram(0xff), refresh(first)].concat(), true)
        );
        assert!(!epd.initial_refresh());
        assert_eq!(epd.effective_refresh_mode(), mode);
        let plan = epd.display_frame();
        assert_eq!(
            record(&mut epd, plan, &[], None),
            ([idle(), refresh(mode)].concat(), true)
        );
    }
}

#[test]
fn update_and_display_frame_is_both_in_a_row() {
    let mut epd = started();
    let frame = vec![0x81; FRAME];
    let plan = epd.update_and_display_frame(&frame);
    assert_eq!(
        record(&mut epd, plan, &[], None),
        (
            [
                idle(),
                ram(0xff),
                vec![cmd(0x92), cmd(0x13), Seen::Data(frame.clone())],
                idle(),
                refresh(RefreshMode::Full),
            ]
            .concat(),
            true
        )
    );
    assert!(!epd.initial_refresh());
}

#[test]
fn clear_frame_fills_with_the_background_color() {
    let mut epd = started();
    epd.set_background_color(Color::Black);
    assert_eq!(*epd.background_color(), Color::Black);
    let plan = epd.clear_frame();
    assert_eq!(
        record(&mut epd, plan, &[], None),
        (
            [
                idle(),
                ram(0x00),
                vec![cmd(0x92), cmd(0x13), Seen::Fill(0x00, 48_000)],
                idle(),
                refresh(RefreshMode::Full),
            ]
            .concat(),
            true
        )
    );
    epd.set_background_color(Color::White);
    let plan = epd.clear_frame();
    assert_eq!(
        record(&mut epd, plan, &[], None).0[4],
        Seen::Fill(0xff, 48_000)
    );
}

#[test]
fn sleep_and_wake_up_invalidate_the_baseline() {
    let mut epd = refreshed();
    select(&mut epd, RefreshMode::Partial);
    assert_eq!(epd.effective_refresh_mode(), RefreshMode::Partial);
    let plan = epd.sleep();
    assert_eq!(
        record(&mut epd, plan, &[], None),
        (
            [
                idle(),
                vec![cmd(0x02), Seen::DelayMs(1)],
                idle(),
                set(0x07, &[0xa5]),
            ]
            .concat(),
            true
        )
    );
    assert!(epd.initial_refresh());
    assert!(!epd.ram_initialized());
    assert_eq!(epd.effective_refresh_mode(), RefreshMode::Full);

    let mut epd = refreshed();
    select(&mut epd, RefreshMode::Fast);
    let plan = epd.wake_up();
    assert_eq!(record(&mut epd, plan, &[], None), (bring_up(), true));
    assert!(epd.initial_refresh());
    assert!(!epd.ram_initialized());
    assert_eq!(epd.effective_refresh_mode(), RefreshMode::Fast);
}

#[test]
fn power_off_waits_before_and_after() {
    let mut epd = refreshed();
    let plan = epd.power_off_retaining_ram();
    assert_eq!(
        record(&mut epd, plan, &[], None),
        (
            [idle(), vec![cmd(0x02), Seen::DelayMs(100)], idle()].concat(),
            true
        )
    );
    assert!(epd.ram_initialized());
}

#[test]
fn set_lut_selects_full_or_partial() {
    for (lut, mode) in [
        (None, RefreshMode::Full),
        (Some(RefreshLut::Full), RefreshMode::Full),
        (Some(RefreshLut::Quick), RefreshMode::Partial),
    ] {
        let mut epd = refreshed();
        select(&mut epd, RefreshMode::Fast);
        let plan = epd.set_lut(lut);
        assert_eq!(record(&mut epd, plan, &[], None), (idle(), true));
        assert_eq!(epd.effective_refresh_mode(), mode);
    }
    assert_eq!(RefreshLut::default(), RefreshLut::Full);
    assert_eq!(RefreshMode::default(), RefreshMode::Full);
}

#[test]
fn failed_write_ends_the_operation_and_keeps_the_bookkeeping() {
    // The first refresh: 2 actions to get idle, 5 to fill the RAM, then the refresh itself.
    let mut epd = started();
    let plan = epd.display_frame();
    let (seen, ok) = record(&mut epd, plan, &[], Some(6));
    assert!(!ok);
    assert_eq!(seen.len(), 7);
    assert!(!epd.ram_initialized());

    let plan = epd.display_frame();
    let (seen, ok) = record(&mut epd, plan, &[], Some(7));
    assert!(!ok);
    assert_eq!(seen.len(), 8);
    assert!(epd.ram_initialized());
    assert!(epd.initial_refresh());

    let plan = epd.set_refresh_mode(RefreshMode::Fast);
    assert!(!record(&mut epd, plan, &[], Some(0)).1);
    assert_eq!(epd.effective_refresh_mode(), RefreshMode::Full);

    let mut operation = Operation::new(epd.sleep());
    assert!(matches!(
        operation.advance(&mut epd, Event::Failed),
        Action::Failed
    ));
    assert!(matches!(
        operation.advance(&mut epd, Event::Done),
        Action::Failed
    ));
}

#[test]
fn success_comes_within_the_bound() {
    let mut epd = refreshed();
    let plan = epd.power_off_retaining_ram();
    let steps = plan.len();
    assert_eq!(steps, 4);
    let mut operation = Operation::new(plan);
    let mut event = Event::Done;
    let mut busy = 5;
    let mut events = 0;
    loop {
        events += 1;
        match operation.advance(&mut epd, event) {
            Action::SampleBusy => {
                event = Event::BusyPin { low: busy > 0 };
                busy -= 1;
            }
            Action::Finished => break,
            _ => event = Event::Done,
        }
    }
    assert!(events <= 4 * steps + 3 * 5 + 1);
}

#[test]
fn only_a_high_reading_ends_a_wait() {
    let mut epd = refreshed();
    let mut plan = Plan::new();
    epd.wait_until_idle(&mut plan);
    let mut operation = Operation::new(plan);
    assert!(matches!(
        operation.advance(&mut epd, Event::Done),
        Action::Command(Command::GetStatus)
    ));
    for _ in 0..3 {
        assert!(matches!(
            operation.advance(&mut epd, Event::Done),
            Action::SampleBusy
        ));
    }
    assert!(matches!(
        operation.advance(&mut epd, Event::BusyPin { low: true }),
        Action::Command(Command::GetStatus)
    ));
    assert!(matches!(
        operation.advance(&mut epd, Event::Done),
        Action::SampleBusy
    ));
    assert!(matches!(
        operation.advance(&mut epd, Event::BusyPin { low: false }),
        Action::Finished
    ));
    assert!(Event::BusyPin { low: true }.reports_busy());
    assert!(Event::BusyPin { low: false }.reports_idle());
    assert!(!Event::Done.reports_busy() && !Event::Done.reports_idle());
    assert!(!Event::Failed.reports_busy() && !Event::Failed.reports_idle());
}

#[test]
fn each_step_is_handed_out_once_however_long_busy_lasts() {
    let busy = vec![true; 7];
    let mut epd = refreshed();
    let plan = epd.display_frame();
    let (quiet, _) = record(&mut epd, plan, &[], None);
    let plan = epd.display_frame();
    let (seen, ok) = record(&mut epd, plan, &busy, None);
    assert!(ok);
    let poll = idle();
    assert_eq!(seen[..16], [poll.clone(), vec![poll; 7].concat()].concat()[..]);
    assert_eq!(seen[14..], quiet[..]);
}

#[test]
fn nothing_is_tried_again_after_a_failure() {
    let mut epd = refreshed();
    let plan = epd.clear_frame();
    let (all, _) = record(&mut epd, plan, &[], None);
    for fail_at in 0..all.len() {
        let mut epd = refreshed();
        let plan = epd.clear_frame();
        let (seen, ok) = record(&mut epd, plan, &[], Some(fail_at));
        assert!(!ok);
        assert_eq!(seen[..], all[..=fail_at]);
    }
}

#[test]
fn stuck_busy_ends_with_the_bus() {
    for n in 0..6 {
        let mut epd = refreshed();
        let mut plan = Plan::new();
        epd.wait_until_idle(&mut plan);
        // Each look that finds BUSY low is followed by a status query; the last one fails.
        let (seen, ok) = record(&mut epd, plan, &[true; 9], Some(2 * n));
        assert!(!ok);
        assert_eq!(seen.iter().filter(|s| **s == Seen::Busy).count(), n);
        assert_eq!(seen.iter().filter(|s| **s == cmd(0x71)).count(), n + 1);
    }
}

#[test]
fn wait_until_idle_changes_nothing() {
    let mut epd = started();
    select(&mut epd, RefreshMode::Fast);
    let mut plan = Plan::new();
    epd.wait_until_idle(&mut plan);
    assert_eq!(record(&mut epd, plan, &[], None), (idle(), true));
    assert!(epd.initial_refresh());
    assert!(!epd.ram_initialized());
    assert_eq!(epd.effective_refresh_mode(), RefreshMode::Fast);
}

#[test]
fn no_failure_leaves_a_baseline_without_ram() {
    let frame = vec![0x33; FRAME];
    for fail_at in 0..40 {
        let mut epd = started();
        for _ in 0..2 {
            let plan = epd.update_and_display_frame(&frame);
            record(&mut epd, plan, &[], Some(fail_at));
            assert!(epd.initial_refresh() || epd.ram_initialized());
            let plan = epd.wake_up();
            record(&mut epd, plan, &[], Some(fail_at));
            assert!(epd.initial_refresh() || epd.ram_initialized());
            let plan = epd.clear_frame();
            record(&mut epd, plan, &[], Some(fail_at));
            assert!(epd.initial_refresh() || epd.ram_initialized());
        }
    }
}

#[test]
fn ram_is_initialized_once_even_where_calls_fail() {
    let frame = vec![0x33; FRAME];
    for fail_at in 0..20 {
        let mut epd = refreshed();
        let plan = epd.update_frame(&frame);
        record(&mut epd, plan, &[], Some(fail_at));
        let plan = epd.power_off_retaining_ram();
        record(&mut epd, plan, &[], Some(fail_at));
        let plan = epd.display_frame();
        record(&mut epd, plan, &[], Some(fail_at));
        assert!(epd.ram_initialized());
        let plan = epd.clear_frame();
        let (seen, ok) = record(&mut epd, plan, &[], None);
        assert!(ok);
        assert!(!seen.contains(&cmd(0x10)));
    }
}

#[test]
fn finished_operation_stays_finished() {
    let mut epd = refreshed();
    let mut operation = Operation::new(Plan::new());
    assert!(matches!(
        operation.advance(&mut epd, Event::Done),
        Action::Finished
    ));
    assert!(matches!(
        operation.advance(&mut epd, Event::BusyPin { low: true }),
        Action::Finished
    ));
}

#[test]
fn every_stop_of_a_sleep_leaves_no_false_baseline() {
    for fail_at in 0..8 {
        let mut epd = refreshed();
        let plan = epd.sleep();
        let (_, ok) = record(&mut epd, plan, &[], Some(fail_at));
        assert!(!ok);
        // Deep sleep is sent only when the baseline was already given up.
        assert_eq!(epd.initial_refresh(), fail_at >= 6);
        assert_eq!(epd.ram_initialized(), fail_at < 6);
    }
}

#[test]
fn buffer_lengths() {
    assert_eq!(buffer_len(800, 480), 48_000);
    assert_eq!(buffer_len(1, 3), 3);
    assert_eq!(buffer_len(9, 2), 4);
    assert!(is_full_frame(48_000));
    assert!(!is_full_frame(47_999));
}

#[test]
fn regions_are_nonempty_aligned_and_on_the_screen() {
    assert!(region_fits(1_600, 320, 320, 160, 80));
    assert!(region_fits(48_000, 0, 0, 800, 480));
    assert!(region_fits(1, 792, 479, 8, 1));
    assert!(!region_fits(0, 0, 0, 0, 10));
    assert!(!region_fits(0, 0, 0, 8, 0));
    assert!(!region_fits(1, 800, 0, 8, 1));
    assert!(!region_fits(1, 0, 480, 8, 1));
    assert!(!region_fits(2, 792, 0, 16, 1));
    assert!(!region_fits(2, 0, 479, 8, 2));
    assert!(!region_fits(1, 4, 0, 8, 1));
    assert!(!region_fits(1, 0, 0, 12, 1));
    assert!(!region_fits(1_599, 320, 320, 160, 80));
    assert!(!region_fits(1, 8, 0, u32::MAX - 7, 1));
}

#[test]
fn command_addresses() {
    assert_eq!(Command::PowerOn.address(), 0x04);
    assert_eq!(Command::PowerOff.address(), 0x02);
    assert_eq!(Command::GetStatus.address(), 0x71);
    assert_eq!(Command::PartialWindow.address(), 0x90);
    assert_eq!(Color::White.get_byte_value(), 0xff);
    assert_eq!(Color::Black.get_byte_value(), 0x00);
}
