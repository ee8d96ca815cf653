use epd7in5_v2::smoke::{
    draw_bars, draw_full, draw_region, BusyObserver, Deadline, Stage, Task, STAGE_LIMIT_US,
    STAGE_PAUSE_MS,
};
use epd7in5_v2::{Action, Color, Epd7in5, Event, Operation, Plan, RefreshMode};

const FRAME: usize = 48_000;

/// A panel in software: RAMs, window and waveform registers.
struct Glass {
    command: u8,
    new: Option<Vec<u8>>,
    old: Option<Vec<u8>>,
    shown: Option<Vec<u8>>,
    partial: bool,
    window: Vec<u8>,
    forced: bool,
    temperature: u8,
    waveforms: Vec<u8>,
}

impl Glass {
    fn new() -> Self {
        Glass {
            command: 0,
            new: None,
            old: None,
            shown: None,
            partial: false,
            window: vec![0; 9],
            forced: false,
            temperature: 0,
            waveforms: Vec::new(),
        }
    }

    fn command(&mut self, address: u8) {
        self.command = address;
        match address {
            0x91 => self.partial = true,
            0x92 => self.partial = false,
            0x12 => {
                let waveform = if self.forced { self.temperature } else { 0 };
                let defined = waveform != 110 || (self.old.is_some() && self.old == self.shown);
                self.shown = if defined { self.new.clone() } else { None };
                self.old = self.new.clone();
                self.waveforms.push(waveform);
            }
            _ => {}
        }
    }

    fn data(&mut self, data: &[u8]) {
        match self.command {
            0x10 => self.old = self.write(self.old.clone(), data),
            0x13 => self.new = self.write(self.new.clone(), data),
            0x90 => self.window = data.to_vec(),
            0xe0 => self.forced = data[0] & 0x02 != 0,
            0xe5 => self.temperature = data[0],
            0x07 => self.forget(),
            _ => {}
        }
    }

    fn write(&self, ram: Option<Vec<u8>>, data: &[u8]) -> Option<Vec<u8>> {
        if !self.partial {
            assert_eq!(data.len(), FRAME);
            return Some(data.to_vec());
        }
        let mut image = ram?;
        let at = |i: usize| self.window[i] as usize * 256 + self.window[i + 1] as usize;
        let (x, xe, y, ye) = (at(0), at(2), at(4), at(6));
        let mut bytes = data.iter();
        for row in y..=ye {
            for column in x / 8..(xe + 1) / 8 {
                image[row * 100 + column] = *bytes.next().unwrap();
            }
        }
        assert!(bytes.next().is_none());
        Some(image)
    }

    fn forget(&mut self) {
        self.new = None;
        self.old = None;
    }

    fn perform(&mut self, epd: &mut Epd7in5, plan: Plan) {
        let mut operation = Operation::new(plan);
        let mut event = Event::Done;
        let mut polls = 0;
        loop {
            let action = operation.advance(epd, event);
            event = Event::Done;
            match action {
                Action::Reset { .. } => self.forget(),
                Action::Command(command) => self.command(command.address()),
                Action::Data(data) => self.data(&data),
                Action::Frame(frame) => self.data(frame),
                Action::Fill { value, count } => self.data(&vec![value; count as usize]),
                Action::DelayMs(_) | Action::DelayUs(_) => {}
                Action::SampleBusy => {
                    polls += 1;
                    event = Event::BusyPin {
                        low: polls % 3 != 0,
                    };
                }
                Action::Finished => return,
                Action::Failed => panic!("nothing failed"),
            }
        }
    }
}

fn started(glass: &mut Glass) -> Epd7in5 {
    let (mut epd, plan) = Epd7in5::new(None);
    glass.perform(&mut epd, plan);
    epd
}

#[test]
fn full_image_has_border_and_box() {
    let mut frame = vec![0x55; FRAME];
    draw_full(&mut frame);
    assert_eq!(frame[0], 0x00);
    assert_eq!(frame[7 * 100 + 50], 0x00);
    assert_eq!(frame[8 * 100 + 50], 0xff);
    assert_eq!(frame[471 * 100 + 50], 0xff);
    assert_eq!(frame[472 * 100 + 50], 0x00);
    assert_eq!(frame[200 * 100], 0x00);
    assert_eq!(frame[200 * 100 + 1], 0xff);
    assert_eq!(frame[200 * 100 + 99], 0x00);
    assert_eq!(frame[40 * 100 + 5], 0x00);
    assert_eq!(frame[119 * 100 + 24], 0x00);
    assert_eq!(frame[120 * 100 + 24], 0xff);
    assert_eq!(frame[119 * 100 + 25], 0xff);
    let black = frame.iter().filter(|b| **b == 0x00).count();
    assert_eq!(black, 16 * 100 + 464 * 2 + 80 * 20);
}

#[test]
fn bars_are_added_and_the_rest_is_kept() {
    let mut full = vec![0xff; FRAME];
    draw_full(&mut full);
    let mut bars = full.clone();
    draw_bars(&mut bars);
    for i in 0..FRAME {
        let (y, column) = (i / 100, i % 100);
        if (40..200).contains(&y) && (50..90).contains(&column) {
            assert_eq!(bars[i], if column % 4 < 2 { 0x00 } else { 0xff });
        } else {
            assert_eq!(bars[i], full[i]);
        }
        if full[i] == 0x00 {
            assert_eq!(bars[i], 0x00);
        }
    }
}

#[test]
fn region_has_a_white_stripe() {
    let region = draw_region();
    let mut expected = [0x00; 160 * 80 / 8];
    expected[35 * 20..45 * 20].fill(0xff);
    assert_eq!(region, expected);
}

#[test]
fn stages_need_busy() {
    assert_eq!(Stage::Full.next(true), Stage::Fast);
    assert_eq!(Stage::Fast.next(true), Stage::Partial);
    assert_eq!(Stage::Partial.next(true), Stage::Sleep);
    assert_eq!(Stage::Sleep.next(false), Stage::Done);
    assert_eq!(Stage::Full.next(false), Stage::NoBusy);
    assert_eq!(Stage::Fast.next(false), Stage::NoBusy);
    assert_eq!(Stage::Partial.next(false), Stage::NoBusy);
    assert_eq!(Stage::NoBusy.next(true), Stage::NoBusy);
    assert_eq!(Stage::Done.next(true), Stage::Done);
}

#[test]
fn busy_observer_remembers_a_low_reading() {
    let mut observer = BusyObserver::new();
    assert!(!observer.is_low(false));
    assert!(observer.is_high(false));
    assert!(!observer.seen());
    assert!(!observer.is_high(true));
    assert!(observer.seen());
    observer.clear();
    assert!(!observer.seen());
    assert!(observer.is_low(true));
    assert!(!observer.is_low(false));
    assert!(observer.seen());
}

#[test]
fn deadline_is_thirty_seconds_away() {
    assert_eq!(STAGE_LIMIT_US, 30_000_000);
    let deadline = Deadline::starting(5_999);
    assert!(!deadline.has_passed(5_999));
    assert!(!deadline.has_passed(30_005_998));
    assert!(deadline.has_passed(30_005_999));
    assert!(deadline.has_passed(u64::MAX));
}

#[test]
fn stages_select_their_modes_and_pause() {
    assert_eq!(Stage::Full.mode(), None);
    assert_eq!(Stage::Fast.mode(), Some(RefreshMode::Fast));
    assert_eq!(Stage::Partial.mode(), Some(RefreshMode::Partial));
    assert_eq!(Stage::Sleep.mode(), None);
    assert_eq!(STAGE_PAUSE_MS, 4_000);
    for stage in [Stage::Full, Stage::Fast, Stage::Partial] {
        assert_eq!(stage.pause_ms(true), 4_000);
        assert_eq!(stage.pause_ms(false), 0);
    }
    for stage in [Stage::Sleep, Stage::Done, Stage::NoBusy] {
        assert_eq!(stage.pause_ms(true), 0);
    }
}

#[test]
fn stages_have_their_tasks() {
    assert_eq!(
        Stage::Full.tasks(),
        [Task::DrawFull, Task::WriteFrame, Task::Refresh]
    );
    assert_eq!(
        Stage::Fast.tasks(),
        [
            Task::RestartDeadline,
            Task::DrawBars,
            Task::Select(RefreshMode::Fast),
            Task::WriteFrame,
            Task::Refresh,
        ]
    );
    assert_eq!(
        Stage::Partial.tasks(),
        [
            Task::RestartDeadline,
            Task::Select(RefreshMode::Partial),
            Task::WriteRegion,
            Task::Refresh,
        ]
    );
    assert_eq!(Stage::Sleep.tasks(), [Task::RestartDeadline, Task::Sleep]);
    assert_eq!(Stage::Done.tasks(), []);
    assert_eq!(Stage::NoBusy.tasks(), []);
}

#[test]
fn only_drawing_tasks_draw() {
    let mut expected = vec![0xff; FRAME];
    draw_full(&mut expected);
    let mut frame = vec![0x55; FRAME];
    Task::RestartDeadline.draw(&mut frame);
    Task::Refresh.draw(&mut frame);
    assert_eq!(frame, vec![0x55; FRAME]);
    Task::DrawFull.draw(&mut frame);
    assert_eq!(frame, expected);
    Task::DrawBars.draw(&mut frame);
    draw_bars(&mut expected);
    assert_eq!(frame, expected);
}

#[test]
fn tasks_plan_their_operations() {
    let (epd, _) = Epd7in5::resume_retained(None);
    let frame = vec![0x55; FRAME];
    let region = draw_region();
    for task in [Task::RestartDeadline, Task::DrawFull, Task::DrawBars] {
        assert!(task.plan(&epd, &frame, &region).is_none());
    }
    let lengths = [
        (Task::Select(RefreshMode::Fast), epd.set_refresh_mode(RefreshMode::Fast).len()),
        (Task::WriteFrame, epd.update_frame(&frame).len()),
        (
            Task::WriteRegion,
            epd.update_partial_frame(&region, 320, 320, 160, 80).len(),
        ),
        (Task::Refresh, epd.display_frame().len()),
        (Task::Sleep, epd.sleep().len()),
    ];
    for (task, length) in lengths {
        assert_eq!(task.plan(&epd, &frame, &region).unwrap().len(), length);
    }
    let mut operation = Operation::new(Task::WriteRegion.plan(&epd, &frame, &region).unwrap());
    let (mut epd, _) = Epd7in5::resume_retained(None);
    let mut event = Event::Done;
    let mut payloads = Vec::new();
    loop {
        match operation.advance(&mut epd, event) {
            Action::Frame(payload) => payloads.push(payload.to_vec()),
            Action::Finished => break,
            _ => {}
        }
        event = Event::BusyPin { low: false };
    }
    assert_eq!(payloads, [region.clone()]);
}

#[test]
fn the_stages_show_their_images() {
    let mut glass = Glass::new();
    let mut epd = started(&mut glass);
    let mut frame = vec![0xff; FRAME];
    let region = draw_region();
    let mut images = Vec::new();
    let mut stage = Stage::Full;
    while stage != Stage::Done {
        for task in stage.tasks() {
            task.draw(&mut frame);
            let plan = match task.plan(&epd, &frame, &region) {
                Some(plan) => plan,
                None => continue,
            };
            let before = glass.shown.clone();
            glass.perform(&mut epd, plan);
            if task != Task::Refresh {
                assert_eq!(glass.shown, before);
            }
        }
        images.push(glass.shown.clone().unwrap());
        stage = stage.next(true);
    }

    let mut expected = vec![0xff; FRAME];
    draw_full(&mut expected);
    assert_eq!(images[0], expected);
    draw_bars(&mut expected);
    assert_eq!(images[1], expected);
    for row in 0..80 {
        for column in 0..20 {
            expected[(320 + row) * 100 + 40 + column] = region[row * 20 + column];
        }
    }
    assert_eq!(images[2], expected);
    assert_eq!(images[3], expected);
    assert_eq!(images.len(), 4);
    assert_eq!(glass.waveforms, [0, 90, 110]);
    assert_eq!(glass.new, None);
}

#[test]
fn regions_accumulate_before_one_refresh() {
    let mut glass = Glass::new();
    let mut epd = started(&mut glass);
    epd.set_background_color(Color::Black);
    let plan = epd.clear_frame();
    glass.perform(&mut epd, plan);
    assert_eq!(glass.shown, Some(vec![0x00; FRAME]));
    let plan = epd.set_refresh_mode(RefreshMode::Partial);
    glass.perform(&mut epd, plan);
    let plan = epd.update_partial_frame(&[0x11; 4], 8, 2, 16, 2);
    glass.perform(&mut epd, plan);
    let plan = epd.update_partial_frame(&[0x22; 2], 16, 3, 16, 1);
    glass.perform(&mut epd, plan);
    let plan = epd.display_frame();
    glass.perform(&mut epd, plan);
    let mut expected = vec![0x00; FRAME];
    expected[201] = 0x11;
    expected[202] = 0x11;
    expected[301] = 0x11;
    expected[302] = 0x22;
    expected[303] = 0x22;
    assert_eq!(glass.shown, Some(expected));
    assert_eq!(glass.waveforms, [0, 110]);
}

#[test]
fn standby_and_resume_keep_the_baseline() {
    let mut glass = Glass::new();
    let mut epd = started(&mut glass);
    let frame = vec![0x3c; FRAME];
    let plan = epd.update_and_display_frame(&frame);
    glass.perform(&mut epd, plan);
    let plan = epd.power_off_retaining_ram();
    glass.perform(&mut epd, plan);
    let (mut epd, plan) = Epd7in5::resume_retained(None);
    glass.perform(&mut epd, plan);
    let plan = epd.set_refresh_mode(RefreshMode::Partial);
    glass.perform(&mut epd, plan);
    assert_eq!(epd.effective_refresh_mode(), RefreshMode::Partial);
    let plan = epd.update_partial_frame(&[0x00], 0, 0, 8, 1);
    glass.perform(&mut epd, plan);
    let plan = epd.display_frame();
    glass.perform(&mut epd, plan);
    let mut expected = frame;
    expected[0] = 0x00;
    assert_eq!(glass.shown, Some(expected));
    assert_eq!(glass.waveforms, [0, 110]);
}

#[test]
fn a_reset_makes_partial_fall_back_to_full() {
    let mut glass = Glass::new();
    let mut epd = started(&mut glass);
    let plan = epd.set_refresh_mode(RefreshMode::Partial);
    glass.perform(&mut epd, plan);
    for _ in 0..2 {
        let plan = epd.display_frame();
        glass.perform(&mut epd, plan);
    }
    let plan = epd.wake_up();
    glass.perform(&mut epd, plan);
    for _ in 0..2 {
        let plan = epd.display_frame();
        glass.perform(&mut epd, plan);
    }
    assert_eq!(glass.waveforms, [0, 110, 0, 110]);
    assert_eq!(glass.shown, Some(vec![0xff; FRAME]));
}
