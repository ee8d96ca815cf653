//! The refresh smoke test of a connected panel: its images, its stages and its checks.
//!
//! One run shows a normal full, a fast full and a partial refresh, then puts the panel to sleep.
//! Every refresh has to assert BUSY, and the bus is given up at a deadline.

use vstd::prelude::*;

use crate::driver::Epd7in5;
use crate::geometry::{FRAME_BYTES, HEIGHT, ROW_BYTES};
use crate::history::Call;
use crate::laws;
use crate::mode::RefreshMode;
use crate::panel::{self, Panel, Window};
use crate::protocol::{self, DriverState};
use crate::step::Plan;

verus! {

/// Time that one stage may take on the bus.
pub const STAGE_LIMIT_US: u64 = 30_000_000;

/// Pause after a refresh, for a look at the panel.
pub const STAGE_PAUSE_MS: u32 = 4_000;

/// Pause between a status query and the look at BUSY during the test.
pub const POLL_DELAY_US: u32 = 1_000;

/// Left edge of the partial rectangle.
pub const REGION_X: u32 = 320;

/// Top edge of the partial rectangle.
pub const REGION_Y: u32 = 320;

/// Width of the partial rectangle.
pub const REGION_WIDTH: u32 = 160;

/// Height of the partial rectangle.
pub const REGION_HEIGHT: u32 = 80;

/// Bytes of the partial rectangle.
pub const REGION_BYTES: u32 = 1_600;

/// A byte of the first image lies in the black border or the solid box at the upper left.
pub open spec fn in_border_or_box(y: int, column: int) -> bool {
    ||| y < 8
    ||| y >= 472
    ||| column == 0
    ||| column == 99
    ||| 40 <= y < 120 && 5 <= column < 25
}

/// A byte of the second image lies in the area of the bars at the upper right.
pub open spec fn in_bars(y: int, column: int) -> bool {
    40 <= y < 200 && 50 <= column < 90
}

/// White screen, black border, solid black 160x80 upper-left box.
pub open spec fn full_image() -> Seq<u8> {
    Seq::new(
        FRAME_BYTES as nat,
        |i: int|
            if in_border_or_box(i / 100, i % 100) {
                0x00u8
            } else {
                0xffu8
            },
    )
}

/// An image with black vertical bars in the upper right.
pub open spec fn with_bars(image: Seq<u8>) -> Seq<u8> {
    Seq::new(
        image.len(),
        |i: int|
            if in_bars(i / 100, i % 100) {
                if i % 100 % 4 < 2 {
                    0x00u8
                } else {
                    0xffu8
                }
            } else {
                image[i]
            },
    )
}

/// A black rectangle of 160x80 pixels with a white horizontal stripe.
pub open spec fn striped_region() -> Seq<u8> {
    Seq::new(
        REGION_BYTES as nat,
        |i: int|
            if 35 * 20 <= i < 45 * 20 {
                0xffu8
            } else {
                0x00u8
            },
    )
}

/// Where the striped rectangle goes.
pub open spec fn region_window() -> Window {
    Window {
        x: REGION_X as int,
        y: REGION_Y as int,
        width: REGION_WIDTH as int,
        height: REGION_HEIGHT as int,
    }
}

/// Draws the image of the full refresh.
pub fn draw_full(frame: &mut [u8])
    requires
        old(frame)@.len() == FRAME_BYTES,
    ensures
        final(frame)@ == full_image(),
{
    let mut y: usize = 0;
    while y < HEIGHT as usize
        invariant
            y <= HEIGHT,
            frame@.len() == FRAME_BYTES,
            forall|i: int| 0 <= i < y * 100 ==> frame@[i] == full_image()[i],
        decreases HEIGHT - y,
    {
        let mut column: usize = 0;
        while column < ROW_BYTES as usize
            invariant
                y < HEIGHT,
                column <= ROW_BYTES,
                frame@.len() == FRAME_BYTES,
                forall|i: int| 0 <= i < y * 100 + column ==> frame@[i] == full_image()[i],
            decreases ROW_BYTES - column,
        {
            frame[y * 100 + column] = if y < 8 || y >= 472 || column == 0 || column == 99 || (40
                <= y && y < 120 && 5 <= column && column < 25) {
                0x00
            } else {
                0xff
            };
            column = column + 1;
        }
        y = y + 1;
    }
    assert(frame@ =~= full_image());
}

/// Adds the bars of the fast refresh to an image and keeps the rest of it.
pub fn draw_bars(frame: &mut [u8])
    requires
        old(frame)@.len() == FRAME_BYTES,
    ensures
        final(frame)@ == with_bars(old(frame)@),
{
    let ghost before = frame@;
    let mut y: usize = 40;
    while y < 200
        invariant
            40 <= y <= 200,
            before.len() == FRAME_BYTES,
            frame@.len() == FRAME_BYTES,
            forall|i: int| 0 <= i < y * 100 ==> frame@[i] == with_bars(before)[i],
            forall|i: int| y * 100 <= i < FRAME_BYTES ==> frame@[i] == before[i],
        decreases 200 - y,
    {
        let mut column: usize = 50;
        while column < 90
            invariant
                40 <= y < 200,
                50 <= column <= 90,
                before.len() == FRAME_BYTES,
                frame@.len() == FRAME_BYTES,
                forall|i: int| 0 <= i < y * 100 + column ==> frame@[i] == with_bars(before)[i],
                forall|i: int| y * 100 + column <= i < FRAME_BYTES ==> frame@[i] == before[i],
            decreases 90 - column,
        {
            frame[y * 100 + column] = if column % 4 < 2 {
                0x00
            } else {
                0xff
            };
            column = column + 1;
        }
        y = y + 1;
    }
    assert(frame@ =~= with_bars(before));
}

/// Draws the rectangle of the partial refresh.
pub fn draw_region() -> (region: Vec<u8>)
    ensures
        region@ == striped_region(),
{
    let mut region: Vec<u8> = Vec::new();
    let mut i: usize = 0;
    while i < REGION_BYTES as usize
        invariant
            i <= REGION_BYTES,
            region@.len() == i,
            forall|j: int| 0 <= j < i ==> region@[j] == striped_region()[j],
        decreases REGION_BYTES - i,
    {
        region.push(
            if 35 * 20 <= i && i < 45 * 20 {
                0xff
            } else {
                0x00
            },
        );
        i = i + 1;
    }
    assert(region@ =~= striped_region());
    region
}

/// Where a run of the smoke test is.
#[derive(Clone, Copy, Debug, PartialEq, Eq, Structural)]
pub enum Stage {
    /// Normal full refresh.
    Full,
    /// Fast full refresh.
    Fast,
    /// Partial refresh.
    Partial,
    /// Panel sleep.
    Sleep,
    /// Everything has been done.
    Done,
    /// A refresh did not assert BUSY, so nothing more is done.
    NoBusy,
}

impl Stage {
    /// The stage that follows, given whether BUSY was seen asserted during this one.
    pub open spec fn successor(self, busy_seen: bool) -> Stage {
        match self {
            Stage::Full => if busy_seen {
                Stage::Fast
            } else {
                Stage::NoBusy
            },
            Stage::Fast => if busy_seen {
                Stage::Partial
            } else {
                Stage::NoBusy
            },
            Stage::Partial => if busy_seen {
                Stage::Sleep
            } else {
                Stage::NoBusy
            },
            Stage::Sleep => Stage::Done,
            Stage::Done => Stage::Done,
            Stage::NoBusy => Stage::NoBusy,
        }
    }

    /// Moves on, given whether BUSY was seen asserted during this stage.
    pub fn next(self, busy_seen: bool) -> (stage: Stage)
        ensures
            stage == self.successor(busy_seen),
    {
        match self {
            Stage::Sleep | Stage::Done => Stage::Done,
            Stage::NoBusy => Stage::NoBusy,
            _ if !busy_seen => Stage::NoBusy,
            Stage::Full => Stage::Fast,
            Stage::Fast => Stage::Partial,
            Stage::Partial => Stage::Sleep,
        }
    }

    /// The mode that the stage selects; the first one takes what a new driver has selected.
    pub open spec fn selection(self) -> Option<RefreshMode> {
        match self {
            Stage::Fast => Some(RefreshMode::Fast),
            Stage::Partial => Some(RefreshMode::Partial),
            _ => None,
        }
    }

    /// The mode that the stage selects, if it selects one.
    pub fn mode(self) -> (mode: Option<RefreshMode>)
        ensures
            mode == self.selection(),
    {
        match self {
            Stage::Fast => Some(RefreshMode::Fast),
            Stage::Partial => Some(RefreshMode::Partial),
            _ => None,
        }
    }

    /// The stage ends with a refresh.
    pub open spec fn refreshes(self) -> bool {
        self == Stage::Full || self == Stage::Fast || self == Stage::Partial
    }

    /// How long to pause after the stage, given whether BUSY was seen asserted during it.
    pub fn pause_ms(self, busy_seen: bool) -> (ms: u32)
        ensures
            ms == if self.refreshes() && busy_seen {
                STAGE_PAUSE_MS
            } else {
                0
            },
            ms == 4_000 <==> busy_seen && (self == Stage::Full || self == Stage::Fast || self
                == Stage::Partial),
            !busy_seen || self == Stage::Sleep || self == Stage::Done || self == Stage::NoBusy
                ==> ms == 0,
    {
        match self {
            Stage::Full | Stage::Fast | Stage::Partial => if busy_seen {
                STAGE_PAUSE_MS
            } else {
                0
            },
            _ => 0,
        }
    }

    /// What the stage does, in order. Every stage but the first one starts a new deadline; the
    /// first one shares its deadline with the initialization of the panel.
    pub open spec fn task_list(self) -> Seq<Task> {
        match self {
            Stage::Full => seq![Task::DrawFull, Task::WriteFrame, Task::Refresh],
            Stage::Fast => seq![
                Task::RestartDeadline,
                Task::DrawBars,
                Task::Select(RefreshMode::Fast),
                Task::WriteFrame,
                Task::Refresh,
            ],
            Stage::Partial => seq![
                Task::RestartDeadline,
                Task::Select(RefreshMode::Partial),
                Task::WriteRegion,
                Task::Refresh,
            ],
            Stage::Sleep => seq![Task::RestartDeadline, Task::Sleep],
            Stage::Done | Stage::NoBusy => seq![],
        }
    }

    /// What the stage does, in order.
    pub fn tasks(self) -> (tasks: Vec<Task>)
        ensures
            tasks@ == self.task_list(),
    {
        let mut tasks: Vec<Task> = Vec::new();
        match self {
            Stage::Fast | Stage::Partial | Stage::Sleep => tasks.push(Task::RestartDeadline),
            _ => {},
        }
        match self {
            Stage::Full => tasks.push(Task::DrawFull),
            Stage::Fast => tasks.push(Task::DrawBars),
            _ => {},
        }
        if let Some(mode) = self.mode() {
            tasks.push(Task::Select(mode));
        }
        match self {
            Stage::Full | Stage::Fast => {
                tasks.push(Task::WriteFrame);
                tasks.push(Task::Refresh);
            },
            Stage::Partial => {
                tasks.push(Task::WriteRegion);
                tasks.push(Task::Refresh);
            },
            Stage::Sleep => tasks.push(Task::Sleep),
            Stage::Done | Stage::NoBusy => {},
        }
        assert(tasks@ =~= self.task_list());
        tasks
    }
}

/// One thing that a stage does.
#[derive(Clone, Copy, Debug, PartialEq, Eq, Structural)]
pub enum Task {
    /// Give the bus the time of another stage.
    RestartDeadline,
    /// Draw the image of the full refresh.
    DrawFull,
    /// Add the bars of the fast refresh.
    DrawBars,
    /// Select a mode.
    Select(RefreshMode),
    /// Write the image.
    WriteFrame,
    /// Write the striped rectangle.
    WriteRegion,
    /// Refresh the panel, and see whether it asserts BUSY.
    Refresh,
    /// Put the panel to sleep.
    Sleep,
}

impl Task {
    /// The image after the task.
    pub open spec fn drawn(self, frame: Seq<u8>) -> Seq<u8> {
        match self {
            Task::DrawFull => full_image(),
            Task::DrawBars => with_bars(frame),
            _ => frame,
        }
    }

    /// Does the drawing of the task, if it has any.
    pub fn draw(self, frame: &mut [u8])
        requires
            old(frame)@.len() == FRAME_BYTES,
        ensures
            final(frame)@ == self.drawn(old(frame)@),
    {
        match self {
            Task::DrawFull => draw_full(frame),
            Task::DrawBars => draw_bars(frame),
            _ => {},
        }
    }

    /// The driver's operation that the task calls, if any.
    pub open spec fn call(self, frame: Seq<u8>) -> Option<Call> {
        match self {
            Task::Select(mode) => Some(Call::SetRefreshMode(mode)),
            Task::WriteFrame => Some(Call::UpdateFrame(frame)),
            Task::WriteRegion => Some(Call::UpdatePartialFrame(striped_region(), region_window())),
            Task::Refresh => Some(Call::DisplayFrame),
            Task::Sleep => Some(Call::Sleep),
            _ => None,
        }
    }

    /// Plans the operation that the task calls, if any, on the image and the striped rectangle.
    pub fn plan<'a>(self, epd: &Epd7in5, frame: &'a [u8], region: &'a [u8]) -> (plan: Option<
        Plan<'a>,
    >)
        requires
            frame@.len() == FRAME_BYTES,
            region@ == striped_region(),
        ensures
            match self.call(frame@) {
                Some(call) => plan is Some && plan->0@ == call.steps(epd@),
                None => plan is None,
            },
    {
        match self {
            Task::Select(mode) => Some(epd.set_refresh_mode(mode)),
            Task::WriteFrame => Some(epd.update_frame(frame)),
            Task::WriteRegion => Some(
                epd.update_partial_frame(region, REGION_X, REGION_Y, REGION_WIDTH, REGION_HEIGHT),
            ),
            Task::Refresh => Some(epd.display_frame()),
            Task::Sleep => Some(epd.sleep()),
            Task::RestartDeadline | Task::DrawFull | Task::DrawBars => None,
        }
    }
}

/// A test under way: the driver, the panel and the image in memory.
pub struct Scene {
    pub state: DriverState,
    pub panel: Panel,
    pub frame: Seq<u8>,
}

impl Scene {
    /// The scene after the panel was initialized.
    pub open spec fn start(delay_us: Option<u32>, panel: Panel, frame: Seq<u8>) -> Self {
        Scene {
            state: DriverState::fresh(delay_us).after(protocol::init_steps()),
            panel: panel.after(protocol::init_steps()),
            frame,
        }
    }

    /// The scene after a task that succeeded.
    pub open spec fn performed(self, task: Task) -> Self {
        match task.call(self.frame) {
            Some(call) => Scene {
                state: call.outcome(self.state),
                panel: self.panel.after(call.steps(self.state)),
                ..self
            },
            None => Scene { frame: task.drawn(self.frame), ..self },
        }
    }

    /// The scene after all of the given tasks.
    pub open spec fn after(self, tasks: Seq<Task>) -> Self
        decreases tasks.len(),
    {
        if tasks.len() == 0 {
            self
        } else {
            self.after(tasks.drop_last()).performed(tasks.last())
        }
    }
}

/// A BUSY pin's level, with a memory of whether it was ever asserted.
pub struct BusyObserver {
    seen: bool,
}

impl BusyObserver {
    /// BUSY was asserted since the observer was last cleared.
    pub closed spec fn has_seen(self) -> bool {
        self.seen
    }

    /// An observer that has seen nothing.
    pub fn new() -> (observer: Self)
        ensures
            !observer.has_seen(),
    {
        BusyObserver { seen: false }
    }

    /// Notes a reading and hands it on.
    pub fn is_low(&mut self, low: bool) -> (reading: bool)
        ensures
            reading == low,
            final(self).has_seen() == (old(self).has_seen() || low),
    {
        if low {
            self.seen = true;
        }
        low
    }

    /// Notes a reading and tells whether it was high.
    pub fn is_high(&mut self, low: bool) -> (reading: bool)
        ensures
            reading == !low,
            final(self).has_seen() == (old(self).has_seen() || low),
    {
        !self.is_low(low)
    }

    /// Whether BUSY was seen asserted.
    pub fn seen(&self) -> (seen: bool)
        ensures
            seen == self.has_seen(),
    {
        self.seen
    }

    /// Forgets what was seen.
    pub fn clear(&mut self)
        ensures
            !final(self).has_seen(),
    {
        self.seen = false;
    }
}

/// A point in time from which on transfers are refused.
pub struct Deadline {
    at_us: u64,
}

impl Deadline {
    /// The point in time, in microseconds.
    pub closed spec fn at(self) -> u64 {
        self.at_us
    }

    /// The deadline of a stage that starts now.
    pub fn starting(now_us: u64) -> (deadline: Self)
        requires
            now_us + STAGE_LIMIT_US <= u64::MAX,
        ensures
            deadline.at() == now_us + STAGE_LIMIT_US,
            deadline.at() == now_us + 30_000_000,
    {
        Deadline { at_us: now_us + STAGE_LIMIT_US }
    }

    /// Whether a transfer is refused now.
    pub fn has_passed(&self, now_us: u64) -> (passed: bool)
        ensures
            passed == (now_us >= self.at()),
    {
        now_us >= self.at_us
    }
}

/// The bars leave every black part of the first image black.
pub proof fn law_bars_keep_border_and_box(i: int)
    requires
        0 <= i < FRAME_BYTES,
        full_image()[i] == 0x00,
    ensures
        with_bars(full_image())[i] == 0x00,
{
}

/// The striped rectangle covers nothing that was drawn before it.
pub proof fn law_region_covers_only_white(i: int)
    requires
        0 <= i < FRAME_BYTES,
        region_window().covers(i),
    ensures
        with_bars(full_image())[i] == 0xff,
{
}

/// One more task has its effect last.
proof fn lemma_after_tasks(scene: Scene, tasks: Seq<Task>, task: Task)
    ensures
        scene.after(tasks.push(task)) == scene.after(tasks).performed(task),
{
    assert(tasks.push(task).drop_last() =~= tasks);
}

/// On any panel, as long as every refresh asserts BUSY, the stages follow each other and show
/// the first image with the full waveform, then the same image with bars with the fast one, then
/// the same image with the striped rectangle with the differential one: nothing falls back, and
/// nothing outside the rectangle changes. Then the panel sleeps, with its image.
pub proof fn law_stages(delay_us: Option<u32>, panel: Panel, frame: Seq<u8>)
    ensures
        ({
            let first = Stage::Full;
            let second = first.successor(true);
            let third = second.successor(true);
            let fourth = third.successor(true);
            let s1 = Scene::start(delay_us, panel, frame).after(first.task_list());
            let s2 = s1.after(second.task_list());
            let s3 = s2.after(third.task_list());
            let s4 = s3.after(fourth.task_list());
            let bars = with_bars(full_image());
            &&& s1.panel.shown == Some(full_image())
            &&& s1.panel.waveform == Some(RefreshMode::Full)
            &&& s2.panel.shown == Some(bars)
            &&& s2.panel.waveform == second.selection()
            &&& s3.panel.shown == Some(panel::overlaid(bars, region_window(), striped_region()))
            &&& s3.panel.waveform == third.selection()
            &&& s4.panel.shown == s3.panel.shown
            &&& s4.panel.new_ram is None
            &&& s4.state.initial_refresh
            &&& fourth.successor(false) == Stage::Done
        }),
{
    let s0 = Scene::start(delay_us, panel, frame);
    laws::law_wake_up(DriverState::fresh(delay_us), panel);
    lemma_full_stage(s0);
    let s1 = s0.after(Stage::Full.task_list());
    lemma_fast_stage(s1);
    let s2 = s1.after(Stage::Fast.task_list());
    lemma_partial_stage(s2);
    let s3 = s2.after(Stage::Partial.task_list());
    let sleep = Seq::empty().push(Task::RestartDeadline).push(Task::Sleep);
    assert(Stage::Sleep.task_list() =~= sleep);
    lemma_after_tasks(s3, Seq::empty(), Task::RestartDeadline);
    lemma_after_tasks(s3, Seq::empty().push(Task::RestartDeadline), Task::Sleep);
    laws::law_sleep(s3.state, s3.panel);
}

/// The first stage shows its image with the selected waveform.
proof fn lemma_full_stage(scene: Scene)
    requires
        panel::in_sync(scene.state, scene.panel),
    ensures
        ({
            let end = scene.after(Stage::Full.task_list());
            &&& panel::in_sync(end.state, end.panel)
            &&& !end.state.initial_refresh
            &&& end.frame == full_image()
            &&& end.panel.shown == Some(full_image())
            &&& end.panel.waveform == Some(scene.state.effective_mode())
        }),
{
    let t1 = Seq::empty().push(Task::DrawFull);
    let t2 = t1.push(Task::WriteFrame);
    lemma_after_tasks(scene, Seq::empty(), Task::DrawFull);
    lemma_after_tasks(scene, t1, Task::WriteFrame);
    lemma_after_tasks(scene, t2, Task::Refresh);
    assert(Stage::Full.task_list() =~= t2.push(Task::Refresh));
    laws::law_update_frame(scene.state, scene.panel, full_image());
    laws::law_display_frame(scene.after(t2).state, scene.after(t2).panel);
}

/// The second stage shows its image with the fast waveform.
proof fn lemma_fast_stage(scene: Scene)
    requires
        panel::in_sync(scene.state, scene.panel),
        !scene.state.initial_refresh,
        scene.frame.len() == FRAME_BYTES,
    ensures
        ({
            let end = scene.after(Stage::Fast.task_list());
            &&& panel::in_sync(end.state, end.panel)
            &&& !end.state.initial_refresh
            &&& end.frame == with_bars(scene.frame)
            &&& end.panel.shown == Some(with_bars(scene.frame))
            &&& end.panel.new_ram == end.panel.shown
            &&& end.panel.waveform == Some(RefreshMode::Fast)
        }),
{
    let select = Task::Select(RefreshMode::Fast);
    let t1 = Seq::empty().push(Task::RestartDeadline);
    let t2 = t1.push(Task::DrawBars);
    let t3 = t2.push(select);
    let t4 = t3.push(Task::WriteFrame);
    lemma_after_tasks(scene, Seq::empty(), Task::RestartDeadline);
    lemma_after_tasks(scene, t1, Task::DrawBars);
    lemma_after_tasks(scene, t2, select);
    lemma_after_tasks(scene, t3, Task::WriteFrame);
    lemma_after_tasks(scene, t4, Task::Refresh);
    assert(Stage::Fast.task_list() =~= t4.push(Task::Refresh));
    laws::law_set_refresh_mode(scene.state, scene.panel, RefreshMode::Fast);
    laws::law_update_frame(scene.after(t3).state, scene.after(t3).panel, with_bars(scene.frame));
    laws::law_display_frame(scene.after(t4).state, scene.after(t4).panel);
}

/// The third stage shows the image before it with the striped rectangle on top, with the
/// differential waveform.
proof fn lemma_partial_stage(scene: Scene)
    requires
        panel::in_sync(scene.state, scene.panel),
        !scene.state.initial_refresh,
        scene.panel.new_ram is Some,
    ensures
        ({
            let end = scene.after(Stage::Partial.task_list());
            &&& panel::in_sync(end.state, end.panel)
            &&& end.panel.shown == Some(
                panel::overlaid(scene.panel.new_ram->0, region_window(), striped_region()),
            )
            &&& end.panel.waveform == Some(RefreshMode::Partial)
        }),
{
    let select = Task::Select(RefreshMode::Partial);
    let t1 = Seq::empty().push(Task::RestartDeadline);
    let t2 = t1.push(select);
    let t3 = t2.push(Task::WriteRegion);
    lemma_after_tasks(scene, Seq::empty(), Task::RestartDeadline);
    lemma_after_tasks(scene, t1, select);
    lemma_after_tasks(scene, t2, Task::WriteRegion);
    lemma_after_tasks(scene, t3, Task::Refresh);
    assert(Stage::Partial.task_list() =~= t3.push(Task::Refresh));
    laws::law_set_refresh_mode(scene.state, scene.panel, RefreshMode::Partial);
    let window = region_window();
    laws::law_update_partial_frame(
        scene.after(t2).state,
        scene.after(t2).panel,
        striped_region(),
        window.x,
        window.y,
        window.width,
        window.height,
    );
    laws::law_display_frame(scene.after(t3).state, scene.after(t3).panel);
}

/// The first image, pixel by pixel: black is a border of eight pixels all around and a box of
/// 160 by 80 pixels whose upper left corner is 40 pixels from both edges. All else is white.
pub proof fn law_full_image_pixels(x: int, y: int)
    requires
        0 <= x < 800,
        0 <= y < 480,
    ensures
        full_image().len() == 48_000,
        full_image()[y * 100 + x / 8] == if x < 8 || x >= 792 || y < 8 || y >= 472 || 40 <= x < 200
            && 40 <= y < 120 {
            0x00u8
        } else {
            0xffu8
        },
{
    let index = y * 100 + x / 8;
    assert(index / 100 == y && index % 100 == x / 8);
}

/// The bars, pixel by pixel, on any image: in an area of 320 by 160 pixels every other 16 columns
/// are black, beginning with the 17th, and the columns between them are white. Everything around
/// the area stays as it was.
pub proof fn law_bars_pixels(image: Seq<u8>, x: int, y: int)
    requires
        image.len() == 48_000,
        0 <= x < 800,
        0 <= y < 480,
    ensures
        with_bars(image).len() == 48_000,
        with_bars(image)[y * 100 + x / 8] == if 400 <= x < 720 && 40 <= y < 200 {
            if (x - 400) / 16 % 2 == 1 {
                0x00u8
            } else {
                0xffu8
            }
        } else {
            image[y * 100 + x / 8]
        },
{
    let index = y * 100 + x / 8;
    assert(index / 100 == y && index % 100 == x / 8);
    if 400 <= x < 720 {
        assert(x / 8 % 4 < 2 <==> (x - 400) / 16 % 2 == 1);
    }
}

/// The striped rectangle, pixel by pixel: ten white rows from the 35th on, and black ones around
/// them. It goes to column 320 and row 320.
pub proof fn law_striped_region_pixels(x: int, y: int)
    requires
        0 <= x < 160,
        0 <= y < 80,
    ensures
        striped_region().len() == 1_600,
        striped_region()[y * 20 + x / 8] == if 35 <= y < 45 {
            0xffu8
        } else {
            0x00u8
        },
        region_window() == (Window { x: 320, y: 320, width: 160, height: 80 }),
{
}

/// Only the two drawing tasks change the image in memory: one replaces it, whatever it was, and
/// the other one adds to it.
pub proof fn law_drawing_tasks(task: Task, frame: Seq<u8>)
    ensures
        task.drawn(frame) == match task {
            Task::DrawFull => full_image(),
            Task::DrawBars => with_bars(frame),
            _ => frame,
        },
{
}

/// What a task asks of the driver: the mode that it names, the image as it is, the striped
/// rectangle at its place, a refresh, or deep sleep. The others ask for nothing.
pub proof fn law_tasks_ask_for_their_operations(task: Task, frame: Seq<u8>, state: DriverState)
    ensures
        ({
            let steps = task.call(frame)->0.steps(state);
            match task {
                Task::Select(mode) => task.call(frame) is Some && steps
                    == protocol::set_refresh_mode_steps(mode),
                Task::WriteFrame => task.call(frame) is Some && steps == state.update_frame_steps(
                    frame,
                ),
                Task::WriteRegion => task.call(frame) is Some && steps
                    == state.update_partial_frame_steps(striped_region(), 320, 320, 160, 80),
                Task::Refresh => task.call(frame) is Some && steps == state.display_frame_steps(),
                Task::Sleep => task.call(frame) is Some && steps == protocol::sleep_steps(),
                Task::RestartDeadline | Task::DrawFull | Task::DrawBars => task.call(frame) is None,
            }
        }),
{
}

/// The order of the stages: full, fast, partial, sleep, as long as every refresh asserts BUSY. A
/// refresh that does not ends the test, and neither end is left again.
pub proof fn law_stage_order(stage: Stage, busy_seen: bool)
    ensures
        Stage::Full.successor(true) == Stage::Fast,
        Stage::Fast.successor(true) == Stage::Partial,
        Stage::Partial.successor(true) == Stage::Sleep,
        Stage::Sleep.successor(busy_seen) == Stage::Done,
        Stage::Done.successor(busy_seen) == Stage::Done,
        Stage::NoBusy.successor(busy_seen) == Stage::NoBusy,
        stage.refreshes() ==> stage.successor(false) == Stage::NoBusy,
        stage.refreshes() <==> stage.task_list().contains(Task::Refresh),
{
    let tasks = stage.task_list();
    match stage {
        Stage::Full => assert(tasks[2] == Task::Refresh),
        Stage::Fast => assert(tasks[4] == Task::Refresh),
        Stage::Partial => assert(tasks[3] == Task::Refresh),
        _ => {},
    }
}

/// What the stages are made of: a stage refreshes once, at its end, right after writing; a mode
/// is selected before that, namely the stage's own; and every stage but the first begins with
/// a new deadline and has no other.
pub proof fn law_stage_tasks(stage: Stage, i: int)
    requires
        0 <= i < stage.task_list().len(),
    ensures
        ({
            let tasks = stage.task_list();
            let last = tasks.len() - 1;
            &&& tasks[i] == Task::Refresh <==> stage != Stage::Sleep && i == last
            &&& tasks[i] == Task::WriteFrame <==> (stage == Stage::Full || stage == Stage::Fast)
                && i == last - 1
            &&& tasks[i] == Task::WriteRegion <==> stage == Stage::Partial && i == last - 1
            &&& tasks[i] is Select <==> (stage == Stage::Fast || stage == Stage::Partial) && i
                == last - 2
            &&& tasks[i] matches Task::Select(mode) ==> stage.selection() == Some(mode)
            &&& tasks[i] == Task::RestartDeadline <==> stage != Stage::Full && i == 0
            &&& tasks[i] == Task::DrawFull <==> stage == Stage::Full && i == 0
            &&& tasks[i] == Task::DrawBars <==> stage == Stage::Fast && i == 1
            &&& tasks[i] == Task::Sleep <==> stage == Stage::Sleep && i == last
            &&& stage.selection() == Some(RefreshMode::Fast) <==> stage == Stage::Fast
            &&& stage.selection() == Some(RefreshMode::Partial) <==> stage == Stage::Partial
            &&& stage.selection() != Some(RefreshMode::Full)
        }),
{
}

/// The limits of the test: 30 seconds for a stage, four between two stages, a millisecond between
/// polls.
pub proof fn law_limits()
    ensures
        STAGE_LIMIT_US == 30_000_000,
        STAGE_PAUSE_MS == 4_000,
        POLL_DELAY_US == 1_000,
        REGION_X == 320 && REGION_Y == 320,
        REGION_WIDTH == 160 && REGION_HEIGHT == 80,
        REGION_BYTES == 1_600,
{
}

} // verus!
