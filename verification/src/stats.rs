//! Training statistics: human-readable byte counts and the state that the
//! statistics panel keeps about a training run.
use vstd::prelude::*;
use crate::text::{decimal, decimal_string, push_decimal};

verus! {

/// `1000^e`.
pub open spec fn pow1000(e: nat) -> nat
    decreases e,
{
    if e == 0 {
        1
    } else {
        1000 * pow1000((e - 1) as nat)
    }
}

/// The SI prefix letter for `1000^e`.
pub open spec fn unit_prefix(e: nat) -> char {
    if e == 1 {
        'K'
    } else if e == 2 {
        'M'
    } else if e == 3 {
        'G'
    } else if e == 4 {
        'T'
    } else if e == 5 {
        'P'
    } else if e == 6 {
        'E'
    } else if e == 7 {
        'Z'
    } else {
        'Y'
    }
}

/// The unit exponent of a count whose base-1000 logarithm, computed in
/// floating point and rounded down, is `log_floor`: that exponent, but at
/// least 1 (kilobytes).
pub open spec fn exponent_of(log_floor: nat) -> nat {
    if log_floor == 0 {
        1
    } else {
        log_floor
    }
}

/// The text that `bytes_format` gives for `b` bytes: below 1000 the plain
/// count and `" B"`; otherwise `scaled` (the count divided by 1000 to the
/// unit exponent, printed with two decimals), a space, the unit's prefix
/// letter and `B`.
pub open spec fn bytes_text(b: nat, log_floor: nat, scaled: Seq<char>) -> Seq<char> {
    if b < 1000 {
        decimal(b) + seq![' ', 'B']
    } else {
        scaled + seq![' ', unit_prefix(exponent_of(log_floor)), 'B']
    }
}

fn prefix_letter(e: u64) -> (c: char)
    ensures
        c == unit_prefix(e as nat),
{
    match e {
        1 => 'K',
        2 => 'M',
        3 => 'G',
        4 => 'T',
        5 => 'P',
        6 => 'E',
        7 => 'Z',
        _ => 'Y',
    }
}

/// The unit exponent for a count whose floating-point base-1000 logarithm,
/// rounded down, is `log_floor`.
pub fn unit_exponent(log_floor: usize) -> (e: u32)
    requires
        log_floor <= 8,
    ensures
        e == exponent_of(log_floor as nat),
{
    if log_floor == 0 {
        1
    } else {
        log_floor as u32
    }
}

/// `1000^e`, the divisor of a count shown in units of exponent `e`.
pub fn unit_divisor(e: u32) -> (d: u64)
    requires
        e <= 6,
    ensures
        d == pow1000(e as nat),
{
    proof {
        reveal_with_fuel(pow1000, 7);
    }
    match e {
        0 => 1,
        1 => 1_000,
        2 => 1_000_000,
        3 => 1_000_000_000,
        4 => 1_000_000_000_000,
        5 => 1_000_000_000_000_000,
        _ => 1_000_000_000_000_000_000,
    }
}

/// Formats a byte count for display, in units of powers of 1000. The caller
/// gives the count's base-1000 logarithm rounded down (`log_floor`) and the
/// count divided by `unit_divisor(unit_exponent(log_floor))`, printed with
/// two decimals (`scaled`), both computed in floating point; they are used
/// only for counts of 1000 and more.
pub fn bytes_format(bytes: u64, log_floor: usize, scaled: &str) -> (s: String)
    requires
        log_floor <= 8,
    ensures
        s@ == bytes_text(bytes as nat, log_floor as nat, scaled@),
{
    let mut s = String::new();
    if bytes < 1000 {
        push_decimal(&mut s, bytes);
        s.push(' ');
        s.push('B');
    } else {
        s.append(scaled);
        s.push(' ');
        s.push(prefix_letter(unit_exponent(log_floor) as u64));
        s.push('B');
    }
    assert(s@ =~= bytes_text(bytes as nat, log_floor as nat, scaled@));
    s
}

/// The parts of a duration as humantime prints them, largest first: a value
/// and the unit written after it. Years are 365.25 days, months 30.44 days;
/// year, month and day take a plural `s` above one.
pub open spec fn duration_parts(secs: nat) -> Seq<(nat, Seq<char>)> {
    let years = secs / 31_557_600;
    let ydays = secs % 31_557_600;
    let months = ydays / 2_630_016;
    let mdays = ydays % 2_630_016;
    let days = mdays / 86400;
    let day_secs = mdays % 86400;
    seq![
        (years, if years > 1 { "years"@ } else { "year"@ }),
        (months, if months > 1 { "months"@ } else { "month"@ }),
        (days, if days > 1 { "days"@ } else { "day"@ }),
        (day_secs / 3600, "h"@),
        (day_secs % 3600 / 60, "m"@),
        (day_secs % 60, "s"@),
    ]
}

/// The parts with a value above zero, each as the value and its unit,
/// separated by single spaces (a space first when something was printed
/// already).
pub open spec fn render_parts(parts: Seq<(nat, Seq<char>)>, started: bool) -> Seq<char>
    decreases parts.len(),
{
    if parts.len() == 0 {
        Seq::empty()
    } else if parts[0].0 > 0 {
        (if started {
            seq![' ']
        } else {
            Seq::empty()
        }) + decimal(parts[0].0) + parts[0].1 + render_parts(parts.drop_first(), true)
    } else {
        render_parts(parts.drop_first(), started)
    }
}

/// What `humantime::format_duration` prints for a duration of `secs` whole
/// seconds (its source, `FormattedDuration`'s `Display`): `"0s"` for zero, otherwise its non-zero parts.
pub open spec fn humantime_text(secs: u64) -> Seq<char> {
    if secs == 0 {
        seq!['0', 's']
    } else {
        render_parts(duration_parts(secs as nat), false)
    }
}

/// `humantime::format_duration` on a duration of `secs` whole seconds,
/// printed.
#[verifier::external_body]
fn format_duration_secs(secs: u64) -> (s: String)
    ensures
        s@ == humantime_text(secs),
{
    format!("{}", humantime::format_duration(std::time::Duration::from_secs(secs)))
}

/// A message of the training process, as far as the statistics panel reads
/// it.
pub enum StatsMessage {
    /// A new process was started.
    NewProcess,
    /// Loading of a dataset or splat file started.
    StartLoading,
    /// New splats are available to show.
    SplatsUpdated,
    /// A training step finished: its number and the whole seconds spent
    /// training so far.
    TrainStep { iter: u32, total_elapsed_secs: u64 },
    /// The dataset was loaded: its number of training views and, when there
    /// is an evaluation split, its number of views.
    Dataset { train_views: usize, eval_views: Option<usize> },
    /// An evaluation finished, with its summary line.
    EvalResult { summary: String },
    /// Training is finished.
    DoneTraining,
    /// Any other message.
    Other,
}

/// What the statistics panel remembers of a training run.
pub struct StatsPanel {
    /// Summary of the last evaluation.
    pub last_eval: Option<String>,
    /// Frames shown.
    pub frames: u32,
    /// Whole seconds spent training and the number of the last training
    /// step.
    pub last_train_step: (u64, u32),
    /// Number of training views and of evaluation views.
    pub train_eval_views: (u32, u32),
    /// Whether training finished.
    pub training_complete: bool,
}

/// The panel of a run that has not started.
pub open spec fn initial_panel() -> StatsPanel {
    StatsPanel {
        last_eval: None,
        frames: 0,
        last_train_step: (0, 0),
        train_eval_views: (0, 0),
        training_complete: false,
    }
}

impl Default for StatsPanel {
    fn default() -> (p: Self)
        ensures
            p == initial_panel(),
    {
        StatsPanel {
            last_eval: None,
            frames: 0,
            last_train_step: (0, 0),
            train_eval_views: (0, 0),
            training_complete: false,
        }
    }
}

impl StatsPanel {
    /// The panel after `message`: a new process resets everything; a new
    /// load forgets the last evaluation; a training step records its time and
    /// number; a dataset records its view counts (no evaluation split counts
    /// as zero); an evaluation records its summary; the end of training is
    /// recorded; other messages change nothing.
    pub open spec fn after(self, message: StatsMessage) -> StatsPanel {
        match message {
            StatsMessage::NewProcess => StatsPanel {
                last_eval: None,
                frames: 0,
                last_train_step: (0, 0),
                train_eval_views: (0, 0),
                training_complete: false,
                ..self
            },
            StatsMessage::StartLoading => StatsPanel { last_eval: None, ..self },
            StatsMessage::TrainStep { iter, total_elapsed_secs } => StatsPanel {
                last_train_step: (total_elapsed_secs, iter),
                ..self
            },
            StatsMessage::Dataset { train_views, eval_views } => StatsPanel {
                train_eval_views: (
                    train_views as u32,
                    match eval_views {
                        Some(n) => n as u32,
                        None => 0,
                    },
                ),
                ..self
            },
            StatsMessage::EvalResult { summary } => StatsPanel { last_eval: Some(summary), ..self },
            StatsMessage::DoneTraining => StatsPanel { training_complete: true, ..self },
            _ => self,
        }
    }

    /// Updates the panel with a message of the training process.
    pub fn on_message(&mut self, message: StatsMessage)
        ensures
            *final(self) == old(self).after(message),
    {
        match message {
            StatsMessage::NewProcess => {
                self.last_eval = None;
                self.frames = 0;
                self.last_train_step = (0, 0);
                self.train_eval_views = (0, 0);
                self.training_complete = false;
            },
            StatsMessage::StartLoading => {
                self.last_eval = None;
            },
            StatsMessage::SplatsUpdated => {},
            StatsMessage::TrainStep { iter, total_elapsed_secs } => {
                self.last_train_step = (total_elapsed_secs, iter);
            },
            StatsMessage::Dataset { train_views, eval_views } => {
                let eval: u32 = match eval_views {
                    Some(n) => n as u32,
                    None => 0,
                };
                self.train_eval_views = (train_views as u32, eval);
            },
            StatsMessage::EvalResult { summary } => {
                self.last_eval = Some(summary);
            },
            StatsMessage::DoneTraining => {
                self.training_complete = true;
            },
            StatsMessage::Other => {},
        }
    }
}

/// The text of a list of label / value rows.
pub open spec fn rows_text(rows: Seq<(String, String)>) -> Seq<(Seq<char>, Seq<char>)> {
    rows.map_values(|r: (String, String)| (r.0@, r.1@))
}

fn row(label: &str, value: String) -> (r: (String, String))
    ensures
        r.0@ == label@,
        r.1@ == value@,
{
    (String::from_str(label), value)
}

impl StatsPanel {
    /// The heading of the model section.
    pub open spec fn heading_text(self) -> Seq<char> {
        if self.training_complete {
            "Final Model Stats"@
        } else {
            "Model Stats"@
        }
    }

    /// The heading of the model section.
    pub fn heading(&self) -> (s: String)
        ensures
            s@ == self.heading_text(),
    {
        if self.training_complete {
            String::from_str("Final Model Stats")
        } else {
            String::from_str("Model Stats")
        }
    }

    /// The model rows: splat count and SH degree, and the frames shown once
    /// there are any.
    pub open spec fn model_rows_text(self, num_splats: u64, sh_degree: u32) -> Seq<
        (Seq<char>, Seq<char>),
    > {
        let base = seq![
            ("Splats"@, decimal(num_splats as nat)),
            ("SH Degree"@, decimal(sh_degree as nat)),
        ];
        if self.frames > 0 {
            base.push(("Frames"@, decimal(self.frames as nat)))
        } else {
            base
        }
    }

    /// The model rows, for a model of `num_splats` splats of degree
    /// `sh_degree`.
    pub fn model_stat_rows(&self, num_splats: u64, sh_degree: u32) -> (rows: Vec<(String, String)>)
        ensures
            rows_text(rows@) == self.model_rows_text(num_splats, sh_degree),
    {
        let mut rows: Vec<(String, String)> = Vec::new();
        rows.push(row("Splats", decimal_string(num_splats)));
        rows.push(row("SH Degree", decimal_string(sh_degree as u64)));
        if self.frames > 0 {
            rows.push(row("Frames", decimal_string(self.frames as u64)));
        }
        assert(rows_text(rows@) =~= self.model_rows_text(num_splats, sh_degree));
        rows
    }

    /// The training rows: last step, last evaluation (`--` before the
    /// first), training time, and the view counts.
    pub open spec fn training_rows_text(self) -> Seq<(Seq<char>, Seq<char>)> {
        seq![
            ("Train step"@, decimal(self.last_train_step.1 as nat)),
            (
                "Last eval"@,
                match self.last_eval {
                    Some(e) => e@,
                    None => "--"@,
                },
            ),
            ("Training time"@, humantime_text(self.last_train_step.0)),
            ("Dataset views"@, decimal(self.train_eval_views.0 as nat)),
            ("Dataset eval views"@, decimal(self.train_eval_views.1 as nat)),
        ]
    }

    /// The training rows.
    pub fn training_stat_rows(&self) -> (rows: Vec<(String, String)>)
        ensures
            rows_text(rows@) == self.training_rows_text(),
    {
        let mut rows: Vec<(String, String)> = Vec::new();
        rows.push(row("Train step", decimal_string(self.last_train_step.1 as u64)));
        let last_eval = match &self.last_eval {
            Some(e) => e.clone(),
            None => String::from_str("--"),
        };
        rows.push(row("Last eval", last_eval));
        rows.push(row("Training time", format_duration_secs(self.last_train_step.0)));
        rows.push(row("Dataset views", decimal_string(self.train_eval_views.0 as u64)));
        rows.push(row("Dataset eval views", decimal_string(self.train_eval_views.1 as u64)));
        assert(rows_text(rows@) =~= self.training_rows_text());
        rows
    }
}

/// The GPU memory rows.
pub open spec fn memory_rows_text(
    bytes_in_use: Seq<char>,
    bytes_reserved: Seq<char>,
    allocations: u64,
) -> Seq<(Seq<char>, Seq<char>)> {
    seq![
        ("Bytes in use"@, bytes_in_use),
        ("Bytes reserved"@, bytes_reserved),
        ("Active allocations"@, decimal(allocations as nat)),
    ]
}

/// The GPU memory rows: bytes in use and reserved (as `bytes_format` shows
/// them), and active allocations.
pub fn memory_stat_rows(bytes_in_use: String, bytes_reserved: String, allocations: u64) -> (rows:
    Vec<(String, String)>)
    ensures
        rows_text(rows@) == memory_rows_text(bytes_in_use@, bytes_reserved@, allocations),
{
    let ghost in_use = bytes_in_use@;
    let ghost reserved = bytes_reserved@;
    let mut rows: Vec<(String, String)> = Vec::new();
    rows.push(row("Bytes in use", bytes_in_use));
    rows.push(row("Bytes reserved", bytes_reserved));
    rows.push(row("Active allocations", decimal_string(allocations)));
    assert(rows_text(rows@) =~= memory_rows_text(in_use, reserved, allocations));
    rows
}

/// The GPU information rows: adapter name, device type, and the driver
/// with its details.
pub open spec fn gpu_rows_text(
    name: Seq<char>,
    device_type: Seq<char>,
    driver: Seq<char>,
    driver_info: Seq<char>,
) -> Seq<(Seq<char>, Seq<char>)> {
    seq![("Name"@, name), ("Type"@, device_type), ("Driver"@, driver + ", "@ + driver_info)]
}

/// The GPU information rows of an adapter, given its name, its device type
/// as printed, its driver and the driver's details.
pub fn gpu_info_rows(name: &str, device_type: &str, driver: &str, driver_info: &str) -> (rows: Vec<
    (String, String),
>)
    ensures
        rows_text(rows@) == gpu_rows_text(name@, device_type@, driver@, driver_info@),
{
    let mut rows: Vec<(String, String)> = Vec::new();
    rows.push(row("Name", String::from_str(name)));
    rows.push(row("Type", String::from_str(device_type)));
    let mut d = String::from_str(driver);
    d.append(", ");
    d.append(driver_info);
    rows.push(row("Driver", d));
    assert(rows_text(rows@) =~= gpu_rows_text(name@, device_type@, driver@, driver_info@));
    rows
}

/// A part of the stats panel.
#[derive(Clone, Copy, Debug, PartialEq, Eq, Structural)]
pub enum PanelSection {
    /// The model heading and rows.
    ModelStats,
    /// The "Training Stats" heading and rows.
    TrainingStats,
    /// The "GPU" heading and the memory rows.
    GpuMemory,
    /// The adapter information rows, under the GPU memory rows.
    GpuInfo,
}

/// The sections the panel shows, in order: the model always; the training
/// stats while a training runs; the GPU memory when a device is known, and
/// under it the adapter information when it is known and the panel does not
/// run on the web, where it is mostly private.
pub open spec fn sections_shown(
    is_training: bool,
    has_device: bool,
    on_web: bool,
    has_adapter_info: bool,
) -> Seq<PanelSection> {
    seq![PanelSection::ModelStats] + (if is_training {
        seq![PanelSection::TrainingStats]
    } else {
        Seq::empty()
    }) + (if has_device {
        seq![PanelSection::GpuMemory] + (if !on_web && has_adapter_info {
            seq![PanelSection::GpuInfo]
        } else {
            Seq::empty()
        })
    } else {
        Seq::empty()
    })
}

/// The sections the panel shows, given whether a training runs, whether a
/// device and its adapter information are known, and whether the panel runs
/// on the web.
pub fn panel_sections(is_training: bool, has_device: bool, on_web: bool, has_adapter_info: bool) -> (r:
    Vec<PanelSection>)
    ensures
        r@ == sections_shown(is_training, has_device, on_web, has_adapter_info),
{
    let mut r: Vec<PanelSection> = Vec::new();
    r.push(PanelSection::ModelStats);
    if is_training {
        r.push(PanelSection::TrainingStats);
    }
    if has_device {
        r.push(PanelSection::GpuMemory);
        if !on_web && has_adapter_info {
            r.push(PanelSection::GpuInfo);
        }
    }
    assert(r@ =~= sections_shown(is_training, has_device, on_web, has_adapter_info));
    r
}

/// A new process resets the panel to the state of a run that has not
/// started, whatever it held before.
pub proof fn law_new_process_resets(panel: StatsPanel)
    ensures
        panel.after(StatsMessage::NewProcess) == initial_panel(),
{
}

/// Counts below 1000 are shown in plain bytes, whatever the floating-point
/// pieces; every count is shown with a `B` unit at the end, and from 1000 on
/// with the prefix of at least kilobytes.
pub proof fn law_bytes_text_unit(b: nat, log_floor: nat, scaled: Seq<char>)
    ensures
        b < 1000 ==> bytes_text(b, log_floor, scaled) == decimal(b) + seq![' ', 'B'],
        bytes_text(b, log_floor, scaled).last() == 'B',
        b >= 1000 ==> exponent_of(log_floor) >= 1,
{
}

/// From 1000 bytes on, the text is the scaled count, a space, and the unit:
/// `KB` when the logarithm rounds down to 0 or 1, then `MB`, `GB`, `TB`,
/// `PB` and `EB` for 2 to 6.
pub proof fn law_bytes_text_prefix(b: nat, log_floor: nat, scaled: Seq<char>)
    requires
        b >= 1000,
        log_floor <= 6,
    ensures
        bytes_text(b, log_floor, scaled) == scaled + seq![' ', "KKMGTPE"@[log_floor as int], 'B'],
{
    reveal_strlit("KKMGTPE");
}

/// An evaluation result replaces whatever summary the panel showed, and
/// changes nothing else; of two results in a row the second is shown.
pub proof fn law_eval_result_is_shown(panel: StatsPanel, summary: String, next: String)
    ensures
        panel.after(StatsMessage::EvalResult { summary }).last_eval == Some(summary),
        panel.after(StatsMessage::EvalResult { summary }).frames == panel.frames,
        panel.after(StatsMessage::EvalResult { summary }).last_train_step == panel.last_train_step,
        panel.after(StatsMessage::EvalResult { summary }).train_eval_views == panel.train_eval_views,
        panel.after(StatsMessage::EvalResult { summary }).training_complete == panel.training_complete,
        panel.after(StatsMessage::EvalResult { summary }).after(
            StatsMessage::EvalResult { summary: next },
        ).last_eval == Some(next),
{
}

/// Starting to load forgets the last evaluation and changes nothing else.
pub proof fn law_start_loading_forgets_eval(panel: StatsPanel)
    ensures
        panel.after(StatsMessage::StartLoading).last_eval is None,
        panel.after(StatsMessage::StartLoading).frames == panel.frames,
        panel.after(StatsMessage::StartLoading).last_train_step == panel.last_train_step,
        panel.after(StatsMessage::StartLoading).train_eval_views == panel.train_eval_views,
        panel.after(StatsMessage::StartLoading).training_complete == panel.training_complete,
{
}

/// A training step records its time and number, and changes nothing else.
pub proof fn law_train_step_recorded(panel: StatsPanel, iter: u32, total_elapsed_secs: u64)
    ensures
        ({
            let q = panel.after(StatsMessage::TrainStep { iter, total_elapsed_secs });
            &&& q.last_train_step.0 == total_elapsed_secs
            &&& q.last_train_step.1 == iter
            &&& q.last_eval == panel.last_eval
            &&& q.frames == panel.frames
            &&& q.train_eval_views == panel.train_eval_views
            &&& q.training_complete == panel.training_complete
        }),
{
}

/// A dataset records its view counts, cut to 32 bits, with no evaluation
/// split counted as zero, and changes nothing else.
pub proof fn law_dataset_views_recorded(panel: StatsPanel, train_views: usize, eval_views: Option<usize>)
    ensures
        ({
            let q = panel.after(StatsMessage::Dataset { train_views, eval_views });
            &&& q.train_eval_views.0 as int == train_views as int % 0x1_0000_0000
            &&& q.train_eval_views.1 as int == match eval_views {
                Some(n) => n as int % 0x1_0000_0000,
                None => 0,
            }
            &&& q.last_eval == panel.last_eval
            &&& q.frames == panel.frames
            &&& q.last_train_step == panel.last_train_step
            &&& q.training_complete == panel.training_complete
        }),
{
    lemma_u32_cut(train_views);
    if let Some(n) = eval_views {
        lemma_u32_cut(n);
    }
}

proof fn lemma_u32_cut(x: usize)
    ensures
        (x as u32) as int == x as int % 0x1_0000_0000,
{
    let y: u64 = x as u64;
    assert((y as u32) as u64 == y % 0x1_0000_0000) by (bit_vector);
    assert(x as u32 == y as u32);
}

/// The end of training is recorded and nothing else changes; a new process
/// clears it again.
pub proof fn law_done_training_recorded(panel: StatsPanel)
    ensures
        ({
            let q = panel.after(StatsMessage::DoneTraining);
            &&& q.training_complete
            &&& q.last_eval == panel.last_eval
            &&& q.frames == panel.frames
            &&& q.last_train_step == panel.last_train_step
            &&& q.train_eval_views == panel.train_eval_views
            &&& !q.after(StatsMessage::NewProcess).training_complete
        }),
{
}

/// New splats and other messages leave the panel as it is.
pub proof fn law_other_messages_change_nothing(panel: StatsPanel)
    ensures
        panel.after(StatsMessage::SplatsUpdated) == panel,
        panel.after(StatsMessage::Other) == panel,
{
}

/// The model section always comes first; the training section is shown
/// exactly while a training runs; the GPU memory section exactly when a
/// device is known; the adapter information exactly when a device and its
/// information are known and the panel is not on the web, and then right
/// under the GPU memory; no section is shown twice.
pub proof fn law_panel_sections(is_training: bool, has_device: bool, on_web: bool, has_adapter_info: bool)
    ensures
        ({
            let s = sections_shown(is_training, has_device, on_web, has_adapter_info);
            &&& s.len() > 0 && s[0] == PanelSection::ModelStats
            &&& s.contains(PanelSection::TrainingStats) <==> is_training
            &&& s.contains(PanelSection::GpuMemory) <==> has_device
            &&& s.contains(PanelSection::GpuInfo) <==> (has_device && !on_web && has_adapter_info)
            &&& on_web ==> !s.contains(PanelSection::GpuInfo)
            &&& s.no_duplicates()
            &&& forall|k: int|
                0 <= k < s.len() && #[trigger] s[k] == PanelSection::GpuInfo ==> k > 0 && s[k - 1]
                    == PanelSection::GpuMemory
            &&& forall|k: int|
                0 <= k < s.len() && #[trigger] s[k] == PanelSection::TrainingStats ==> k == 1
        }),
{
    let s = sections_shown(is_training, has_device, on_web, has_adapter_info);
    let m = PanelSection::ModelStats;
    let t = PanelSection::TrainingStats;
    let g = PanelSection::GpuMemory;
    let i = PanelSection::GpuInfo;
    if is_training {
        if has_device {
            if !on_web && has_adapter_info {
                assert(s =~= seq![m, t, g, i]);
                assert(s[1] == t && s[2] == g && s[3] == i);
            } else {
                assert(s =~= seq![m, t, g]);
                assert(s[1] == t && s[2] == g);
            }
        } else {
            assert(s =~= seq![m, t]);
            assert(s[1] == t);
        }
    } else {
        if has_device {
            if !on_web && has_adapter_info {
                assert(s =~= seq![m, g, i]);
                assert(s[1] == g && s[2] == i);
            } else {
                assert(s =~= seq![m, g]);
                assert(s[1] == g);
            }
        } else {
            assert(s =~= seq![m]);
        }
    }
}

/// The model section is headed "Final Model Stats" once training finished
/// and "Model Stats" before.
pub proof fn law_heading_tells_completion(panel: StatsPanel)
    ensures
        panel.training_complete ==> panel.heading_text() == "Final Model Stats"@,
        !panel.training_complete ==> panel.heading_text() == "Model Stats"@,
{
}

/// The model rows show the splat count and the SH degree in decimal, and a
/// third row with the frames shown exactly when there are any.
pub proof fn law_model_rows(panel: StatsPanel, num_splats: u64, sh_degree: u32)
    ensures
        ({
            let rows = panel.model_rows_text(num_splats, sh_degree);
            &&& rows.len() == if panel.frames > 0 { 3int } else { 2int }
            &&& rows[0] == ("Splats"@, decimal(num_splats as nat))
            &&& rows[1] == ("SH Degree"@, decimal(sh_degree as nat))
            &&& panel.frames > 0 ==> rows[2] == ("Frames"@, decimal(panel.frames as nat))
        }),
{
}

/// The training rows show the last step's number, the last evaluation's
/// summary (`--` before the first), the training time as humantime prints
/// it, and the two view counts, in that order.
pub proof fn law_training_rows(panel: StatsPanel)
    ensures
        ({
            let rows = panel.training_rows_text();
            &&& rows.len() == 5
            &&& rows[0] == ("Train step"@, decimal(panel.last_train_step.1 as nat))
            &&& panel.last_eval is None ==> rows[1] == ("Last eval"@, "--"@)
            &&& panel.last_eval is Some ==> rows[1] == ("Last eval"@, panel.last_eval->0@)
            &&& rows[2] == ("Training time"@, humantime_text(panel.last_train_step.0))
            &&& rows[3] == ("Dataset views"@, decimal(panel.train_eval_views.0 as nat))
            &&& rows[4] == ("Dataset eval views"@, decimal(panel.train_eval_views.1 as nat))
        }),
{
}

/// Under a minute humantime prints the seconds alone; a whole number of
/// minutes under an hour prints the minutes alone; a whole number of hours
/// under a day prints the hours alone.
pub proof fn law_humantime_short_durations(secs: u64)
    ensures
        0 < secs < 60 ==> humantime_text(secs) == decimal(secs as nat) + "s"@,
        0 < secs < 3600 && secs % 60 == 0 ==> humantime_text(secs) == decimal((secs / 60) as nat)
            + "m"@,
        0 < secs < 86400 && secs % 3600 == 0 ==> humantime_text(secs) == decimal(
            (secs / 3600) as nat,
        ) + "h"@,
{
    reveal_with_fuel(render_parts, 7);
    let parts = duration_parts(secs as nat);
    if 0 < secs < 86400 {
        assert(parts[0].0 == 0 && parts[1].0 == 0 && parts[2].0 == 0);
        assert(parts.drop_first().drop_first().drop_first() =~= seq![
            (secs as nat / 3600, "h"@),
            (secs as nat % 3600 / 60, "m"@),
            (secs as nat % 60, "s"@),
        ]);
        let tail = parts.drop_first().drop_first().drop_first();
        assert(render_parts(parts, false) == render_parts(tail, false));
        let last = seq![(secs as nat % 60, "s"@)];
        assert(tail.drop_first().drop_first() =~= last);
        assert(last.drop_first() =~= Seq::<(nat, Seq<char>)>::empty());
        if secs < 60 {
            assert(render_parts(last, false) =~= decimal(secs as nat) + "s"@);
        } else if secs < 3600 && secs % 60 == 0 {
            let mins = seq![(secs as nat % 3600 / 60, "m"@), (secs as nat % 60, "s"@)];
            assert(tail.drop_first() =~= mins);
            assert(mins.drop_first() =~= last);
            assert(render_parts(mins, false) =~= decimal((secs / 60) as nat) + "m"@);
        } else if secs % 3600 == 0 {
            assert(render_parts(tail, false) =~= decimal((secs / 3600) as nat) + "h"@);
        }
    }
}

/// The GPU rows show the adapter's name, its device type, and its driver
/// followed by a comma, a space and the driver's details.
pub proof fn law_gpu_rows(name: Seq<char>, device_type: Seq<char>, driver: Seq<char>, driver_info: Seq<char>)
    ensures
        ({
            let rows = gpu_rows_text(name, device_type, driver, driver_info);
            &&& rows.len() == 3
            &&& rows[0] == ("Name"@, name)
            &&& rows[1] == ("Type"@, device_type)
            &&& rows[2].0 == "Driver"@
            &&& rows[2].1.len() == driver.len() + 2 + driver_info.len()
            &&& rows[2].1.subrange(0, driver.len() as int) == driver
            &&& rows[2].1.subrange(driver.len() as int, driver.len() as int + 2) == ", "@
            &&& rows[2].1.subrange(driver.len() as int + 2, rows[2].1.len() as int) == driver_info
        }),
{
    reveal_strlit(", ");
    let d = driver + ", "@ + driver_info;
    assert(d.subrange(0, driver.len() as int) =~= driver);
    assert(d.subrange(driver.len() as int, driver.len() as int + 2) =~= ", "@);
    assert(d.subrange(driver.len() as int + 2, d.len() as int) =~= driver_info);
}

} // verus!
