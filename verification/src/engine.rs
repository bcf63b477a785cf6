//! Preparing the playback engine: the steps, in order, that turn a
//! configuration into a running engine.

use vstd::prelude::*;

verus! {

/// The video height asked for when nothing else is configured.
pub const DEFAULT_RESOLUTION: u64 = 720;

/// The character for a single decimal digit.
pub open spec fn digit(d: nat) -> char
    recommends
        d < 10,
{
    (0x30 + d) as u8 as char
}

/// The decimal notation of `n`, without sign or leading zeros.
pub open spec fn decimal(n: nat) -> Seq<char>
    decreases n,
{
    if n < 10 {
        seq![digit(n)]
    } else {
        decimal(n / 10).push(digit(n % 10))
    }
}

/// The expression by which the downloader picks its streams: the best video
/// of exactly the given height, with the best audio.
pub open spec fn format_selector(resolution: nat) -> Seq<char> {
    "bestvideo[height="@ + decimal(resolution) + "]+bestaudio"@
}

fn digit_text(d: u64) -> (text: &'static str)
    requires
        d < 10,
    ensures
        text@ == seq![digit(d as nat)],
{
    proof {
        reveal_strlit("0");
        reveal_strlit("1");
        reveal_strlit("2");
        reveal_strlit("3");
        reveal_strlit("4");
        reveal_strlit("5");
        reveal_strlit("6");
        reveal_strlit("7");
        reveal_strlit("8");
        reveal_strlit("9");
    }
    if d == 0 {
        "0"
    } else if d == 1 {
        "1"
    } else if d == 2 {
        "2"
    } else if d == 3 {
        "3"
    } else if d == 4 {
        "4"
    } else if d == 5 {
        "5"
    } else if d == 6 {
        "6"
    } else if d == 7 {
        "7"
    } else if d == 8 {
        "8"
    } else {
        "9"
    }
}

/// Writes `n` in decimal.
pub fn decimal_text(n: u64) -> (text: String)
    ensures
        text@ == decimal(n as nat),
{
    let mut text = String::from_str(digit_text(n % 10));
    let mut rest: u64 = n / 10;
    while rest > 0
        invariant
            rest > 0 ==> decimal(n as nat) == decimal(rest as nat) + text@,
            rest == 0 ==> decimal(n as nat) == text@,
        decreases rest,
    {
        text = String::from_str(digit_text(rest % 10)).concat(text.as_str());
        rest = rest / 10;
    }
    text
}

/// What the engine is to be set up with.
#[derive(Debug, PartialEq, Eq)]
pub struct EngineConfig {
    /// Whether to ask for hardware decoding.
    pub hardware_decoding: bool,
    /// The video height to ask the downloader for.
    pub resolution: u64,
    /// Whether the alternate downloader helper was found on this system.
    pub helper_present: bool,
    /// Further options, as pairs of name and value, applied last.
    pub extra: Vec<(String, String)>,
}

/// A configuration as plain values.
pub ghost struct EngineConfigView {
    pub hardware_decoding: bool,
    pub resolution: nat,
    pub helper_present: bool,
    pub extra: Seq<(Seq<char>, Seq<char>)>,
}

impl View for EngineConfig {
    type V = EngineConfigView;

    open spec fn view(&self) -> EngineConfigView {
        EngineConfigView {
            hardware_decoding: self.hardware_decoding,
            resolution: self.resolution as nat,
            helper_present: self.helper_present,
            extra: self.extra.deep_view(),
        }
    }
}

/// One step of setting the engine up.
#[derive(Debug, PartialEq, Eq)]
pub enum SetupStep {
    /// Ask the engine to decode in hardware where it can.
    TryHardwareDecoding,
    /// Set the option `name` to `value`.
    SetOption { name: String, value: String },
}

/// A setup step as plain text.
pub ghost enum SetupStepView {
    TryHardwareDecoding,
    SetOption { name: Seq<char>, value: Seq<char> },
}

impl View for SetupStep {
    type V = SetupStepView;

    open spec fn view(&self) -> SetupStepView {
        match self {
            SetupStep::TryHardwareDecoding => SetupStepView::TryHardwareDecoding,
            SetupStep::SetOption { name, value } => SetupStepView::SetOption {
                name: name@,
                value: value@,
            },
        }
    }
}

/// The step that sets `name` to `value`.
pub open spec fn set_option(name: Seq<char>, value: Seq<char>) -> SetupStepView {
    SetupStepView::SetOption { name, value }
}

/// The request for hardware decoding, where the configuration has it.
pub open spec fn decoding_steps(config: EngineConfigView) -> Seq<SetupStepView> {
    if config.hardware_decoding {
        seq![SetupStepView::TryHardwareDecoding]
    } else {
        Seq::empty()
    }
}

/// The options that keep the engine alive between items and let it fetch
/// remote media at the configured height.
pub open spec fn playback_steps(config: EngineConfigView) -> Seq<SetupStepView> {
    seq![
        set_option("keep-open"@, "yes"@),
        set_option("idle"@, "yes"@),
        set_option("ytdl"@, "yes"@),
        set_option("ytdl-format"@, format_selector(config.resolution)),
    ]
}

/// The option that points the engine at the alternate downloader helper,
/// where that helper is present.
pub open spec fn helper_steps(config: EngineConfigView) -> Seq<SetupStepView> {
    if config.helper_present {
        seq![set_option("script-opts"@, "ytdl_hook-ytdl_path=yt-dlp"@)]
    } else {
        Seq::empty()
    }
}

/// The options for the window, the on-screen controls and prefetching.
pub open spec fn window_steps() -> Seq<SetupStepView> {
    seq![
        set_option("force-window"@, "immediate"@),
        set_option("osc"@, "yes"@),
        set_option("prefetch-playlist"@, "yes"@),
    ]
}

/// The configuration's further options, each as a step, in their order.
pub open spec fn extra_steps(config: EngineConfigView) -> Seq<SetupStepView> {
    Seq::new(config.extra.len(), |i: int| set_option(config.extra[i].0, config.extra[i].1))
}

/// Everything that is done to an engine before it is started, in order.
pub open spec fn setup_plan(config: EngineConfigView) -> Seq<SetupStepView> {
    decoding_steps(config) + playback_steps(config) + helper_steps(config) + window_steps()
        + extra_steps(config)
}

/// The steps of `steps` as plain text.
pub open spec fn plan_view(steps: Seq<SetupStep>) -> Seq<SetupStepView> {
    Seq::new(steps.len(), |i: int| steps[i]@)
}

fn option_step(name: &str, value: &str) -> (step: SetupStep)
    ensures
        step@ == set_option(name@, value@),
{
    SetupStep::SetOption { name: String::from_str(name), value: String::from_str(value) }
}

impl EngineConfig {
    /// The configuration that is used when nothing is asked for: hardware
    /// decoding, the default height, no further options.
    pub fn standard(helper_present: bool) -> (config: EngineConfig)
        ensures
            config@ == (EngineConfigView {
                hardware_decoding: true,
                resolution: DEFAULT_RESOLUTION as nat,
                helper_present,
                extra: Seq::empty(),
            }),
    {
        let config = EngineConfig {
            hardware_decoding: true,
            resolution: DEFAULT_RESOLUTION,
            helper_present,
            extra: Vec::new(),
        };
        assert(config@.extra =~= Seq::empty());
        config
    }

    /// Lays out the steps that set the engine up as configured. A driver
    /// carries them out in order and gives up at the first that fails.
    pub fn plan(&self) -> (steps: Vec<SetupStep>)
        ensures
            plan_view(steps@) == setup_plan(self@),
    {
        let mut steps: Vec<SetupStep> = Vec::new();
        if self.hardware_decoding {
            steps.push(SetupStep::TryHardwareDecoding);
        }
        steps.push(option_step("keep-open", "yes"));
        steps.push(option_step("idle", "yes"));
        steps.push(option_step("ytdl", "yes"));
        let selector = String::from_str("bestvideo[height=").concat(
            decimal_text(self.resolution).as_str(),
        ).concat("]+bestaudio");
        steps.push(option_step("ytdl-format", selector.as_str()));
        if self.helper_present {
            steps.push(option_step("script-opts", "ytdl_hook-ytdl_path=yt-dlp"));
        }
        steps.push(option_step("force-window", "immediate"));
        steps.push(option_step("osc", "yes"));
        steps.push(option_step("prefetch-playlist", "yes"));
        let ghost fixed = decoding_steps(self@) + playback_steps(self@) + helper_steps(self@)
            + window_steps();
        let mut i: usize = 0;
        while i < self.extra.len()
            invariant
                i <= self.extra.len(),
                fixed == decoding_steps(self@) + playback_steps(self@) + helper_steps(self@)
                    + window_steps(),
                plan_view(steps@) == fixed + extra_steps(self@).take(i as int),
            decreases self.extra.len() - i,
        {
            let pair = &self.extra[i];
            let ghost before = steps@;
            steps.push(option_step(pair.0.as_str(), pair.1.as_str()));
            assert(plan_view(steps@) =~= plan_view(before).push(steps@.last()@));
            i += 1;
        }
        steps
    }
}

} // verus!
