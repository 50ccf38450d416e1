//! The declarative input of a test set: groups, test cases and what each participant
//! of a call does.

use vstd::prelude::*;

verus! {

/// A quantity that a run is measured by and a chart is drawn over.
#[derive(Clone, Copy, Debug, PartialEq, Eq, Structural)]
pub enum MetricKind {
    /// Mean opinion score of the received audio, in thousandths.
    Mos,
}

/// How the captured audio of a call is scored.
#[derive(Clone, Copy, Debug, PartialEq, Eq, Structural)]
pub enum AudioAnalysisMode {
    /// The whole session is scored as one unit.
    Full,
    /// The session is cut into segments and each of them is scored.
    Chopped,
}

/// What a participant sends as audio and how its audio is analysed.
#[derive(Clone, Debug, PartialEq, Eq)]
pub struct AudioConfig {
    /// The reference sound to send; recorded silence if unset.
    pub input_name: Option<String>,
    pub packet_size_ms: u32,
    pub enable_dtx: bool,
    pub analysis_mode: AudioAnalysisMode,
    pub generate_spectrogram: bool,
}

/// What a participant sends as video.
#[derive(Clone, Debug, PartialEq, Eq)]
pub struct VideoConfig {
    /// The reference video to send; no video if unset.
    pub input_name: Option<String>,
    pub enable_vp9: bool,
}

/// The behaviour of one participant of a call.
#[derive(Clone, Debug, PartialEq, Eq)]
pub struct CallConfig {
    pub audio: AudioConfig,
    pub video: VideoConfig,
    pub relay_servers: Vec<String>,
    pub force_relay: bool,
}

/// A named pair of participants and the length of their call.
#[derive(Clone, Debug, PartialEq, Eq)]
pub struct TestCaseConfig {
    pub name: String,
    /// Length of the call in seconds.
    pub duration: u32,
    pub client_a: CallConfig,
    pub client_b: CallConfig,
}

/// How the runs of a group are summarised.
#[derive(Clone, Debug, PartialEq, Eq)]
pub struct GroupConfig {
    pub name: String,
    pub chart_dimensions: Vec<MetricKind>,
    /// The order of the points on the horizontal axis; first-seen order if empty.
    pub x_axis_labels: Vec<String>,
}

/// The value of an `AudioConfig`.
#[verifier::ext_equal]
pub struct AudioConfigView {
    pub input_name: Option<Seq<char>>,
    pub packet_size_ms: u32,
    pub enable_dtx: bool,
    pub analysis_mode: AudioAnalysisMode,
    pub generate_spectrogram: bool,
}

/// The value of a `VideoConfig`.
#[verifier::ext_equal]
pub struct VideoConfigView {
    pub input_name: Option<Seq<char>>,
    pub enable_vp9: bool,
}

/// The value of a `CallConfig`.
#[verifier::ext_equal]
pub struct CallConfigView {
    pub audio: AudioConfigView,
    pub video: VideoConfigView,
    pub relay_servers: Seq<Seq<char>>,
    pub force_relay: bool,
}

/// The value of a `TestCaseConfig`.
#[verifier::ext_equal]
pub struct TestCaseConfigView {
    pub name: Seq<char>,
    pub duration: u32,
    pub client_a: CallConfigView,
    pub client_b: CallConfigView,
}

/// The value of a `GroupConfig`.
#[verifier::ext_equal]
pub struct GroupConfigView {
    pub name: Seq<char>,
    pub chart_dimensions: Seq<MetricKind>,
    pub x_axis_labels: Seq<Seq<char>>,
}

/// The value of an optional string.
pub open spec fn optional_text(s: Option<String>) -> Option<Seq<char>> {
    match s {
        Some(text) => Some(text@),
        None => None,
    }
}

/// The audio settings of a participant that was told nothing: silence in packets of
/// 20 ms with DTX, scored as a whole and drawn as a spectrogram.
pub open spec fn default_audio() -> AudioConfigView {
    AudioConfigView {
        input_name: None,
        packet_size_ms: 20,
        enable_dtx: true,
        analysis_mode: AudioAnalysisMode::Full,
        generate_spectrogram: true,
    }
}

/// The video settings of a participant that was told nothing: no video.
pub open spec fn default_video() -> VideoConfigView {
    VideoConfigView { input_name: None, enable_vp9: false }
}

/// The behaviour of a participant that was told nothing.
pub open spec fn default_call() -> CallConfigView {
    CallConfigView {
        audio: default_audio(),
        video: default_video(),
        relay_servers: Seq::empty(),
        force_relay: false,
    }
}

/// The test case that was told nothing: 30 seconds between two default participants.
pub open spec fn default_test_case() -> TestCaseConfigView {
    TestCaseConfigView {
        name: "default"@,
        duration: 30,
        client_a: default_call(),
        client_b: default_call(),
    }
}

impl View for AudioConfig {
    type V = AudioConfigView;

    open spec fn view(&self) -> AudioConfigView {
        AudioConfigView {
            input_name: optional_text(self.input_name),
            packet_size_ms: self.packet_size_ms,
            enable_dtx: self.enable_dtx,
            analysis_mode: self.analysis_mode,
            generate_spectrogram: self.generate_spectrogram,
        }
    }
}

impl View for VideoConfig {
    type V = VideoConfigView;

    open spec fn view(&self) -> VideoConfigView {
        VideoConfigView {
            input_name: optional_text(self.input_name),
            enable_vp9: self.enable_vp9,
        }
    }
}

impl View for CallConfig {
    type V = CallConfigView;

    open spec fn view(&self) -> CallConfigView {
        CallConfigView {
            audio: self.audio@,
            video: self.video@,
            relay_servers: crate::text::views(self.relay_servers@),
            force_relay: self.force_relay,
        }
    }
}

impl View for TestCaseConfig {
    type V = TestCaseConfigView;

    open spec fn view(&self) -> TestCaseConfigView {
        TestCaseConfigView {
            name: self.name@,
            duration: self.duration,
            client_a: self.client_a@,
            client_b: self.client_b@,
        }
    }
}

impl View for GroupConfig {
    type V = GroupConfigView;

    open spec fn view(&self) -> GroupConfigView {
        GroupConfigView {
            name: self.name@,
            chart_dimensions: self.chart_dimensions@,
            x_axis_labels: crate::text::views(self.x_axis_labels@),
        }
    }
}

impl Default for AudioConfig {
    fn default() -> (r: AudioConfig)
        ensures
            r@ == default_audio(),
    {
        AudioConfig {
            input_name: None,
            packet_size_ms: 20,
            enable_dtx: true,
            analysis_mode: AudioAnalysisMode::Full,
            generate_spectrogram: true,
        }
    }
}

impl Default for VideoConfig {
    fn default() -> (r: VideoConfig)
        ensures
            r@ == default_video(),
    {
        VideoConfig { input_name: None, enable_vp9: false }
    }
}

impl Default for CallConfig {
    fn default() -> (r: CallConfig)
        ensures
            r@ == default_call(),
    {
        CallConfig {
            audio: AudioConfig::default(),
            video: VideoConfig::default(),
            relay_servers: Vec::new(),
            force_relay: false,
        }
    }
}

impl Default for TestCaseConfig {
    fn default() -> (r: TestCaseConfig)
        ensures
            r@ == default_test_case(),
    {
        TestCaseConfig {
            name: String::from_str("default"),
            duration: 30,
            client_a: CallConfig::default(),
            client_b: CallConfig::default(),
        }
    }
}

impl CallConfig {
    /// The same participant, sending the reference sound `name`.
    pub fn with_audio_input_name(self, name: &str) -> (r: CallConfig)
        ensures
            r@ == (CallConfigView {
                audio: AudioConfigView { input_name: Some(name@), ..self@.audio },
                ..self@
            }),
    {
        let mut r = self;
        r.audio.input_name = Some(String::from_str(name));
        r
    }

    /// Whether the media of this participant may pass through a relay.
    pub fn uses_relay(&self) -> (r: bool)
        ensures
            r == (self@.force_relay || self@.relay_servers.len() > 0),
    {
        self.force_relay || self.relay_servers.len() > 0
    }
}

impl TestCaseConfig {
    /// Length of the call in milliseconds.
    pub open spec fn spec_duration_ms(&self) -> u64 {
        (self.duration * 1000) as u64
    }

    /// Length of the call in milliseconds.
    pub fn duration_ms(&self) -> (r: u64)
        ensures
            r == self.spec_duration_ms(),
    {
        let seconds: u64 = self.duration as u64;
        seconds * 1000
    }
}

} // verus!
