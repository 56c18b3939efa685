//! The command lines and the output of the diagnostic tools. Each argument
//! comes along with the number that it reads as, if it does: what a number is
//! does not matter here.

use crate::capture::CaptureTarget;
use crate::events::{EventModel, PipelineEvent};
use crate::text::{decimal_text, pad_left, parse_up_to, same_text, text_view};
use vstd::prelude::*;
use vstd::string::*;

verus! {

broadcast use vstd::string::group_string_axioms;

/// An argument of a command line.
#[derive(Debug)]
pub struct Arg<N> {
    pub text: String,
    /// The number that the argument reads as.
    pub number: Option<N>,
}

/// What is wrong with a command line.
#[derive(Debug)]
pub enum CliError {
    /// There is no output file.
    NoOutput,
    /// A flag has nothing behind it; the text says what it needs.
    NoOperand(&'static str),
    /// The text behind a flag is no number.
    BadNumber(String),
    /// The text behind a flag is no node id.
    BadId(String),
    /// The text behind `--context` is no count.
    BadContext,
    /// There is no such flag.
    UnknownFlag(String),
    /// `--detect-language` is not a flag.
    DetectLanguage,
    /// Neither a file nor the microphone was given.
    NoMode,
    /// The usage was asked for.
    Help,
}

/// What a [`CliError`] says.
pub enum CliErrorModel {
    NoOutput,
    NoOperand(Seq<char>),
    BadNumber(Seq<char>),
    BadId(Seq<char>),
    BadContext,
    UnknownFlag(Seq<char>),
    DetectLanguage,
    NoMode,
    Help,
}

impl View for CliError {
    type V = CliErrorModel;

    open spec fn view(&self) -> CliErrorModel {
        match self {
            CliError::NoOutput => CliErrorModel::NoOutput,
            CliError::NoOperand(text) => CliErrorModel::NoOperand(text@),
            CliError::BadNumber(text) => CliErrorModel::BadNumber(text@),
            CliError::BadId(text) => CliErrorModel::BadId(text@),
            CliError::BadContext => CliErrorModel::BadContext,
            CliError::UnknownFlag(text) => CliErrorModel::UnknownFlag(text@),
            CliError::DetectLanguage => CliErrorModel::DetectLanguage,
            CliError::NoMode => CliErrorModel::NoMode,
            CliError::Help => CliErrorModel::Help,
        }
    }
}

impl CliErrorModel {
    /// The message of an error; none where the reading of the text has one of
    /// its own, and none for the usage.
    pub open spec fn message(self) -> Option<Seq<char>> {
        match self {
            CliErrorModel::NoOutput => Some("missing OUT.wav; see source for usage"@),
            CliErrorModel::NoOperand(text) => Some(text),
            CliErrorModel::BadNumber(_) => None,
            CliErrorModel::BadId(_) => None,
            CliErrorModel::BadContext => Some("--context must be a positive integer"@),
            CliErrorModel::UnknownFlag(text) => Some("unknown flag: "@ + text),
            CliErrorModel::DetectLanguage => Some(
                "--detect-language is not a flag; omit --language to auto-detect."@,
            ),
            CliErrorModel::NoMode => Some("specify --wav FILE or --mic"@),
            CliErrorModel::Help => None,
        }
    }
}

impl CliError {
    /// The message of the error; none where the reading of the text has one of
    /// its own, and none for the usage.
    pub fn message(&self) -> (r: Option<String>)
        ensures
            text_view(r) == self@.message(),
    {
        match self {
            CliError::NoOutput => Some("missing OUT.wav; see source for usage".to_owned()),
            CliError::NoOperand(text) => Some((*text).to_owned()),
            CliError::BadNumber(_) => None,
            CliError::BadId(_) => None,
            CliError::BadContext => Some("--context must be a positive integer".to_owned()),
            CliError::UnknownFlag(text) => {
                let mut out: String = "unknown flag: ".to_owned();
                out.append(text.as_str());
                Some(out)
            },
            CliError::DetectLanguage => Some(
                "--detect-language is not a flag; omit --language to auto-detect.".to_owned(),
            ),
            CliError::NoMode => Some("specify --wav FILE or --mic".to_owned()),
            CliError::Help => None,
        }
    }
}

/// The number behind a flag.
pub open spec fn number_behind<N>(args: Seq<Arg<N>>, i: int, needs: Seq<char>) -> Result<
    N,
    CliErrorModel,
> {
    if i + 1 < args.len() {
        match args[i + 1].number {
            Some(n) => Ok(n),
            None => Err(CliErrorModel::BadNumber(args[i + 1].text@)),
        }
    } else {
        Err(CliErrorModel::NoOperand(needs))
    }
}

/// The node id behind a flag.
pub open spec fn id_behind<N>(args: Seq<Arg<N>>, i: int, needs: Seq<char>) -> Result<
    u32,
    CliErrorModel,
> {
    if i + 1 < args.len() {
        match crate::text::parsed_up_to(args[i + 1].text@, u32::MAX as nat) {
            Some(id) => Ok(id as u32),
            None => Err(CliErrorModel::BadId(args[i + 1].text@)),
        }
    } else {
        Err(CliErrorModel::NoOperand(needs))
    }
}

/// The text behind a flag.
pub open spec fn text_behind<N>(args: Seq<Arg<N>>, i: int, needs: Seq<char>) -> Result<
    Seq<char>,
    CliErrorModel,
> {
    if i + 1 < args.len() {
        Ok(args[i + 1].text@)
    } else {
        Err(CliErrorModel::NoOperand(needs))
    }
}

fn read_number<N: Copy>(args: &Vec<Arg<N>>, i: usize, needs: &'static str) -> (r: Result<N, CliError>)
    requires
        i < args.len(),
    ensures
        match r {
            Ok(n) => number_behind(args@, i as int, needs@) == Ok::<N, CliErrorModel>(n),
            Err(e) => number_behind(args@, i as int, needs@) == Err::<N, CliErrorModel>(e@),
        },
{
    if i + 1 < args.len() {
        match args[i + 1].number {
            Some(n) => Ok(n),
            None => Err(CliError::BadNumber(args[i + 1].text.clone())),
        }
    } else {
        Err(CliError::NoOperand(needs))
    }
}

fn read_id<N>(args: &Vec<Arg<N>>, i: usize, needs: &'static str) -> (r: Result<u32, CliError>)
    requires
        i < args.len(),
    ensures
        match r {
            Ok(id) => id_behind(args@, i as int, needs@) == Ok::<u32, CliErrorModel>(id),
            Err(e) => id_behind(args@, i as int, needs@) == Err::<u32, CliErrorModel>(e@),
        },
{
    if i + 1 < args.len() {
        match parse_up_to(args[i + 1].text.as_str(), 0xffff_ffff) {
            Some(id) => Ok(id as u32),
            None => Err(CliError::BadId(args[i + 1].text.clone())),
        }
    } else {
        Err(CliError::NoOperand(needs))
    }
}

fn read_text<N>(args: &Vec<Arg<N>>, i: usize, needs: &'static str) -> (r: Result<String, CliError>)
    requires
        i < args.len(),
    ensures
        match r {
            Ok(text) => text_behind(args@, i as int, needs@) == Ok::<Seq<char>, CliErrorModel>(
                text@,
            ),
            Err(e) => text_behind(args@, i as int, needs@) == Err::<Seq<char>, CliErrorModel>(e@),
        },
{
    if i + 1 < args.len() {
        Ok(args[i + 1].text.clone())
    } else {
        Err(CliError::NoOperand(needs))
    }
}

/// What the recorder was asked to do. What was not given is `None`.
#[derive(Debug)]
pub struct CaptureOpts<N> {
    pub out: String,
    pub secs: Option<N>,
    pub target: CaptureTarget,
}

/// What a [`CaptureOpts`] says.
pub struct CaptureOptsModel<N> {
    pub out: Seq<char>,
    pub secs: Option<N>,
    pub target: CaptureTarget,
}

impl<N> View for CaptureOpts<N> {
    type V = CaptureOptsModel<N>;

    open spec fn view(&self) -> CaptureOptsModel<N> {
        CaptureOptsModel { out: self.out@, secs: self.secs, target: self.target }
    }
}

/// The options once the flags from `i` on were taken in, one after the other;
/// a later flag overrides an earlier one.
pub open spec fn capture_flags<N>(args: Seq<Arg<N>>, i: int, opts: CaptureOptsModel<N>) -> Result<
    CaptureOptsModel<N>,
    CliErrorModel,
>
    decreases args.len() - i,
{
    if i < 0 || i >= args.len() {
        Ok(opts)
    } else if args[i].text@ == "--secs"@ {
        match number_behind(args, i, "--secs needs a number"@) {
            Ok(n) => capture_flags(args, i + 2, CaptureOptsModel { secs: Some(n), ..opts }),
            Err(e) => Err(e),
        }
    } else if args[i].text@ == "--node"@ {
        match id_behind(args, i, "--node needs an id"@) {
            Ok(id) => capture_flags(
                args,
                i + 2,
                CaptureOptsModel { target: CaptureTarget::Node(id), ..opts },
            ),
            Err(e) => Err(e),
        }
    } else if args[i].text@ == "--sink-monitor"@ {
        match id_behind(args, i, "--sink-monitor needs an id"@) {
            Ok(id) => capture_flags(
                args,
                i + 2,
                CaptureOptsModel { target: CaptureTarget::SinkMonitor(id), ..opts },
            ),
            Err(e) => Err(e),
        }
    } else {
        Err(CliErrorModel::UnknownFlag(args[i].text@))
    }
}

/// The options that a command line of the recorder gives.
pub open spec fn capture_opts<N>(args: Seq<Arg<N>>) -> Result<CaptureOptsModel<N>, CliErrorModel> {
    if args.len() == 0 {
        Err(CliErrorModel::NoOutput)
    } else {
        capture_flags(
            args,
            1,
            CaptureOptsModel { out: args[0].text@, secs: None, target: CaptureTarget::Default },
        )
    }
}

/// Reads the command line of the recorder.
pub fn parse_capture_args<N: Copy>(args: &Vec<Arg<N>>) -> (r: Result<CaptureOpts<N>, CliError>)
    ensures
        match r {
            Ok(opts) => capture_opts(args@) == Ok::<CaptureOptsModel<N>, CliErrorModel>(opts@),
            Err(e) => capture_opts(args@) == Err::<CaptureOptsModel<N>, CliErrorModel>(e@),
        },
{
    let n: usize = args.len();
    if n == 0 {
        return Err(CliError::NoOutput);
    }
    let mut opts: CaptureOpts<N> = CaptureOpts {
        out: args[0].text.clone(),
        secs: None,
        target: CaptureTarget::Default,
    };
    let mut i: usize = 1;
    while i < n
        invariant
            n == args@.len(),
            0 < i,
            capture_opts(args@) == capture_flags(args@, i as int, opts@),
        decreases n - i,
    {
        let flag: &str = args[i].text.as_str();
        if same_text(flag, "--secs") {
            match read_number(args, i, "--secs needs a number") {
                Ok(v) => {
                    opts.secs = Some(v);
                },
                Err(e) => return Err(e),
            }
        } else if same_text(flag, "--node") {
            match read_id(args, i, "--node needs an id") {
                Ok(id) => {
                    opts.target = CaptureTarget::Node(id);
                },
                Err(e) => return Err(e),
            }
        } else if same_text(flag, "--sink-monitor") {
            match read_id(args, i, "--sink-monitor needs an id") {
                Ok(id) => {
                    opts.target = CaptureTarget::SinkMonitor(id);
                },
                Err(e) => return Err(e),
            }
        } else {
            return Err(CliError::UnknownFlag(args[i].text.clone()));
        }
        i = if n - i > 2 {
            i + 2
        } else {
            n
        };
    }
    Ok(opts)
}

/// What the tone player was asked to do. What was not given is `None`.
#[derive(Debug)]
pub struct ToneOpts<N> {
    pub secs: Option<N>,
    pub freq: Option<N>,
    pub volume: Option<N>,
    pub node_name: Option<String>,
}

/// What a [`ToneOpts`] says.
pub struct ToneOptsModel<N> {
    pub secs: Option<N>,
    pub freq: Option<N>,
    pub volume: Option<N>,
    pub node_name: Option<Seq<char>>,
}

impl<N> View for ToneOpts<N> {
    type V = ToneOptsModel<N>;

    open spec fn view(&self) -> ToneOptsModel<N> {
        ToneOptsModel {
            secs: self.secs,
            freq: self.freq,
            volume: self.volume,
            node_name: text_view(self.node_name),
        }
    }
}

/// The options once the flags from `i` on were taken in, one after the other;
/// a later flag overrides an earlier one.
pub open spec fn tone_flags<N>(args: Seq<Arg<N>>, i: int, opts: ToneOptsModel<N>) -> Result<
    ToneOptsModel<N>,
    CliErrorModel,
>
    decreases args.len() - i,
{
    if i < 0 || i >= args.len() {
        Ok(opts)
    } else if args[i].text@ == "--secs"@ {
        match number_behind(args, i, "--secs needs a number"@) {
            Ok(n) => tone_flags(args, i + 2, ToneOptsModel { secs: Some(n), ..opts }),
            Err(e) => Err(e),
        }
    } else if args[i].text@ == "--freq"@ {
        match number_behind(args, i, "--freq needs a number"@) {
            Ok(n) => tone_flags(args, i + 2, ToneOptsModel { freq: Some(n), ..opts }),
            Err(e) => Err(e),
        }
    } else if args[i].text@ == "--volume"@ {
        match number_behind(args, i, "--volume needs 0.0..1.0"@) {
            Ok(n) => tone_flags(args, i + 2, ToneOptsModel { volume: Some(n), ..opts }),
            Err(e) => Err(e),
        }
    } else if args[i].text@ == "--node-name"@ {
        match text_behind(args, i, "--node-name needs a string"@) {
            Ok(name) => tone_flags(args, i + 2, ToneOptsModel { node_name: Some(name), ..opts }),
            Err(e) => Err(e),
        }
    } else {
        Err(CliErrorModel::UnknownFlag(args[i].text@))
    }
}

/// The options that a command line of the tone player gives.
pub open spec fn tone_opts<N>(args: Seq<Arg<N>>) -> Result<ToneOptsModel<N>, CliErrorModel> {
    tone_flags(args, 0, ToneOptsModel { secs: None, freq: None, volume: None, node_name: None })
}

/// Reads the command line of the tone player.
pub fn parse_tone_args<N: Copy>(args: &Vec<Arg<N>>) -> (r: Result<ToneOpts<N>, CliError>)
    ensures
        match r {
            Ok(opts) => tone_opts(args@) == Ok::<ToneOptsModel<N>, CliErrorModel>(opts@),
            Err(e) => tone_opts(args@) == Err::<ToneOptsModel<N>, CliErrorModel>(e@),
        },
{
    let n: usize = args.len();
    let mut opts: ToneOpts<N> = ToneOpts { secs: None, freq: None, volume: None, node_name: None };
    let mut i: usize = 0;
    while i < n
        invariant
            n == args@.len(),
            tone_opts(args@) == tone_flags(args@, i as int, opts@),
        decreases n - i,
    {
        let flag: &str = args[i].text.as_str();
        if same_text(flag, "--secs") {
            match read_number(args, i, "--secs needs a number") {
                Ok(v) => {
                    opts.secs = Some(v);
                },
                Err(e) => return Err(e),
            }
        } else if same_text(flag, "--freq") {
            match read_number(args, i, "--freq needs a number") {
                Ok(v) => {
                    opts.freq = Some(v);
                },
                Err(e) => return Err(e),
            }
        } else if same_text(flag, "--volume") {
            match read_number(args, i, "--volume needs 0.0..1.0") {
                Ok(v) => {
                    opts.volume = Some(v);
                },
                Err(e) => return Err(e),
            }
        } else if same_text(flag, "--node-name") {
            match read_text(args, i, "--node-name needs a string") {
                Ok(name) => {
                    opts.node_name = Some(name);
                },
                Err(e) => return Err(e),
            }
        } else {
            return Err(CliError::UnknownFlag(args[i].text.clone()));
        }
        i = if n - i > 2 {
            i + 2
        } else {
            n
        };
    }
    Ok(opts)
}

/// Where the transcription tool takes its audio from.
#[derive(Debug)]
pub enum SttMode {
    /// A file.
    Wav(String),
    /// The microphone.
    Mic,
}

/// What the transcription tool was asked to do.
#[derive(Debug)]
pub struct SttOpts<N> {
    pub mode: SttMode,
    /// How long the microphone is captured; `None` where it was not given.
    pub secs: Option<N>,
    pub language: Option<String>,
    pub source_lang: Option<String>,
    pub target_lang: String,
    pub context_sentences: usize,
    pub sink_name: Option<String>,
}

/// What an [`SttMode`] says.
pub enum SttModeModel {
    Wav(Seq<char>),
    Mic,
}

impl View for SttMode {
    type V = SttModeModel;

    open spec fn view(&self) -> SttModeModel {
        match self {
            SttMode::Wav(path) => SttModeModel::Wav(path@),
            SttMode::Mic => SttModeModel::Mic,
        }
    }
}

/// What the transcription tool was asked to do so far.
pub struct SttOptsModel<N> {
    pub mode: Option<SttModeModel>,
    pub secs: Option<N>,
    pub language: Option<Seq<char>>,
    pub source_lang: Option<Seq<char>>,
    pub target_lang: Seq<char>,
    pub context_sentences: usize,
    pub sink_name: Option<Seq<char>>,
}

impl<N> View for SttOpts<N> {
    type V = SttOptsModel<N>;

    open spec fn view(&self) -> SttOptsModel<N> {
        SttOptsModel {
            mode: Some(self.mode@),
            secs: self.secs,
            language: text_view(self.language),
            source_lang: text_view(self.source_lang),
            target_lang: self.target_lang@,
            context_sentences: self.context_sentences,
            sink_name: text_view(self.sink_name),
        }
    }
}

/// The count behind `--context`.
pub open spec fn count_behind<N>(args: Seq<Arg<N>>, i: int) -> Result<usize, CliErrorModel> {
    if i + 1 < args.len() {
        match crate::text::parsed_up_to(args[i + 1].text@, usize::MAX as nat) {
            Some(n) => Ok(n as usize),
            None => Err(CliErrorModel::BadContext),
        }
    } else {
        Err(CliErrorModel::NoOperand("--context needs a number"@))
    }
}

fn read_count<N>(args: &Vec<Arg<N>>, i: usize) -> (r: Result<usize, CliError>)
    requires
        i < args.len(),
    ensures
        match r {
            Ok(n) => count_behind(args@, i as int) == Ok::<usize, CliErrorModel>(n),
            Err(e) => count_behind(args@, i as int) == Err::<usize, CliErrorModel>(e@),
        },
{
    if i + 1 < args.len() {
        match parse_up_to(args[i + 1].text.as_str(), usize::MAX as u64) {
            Some(n) => Ok(n as usize),
            None => Err(CliError::BadContext),
        }
    } else {
        Err(CliError::NoOperand("--context needs a number"))
    }
}

/// The options once the flags from `i` on were taken in, one after the other.
/// A later flag overrides an earlier one, except that `--mic` leaves a file
/// that was given before.
pub open spec fn stt_flags<N>(args: Seq<Arg<N>>, i: int, opts: SttOptsModel<N>) -> Result<
    SttOptsModel<N>,
    CliErrorModel,
>
    decreases args.len() - i,
{
    if i < 0 || i >= args.len() {
        Ok(opts)
    } else {
        let flag = args[i].text@;
        if flag == "--wav"@ {
            match text_behind(args, i, "--wav needs a path"@) {
                Ok(path) => stt_flags(
                    args,
                    i + 2,
                    SttOptsModel { mode: Some(SttModeModel::Wav(path)), ..opts },
                ),
                Err(e) => Err(e),
            }
        } else if flag == "--mic"@ {
            stt_flags(
                args,
                i + 1,
                SttOptsModel {
                    mode: if opts.mode is None {
                        Some(SttModeModel::Mic)
                    } else {
                        opts.mode
                    },
                    ..opts
                },
            )
        } else if flag == "--secs"@ {
            match number_behind(args, i, "--secs needs a number"@) {
                Ok(n) => stt_flags(args, i + 2, SttOptsModel { secs: Some(n), ..opts }),
                Err(e) => Err(e),
            }
        } else if flag == "--language"@ {
            match text_behind(args, i, "--language needs a code"@) {
                Ok(code) => stt_flags(args, i + 2, SttOptsModel { language: Some(code), ..opts }),
                Err(e) => Err(e),
            }
        } else if flag == "--source-lang"@ {
            match text_behind(args, i, "--source-lang needs a code"@) {
                Ok(code) => stt_flags(
                    args,
                    i + 2,
                    SttOptsModel { source_lang: Some(crate::deepl::upper_code(code)), ..opts },
                ),
                Err(e) => Err(e),
            }
        } else if flag == "--target-lang"@ {
            match text_behind(args, i, "--target-lang needs a code"@) {
                Ok(code) => stt_flags(
                    args,
                    i + 2,
                    SttOptsModel { target_lang: crate::deepl::upper_code(code), ..opts },
                ),
                Err(e) => Err(e),
            }
        } else if flag == "--context"@ {
            match count_behind(args, i) {
                Ok(n) => stt_flags(args, i + 2, SttOptsModel { context_sentences: n, ..opts }),
                Err(e) => Err(e),
            }
        } else if flag == "--sink"@ {
            match text_behind(args, i, "--sink needs a node name"@) {
                Ok(name) => stt_flags(args, i + 2, SttOptsModel { sink_name: Some(name), ..opts }),
                Err(e) => Err(e),
            }
        } else if flag == "--detect-language"@ {
            Err(CliErrorModel::DetectLanguage)
        } else if flag == "-h"@ || flag == "--help"@ {
            Err(CliErrorModel::Help)
        } else {
            Err(CliErrorModel::UnknownFlag(flag))
        }
    }
}

/// The options that a command line of the transcription tool gives.
pub open spec fn stt_opts<N>(args: Seq<Arg<N>>) -> Result<SttOptsModel<N>, CliErrorModel> {
    let start = SttOptsModel {
        mode: None,
        secs: None,
        language: None,
        source_lang: None,
        target_lang: "EN"@,
        context_sentences: 5,
        sink_name: None,
    };
    match stt_flags(args, 0, start) {
        Ok(opts) => if opts.mode is None {
            Err(CliErrorModel::NoMode)
        } else {
            Ok(opts)
        },
        Err(e) => Err(e),
    }
}

/// Reads the command line of the transcription tool.
pub fn parse_stt_args<N: Copy>(args: &Vec<Arg<N>>) -> (r: Result<SttOpts<N>, CliError>)
    ensures
        match r {
            Ok(opts) => stt_opts(args@) == Ok::<SttOptsModel<N>, CliErrorModel>(opts@),
            Err(e) => stt_opts(args@) == Err::<SttOptsModel<N>, CliErrorModel>(e@),
        },
{
    let n: usize = args.len();
    let mut mode: Option<SttMode> = None;
    let mut secs: Option<N> = None;
    let mut language: Option<String> = None;
    let mut source_lang: Option<String> = None;
    let mut target_lang: String = "EN".to_owned();
    let mut context_sentences: usize = 5;
    let mut sink_name: Option<String> = None;
    let ghost start = SttOptsModel::<N> {
        mode: None,
        secs: None,
        language: None,
        source_lang: None,
        target_lang: "EN"@,
        context_sentences: 5,
        sink_name: None,
    };
    let mut i: usize = 0;
    while i < n
        invariant
            n == args@.len(),
            stt_flags(args@, 0, start) == stt_flags(
                args@,
                i as int,
                (SttOptsModel {
                    mode: match mode {
                        Some(m) => Some(m@),
                        None => None,
                    },
                    secs,
                    language: text_view(language),
                    source_lang: text_view(source_lang),
                    target_lang: target_lang@,
                    context_sentences,
                    sink_name: text_view(sink_name),
                }),
            ),
            start == (SttOptsModel::<N> {
                mode: None,
                secs: None,
                language: None,
                source_lang: None,
                target_lang: "EN"@,
                context_sentences: 5,
                sink_name: None,
            }),
        decreases n - i,
    {
        let flag: &str = args[i].text.as_str();
        let mut used: usize = 2;
        if same_text(flag, "--wav") {
            match read_text(args, i, "--wav needs a path") {
                Ok(path) => {
                    mode = Some(SttMode::Wav(path));
                },
                Err(e) => return Err(e),
            }
        } else if same_text(flag, "--mic") {
            if mode.is_none() {
                mode = Some(SttMode::Mic);
            }
            used = 1;
        } else if same_text(flag, "--secs") {
            match read_number(args, i, "--secs needs a number") {
                Ok(v) => {
                    secs = Some(v);
                },
                Err(e) => return Err(e),
            }
        } else if same_text(flag, "--language") {
            match read_text(args, i, "--language needs a code") {
                Ok(code) => {
                    language = Some(code);
                },
                Err(e) => return Err(e),
            }
        } else if same_text(flag, "--source-lang") {
            match read_text(args, i, "--source-lang needs a code") {
                Ok(code) => {
                    source_lang = Some(crate::deepl::code_to_upper(code.as_str()));
                },
                Err(e) => return Err(e),
            }
        } else if same_text(flag, "--target-lang") {
            match read_text(args, i, "--target-lang needs a code") {
                Ok(code) => {
                    target_lang = crate::deepl::code_to_upper(code.as_str());
                },
                Err(e) => return Err(e),
            }
        } else if same_text(flag, "--context") {
            match read_count(args, i) {
                Ok(v) => {
                    context_sentences = v;
                },
                Err(e) => return Err(e),
            }
        } else if same_text(flag, "--sink") {
            match read_text(args, i, "--sink needs a node name") {
                Ok(name) => {
                    sink_name = Some(name);
                },
                Err(e) => return Err(e),
            }
        } else if same_text(flag, "--detect-language") {
            return Err(CliError::DetectLanguage);
        } else if same_text(flag, "-h") || same_text(flag, "--help") {
            return Err(CliError::Help);
        } else {
            return Err(CliError::UnknownFlag(args[i].text.clone()));
        }
        i = if n - i > used {
            i + used
        } else {
            n
        };
    }
    match mode {
        None => Err(CliError::NoMode),
        Some(mode) => Ok(
            SttOpts {
                mode,
                secs,
                language,
                source_lang,
                target_lang,
                context_sentences,
                sink_name,
            },
        ),
    }
}

/// How many interleaved samples make 20 ms of a file.
pub fn wav_chunk(sample_rate: u32, channels: u16) -> (r: usize)
    requires
        sample_rate / 50 * channels <= usize::MAX,
    ensures
        r == sample_rate / 50 * channels,
{
    proof {
        let frames = sample_rate / 50;
        assert(0 <= frames * channels) by (nonlinear_arith)
            requires
                0 <= frames,
        ;
    }
    (sample_rate / 50) as usize * channels as usize
}

/// The time in front of a line of the transcription tool.
pub open spec fn time_mark(ms: nat) -> Seq<char> {
    "["@ + crate::text::padded_left(crate::text::decimal(ms), ' ', 6) + " ms] "@
}

fn mark(ms: u64) -> (r: String)
    ensures
        r@ == time_mark(ms as nat),
{
    let mut out: String = "[".to_owned();
    out.append(pad_left(decimal_text(ms).as_str(), ' ', 6).as_str());
    out.append(" ms] ");
    out
}

/// The line that the transcription tool prints for an event.
pub open spec fn printed(ms: nat, event: EventModel) -> Seq<char> {
    time_mark(ms) + match event {
        EventModel::Partial { text, .. } => "PARTIAL    "@ + text,
        EventModel::Finalised { text, .. } => "FINALISED  "@ + text,
        EventModel::Flushed { text, reason, .. } => "FLUSHED    ("@ + reason + ")  "@ + text,
        EventModel::Translated { source_text, translated, .. } => "TRANSLATED "@ + source_text
            + " → "@ + translated,
        EventModel::Error { error, .. } => "ERROR      "@ + error,
    }
}

/// The line that the transcription tool prints for an event.
pub fn event_line(ms: u64, event: &PipelineEvent) -> (r: String)
    ensures
        r@ == printed(ms as nat, event@),
{
    let mut body: String = String::new();
    match event {
        PipelineEvent::Partial { text, .. } => {
            body.append("PARTIAL    ");
            assert(body@ =~= "PARTIAL    "@);
            body.append(text.as_str());
        },
        PipelineEvent::Finalised { text, .. } => {
            body.append("FINALISED  ");
            assert(body@ =~= "FINALISED  "@);
            body.append(text.as_str());
        },
        PipelineEvent::Flushed { text, reason, .. } => {
            body.append("FLUSHED    (");
            assert(body@ =~= "FLUSHED    ("@);
            body.append(*reason);
            body.append(")  ");
            body.append(text.as_str());
        },
        PipelineEvent::Translated { source_text, translated, .. } => {
            body.append("TRANSLATED ");
            assert(body@ =~= "TRANSLATED "@);
            body.append(source_text.as_str());
            body.append(" → ");
            body.append(translated.as_str());
        },
        PipelineEvent::Error { error, .. } => {
            body.append("ERROR      ");
            assert(body@ =~= "ERROR      "@);
            body.append(error.as_str());
        },
    }
    let mut out: String = mark(ms);
    out.append(body.as_str());
    out
}

/// The line that the transcription tool prints for a translation, or for its failure.
pub fn translation_line(ms: u64, lang: &str, result: &Result<String, String>) -> (r: String)
    ensures
        r@ == time_mark(ms as nat) + match *result {
            Ok(text) => "TRANSLATED [→ "@ + lang@ + "]  "@ + text@,
            Err(error) => "DEEPL ERR  "@ + error@,
        },
{
    let mut body: String = match result {
        Ok(text) => {
            let mut line: String = "TRANSLATED [→ ".to_owned();
            line.append(lang);
            line.append("]  ");
            line.append(text.as_str());
            line
        },
        Err(error) => {
            let mut line: String = "DEEPL ERR  ".to_owned();
            line.append(error.as_str());
            line
        },
    };
    let mut out: String = mark(ms);
    out.append(body.as_str());
    out
}

proof fn lemma_capture_flags_then<N>(args: Seq<Arg<N>>, more: Seq<Arg<N>>, i: int, opts: CaptureOptsModel<N>)
    requires
        0 <= i <= args.len(),
        capture_flags(args, i, opts) is Ok,
    ensures
        capture_flags(args + more, i, opts) == capture_flags(
            args + more,
            args.len() as int,
            capture_flags(args, i, opts)->Ok_0,
        ),
    decreases args.len() - i,
{
    if i < args.len() {
        let all = args + more;
        assert(all[i] == args[i]);
        if i + 1 < args.len() {
            assert(all[i + 1] == args[i + 1]);
        }
        if args[i].text@ == "--secs"@ {
            let n = number_behind(args, i, "--secs needs a number"@)->Ok_0;
            lemma_capture_flags_then(args, more, i + 2, CaptureOptsModel { secs: Some(n), ..opts });
        } else if args[i].text@ == "--node"@ {
            let id = id_behind(args, i, "--node needs an id"@)->Ok_0;
            lemma_capture_flags_then(
                args,
                more,
                i + 2,
                CaptureOptsModel { target: CaptureTarget::Node(id), ..opts },
            );
        } else {
            let id = id_behind(args, i, "--sink-monitor needs an id"@)->Ok_0;
            lemma_capture_flags_then(
                args,
                more,
                i + 2,
                CaptureOptsModel { target: CaptureTarget::SinkMonitor(id), ..opts },
            );
        }
    }
}

proof fn lemma_tone_flags_then<N>(args: Seq<Arg<N>>, more: Seq<Arg<N>>, i: int, opts: ToneOptsModel<N>)
    requires
        0 <= i <= args.len(),
        tone_flags(args, i, opts) is Ok,
    ensures
        tone_flags(args + more, i, opts) == tone_flags(
            args + more,
            args.len() as int,
            tone_flags(args, i, opts)->Ok_0,
        ),
    decreases args.len() - i,
{
    if i < args.len() {
        let all = args + more;
        assert(all[i] == args[i]);
        if i + 1 < args.len() {
            assert(all[i + 1] == args[i + 1]);
        }
        if args[i].text@ == "--secs"@ {
            let n = number_behind(args, i, "--secs needs a number"@)->Ok_0;
            lemma_tone_flags_then(args, more, i + 2, ToneOptsModel { secs: Some(n), ..opts });
        } else if args[i].text@ == "--freq"@ {
            let n = number_behind(args, i, "--freq needs a number"@)->Ok_0;
            lemma_tone_flags_then(args, more, i + 2, ToneOptsModel { freq: Some(n), ..opts });
        } else if args[i].text@ == "--volume"@ {
            let n = number_behind(args, i, "--volume needs 0.0..1.0"@)->Ok_0;
            lemma_tone_flags_then(args, more, i + 2, ToneOptsModel { volume: Some(n), ..opts });
        } else {
            let name = text_behind(args, i, "--node-name needs a string"@)->Ok_0;
            lemma_tone_flags_then(
                args,
                more,
                i + 2,
                ToneOptsModel { node_name: Some(name), ..opts },
            );
        }
    }
}

proof fn lemma_stt_flags_then<N>(args: Seq<Arg<N>>, more: Seq<Arg<N>>, i: int, opts: SttOptsModel<N>)
    requires
        0 <= i <= args.len(),
        stt_flags(args, i, opts) is Ok,
    ensures
        stt_flags(args + more, i, opts) == stt_flags(
            args + more,
            args.len() as int,
            stt_flags(args, i, opts)->Ok_0,
        ),
    decreases args.len() - i,
{
    if i < args.len() {
        let all = args + more;
        assert(all[i] == args[i]);
        if i + 1 < args.len() {
            assert(all[i + 1] == args[i + 1]);
        }
        let flag = args[i].text@;
        let text = args[i + 1].text@;
        if flag == "--wav"@ {
            lemma_stt_flags_then(
                args,
                more,
                i + 2,
                SttOptsModel { mode: Some(SttModeModel::Wav(text)), ..opts },
            );
        } else if flag == "--mic"@ {
            lemma_stt_flags_then(
                args,
                more,
                i + 1,
                SttOptsModel {
                    mode: if opts.mode is None {
                        Some(SttModeModel::Mic)
                    } else {
                        opts.mode
                    },
                    ..opts
                },
            );
        } else if flag == "--secs"@ {
            let n = number_behind(args, i, "--secs needs a number"@)->Ok_0;
            lemma_stt_flags_then(args, more, i + 2, SttOptsModel { secs: Some(n), ..opts });
        } else if flag == "--language"@ {
            lemma_stt_flags_then(args, more, i + 2, SttOptsModel { language: Some(text), ..opts });
        } else if flag == "--source-lang"@ {
            lemma_stt_flags_then(
                args,
                more,
                i + 2,
                SttOptsModel { source_lang: Some(crate::deepl::upper_code(text)), ..opts },
            );
        } else if flag == "--target-lang"@ {
            lemma_stt_flags_then(
                args,
                more,
                i + 2,
                SttOptsModel { target_lang: crate::deepl::upper_code(text), ..opts },
            );
        } else if flag == "--context"@ {
            let n = count_behind(args, i)->Ok_0;
            lemma_stt_flags_then(args, more, i + 2, SttOptsModel { context_sentences: n, ..opts });
        } else {
            lemma_stt_flags_then(args, more, i + 2, SttOptsModel { sink_name: Some(text), ..opts });
        }
    }
}

/// A flag of the recorder sets its option and keeps the others, whatever flags
/// came before it. Without flags, the default source is recorded into the
/// file.
pub proof fn recorder_flags_set_their_option<N: Copy>(
    args: &Vec<Arg<N>>,
    flag: Arg<N>,
    operand: Arg<N>,
    longer: &Vec<Arg<N>>,
    opts: CaptureOpts<N>,
    r: Result<CaptureOpts<N>, CliError>,
    id: u32,
)
    requires
        call_ensures(parse_capture_args::<N>, (args,), Ok(opts)),
        call_ensures(parse_capture_args::<N>, (longer,), r),
        longer@ == args@ + seq![flag, operand],
    ensures
        opts.out@ == args@[0].text@,
        args@.len() == 1 ==> opts.secs is None && opts.target == CaptureTarget::Default,
        flag.text@ == "--secs"@ && operand.number is Some ==> (r matches Ok(o) && o@
            == (CaptureOptsModel { secs: operand.number, ..opts@ })),
        flag.text@ == "--node"@ && operand.text@ == crate::text::decimal(id as nat) ==> (
        r matches Ok(o) && o@ == (CaptureOptsModel { target: CaptureTarget::Node(id), ..opts@ })),
        flag.text@ == "--sink-monitor"@ && operand.text@ == crate::text::decimal(id as nat) ==> (
        r matches Ok(o) && o@ == (CaptureOptsModel {
            target: CaptureTarget::SinkMonitor(id),
            ..opts@
        })),
{
    let n = args@.len() as int;
    let start = CaptureOptsModel {
        out: args@[0].text@,
        secs: None,
        target: CaptureTarget::Default,
    };
    assert(capture_opts(args@) == Ok::<CaptureOptsModel<N>, CliErrorModel>(opts@));
    lemma_capture_flags_then(args@, seq![flag, operand], 1, start);
    lemma_capture_out(args@, 1, start);
    assert(longer@[0] == args@[0]);
    assert(longer@[n] == flag && longer@[n + 1] == operand);
    crate::text::decimal_denotes(id as nat);
    reveal_strlit("--secs");
    reveal_strlit("--node");
    reveal_strlit("--sink-monitor");
    assert("--secs"@[2] == 's' && "--node"@[2] == 'n');
    assert("--sink-monitor"@.len() == 14 && "--secs"@.len() == 6 && "--node"@.len() == 6);
    reveal_with_fuel(capture_flags, 2);
}

proof fn lemma_capture_out<N>(args: Seq<Arg<N>>, i: int, opts: CaptureOptsModel<N>)
    requires
        0 <= i <= args.len(),
        capture_flags(args, i, opts) is Ok,
    ensures
        capture_flags(args, i, opts)->Ok_0.out == opts.out,
    decreases args.len() - i,
{
    if i < args.len() {
        if args[i].text@ == "--secs"@ {
            let n = number_behind(args, i, "--secs needs a number"@)->Ok_0;
            lemma_capture_out(args, i + 2, CaptureOptsModel { secs: Some(n), ..opts });
        } else if args[i].text@ == "--node"@ {
            let id = id_behind(args, i, "--node needs an id"@)->Ok_0;
            lemma_capture_out(
                args,
                i + 2,
                CaptureOptsModel { target: CaptureTarget::Node(id), ..opts },
            );
        } else {
            let id = id_behind(args, i, "--sink-monitor needs an id"@)->Ok_0;
            lemma_capture_out(
                args,
                i + 2,
                CaptureOptsModel { target: CaptureTarget::SinkMonitor(id), ..opts },
            );
        }
    }
}

/// A flag of the tone player sets its option and keeps the others, whatever
/// flags came before it; without flags, none is set.
pub proof fn tone_flags_set_their_option<N: Copy>(
    args: &Vec<Arg<N>>,
    flag: Arg<N>,
    operand: Arg<N>,
    longer: &Vec<Arg<N>>,
    opts: ToneOpts<N>,
    r: Result<ToneOpts<N>, CliError>,
)
    requires
        call_ensures(parse_tone_args::<N>, (args,), Ok(opts)),
        call_ensures(parse_tone_args::<N>, (longer,), r),
        longer@ == args@ + seq![flag, operand],
    ensures
        args@.len() == 0 ==> opts.secs is None && opts.freq is None && opts.volume is None
            && opts.node_name is None,
        flag.text@ == "--secs"@ && operand.number is Some ==> (r matches Ok(o) && o@
            == (ToneOptsModel { secs: operand.number, ..opts@ })),
        flag.text@ == "--freq"@ && operand.number is Some ==> (r matches Ok(o) && o@
            == (ToneOptsModel { freq: operand.number, ..opts@ })),
        flag.text@ == "--volume"@ && operand.number is Some ==> (r matches Ok(o) && o@
            == (ToneOptsModel { volume: operand.number, ..opts@ })),
        flag.text@ == "--node-name"@ ==> (r matches Ok(o) && o@ == (ToneOptsModel {
            node_name: Some(operand.text@),
            ..opts@
        })),
{
    let n = args@.len() as int;
    let start = ToneOptsModel::<N> { secs: None, freq: None, volume: None, node_name: None };
    assert(tone_opts(args@) == Ok::<ToneOptsModel<N>, CliErrorModel>(opts@));
    lemma_tone_flags_then(args@, seq![flag, operand], 0, start);
    assert(longer@[n] == flag && longer@[n + 1] == operand);
    reveal_strlit("--secs");
    reveal_strlit("--freq");
    reveal_strlit("--volume");
    reveal_strlit("--node-name");
    assert("--secs"@[2] == 's' && "--freq"@[2] == 'f');
    assert("--secs"@.len() == 6 && "--freq"@.len() == 6);
    assert("--volume"@.len() == 8 && "--node-name"@.len() == 11);
    reveal_with_fuel(tone_flags, 2);
}

/// A flag of the transcription tool sets its option and keeps the others,
/// whatever flags came before it; the language codes of the translation are
/// put in uppercase.
pub proof fn transcription_flags_set_their_option<N: Copy>(
    args: &Vec<Arg<N>>,
    flag: Arg<N>,
    operand: Arg<N>,
    longer: &Vec<Arg<N>>,
    opts: SttOpts<N>,
    r: Result<SttOpts<N>, CliError>,
    count: u32,
)
    requires
        call_ensures(parse_stt_args::<N>, (args,), Ok(opts)),
        call_ensures(parse_stt_args::<N>, (longer,), r),
        longer@ == args@ + seq![flag, operand],
    ensures
        flag.text@ == "--wav"@ ==> (r matches Ok(o) && o@ == (SttOptsModel {
            mode: Some(SttModeModel::Wav(operand.text@)),
            ..opts@
        })),
        flag.text@ == "--secs"@ && operand.number is Some ==> (r matches Ok(o) && o@
            == (SttOptsModel { secs: operand.number, ..opts@ })),
        flag.text@ == "--language"@ ==> (r matches Ok(o) && o@ == (SttOptsModel {
            language: Some(operand.text@),
            ..opts@
        })),
        flag.text@ == "--source-lang"@ ==> (r matches Ok(o) && o@ == (SttOptsModel {
            source_lang: Some(crate::deepl::upper_code(operand.text@)),
            ..opts@
        })),
        flag.text@ == "--target-lang"@ ==> (r matches Ok(o) && o@ == (SttOptsModel {
            target_lang: crate::deepl::upper_code(operand.text@),
            ..opts@
        })),
        flag.text@ == "--context"@ && operand.text@ == crate::text::decimal(count as nat) ==> (
        r matches Ok(o) && o@ == (SttOptsModel { context_sentences: count as usize, ..opts@ })),
        flag.text@ == "--sink"@ ==> (r matches Ok(o) && o@ == (SttOptsModel {
            sink_name: Some(operand.text@),
            ..opts@
        })),
        flag.text@ == "--help"@ ==> (r matches Err(e) && e@ == CliErrorModel::Help),
{
    let n = args@.len() as int;
    let start = SttOptsModel::<N> {
        mode: None,
        secs: None,
        language: None,
        source_lang: None,
        target_lang: "EN"@,
        context_sentences: 5,
        sink_name: None,
    };
    assert(stt_opts(args@) == Ok::<SttOptsModel<N>, CliErrorModel>(opts@));
    assert(stt_flags(args@, 0, start) == Ok::<SttOptsModel<N>, CliErrorModel>(opts@));
    lemma_stt_flags_then(args@, seq![flag, operand], 0, start);
    assert(longer@[n] == flag && longer@[n + 1] == operand);
    crate::text::decimal_denotes(count as nat);
    assert(stt_flags(longer@, 0, start) == stt_flags(longer@, n, opts@));
    assert(opts@.mode is Some);
    lemma_stt_last_flag(longer@, n, opts@);
}

proof fn lemma_stt_last_flag<N>(args: Seq<Arg<N>>, n: int, opts: SttOptsModel<N>)
    requires
        0 <= n,
        args.len() == n + 2,
    ensures
        args[n].text@ == "--wav"@ ==> stt_flags(args, n, opts) == Ok::<SttOptsModel<N>, CliErrorModel>(
            SttOptsModel { mode: Some(SttModeModel::Wav(args[n + 1].text@)), ..opts },
        ),
        args[n].text@ == "--secs"@ && args[n + 1].number is Some ==> stt_flags(args, n, opts) == Ok::<
            SttOptsModel<N>,
            CliErrorModel,
        >(SttOptsModel { secs: args[n + 1].number, ..opts }),
        args[n].text@ == "--language"@ ==> stt_flags(args, n, opts) == Ok::<SttOptsModel<N>, CliErrorModel>(
            SttOptsModel { language: Some(args[n + 1].text@), ..opts },
        ),
        args[n].text@ == "--source-lang"@ ==> stt_flags(args, n, opts) == Ok::<SttOptsModel<N>, CliErrorModel>(
            SttOptsModel { source_lang: Some(crate::deepl::upper_code(args[n + 1].text@)), ..opts },
        ),
        args[n].text@ == "--target-lang"@ ==> stt_flags(args, n, opts) == Ok::<SttOptsModel<N>, CliErrorModel>(
            SttOptsModel { target_lang: crate::deepl::upper_code(args[n + 1].text@), ..opts },
        ),
        args[n].text@ == "--context"@ ==> stt_flags(args, n, opts) == match count_behind(args, n) {
            Ok(count) => Ok(SttOptsModel { context_sentences: count, ..opts }),
            Err(e) => Err(e),
        },
        args[n].text@ == "--sink"@ ==> stt_flags(args, n, opts) == Ok::<SttOptsModel<N>, CliErrorModel>(
            SttOptsModel { sink_name: Some(args[n + 1].text@), ..opts },
        ),
        args[n].text@ == "--help"@ ==> stt_flags(args, n, opts) == Err::<
            SttOptsModel<N>,
            CliErrorModel,
        >(CliErrorModel::Help),
{
    lemma_stt_flag_names();
    reveal_with_fuel(stt_flags, 2);
}

proof fn lemma_stt_flag_names()
    ensures
        "--wav"@ != "--mic"@,
        "--secs"@ != "--wav"@ && "--secs"@ != "--mic"@ && "--secs"@ != "--sink"@,
        "--language"@.len() == 10 && "--source-lang"@.len() == 13 && "--target-lang"@.len() == 13,
        "--source-lang"@ != "--target-lang"@,
        "--context"@.len() == 9 && "--sink"@.len() == 6 && "--wav"@.len() == 5 && "--mic"@.len()
            == 5,
        "--secs"@.len() == 6 && "--detect-language"@.len() == 17 && "-h"@.len() == 2
            && "--help"@.len() == 6,
        "--help"@ != "--secs"@ && "--help"@ != "--sink"@,
{
    reveal_strlit("--wav");
    reveal_strlit("--mic");
    reveal_strlit("--secs");
    reveal_strlit("--language");
    reveal_strlit("--source-lang");
    reveal_strlit("--target-lang");
    reveal_strlit("--context");
    reveal_strlit("--sink");
    reveal_strlit("--detect-language");
    reveal_strlit("-h");
    reveal_strlit("--help");
    assert("--wav"@[2] == 'w' && "--mic"@[2] == 'm');
    assert("--secs"@[3] == 'e' && "--sink"@[3] == 'i');
    assert("--source-lang"@[2] == 's' && "--target-lang"@[2] == 't');
    assert("--help"@[2] == 'h' && "--secs"@[2] == 's' && "--sink"@[2] == 's');
}

/// Without a file and the microphone, the transcription tool does nothing: the
/// mode must be given. The microphone alone gives the defaults.
pub proof fn transcription_needs_a_mode<N: Copy>(
    none: &Vec<Arg<N>>,
    nothing: Result<SttOpts<N>, CliError>,
    one: &Vec<Arg<N>>,
    r: Result<SttOpts<N>, CliError>,
)
    requires
        none@.len() == 0,
        call_ensures(parse_stt_args::<N>, (none,), nothing),
        one@.len() == 1,
        one@[0].text@ == "--mic"@,
        call_ensures(parse_stt_args::<N>, (one,), r),
    ensures
        nothing matches Err(e) && e@ == CliErrorModel::NoMode,
        r matches Ok(o) && o.mode is Mic && o.secs is None && o.language is None && o.source_lang
            is None && o.target_lang@ == "EN"@ && o.context_sentences == 5 && o.sink_name is None,
{
    lemma_stt_flag_names();
    reveal_with_fuel(stt_flags, 2);
    let model = SttOptsModel::<N> {
        mode: Some(SttModeModel::Mic),
        secs: None,
        language: None,
        source_lang: None,
        target_lang: "EN"@,
        context_sentences: 5,
        sink_name: None,
    };
    assert(stt_opts(one@) == Ok::<SttOptsModel<N>, CliErrorModel>(model));
    if let Ok(o) = r {
        assert(o@ == model);
        assert(o@.mode == Some(o.mode@));
        assert(o@.language == text_view(o.language));
        assert(o@.source_lang == text_view(o.source_lang));
        assert(o@.sink_name == text_view(o.sink_name));
    }
}

/// The lines of the transcription tool: the milliseconds, what the line is, and
/// the text of the event in full.
pub proof fn printed_lines_tell_the_event(
    ms: u64,
    event: &PipelineEvent,
    line: String,
    lang: &str,
    result: &Result<String, String>,
    translation: String,
)
    requires
        call_ensures(event_line, (ms, event), line),
        call_ensures(translation_line, (ms, lang, result), translation),
    ensures
        ({
            let mark = "["@ + crate::text::padded_left(crate::text::decimal(ms as nat), ' ', 6)
                + " ms] "@;
            &&& event matches PipelineEvent::Partial { text, .. } ==> line@ == mark + (
            "PARTIAL    "@ + text@)
            &&& event matches PipelineEvent::Flushed { text, reason, .. } ==> line@ == mark + (
            "FLUSHED    ("@ + reason@ + ")  "@ + text@)
            &&& event matches PipelineEvent::Error { error, .. } ==> line@ == mark + (
            "ERROR      "@ + error@)
            &&& *result matches Ok(text) ==> translation@ == mark + ("TRANSLATED [→ "@ + lang@
                + "]  "@ + text@)
            &&& *result matches Err(error) ==> translation@ == mark + ("DEEPL ERR  "@ + error@)
        }),
{
}

/// Twenty milliseconds of a file are sent at a time.
pub proof fn files_are_sent_in_small_parts(sample_rate: u32, channels: u16, r: usize)
    requires
        call_ensures(wav_chunk, (sample_rate, channels), r),
        sample_rate % 50 == 0,
    ensures
        r * 50 == sample_rate * channels,
{
    assert((sample_rate / 50) * channels * 50 == sample_rate * channels) by (nonlinear_arith)
        requires
            sample_rate % 50 == 0,
    ;
}

} // verus!
