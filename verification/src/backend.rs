//! The protocol of each backend: the command that makes it speak a word
//! into a file, and the handshake with the speech server.
//!
//! Nothing here starts a process. A command is described, and whoever runs
//! it feeds `input` to its standard input from a writer of its own and
//! waits only for the process to end.

use crate::error::Error;
use crate::scheduler::{Job, RansomTTS};
use crate::text::{contains, decimal, find, lemma_contains, push_decimal, string_texts, to_chars};
use crate::voices::TTS;
use vstd::prelude::*;

verus! {

/// A command to run: the program, its arguments and, where it reads its
/// text from standard input, that text.
#[derive(Clone, Debug, PartialEq, Eq)]
pub struct Invocation {
    pub program: String,
    pub args: Vec<String>,
    pub input: Option<String>,
}

/// An `Invocation` as contracts see it.
pub struct InvocationView {
    pub program: Seq<char>,
    pub args: Seq<Seq<char>>,
    pub input: Option<Seq<char>>,
}

impl View for Invocation {
    type V = InvocationView;

    open spec fn view(&self) -> InvocationView {
        InvocationView {
            program: self.program@,
            args: string_texts(self.args@),
            input: match self.input {
                Some(text) => Some(text@),
                None => None,
            },
        }
    }
}

/// The directory in which flite keeps its voices unless it is told
/// another.
pub open spec fn flite_voice_dir() -> Seq<char> {
    "/usr/lib/flite/"@
}

/// How flite is told to speak `text` with `voice` into `filename`, with its
/// voices in `voice_dir`.
pub open spec fn flite_call_in(
    voice_dir: Seq<char>,
    filename: Seq<char>,
    voice: Seq<char>,
    text: Seq<char>,
) -> InvocationView {
    InvocationView {
        program: "flite"@,
        args: seq!["-t"@, text, "-voicedir"@, voice_dir, "-voice"@, voice, "-o"@, filename],
        input: None,
    }
}

/// How flite is told to speak `text` with `voice` into `filename`.
pub open spec fn flite_call(
    filename: Seq<char>,
    voice: Seq<char>,
    text: Seq<char>,
) -> InvocationView {
    flite_call_in(flite_voice_dir(), filename, voice, text)
}

/// How mimic is told to speak `text` with `voice` into `filename`.
pub open spec fn mimic_call(
    filename: Seq<char>,
    voice: Seq<char>,
    text: Seq<char>,
) -> InvocationView {
    InvocationView {
        program: "mimic"@,
        args: seq!["-t"@, text, "-voice"@, voice, "-o"@, filename],
        input: None,
    }
}

/// How RHVoice is told to speak `text` with `voice` into `filename`.
pub open spec fn rhvoice_call(
    filename: Seq<char>,
    voice: Seq<char>,
    text: Seq<char>,
) -> InvocationView {
    InvocationView {
        program: "RHVoice-test"@,
        args: seq!["-p"@, voice, "-o"@, filename],
        input: Some(text),
    }
}

/// How espeak is told to speak `text` with `voice` into `filename`.
pub open spec fn espeak_call(
    filename: Seq<char>,
    voice: Seq<char>,
    text: Seq<char>,
) -> InvocationView {
    InvocationView {
        program: "espeak-ng"@,
        args: seq!["-v"@, voice, "-w"@, filename],
        input: Some(text),
    }
}

/// What the festival server is sent to make it select `voice` and speak
/// `text`.
pub open spec fn festival_request(voice: Seq<char>, text: Seq<char>) -> Seq<char> {
    "(voice_"@ + voice + ") (tts_textall \""@ + text + "\" nil)\n"@
}

/// How festival is told to speak `text` with `voice` into `filename`.
pub open spec fn festival_call(
    filename: Seq<char>,
    voice: Seq<char>,
    text: Seq<char>,
) -> InvocationView {
    InvocationView {
        program: "festival_client"@,
        args: seq!["--output"@, filename],
        input: Some(festival_request(voice, text)),
    }
}

/// How `backend` is told to speak `text` with `voice` into `filename`,
/// where flite has its voices in `voice_dir`.
pub open spec fn call_in(
    voice_dir: Seq<char>,
    backend: TTS,
    filename: Seq<char>,
    voice: Seq<char>,
    text: Seq<char>,
) -> InvocationView {
    match backend {
        TTS::Festival => festival_call(filename, voice, text),
        TTS::Espeak => espeak_call(filename, voice, text),
        TTS::RHVoice => rhvoice_call(filename, voice, text),
        TTS::Mimic => mimic_call(filename, voice, text),
        TTS::Flite => flite_call_in(voice_dir, filename, voice, text),
    }
}

/// How `backend` is told to speak `text` with `voice` into `filename`,
/// where flite has its voices in their usual directory.
pub open spec fn call_for(
    backend: TTS,
    filename: Seq<char>,
    voice: Seq<char>,
    text: Seq<char>,
) -> InvocationView {
    call_in(flite_voice_dir(), backend, filename, voice, text)
}

/// The command that makes flite speak `text` with `voice` into `filename`,
/// with its voices in the usual directory.
pub fn flite_tts(filename: &str, voice: &str, text: &str) -> (call: Invocation)
    ensures
        call@ == flite_call(filename@, voice@, text@),
{
    flite_tts_in("/usr/lib/flite/", filename, voice, text)
}

/// The command that makes flite speak `text` with `voice` into `filename`,
/// with its voices in the directory `voice_dir`.
pub fn flite_tts_in(voice_dir: &str, filename: &str, voice: &str, text: &str) -> (call: Invocation)
    ensures
        call@ == flite_call_in(voice_dir@, filename@, voice@, text@),
{
    let mut args: Vec<String> = Vec::new();
    args.push(String::from_str("-t"));
    args.push(String::from_str(text));
    args.push(String::from_str("-voicedir"));
    args.push(String::from_str(voice_dir));
    args.push(String::from_str("-voice"));
    args.push(String::from_str(voice));
    args.push(String::from_str("-o"));
    args.push(String::from_str(filename));
    let call = Invocation { program: String::from_str("flite"), args, input: None };
    assert(call@.args == flite_call_in(voice_dir@, filename@, voice@, text@).args);
    call
}

/// The command that makes mimic speak `text` with `voice` into `filename`.
pub fn mimic_tts(filename: &str, voice: &str, text: &str) -> (call: Invocation)
    ensures
        call@ == mimic_call(filename@, voice@, text@),
{
    let mut args: Vec<String> = Vec::new();
    args.push(String::from_str("-t"));
    args.push(String::from_str(text));
    args.push(String::from_str("-voice"));
    args.push(String::from_str(voice));
    args.push(String::from_str("-o"));
    args.push(String::from_str(filename));
    let call = Invocation { program: String::from_str("mimic"), args, input: None };
    assert(call@.args == mimic_call(filename@, voice@, text@).args);
    call
}

/// The command that makes RHVoice speak `text` with `voice` into
/// `filename`.
pub fn rhvoice_tts(filename: &str, voice: &str, text: &str) -> (call: Invocation)
    ensures
        call@ == rhvoice_call(filename@, voice@, text@),
{
    let mut args: Vec<String> = Vec::new();
    args.push(String::from_str("-p"));
    args.push(String::from_str(voice));
    args.push(String::from_str("-o"));
    args.push(String::from_str(filename));
    let call = Invocation {
        program: String::from_str("RHVoice-test"),
        args,
        input: Some(String::from_str(text)),
    };
    assert(call@.args == rhvoice_call(filename@, voice@, text@).args);
    call
}

/// The command that makes espeak speak `text` with `voice` into
/// `filename`.
pub fn espeak_tts(filename: &str, voice: &str, text: &str) -> (call: Invocation)
    ensures
        call@ == espeak_call(filename@, voice@, text@),
{
    let mut args: Vec<String> = Vec::new();
    args.push(String::from_str("-v"));
    args.push(String::from_str(voice));
    args.push(String::from_str("-w"));
    args.push(String::from_str(filename));
    let call = Invocation {
        program: String::from_str("espeak-ng"),
        args,
        input: Some(String::from_str(text)),
    };
    assert(call@.args == espeak_call(filename@, voice@, text@).args);
    call
}

/// The command that makes the festival server speak `text` with `voice`
/// into `filename`. The text goes into the request as it is.
pub fn festival_tts(filename: &str, voice: &str, text: &str) -> (call: Invocation)
    ensures
        call@ == festival_call(filename@, voice@, text@),
{
    let mut args: Vec<String> = Vec::new();
    args.push(String::from_str("--output"));
    args.push(String::from_str(filename));
    let mut request = String::from_str("(voice_");
    request.append(voice);
    request.append(") (tts_textall \"");
    request.append(text);
    request.append("\" nil)\n");
    let call = Invocation {
        program: String::from_str("festival_client"),
        args,
        input: Some(request),
    };
    assert(call@.args == festival_call(filename@, voice@, text@).args);
    call
}

/// The file of the clip of the word with the id `id`, in the working
/// directory of the session.
pub open spec fn clip_path(id: nat) -> Seq<char> {
    "wav/"@ + decimal(id) + ".wav"@
}

/// The file into which the word with the id `id` is spoken.
pub fn clip_file(id: usize) -> (path: String)
    ensures
        path@ == clip_path(id as nat),
{
    let mut path = String::from_str("wav/");
    push_decimal(&mut path, id);
    path.append(".wav");
    path
}

impl Job {
    /// The file into which the word of this job is spoken: the one named by
    /// its id.
    pub fn clip_file(&self) -> (path: String)
        ensures
            path@ == clip_path(self.id as nat),
    {
        clip_file(self.id)
    }

    /// The command that carries out this job: it makes the backend of the
    /// job speak its word with its voice into the file named by its id.
    /// Flite is told to look for its voices in their usual directory.
    pub fn invocation(&self) -> (call: Invocation)
        ensures
            call@ == call_for(self.backend, clip_path(self.id as nat), self.voice@, self.word@),
    {
        self.invocation_in("/usr/lib/flite/")
    }

    /// The command that carries out this job, where flite has its voices
    /// in `voice_dir`.
    pub fn invocation_in(&self, voice_dir: &str) -> (call: Invocation)
        ensures
            call@ == call_in(
                voice_dir@,
                self.backend,
                clip_path(self.id as nat),
                self.voice@,
                self.word@,
            ),
    {
        let path = clip_file(self.id);
        let filename = path.as_str();
        let voice = self.voice.as_str();
        let word = self.word.as_str();
        match self.backend {
            TTS::Festival => festival_tts(filename, voice, word),
            TTS::Espeak => espeak_tts(filename, voice, word),
            TTS::RHVoice => rhvoice_tts(filename, voice, word),
            TTS::Mimic => mimic_tts(filename, voice, word),
            TTS::Flite => flite_tts_in(voice_dir, filename, voice, word),
        }
    }
}

impl RansomTTS {
    /// The command that carries out `job` in a session of this registry:
    /// as `Job::invocation`, with the voices of flite in the directory
    /// that the registry was made with.
    pub fn invocation(&self, job: &Job) -> (call: Invocation)
        ensures
            call@ == call_in(
                self.voice_dir(),
                job.backend,
                clip_path(job.id as nat),
                job.voice@,
                job.word@,
            ),
    {
        job.invocation_in(self.flite_voice_dir())
    }
}

/// How mimic is asked for its voices.
pub open spec fn mimic_listing_call() -> InvocationView {
    InvocationView { program: "mimic"@, args: seq!["-lv"@], input: None }
}

/// How espeak is asked for its English voices.
pub open spec fn espeak_listing_call() -> InvocationView {
    InvocationView { program: "espeak-ng"@, args: seq!["--voices=en"@], input: None }
}

/// How the running festival server is asked for its voices.
pub open spec fn festival_listing_call() -> InvocationView {
    InvocationView {
        program: "festival_client"@,
        args: seq!["--withlisp"@],
        input: Some("(voice.list)\n"@),
    }
}

/// How the festival server is started.
pub open spec fn festival_server_call() -> InvocationView {
    InvocationView { program: "festival"@, args: seq!["--server"@], input: None }
}

/// The command whose output `get_mimic_voices` reads.
pub fn mimic_listing() -> (call: Invocation)
    ensures
        call@ == mimic_listing_call(),
{
    let mut args: Vec<String> = Vec::new();
    args.push(String::from_str("-lv"));
    let call = Invocation { program: String::from_str("mimic"), args, input: None };
    assert(call@.args == mimic_listing_call().args);
    call
}

/// The command whose output `get_espeak_voices` reads.
pub fn espeak_listing() -> (call: Invocation)
    ensures
        call@ == espeak_listing_call(),
{
    let mut args: Vec<String> = Vec::new();
    args.push(String::from_str("--voices=en"));
    let call = Invocation { program: String::from_str("espeak-ng"), args, input: None };
    assert(call@.args == espeak_listing_call().args);
    call
}

/// The command whose output `get_festival_voices` reads. It needs the
/// server to be up.
pub fn festival_listing() -> (call: Invocation)
    ensures
        call@ == festival_listing_call(),
{
    let mut args: Vec<String> = Vec::new();
    args.push(String::from_str("--withlisp"));
    let call = Invocation {
        program: String::from_str("festival_client"),
        args,
        input: Some(String::from_str("(voice.list)\n")),
    };
    assert(call@.args == festival_listing_call().args);
    call
}

/// The command that starts the festival server, whose output `Startup`
/// follows.
pub fn festival_server() -> (call: Invocation)
    ensures
        call@ == festival_server_call(),
{
    let mut args: Vec<String> = Vec::new();
    args.push(String::from_str("--server"));
    let call = Invocation { program: String::from_str("festival"), args, input: None };
    assert(call@.args == festival_server_call().args);
    call
}

/// The line with which the festival server says that it is up.
pub open spec fn ready_marker() -> Seq<char> {
    "Festival server started"@
}

/// The words with which the festival server says that it could not bind
/// its port.
pub open spec fn failure_marker() -> Seq<char> {
    "bind failed"@
}

/// Whether `line` holds one of the two markers.
pub open spec fn contains_marker(line: Seq<char>) -> bool {
    contains(line, ready_marker()) || contains(line, failure_marker())
}

/// Where the start of the speech server stands.
#[derive(Clone, Copy, Debug, PartialEq, Eq, Structural)]
pub enum Startup {
    /// The server has printed neither marker yet.
    Waiting,
    /// The server is up. What it prints from now on is its log, which is
    /// read on so that the server never blocks on a full pipe.
    Ready,
    /// The server could not bind its port. The session ends.
    Failed,
    /// The output of the server ended before it was up. The session ends.
    Stopped,
}

/// The state after the server printed `line` in the state `state`.
pub open spec fn after_line(state: Startup, line: Seq<char>) -> Startup {
    match state {
        Startup::Waiting => if contains(line, ready_marker()) {
            Startup::Ready
        } else if contains(line, failure_marker()) {
            Startup::Failed
        } else {
            Startup::Waiting
        },
        Startup::Ready => Startup::Ready,
        Startup::Failed => Startup::Failed,
        Startup::Stopped => Startup::Stopped,
    }
}

/// The state after the output of the server ended in the state `state`: a
/// server that was still waited for will never be up.
pub open spec fn after_end(state: Startup) -> Startup {
    match state {
        Startup::Waiting => Startup::Stopped,
        Startup::Ready => Startup::Ready,
        Startup::Failed => Startup::Failed,
        Startup::Stopped => Startup::Stopped,
    }
}

/// The state after the server printed `lines`, one after the other, from
/// the state `state` on.
pub open spec fn after_lines(state: Startup, lines: Seq<Seq<char>>) -> Startup
    decreases lines.len(),
{
    if lines.len() == 0 {
        state
    } else {
        after_line(after_lines(state, lines.drop_last()), lines.last())
    }
}

/// Why the session ends in the state `state`, if it does.
pub open spec fn failure(state: Startup) -> Option<Error> {
    match state {
        Startup::Failed => Some(Error::BindFailed),
        Startup::Stopped => Some(Error::ServerStopped),
        _ => None,
    }
}

/// Whether `pattern` stands somewhere in `line`.
fn line_contains(line: &[char], pattern: &str) -> (b: bool)
    ensures
        b == contains(line@, pattern@),
{
    let chars = to_chars(pattern);
    proof {
        lemma_contains(line@, pattern@);
    }
    find(line, chars.as_slice(), 0).is_some()
}

impl Startup {
    /// The state after the server printed `line`.
    pub fn observe(self, line: &str) -> (next: Startup)
        ensures
            next == after_line(self, line@),
    {
        match self {
            Startup::Waiting => {
                let chars = to_chars(line);
                if line_contains(chars.as_slice(), "Festival server started") {
                    Startup::Ready
                } else if line_contains(chars.as_slice(), "bind failed") {
                    Startup::Failed
                } else {
                    Startup::Waiting
                }
            },
            Startup::Ready => Startup::Ready,
            Startup::Failed => Startup::Failed,
            Startup::Stopped => Startup::Stopped,
        }
    }

    /// The state after the output of the server ended. It is never
    /// `Waiting`: the server is up, or the session ends.
    pub fn end(self) -> (next: Startup)
        ensures
            next == after_end(self),
            next != Startup::Waiting,
            self == Startup::Waiting ==> failure(next) == Some(Error::ServerStopped),
    {
        match self {
            Startup::Waiting => Startup::Stopped,
            Startup::Ready => Startup::Ready,
            Startup::Failed => Startup::Failed,
            Startup::Stopped => Startup::Stopped,
        }
    }

    /// Whether the output is still to be read for a marker.
    pub fn waiting(self) -> (b: bool)
        ensures
            b == (self == Startup::Waiting),
    {
        match self {
            Startup::Waiting => true,
            _ => false,
        }
    }

    /// Why the session ends in this state, if it does.
    pub fn error(self) -> (e: Option<Error>)
        ensures
            e == failure(self),
    {
        match self {
            Startup::Failed => Some(Error::BindFailed),
            Startup::Stopped => Some(Error::ServerStopped),
            _ => None,
        }
    }
}

} // verus!
