//! The word scheduler: which words are spoken, by which voice and under
//! which id, and the session that collects what the synthesis calls leave.
//!
//! A session has two phases. While it scans, it hands out one job for each
//! distinct word and records what each job left. Rendering consumes the
//! session, so nothing leads back from the score to the scan.

use crate::backend::flite_voice_dir;
use crate::error::Error;
use crate::score::{events_of, instruments_of, Score};
use crate::text::{code_point_sum, code_sum, from_chars, to_chars};
use crate::voices::{voice_views, VoiceView, TTS};
use crate::words::{unique_words, words_of, WordMap, FIRST_ID};
use vstd::prelude::*;

verus! {

/// The voice that speaks the word `w` in a registry of `n` voices: the sum
/// of its code points, reduced modulo `n`.
pub open spec fn voice_index(n: int, w: Seq<char>) -> int {
    code_sum(w) as int % n
}

/// One synthesis call: a distinct word, its id and the voice that speaks
/// it.
#[derive(Clone, Debug, PartialEq, Eq)]
pub struct Job {
    /// The id of the word, by which its clip and its instrument are named.
    pub id: usize,
    /// The text to speak.
    pub word: String,
    /// The place of the voice in the registry.
    pub voice_index: usize,
    /// The backend of that voice.
    pub backend: TTS,
    /// The identifier of that voice.
    pub voice: String,
}

/// A `Job` as contracts see it.
pub struct JobView {
    pub id: int,
    pub word: Seq<char>,
    pub voice_index: int,
    pub backend: TTS,
    pub voice: Seq<char>,
}

impl View for Job {
    type V = JobView;

    open spec fn view(&self) -> JobView {
        JobView {
            id: self.id as int,
            word: self.word@,
            voice_index: self.voice_index as int,
            backend: self.backend,
            voice: self.voice@,
        }
    }
}

/// The views of a sequence of jobs.
pub open spec fn job_views(jobs: Seq<Job>) -> Seq<JobView> {
    Seq::new(jobs.len(), |k: int| jobs[k]@)
}

/// The job for the `k`-th distinct word.
pub open spec fn job_at(voices: Seq<VoiceView>, words: Seq<Seq<char>>, k: int) -> JobView {
    let p = unique_words(words)[k];
    let v = voice_index(voices.len() as int, words[p]);
    JobView {
        id: p + FIRST_ID,
        word: words[p],
        voice_index: v,
        backend: voices[v].0,
        voice: voices[v].1,
    }
}

/// The synthesis calls that a text asks for: one for each distinct word, in
/// ascending order of id.
pub open spec fn jobs_of(voices: Seq<VoiceView>, words: Seq<Seq<char>>) -> Seq<JobView> {
    Seq::new(unique_words(words).len(), |k: int| job_at(voices, words, k))
}

/// A set of voices to choose from, with what the session is configured
/// with. It is never empty.
pub struct RansomTTS {
    voices: Vec<(TTS, String)>,
    voice_dir: String,
}

impl View for RansomTTS {
    type V = Seq<VoiceView>;

    closed spec fn view(&self) -> Seq<VoiceView> {
        voice_views(self.voices@)
    }
}

impl RansomTTS {
    #[verifier::type_invariant]
    spec fn nonempty(&self) -> bool {
        self.voices.len() > 0
    }

    /// The directory in which flite is told to look for its voices.
    pub closed spec fn voice_dir(&self) -> Seq<char> {
        self.voice_dir@
    }

    /// A registry of the given voices, in their order, with the voices of
    /// flite in their usual directory. A registry without a voice is
    /// refused.
    pub fn new(voices: Vec<(TTS, String)>) -> (r: Result<RansomTTS, Error>)
        ensures
            match r {
                Ok(registry) => {
                    &&& voices.len() > 0
                    &&& registry@ == voice_views(voices@)
                    &&& registry.voice_dir() == flite_voice_dir()
                },
                Err(e) => e == Error::EmptyRegistry && voices.len() == 0,
            },
    {
        RansomTTS::with_voice_dir(voices, "/usr/lib/flite/")
    }

    /// A registry of the given voices, in their order, with the voices of
    /// flite in the directory `flite_voice_dir`. A registry without a voice
    /// is refused.
    pub fn with_voice_dir(voices: Vec<(TTS, String)>, flite_voice_dir: &str) -> (r: Result<
        RansomTTS,
        Error,
    >)
        ensures
            match r {
                Ok(registry) => {
                    &&& voices.len() > 0
                    &&& registry@ == voice_views(voices@)
                    &&& registry.voice_dir() == flite_voice_dir@
                },
                Err(e) => e == Error::EmptyRegistry && voices.len() == 0,
            },
    {
        if voices.len() == 0 {
            Err(Error::EmptyRegistry)
        } else {
            Ok(RansomTTS { voices, voice_dir: String::from_str(flite_voice_dir) })
        }
    }

    /// The directory in which flite is told to look for its voices.
    pub fn flite_voice_dir(&self) -> (dir: &str)
        ensures
            dir@ == self.voice_dir(),
    {
        self.voice_dir.as_str()
    }

    /// The voices of the registry, in the order in which they are selected.
    pub fn voices(&self) -> (voices: &Vec<(TTS, String)>)
        ensures
            voices.len() > 0,
            voice_views(voices@) == self@,
    {
        proof {
            use_type_invariant(self);
        }
        &self.voices
    }

    /// The place in the registry of the voice that speaks `word`.
    pub fn voice_index(&self, word: &str) -> (index: usize)
        ensures
            index == voice_index(self@.len() as int, word@),
            index < self@.len(),
    {
        let chars = to_chars(word);
        self.select(chars.as_slice())
    }

    fn select(&self, word: &[char]) -> (index: usize)
        ensures
            index == voice_index(self@.len() as int, word@),
            index < self@.len(),
    {
        proof {
            use_type_invariant(self);
        }
        let sum = code_point_sum(word);
        (sum % (self.voices.len() as u128)) as usize
    }

    /// The job for the `k`-th distinct word of `map`.
    fn job(&self, map: &WordMap, k: usize) -> (job: Job)
        requires
            k < unique_words(map@).len(),
        ensures
            job@ == job_at(self@, map@, k as int),
    {
        proof {
            use_type_invariant(self);
        }
        let p = map.position(k);
        let word = map.word(p);
        let index = self.select(word);
        Job {
            id: p + FIRST_ID,
            word: from_chars(word),
            voice_index: index,
            backend: self.voices[index].0,
            voice: self.voices[index].1.clone(),
        }
    }

    /// Opens a session on `text`, in its scanning phase: the jobs are laid
    /// out and none is done. A text with too many characters for the ids of
    /// its words is refused.
    pub fn begin(&self, text: &str) -> (r: Result<Session, Error>)
        ensures
            match r {
                Ok(session) => {
                    &&& text@.len() + FIRST_ID <= usize::MAX
                    &&& session@.words == words_of(text@)
                    &&& session@.jobs == jobs_of(self@, words_of(text@))
                    &&& session@.clips == Seq::<Option<(u32, usize)>>::empty()
                },
                Err(e) => e == Error::TextTooLong && text@.len() + FIRST_ID > usize::MAX,
            },
    {
        let map = match WordMap::new(text) {
            Some(map) => map,
            None => { return Err(Error::TextTooLong); },
        };
        let distinct = map.distinct();
        let mut jobs: Vec<Job> = Vec::new();
        let mut k: usize = 0;
        while k < distinct
            invariant
                k <= distinct,
                distinct == unique_words(map@).len(),
                jobs.len() == k,
                forall|l: int| 0 <= l < k ==> #[trigger] jobs[l]@ == job_at(self@, map@, l),
            decreases distinct - k,
        {
            jobs.push(self.job(&map, k));
            k += 1;
        }
        assert(job_views(jobs@) == jobs_of(self@, map@));
        Ok(Session { map, jobs, clips: Vec::new() })
    }

    /// The synthesis calls that `text` asks for: one for each distinct
    /// word, under the id of that word and with the voice selected for it.
    pub fn scan(&self, text: &str) -> (r: Result<Vec<Job>, Error>)
        ensures
            match r {
                Ok(jobs) => text@.len() + FIRST_ID <= usize::MAX && job_views(jobs@) == jobs_of(
                    self@,
                    words_of(text@),
                ),
                Err(e) => e == Error::TextTooLong && text@.len() + FIRST_ID > usize::MAX,
            },
    {
        match self.begin(text) {
            Ok(session) => Ok(session.into_jobs()),
            Err(e) => Err(e),
        }
    }

    /// The score of `text`, where `clips[k]` is the sample rate and the
    /// sample count measured on the clip of the `k`-th job of
    /// `self.scan(text)`, or `None` where that job left no usable clip.
    /// Jobs beyond the end of `clips` count as failed.
    pub fn tts(&self, text: &str, clips: &Vec<Option<(u32, usize)>>) -> (r: Result<Score, Error>)
        ensures
            match r {
                Ok(score) => {
                    &&& text@.len() + FIRST_ID <= usize::MAX
                    &&& score.instruments@ == instruments_of(words_of(text@), clips@)
                    &&& score.events@ == events_of(words_of(text@), clips@)
                },
                Err(e) => e == Error::TextTooLong && text@.len() + FIRST_ID > usize::MAX,
            },
    {
        match WordMap::new(text) {
            Some(map) => Ok(map.score(clips)),
            None => Err(Error::TextTooLong),
        }
    }
}

/// A session in its scanning phase: the words of its text, the jobs they
/// ask for, and what the jobs done so far have left.
pub struct Session {
    map: WordMap,
    jobs: Vec<Job>,
    clips: Vec<Option<(u32, usize)>>,
}

/// A `Session` as contracts see it.
pub struct SessionView {
    /// The word occurrences of the text.
    pub words: Seq<Seq<char>>,
    /// One job for each distinct word.
    pub jobs: Seq<JobView>,
    /// What the jobs done so far have left, in the order of the jobs.
    pub clips: Seq<Option<(u32, usize)>>,
}

impl View for Session {
    type V = SessionView;

    closed spec fn view(&self) -> SessionView {
        SessionView { words: self.map@, jobs: job_views(self.jobs@), clips: self.clips@ }
    }
}

impl Session {
    #[verifier::type_invariant]
    spec fn wf(&self) -> bool {
        &&& self.jobs.len() == unique_words(self.map@).len()
        &&& self.clips.len() <= self.jobs.len()
    }

    /// The jobs of the session, done or not.
    pub fn jobs(&self) -> (jobs: &Vec<Job>)
        ensures
            job_views(jobs@) == self@.jobs,
            self@.jobs.len() == unique_words(self@.words).len(),
    {
        proof {
            use_type_invariant(self);
        }
        &self.jobs
    }

    /// The job to do next, or `None` once every job is done. No job is
    /// handed out twice: the next one is the first without a record.
    pub fn pending(&self) -> (r: Option<&Job>)
        ensures
            self@.clips.len() <= self@.jobs.len(),
            match r {
                Some(job) => self@.clips.len() < self@.jobs.len() && job@
                    == self@.jobs[self@.clips.len() as int],
                None => self@.clips.len() == self@.jobs.len(),
            },
    {
        proof {
            use_type_invariant(self);
        }
        if self.clips.len() < self.jobs.len() {
            Some(&self.jobs[self.clips.len()])
        } else {
            None
        }
    }

    /// Records what the pending job left: the sample rate and the sample
    /// count of its clip, or `None` where it left no usable clip. Once
    /// every job is done there is nothing to record, and the session stays
    /// as it is.
    pub fn record(self, clip: Option<(u32, usize)>) -> (next: Session)
        ensures
            next@.words == self@.words,
            next@.jobs == self@.jobs,
            next@.clips == if self@.clips.len() < self@.jobs.len() {
                self@.clips.push(clip)
            } else {
                self@.clips
            },
    {
        proof {
            use_type_invariant(&self);
        }
        if self.clips.len() < self.jobs.len() {
            let Session { map, jobs, mut clips } = self;
            clips.push(clip);
            Session { map, jobs, clips }
        } else {
            self
        }
    }

    /// Ends the scan and builds the score. A job without a record counts
    /// as failed.
    pub fn render(self) -> (score: Score)
        ensures
            score.instruments@ == instruments_of(self@.words, self@.clips),
            score.events@ == events_of(self@.words, self@.clips),
    {
        self.map.score(&self.clips)
    }

    /// Ends the session and hands out its jobs.
    pub fn into_jobs(self) -> (jobs: Vec<Job>)
        ensures
            job_views(jobs@) == self@.jobs,
    {
        self.jobs
    }
}

} // verus!
