//! The state machine of one track's download. The driver performs each
//! action (a search, a fetch, a transcode, the enrichment, the tag write) and
//! hands back what came of it; the machine decides what follows and which
//! progress updates are due.
use vstd::prelude::*;
use crate::converter::{conversion_needed, AudioConverter};
use crate::naming::{
    cover_ext, cover_path, format_ext, last_index_of, layout_path, output_path, parent_of,
    split_path, stem_of, track_stem,
};
use crate::search::SearchResult;
use crate::text::{chars_of, extend_chars, extend_str, lower_of, string_of};
use crate::track::{DownloadOptions, TrackMetadata};

verus! {

/// A named point in a track's download.
#[derive(Debug, Clone, Copy, PartialEq, Eq, Structural)]
pub enum DownloadStage {
    Queued,
    FetchingMetadata,
    SearchingSource,
    DownloadingAudio,
    ConvertingAudio,
    DownloadingCover,
    DownloadingLyrics,
    EmbeddingMetadata,
    Completed,
    Error,
}

/// Position of a stage in the forward order.
pub open spec fn stage_rank(s: DownloadStage) -> int {
    match s {
        DownloadStage::Queued => 0,
        DownloadStage::FetchingMetadata => 1,
        DownloadStage::SearchingSource => 2,
        DownloadStage::DownloadingAudio => 3,
        DownloadStage::ConvertingAudio => 4,
        DownloadStage::DownloadingCover => 5,
        DownloadStage::DownloadingLyrics => 6,
        DownloadStage::EmbeddingMetadata => 7,
        DownloadStage::Completed => 8,
        DownloadStage::Error => 9,
    }
}

impl DownloadStage {
    /// The label shown for a stage.
    pub fn label(&self) -> (r: &'static str)
        ensures
            r@ == stage_label(*self),
    {
        match self {
            DownloadStage::Queued => "Queued",
            DownloadStage::FetchingMetadata => "Fetching Metadata",
            DownloadStage::SearchingSource => "Searching Source",
            DownloadStage::DownloadingAudio => "Downloading Audio",
            DownloadStage::ConvertingAudio => "Converting Audio",
            DownloadStage::DownloadingCover => "Downloading Cover",
            DownloadStage::DownloadingLyrics => "Downloading Lyrics",
            DownloadStage::EmbeddingMetadata => "Embedding Metadata",
            DownloadStage::Completed => "Completed",
            DownloadStage::Error => "Error",
        }
    }
}

/// The label shown for a stage.
pub open spec fn stage_label(s: DownloadStage) -> Seq<char> {
    match s {
        DownloadStage::Queued => "Queued"@,
        DownloadStage::FetchingMetadata => "Fetching Metadata"@,
        DownloadStage::SearchingSource => "Searching Source"@,
        DownloadStage::DownloadingAudio => "Downloading Audio"@,
        DownloadStage::ConvertingAudio => "Converting Audio"@,
        DownloadStage::DownloadingCover => "Downloading Cover"@,
        DownloadStage::DownloadingLyrics => "Downloading Lyrics"@,
        DownloadStage::EmbeddingMetadata => "Embedding Metadata"@,
        DownloadStage::Completed => "Completed"@,
        DownloadStage::Error => "Error"@,
    }
}

/// Where a run stands.
#[derive(Debug, Clone, Copy, PartialEq, Eq, Structural)]
pub enum Phase {
    Start,
    Searching,
    Fetching,
    SecondarySearching,
    SecondaryFetching,
    CheckingTool,
    GenericFetching,
    Converting,
    Enriching,
    Embedding,
    SavingCover,
    Done,
}

/// The decision state of a run: all it needs to choose the next action.
#[derive(Debug, Clone, Copy, PartialEq, Eq, Structural)]
pub struct Control {
    pub phase: Phase,
    pub want_cover: bool,
    pub want_lyrics: bool,
    pub embed: bool,
    pub convert_needed: bool,
    pub has_cover: bool,
    pub has_lyrics: bool,
    /// The last stage reported, and its progress in percent.
    pub last_stage: DownloadStage,
    pub level: u32,
}

/// The shape of what the driver reports back.
#[derive(Debug, Clone, Copy, PartialEq, Eq, Structural)]
pub enum OutcomeKind {
    Begin,
    Searched { found: bool },
    Fetched { ok: bool },
    ToolChecked { available: bool },
    Converted { ok: bool },
    Enriched { cover: bool, lyrics: bool },
    Embedded { ok: bool },
    CoverSaved,
}

/// The shape of what the machine asks for.
#[derive(Debug, Clone, Copy, PartialEq, Eq, Structural)]
pub enum ActionKind {
    Search,
    Fetch,
    SecondarySearch,
    CheckTool,
    GenericFetch,
    Convert,
    Enrich,
    Embed,
    SaveCover,
    Finish,
    Fail,
    Idle,
}

/// A progress update: stage and percent.
pub type Mark = (DownloadStage, u32);

/// A decision: the next control state, the action, and the updates to emit.
pub type Decision = (Control, ActionKind, Seq<Mark>);

/// The state with a new phase and the last of `marks` recorded.
pub open spec fn moved(c: Control, phase: Phase, marks: Seq<Mark>) -> Control {
    if marks.len() == 0 {
        Control { phase, ..c }
    } else {
        Control { phase, last_stage: marks.last().0, level: marks.last().1, ..c }
    }
}

/// Stop with an error.
pub open spec fn fail(c: Control) -> Decision {
    let m = seq![(DownloadStage::Error, 0u32)];
    (moved(c, Phase::Done, m), ActionKind::Fail, m)
}

/// Report completion.
pub open spec fn finish(c: Control) -> Decision {
    let m = seq![(DownloadStage::Completed, 100u32)];
    (moved(c, Phase::Done, m), ActionKind::Finish, m)
}

/// After the tag write: save the cover when one was fetched and asked for.
pub open spec fn after_embed(c: Control) -> Decision {
    if c.want_cover && c.has_cover {
        (moved(c, Phase::SavingCover, seq![]), ActionKind::SaveCover, seq![])
    } else {
        finish(c)
    }
}

/// After the enrichment: write tags when asked.
pub open spec fn after_enrich(c: Control) -> Decision {
    if c.embed {
        let m = seq![(DownloadStage::EmbeddingMetadata, 90u32)];
        (moved(c, Phase::Embedding, m), ActionKind::Embed, m)
    } else {
        after_embed(c)
    }
}

/// After the transcode: fetch cover and lyrics when either is asked for.
pub open spec fn after_convert(c: Control) -> Decision {
    if c.want_cover || c.want_lyrics {
        let m = seq![(DownloadStage::DownloadingCover, 80u32)];
        (moved(c, Phase::Enriching, m), ActionKind::Enrich, m)
    } else {
        after_enrich(Control { has_cover: false, has_lyrics: false, ..c })
    }
}

/// After the audio arrived: report the conversion stage, then transcode when
/// the file needs it.
pub open spec fn after_audio(c: Control) -> Decision {
    let m = seq![(DownloadStage::ConvertingAudio, 60u32)];
    if c.convert_needed {
        (moved(c, Phase::Converting, m), ActionKind::Convert, m)
    } else {
        let d = after_convert(moved(c, Phase::Converting, m));
        (d.0, d.1, m + d.2)
    }
}

/// The transition of a run: a search that finds nothing ends it; a failed
/// fetch falls back to the secondary platform, then to the generic tool when
/// it is present; enrichment never fails it; a failed transcode or tag write
/// does. A finished run does nothing more.
pub open spec fn decide(c: Control, o: OutcomeKind) -> Decision {
    match (c.phase, o) {
        (Phase::Start, OutcomeKind::Begin) => {
            let m = seq![(DownloadStage::SearchingSource, 10u32)];
            (moved(c, Phase::Searching, m), ActionKind::Search, m)
        },
        (Phase::Searching, OutcomeKind::Searched { found }) => {
            if found {
                let m = seq![(DownloadStage::DownloadingAudio, 30u32)];
                (moved(c, Phase::Fetching, m), ActionKind::Fetch, m)
            } else {
                fail(c)
            }
        },
        (Phase::Fetching, OutcomeKind::Fetched { ok }) => {
            if ok {
                after_audio(c)
            } else {
                (moved(c, Phase::SecondarySearching, seq![]), ActionKind::SecondarySearch, seq![])
            }
        },
        (Phase::SecondarySearching, OutcomeKind::Searched { found }) => {
            if found {
                (moved(c, Phase::SecondaryFetching, seq![]), ActionKind::Fetch, seq![])
            } else {
                (moved(c, Phase::CheckingTool, seq![]), ActionKind::CheckTool, seq![])
            }
        },
        (Phase::SecondaryFetching, OutcomeKind::Fetched { ok }) => {
            if ok {
                after_audio(c)
            } else {
                (moved(c, Phase::CheckingTool, seq![]), ActionKind::CheckTool, seq![])
            }
        },
        (Phase::CheckingTool, OutcomeKind::ToolChecked { available }) => {
            if available {
                (moved(c, Phase::GenericFetching, seq![]), ActionKind::GenericFetch, seq![])
            } else {
                fail(c)
            }
        },
        (Phase::GenericFetching, OutcomeKind::Fetched { ok }) => {
            if ok {
                after_audio(c)
            } else {
                fail(c)
            }
        },
        (Phase::Converting, OutcomeKind::Converted { ok }) => {
            if ok {
                after_convert(c)
            } else {
                fail(c)
            }
        },
        (Phase::Enriching, OutcomeKind::Enriched { cover, lyrics }) => {
            after_enrich(
                Control { has_cover: cover && c.want_cover, has_lyrics: lyrics && c.want_lyrics, ..c },
            )
        },
        (Phase::Embedding, OutcomeKind::Embedded { ok }) => {
            if ok {
                after_embed(c)
            } else {
                fail(c)
            }
        },
        (Phase::SavingCover, OutcomeKind::CoverSaved) => finish(c),
        (Phase::Done, _) => (c, ActionKind::Idle, seq![]),
        _ => fail(c),
    }
}

/// `a` comes no later than `b` in stage and progress.
pub open spec fn mark_le(a: Mark, b: Mark) -> bool {
    stage_rank(a.0) <= stage_rank(b.0) && a.1 <= b.1
}

/// A terminal update: completion or an error.
pub open spec fn terminal(m: Mark) -> bool {
    m.0 == DownloadStage::Completed || m.0 == DownloadStage::Error
}

/// The updates of a run move forward: each update that is not an error comes
/// no earlier than every update before it, and nothing follows a terminal one.
pub open spec fn moves_forward(ms: Seq<Mark>) -> bool {
    forall|i: int, j: int|
        0 <= i < j < ms.len() ==> !terminal(#[trigger] ms[i]) && (#[trigger] ms[j].0
            != DownloadStage::Error ==> mark_le(ms[i], ms[j]))
}

/// The earliest update a live run in `p` can still emit, errors aside.
pub open spec fn next_floor(p: Phase) -> Mark {
    match p {
        Phase::Start => (DownloadStage::SearchingSource, 10),
        Phase::Searching => (DownloadStage::DownloadingAudio, 30),
        Phase::Converting => (DownloadStage::DownloadingCover, 80),
        Phase::Enriching => (DownloadStage::EmbeddingMetadata, 90),
        Phase::Embedding | Phase::SavingCover | Phase::Done => (DownloadStage::Completed, 100),
        _ => (DownloadStage::ConvertingAudio, 60),
    }
}

/// The state is consistent: a live run has reported nothing terminal, and
/// nothing later than what its phase can still emit.
pub open spec fn control_ok(c: Control) -> bool {
    c.phase != Phase::Done ==> !terminal((c.last_stage, c.level)) && mark_le(
        (c.last_stage, c.level),
        next_floor(c.phase),
    )
}

/// Every update of one decision, then every update of the rest of the run.
pub open spec fn trace(c: Control, os: Seq<OutcomeKind>) -> Seq<Mark>
    decreases os.len(),
{
    if os.len() == 0 {
        seq![]
    } else {
        let d = decide(c, os[0]);
        d.2 + trace(d.0, os.drop_first())
    }
}

proof fn lemma_decide_step(c: Control, o: OutcomeKind)
    requires
        control_ok(c),
    ensures
        ({
            let d = decide(c, o);
            &&& control_ok(d.0)
            &&& moves_forward(d.2)
            &&& forall|k: int|
                0 <= k < d.2.len() && #[trigger] d.2[k].0 != DownloadStage::Error ==> mark_le(
                    (c.last_stage, c.level),
                    d.2[k],
                ) && mark_le(d.2[k], (d.0.last_stage, d.0.level))
            &&& c.phase != Phase::Done ==> mark_le((c.last_stage, c.level), (d.0.last_stage, d.0.level))
                || d.0.phase == Phase::Done
            &&& (exists|k: int| 0 <= k < d.2.len() && terminal(#[trigger] d.2[k])) ==> d.0.phase
                == Phase::Done
            &&& c.phase == Phase::Done ==> d.2.len() == 0
            &&& d.0.phase == Phase::Done && c.phase != Phase::Done ==> d.2.len() > 0 && terminal(
                d.2.last(),
            )
        }),
{
    reveal_with_fuel(trace, 1);
}

proof fn lemma_trace(c: Control, os: Seq<OutcomeKind>)
    requires
        control_ok(c),
    ensures
        moves_forward(trace(c, os)),
        c.phase == Phase::Done ==> trace(c, os).len() == 0,
        c.phase != Phase::Done ==> forall|k: int|
            0 <= k < trace(c, os).len() && #[trigger] trace(c, os)[k].0 != DownloadStage::Error
                ==> mark_le((c.last_stage, c.level), trace(c, os)[k]),
    decreases os.len(),
{
    if os.len() > 0 {
        let d = decide(c, os[0]);
        lemma_decide_step(c, os[0]);
        lemma_trace(d.0, os.drop_first());
        let t = trace(d.0, os.drop_first());
        let all = trace(c, os);
        assert(all == d.2 + t);
        assert forall|i: int, j: int| 0 <= i < j < all.len() implies !terminal(#[trigger] all[i])
            && (#[trigger] all[j].0 != DownloadStage::Error ==> mark_le(all[i], all[j])) by {
            if j < d.2.len() {
                assert(all[i] == d.2[i] && all[j] == d.2[j]);
            } else if i >= d.2.len() {
                assert(all[i] == t[i - d.2.len()] && all[j] == t[j - d.2.len()]);
            } else {
                assert(all[i] == d.2[i] && all[j] == t[j - d.2.len()]);
                assert(t.len() > 0);
                assert(d.0.phase != Phase::Done);
                if terminal(d.2[i]) {
                    assert(exists|k: int| 0 <= k < d.2.len() && terminal(#[trigger] d.2[k]));
                }
            }
        }
        if c.phase != Phase::Done {
            assert forall|k: int|
                0 <= k < all.len() && #[trigger] all[k].0 != DownloadStage::Error implies mark_le(
                (c.last_stage, c.level),
                all[k],
            ) by {
                if k < d.2.len() {
                    assert(all[k] == d.2[k]);
                } else {
                    assert(all[k] == t[k - d.2.len()]);
                }
            }
        }
    }
}

/// The stage-order law: from a fresh run, whatever the driver reports, the
/// updates move forward (stage and percent never go back), an error ends the
/// run, and nothing follows completion.
pub proof fn stages_move_forward(c: Control, os: Seq<OutcomeKind>)
    requires
        c.phase == Phase::Start,
        c.last_stage == DownloadStage::Queued,
        c.level == 0,
    ensures
        moves_forward(trace(c, os)),
{
    lemma_trace(c, os);
}

/// Cover art and lyrics are never fatal: whatever the enrichment found, the
/// run goes on; when it found nothing and tags are asked for, the tag write is
/// asked with neither, and a successful write completes the run.
pub proof fn enrichment_never_fatal(c: Control, cover: bool, lyrics: bool)
    requires
        c.phase == Phase::Enriching,
    ensures
        decide(c, OutcomeKind::Enriched { cover, lyrics }).1 != ActionKind::Fail,
        !cover && !lyrics && c.embed ==> ({
            let d = decide(c, OutcomeKind::Enriched { cover: false, lyrics: false });
            let e = decide(d.0, OutcomeKind::Embedded { ok: true });
            &&& d.1 == ActionKind::Embed
            &&& !d.0.has_cover && !d.0.has_lyrics
            &&& e.1 == ActionKind::Finish
            &&& e.2 == seq![(DownloadStage::Completed, 100u32)]
        }),
{
}

fn fail_exec(c: Control) -> (r: (Control, ActionKind, Vec<Mark>))
    ensures
        (r.0, r.1, r.2@) == fail(c),
{
    let mut m: Vec<Mark> = Vec::new();
    m.push((DownloadStage::Error, 0));
    assert(m@ =~= seq![(DownloadStage::Error, 0u32)]);
    (Control { phase: Phase::Done, last_stage: DownloadStage::Error, level: 0, ..c }, ActionKind::Fail, m)
}

fn one_mark(c: Control, phase: Phase, stage: DownloadStage, level: u32, a: ActionKind) -> (r: (Control, ActionKind, Vec<Mark>))
    ensures
        (r.0, r.1, r.2@) == (moved(c, phase, seq![(stage, level)]), a, seq![(stage, level)]),
{
    let mut m: Vec<Mark> = Vec::new();
    m.push((stage, level));
    assert(m@ =~= seq![(stage, level)]);
    (Control { phase, last_stage: stage, level, ..c }, a, m)
}

fn no_mark(c: Control, phase: Phase, a: ActionKind) -> (r: (Control, ActionKind, Vec<Mark>))
    ensures
        (r.0, r.1, r.2@) == (moved(c, phase, seq![]), a, Seq::<Mark>::empty()),
{
    let m: Vec<Mark> = Vec::new();
    assert(m@ =~= Seq::<Mark>::empty());
    (Control { phase, ..c }, a, m)
}

fn after_embed_exec(c: Control) -> (r: (Control, ActionKind, Vec<Mark>))
    ensures
        (r.0, r.1, r.2@) == after_embed(c),
{
    if c.want_cover && c.has_cover {
        no_mark(c, Phase::SavingCover, ActionKind::SaveCover)
    } else {
        one_mark(c, Phase::Done, DownloadStage::Completed, 100, ActionKind::Finish)
    }
}

fn after_enrich_exec(c: Control) -> (r: (Control, ActionKind, Vec<Mark>))
    ensures
        (r.0, r.1, r.2@) == after_enrich(c),
{
    if c.embed {
        one_mark(c, Phase::Embedding, DownloadStage::EmbeddingMetadata, 90, ActionKind::Embed)
    } else {
        after_embed_exec(c)
    }
}

fn after_convert_exec(c: Control) -> (r: (Control, ActionKind, Vec<Mark>))
    ensures
        (r.0, r.1, r.2@) == after_convert(c),
{
    if c.want_cover || c.want_lyrics {
        one_mark(c, Phase::Enriching, DownloadStage::DownloadingCover, 80, ActionKind::Enrich)
    } else {
        after_enrich_exec(Control { has_cover: false, has_lyrics: false, ..c })
    }
}

fn after_audio_exec(c: Control) -> (r: (Control, ActionKind, Vec<Mark>))
    ensures
        (r.0, r.1, r.2@) == after_audio(c),
{
    if c.convert_needed {
        one_mark(c, Phase::Converting, DownloadStage::ConvertingAudio, 60, ActionKind::Convert)
    } else {
        let first = Control {
            phase: Phase::Converting,
            last_stage: DownloadStage::ConvertingAudio,
            level: 60,
            ..c
        };
        let (c2, a, rest) = after_convert_exec(first);
        let mut m: Vec<Mark> = Vec::new();
        m.push((DownloadStage::ConvertingAudio, 60));
        let mut i: usize = 0;
        while i < rest.len()
            invariant
                i <= rest@.len(),
                m@ == seq![(DownloadStage::ConvertingAudio, 60u32)] + rest@.take(i as int),
            decreases rest@.len() - i,
        {
            m.push(rest[i]);
            i = i + 1;
            assert(m@ =~= seq![(DownloadStage::ConvertingAudio, 60u32)] + rest@.take(i as int));
        }
        assert(rest@.take(i as int) =~= rest@);
        assert(first == moved(c, Phase::Converting, seq![(DownloadStage::ConvertingAudio, 60u32)]));
        (c2, a, m)
    }
}

/// The executable transition; it agrees with `decide`.
pub fn decide_step(c: Control, o: OutcomeKind) -> (r: (Control, ActionKind, Vec<Mark>))
    ensures
        (r.0, r.1, r.2@) == decide(c, o),
{
    match (c.phase, o) {
        (Phase::Start, OutcomeKind::Begin) => one_mark(
            c,
            Phase::Searching,
            DownloadStage::SearchingSource,
            10,
            ActionKind::Search,
        ),
        (Phase::Searching, OutcomeKind::Searched { found }) => {
            if found {
                one_mark(c, Phase::Fetching, DownloadStage::DownloadingAudio, 30, ActionKind::Fetch)
            } else {
                fail_exec(c)
            }
        },
        (Phase::Fetching, OutcomeKind::Fetched { ok }) => {
            if ok {
                after_audio_exec(c)
            } else {
                no_mark(c, Phase::SecondarySearching, ActionKind::SecondarySearch)
            }
        },
        (Phase::SecondarySearching, OutcomeKind::Searched { found }) => {
            if found {
                no_mark(c, Phase::SecondaryFetching, ActionKind::Fetch)
            } else {
                no_mark(c, Phase::CheckingTool, ActionKind::CheckTool)
            }
        },
        (Phase::SecondaryFetching, OutcomeKind::Fetched { ok }) => {
            if ok {
                after_audio_exec(c)
            } else {
                no_mark(c, Phase::CheckingTool, ActionKind::CheckTool)
            }
        },
        (Phase::CheckingTool, OutcomeKind::ToolChecked { available }) => {
            if available {
                no_mark(c, Phase::GenericFetching, ActionKind::GenericFetch)
            } else {
                fail_exec(c)
            }
        },
        (Phase::GenericFetching, OutcomeKind::Fetched { ok }) => {
            if ok {
                after_audio_exec(c)
            } else {
                fail_exec(c)
            }
        },
        (Phase::Converting, OutcomeKind::Converted { ok }) => {
            if ok {
                after_convert_exec(c)
            } else {
                fail_exec(c)
            }
        },
        (Phase::Enriching, OutcomeKind::Enriched { cover, lyrics }) => {
            after_enrich_exec(
                Control { has_cover: cover && c.want_cover, has_lyrics: lyrics && c.want_lyrics, ..c },
            )
        },
        (Phase::Embedding, OutcomeKind::Embedded { ok }) => {
            if ok {
                after_embed_exec(c)
            } else {
                fail_exec(c)
            }
        },
        (Phase::SavingCover, OutcomeKind::CoverSaved) => one_mark(
            c,
            Phase::Done,
            DownloadStage::Completed,
            100,
            ActionKind::Finish,
        ),
        (Phase::Done, _) => {
            let m: Vec<Mark> = Vec::new();
            assert(m@ =~= Seq::<Mark>::empty());
            (c, ActionKind::Idle, m)
        },
        _ => fail_exec(c),
    }
}

/// What the driver reports after performing an action.
pub enum Outcome {
    /// The run is admitted and may start.
    Begin,
    /// The ranked candidates of a search, or why it failed.
    Searched(Result<Vec<SearchResult>, String>),
    /// The audio file was written, or why not.
    Fetched(Result<(), String>),
    /// Whether the generic extraction tool is installed.
    ToolChecked(bool),
    /// The transcode finished, or why not.
    Converted(Result<(), String>),
    /// Which of cover and lyrics the enrichment obtained.
    Enriched { cover: bool, lyrics: bool },
    /// The tags were written, or why not.
    Embedded(Result<(), String>),
    /// The cover copy was saved or not; either way the run goes on.
    CoverSaved(bool),
}

/// The shape of an outcome.
pub open spec fn outcome_kind(o: Outcome) -> OutcomeKind {
    match o {
        Outcome::Begin => OutcomeKind::Begin,
        Outcome::Searched(r) => OutcomeKind::Searched {
            found: match r {
                Ok(v) => v@.len() > 0,
                Err(_) => false,
            },
        },
        Outcome::Fetched(r) => OutcomeKind::Fetched { ok: r is Ok },
        Outcome::ToolChecked(b) => OutcomeKind::ToolChecked { available: b },
        Outcome::Converted(r) => OutcomeKind::Converted { ok: r is Ok },
        Outcome::Enriched { cover, lyrics } => OutcomeKind::Enriched { cover, lyrics },
        Outcome::Embedded(r) => OutcomeKind::Embedded { ok: r is Ok },
        Outcome::CoverSaved(_) => OutcomeKind::CoverSaved,
    }
}

/// What the machine asks the driver to do.
pub enum Action {
    /// Run the tiered search for the query.
    Search { query: String },
    /// Download the candidate at `url` into `output_path`.
    Fetch { url: String, output_path: String },
    /// Search the secondary platform alone.
    SecondarySearch { query: String },
    /// Find out whether the generic extraction tool is installed.
    CheckTool,
    /// Let the generic tool search for the query and download the first hit.
    GenericFetch { query: String, output_path: String },
    /// Transcode `input` into `output`.
    Convert { input: String, output: String },
    /// Fetch cover art and lyrics, at the same time, as asked.
    Enrich { cover: bool, lyrics: bool },
    /// Write tags into the file, with the cover and lyrics that were found.
    Embed { path: String, cover: bool, lyrics: bool },
    /// Save a copy of the cover; a failure here is only reported.
    SaveCover { path: String },
    /// The track is done; its file is at `path`.
    Finish { path: String },
    /// The track failed.
    Fail { message: String },
    /// Nothing: the run is over.
    Idle,
}

/// The shape of an action.
pub open spec fn action_kind(a: Action) -> ActionKind {
    match a {
        Action::Search { .. } => ActionKind::Search,
        Action::Fetch { .. } => ActionKind::Fetch,
        Action::SecondarySearch { .. } => ActionKind::SecondarySearch,
        Action::CheckTool => ActionKind::CheckTool,
        Action::GenericFetch { .. } => ActionKind::GenericFetch,
        Action::Convert { .. } => ActionKind::Convert,
        Action::Enrich { .. } => ActionKind::Enrich,
        Action::Embed { .. } => ActionKind::Embed,
        Action::SaveCover { .. } => ActionKind::SaveCover,
        Action::Finish { .. } => ActionKind::Finish,
        Action::Fail { .. } => ActionKind::Fail,
        Action::Idle => ActionKind::Idle,
    }
}

/// A progress update for listeners.
pub struct StageUpdate {
    pub stage: DownloadStage,
    /// Progress in percent, 0 to 100.
    pub percent: u32,
    pub message: String,
}

/// The stages and percents of a list of updates.
pub open spec fn marks_of(us: Seq<StageUpdate>) -> Seq<Mark> {
    us.map_values(|u: StageUpdate| (u.stage, u.percent))
}

/// One decision of a run: the action and the updates that go before it.
pub struct Step {
    pub action: Action,
    pub updates: Vec<StageUpdate>,
}

/// The text shown with an update of a stage.
pub open spec fn stage_message(s: DownloadStage) -> Seq<char> {
    match s {
        DownloadStage::SearchingSource => "Searching for audio source..."@,
        DownloadStage::DownloadingAudio => "Found source, downloading..."@,
        DownloadStage::ConvertingAudio => "Converting audio format..."@,
        DownloadStage::DownloadingCover => "Downloading cover art and lyrics for embedding..."@,
        DownloadStage::EmbeddingMetadata => "Embedding metadata..."@,
        DownloadStage::Completed => "Download completed successfully!"@,
        _ => "Queued for download..."@,
    }
}

fn stage_message_of(s: DownloadStage) -> (r: &'static str)
    ensures
        r@ == stage_message(s),
{
    match s {
        DownloadStage::SearchingSource => "Searching for audio source...",
        DownloadStage::DownloadingAudio => "Found source, downloading...",
        DownloadStage::ConvertingAudio => "Converting audio format...",
        DownloadStage::DownloadingCover => "Downloading cover art and lyrics for embedding...",
        DownloadStage::EmbeddingMetadata => "Embedding metadata...",
        DownloadStage::Completed => "Download completed successfully!",
        _ => "Queued for download...",
    }
}

/// Why a run failed, from the state it was in and what came back.
pub open spec fn failure_message(p: Phase, o: Outcome) -> Seq<char> {
    match (p, o) {
        (Phase::Searching, Outcome::Searched(Err(e))) => "Search failed: "@ + e@,
        (Phase::Searching, Outcome::Searched(Ok(_))) => "No results found for this track"@,
        (Phase::Converting, Outcome::Converted(Err(e))) => "Conversion failed: "@ + e@,
        (Phase::Embedding, Outcome::Embedded(Err(e))) => "Embedding failed: "@ + e@,
        (Phase::GenericFetching, Outcome::Fetched(Err(e))) => "Download failed: "@ + e@,
        (Phase::CheckingTool, _) => "No audio source found"@,
        _ => "Unexpected step in the download"@,
    }
}

fn prefixed(prefix: &str, detail: &String) -> (r: String)
    ensures
        r@ == prefix@ + detail@,
{
    let mut v = chars_of(prefix);
    extend_str(&mut v, detail.as_str());
    string_of(&v)
}

fn failure_message_of(p: Phase, o: &Outcome) -> (r: String)
    ensures
        r@ == failure_message(p, *o),
{
    match (p, o) {
        (Phase::Searching, Outcome::Searched(Err(e))) => prefixed("Search failed: ", e),
        (Phase::Searching, Outcome::Searched(Ok(_))) => String::from_str(
            "No results found for this track",
        ),
        (Phase::Converting, Outcome::Converted(Err(e))) => prefixed("Conversion failed: ", e),
        (Phase::Embedding, Outcome::Embedded(Err(e))) => prefixed("Embedding failed: ", e),
        (Phase::GenericFetching, Outcome::Fetched(Err(e))) => prefixed("Download failed: ", e),
        (Phase::CheckingTool, _) => String::from_str("No audio source found"),
        _ => String::from_str("Unexpected step in the download"),
    }
}

fn outcome_kind_of(o: &Outcome) -> (r: OutcomeKind)
    ensures
        r == outcome_kind(*o),
{
    match o {
        Outcome::Begin => OutcomeKind::Begin,
        Outcome::Searched(r) => OutcomeKind::Searched {
            found: match r {
                Ok(v) => v.len() > 0,
                Err(_) => false,
            },
        },
        Outcome::Fetched(r) => OutcomeKind::Fetched { ok: r.is_ok() },
        Outcome::ToolChecked(b) => OutcomeKind::ToolChecked { available: *b },
        Outcome::Converted(r) => OutcomeKind::Converted { ok: r.is_ok() },
        Outcome::Enriched { cover, lyrics } => OutcomeKind::Enriched {
            cover: *cover,
            lyrics: *lyrics,
        },
        Outcome::Embedded(r) => OutcomeKind::Embedded { ok: r.is_ok() },
        Outcome::CoverSaved(_) => OutcomeKind::CoverSaved,
    }
}

/// `p` with its extension replaced by `ext`.
pub open spec fn with_extension(p: Seq<char>, ext: Seq<char>) -> Seq<char> {
    if last_index_of(p, '/') < 0 {
        stem_of(p) + "."@ + ext
    } else {
        parent_of(p) + "/"@ + stem_of(p) + "."@ + ext
    }
}

/// The search query of a track: artist, a space, title.
pub open spec fn track_query(artist: Seq<char>, title: Seq<char>) -> Seq<char> {
    artist + " "@ + title
}

/// One track's download.
pub struct TrackRun {
    pub control: Control,
    pub track_id: String,
    pub query: String,
    /// Where the fetched audio is written.
    pub output_path: String,
    /// Where the finished file ends up: the fetched file, or its transcode.
    pub final_path: String,
    /// Where a copy of the cover is saved.
    pub cover_path: String,
}

impl TrackRun {
    /// A fresh run for `track` under `options`.
    pub fn new(track: &TrackMetadata, options: &DownloadOptions) -> (r: Self)
        ensures
            r.control.phase == Phase::Start,
            r.control.last_stage == DownloadStage::Queued,
            r.control.level == 0,
            r.control.want_cover == options.download_cover,
            r.control.want_lyrics == options.download_lyrics,
            r.control.embed == options.embed_metadata,
            !r.control.has_cover && !r.control.has_lyrics,
            r.track_id == track.id,
            r.query@ == track_query(track.artist@, track.title@),
            r.output_path@ == layout_path(
                options.output_dir@,
                "tracks"@,
                track_stem(track.artist@, track.title@),
                format_ext(options.format),
            ),
            r.control.convert_needed == conversion_needed(r.output_path@, options.format),
            r.final_path@ == (if r.control.convert_needed {
                with_extension(r.output_path@, format_ext(options.format))
            } else {
                r.output_path@
            }),
            r.cover_path@ == layout_path(
                options.output_dir@,
                "covers"@,
                track_stem(track.artist@, track.title@),
                cover_ext(lower_of(options.cover_format@)),
            ),
    {
        let mut q = chars_of(track.artist.as_str());
        extend_str(&mut q, " ");
        extend_str(&mut q, track.title.as_str());
        let query = string_of(&q);
        let out = output_path(
            options.output_dir.as_str(),
            track.artist.as_str(),
            track.title.as_str(),
            options.format,
        );
        let converter = AudioConverter::new();
        let convert_needed = converter.needs_conversion(out.as_str(), options.format, options.bitrate);
        let final_path = if convert_needed {
            let parts = split_path(out.as_str());
            let has_parent = crate::naming::find_last(&chars_of(out.as_str()), '/');
            let mut v: Vec<char> = Vec::new();
            match has_parent {
                Some(_) => {
                    extend_chars(&mut v, &parts.parent);
                    extend_str(&mut v, "/");
                },
                None => {},
            }
            extend_chars(&mut v, &parts.stem);
            extend_str(&mut v, ".");
            extend_str(&mut v, crate::naming::format_extension(options.format));
            string_of(&v)
        } else {
            out.clone()
        };
        let cover = cover_path(
            options.output_dir.as_str(),
            track.artist.as_str(),
            track.title.as_str(),
            options.cover_format.as_str(),
        );
        TrackRun {
            control: Control {
                phase: Phase::Start,
                want_cover: options.download_cover,
                want_lyrics: options.download_lyrics,
                embed: options.embed_metadata,
                convert_needed,
                has_cover: false,
                has_lyrics: false,
                last_stage: DownloadStage::Queued,
                level: 0,
            },
            track_id: track.id.clone(),
            query,
            output_path: out,
            final_path,
            cover_path: cover,
        }
    }

    /// Takes what came of the last action and decides the next one.
    pub fn advance(&mut self, outcome: Outcome) -> (r: Step)
        ensures
            (final(self).control, action_kind(r.action), marks_of(r.updates@)) == decide(
                old(self).control,
                outcome_kind(outcome),
            ),
            final(self).track_id == old(self).track_id,
            final(self).query == old(self).query,
            final(self).output_path == old(self).output_path,
            final(self).final_path == old(self).final_path,
            final(self).cover_path == old(self).cover_path,
            match r.action {
                Action::Search { query } => query == old(self).query,
                Action::SecondarySearch { query } => query == old(self).query,
                Action::Fetch { url, output_path } => output_path == old(self).output_path && (
                outcome matches Outcome::Searched(Ok(v)) && v@.len() > 0 && url == v@[0].url),
                Action::GenericFetch { query, output_path } => query == old(self).query
                    && output_path == old(self).output_path,
                Action::Convert { input, output } => input == old(self).output_path && output
                    == old(self).final_path,
                Action::Enrich { cover, lyrics } => cover == old(self).control.want_cover && lyrics
                    == old(self).control.want_lyrics,
                Action::Embed { path, cover, lyrics } => path == old(self).final_path && cover
                    == final(self).control.has_cover && lyrics == final(self).control.has_lyrics,
                Action::SaveCover { path } => path == old(self).cover_path,
                Action::Finish { path } => path == old(self).final_path,
                Action::Fail { message } => message@ == failure_message(
                    old(self).control.phase,
                    outcome,
                ),
                _ => true,
            },
            forall|i: int|
                0 <= i < r.updates@.len() ==> (#[trigger] r.updates@[i]).message@ == (if r.updates@[i].stage
                    == DownloadStage::Error {
                    failure_message(old(self).control.phase, outcome)
                } else {
                    stage_message(r.updates@[i].stage)
                }),
    {
        let kind = outcome_kind_of(&outcome);
        let before = self.control.phase;
        let (next, action_kind, marks) = decide_step(self.control, kind);
        self.control = next;
        let action = match action_kind {
            ActionKind::Search => Action::Search { query: self.query.clone() },
            ActionKind::SecondarySearch => Action::SecondarySearch { query: self.query.clone() },
            ActionKind::Fetch => {
                let url = match &outcome {
                    Outcome::Searched(Ok(v)) => {
                        if v.len() > 0 {
                            v[0].url.clone()
                        } else {
                            String::new()
                        }
                    },
                    _ => String::new(),
                };
                Action::Fetch { url, output_path: self.output_path.clone() }
            },
            ActionKind::CheckTool => Action::CheckTool,
            ActionKind::GenericFetch => Action::GenericFetch {
                query: self.query.clone(),
                output_path: self.output_path.clone(),
            },
            ActionKind::Convert => Action::Convert {
                input: self.output_path.clone(),
                output: self.final_path.clone(),
            },
            ActionKind::Enrich => Action::Enrich {
                cover: self.control.want_cover,
                lyrics: self.control.want_lyrics,
            },
            ActionKind::Embed => Action::Embed {
                path: self.final_path.clone(),
                cover: self.control.has_cover,
                lyrics: self.control.has_lyrics,
            },
            ActionKind::SaveCover => Action::SaveCover { path: self.cover_path.clone() },
            ActionKind::Finish => Action::Finish { path: self.final_path.clone() },
            ActionKind::Fail => Action::Fail { message: failure_message_of(before, &outcome) },
            ActionKind::Idle => Action::Idle,
        };
        let mut updates: Vec<StageUpdate> = Vec::new();
        let mut i: usize = 0;
        while i < marks.len()
            invariant
                i <= marks@.len(),
                marks_of(updates@) == marks@.take(i as int),
                forall|k: int|
                    0 <= k < updates@.len() ==> (#[trigger] updates@[k]).message@ == (if updates@[k].stage
                        == DownloadStage::Error {
                        failure_message(before, outcome)
                    } else {
                        stage_message(updates@[k].stage)
                    }),
            decreases marks@.len() - i,
        {
            let (stage, percent) = marks[i];
            let message = match stage {
                DownloadStage::Error => failure_message_of(before, &outcome),
                _ => String::from_str(stage_message_of(stage)),
            };
            let ghost before_updates = updates@;
            updates.push(StageUpdate { stage, percent, message });
            assert(marks_of(updates@) =~= marks_of(before_updates).push((stage, percent)));
            i = i + 1;
            assert(marks@.take(i as int) =~= marks@.take(i - 1).push(marks@[i - 1]));
        }
        assert(marks@.take(i as int) =~= marks@);
        Step { action, updates }
    }
}

/// Keys of the cache entries.
pub open spec fn cache_keys(e: Seq<(String, Vec<SearchResult>)>) -> Seq<Seq<char>> {
    e.map_values(|p: (String, Vec<SearchResult>)| p.0@)
}

/// The results cached under `key`, if any.
pub open spec fn cached(e: Seq<(String, Vec<SearchResult>)>, key: Seq<char>) -> Option<Seq<SearchResult>> {
    if exists|i: int| 0 <= i < e.len() && (#[trigger] e[i]).0@ == key {
        let i = choose|i: int| 0 <= i < e.len() && (#[trigger] e[i]).0@ == key;
        Some(e[i].1@)
    } else {
        None
    }
}

fn clone_results(v: &Vec<SearchResult>) -> (r: Vec<SearchResult>)
    ensures
        r@ == v@,
{
    let mut out: Vec<SearchResult> = Vec::new();
    let mut i: usize = 0;
    while i < v.len()
        invariant
            i <= v@.len(),
            out@ == v@.take(i as int),
        decreases v@.len() - i,
    {
        out.push(v[i].clone_result());
        i = i + 1;
        assert(out@ =~= v@.take(i as int));
    }
    assert(v@.take(i as int) =~= v@);
    out
}

/// Search results by exact query text, shared by the tracks of a batch. A
/// miss only means the search runs; the cache never fails a track.
pub struct SearchCache {
    pub entries: Vec<(String, Vec<SearchResult>)>,
}

impl SearchCache {
    /// No two entries share a query.
    pub open spec fn wf(&self) -> bool {
        forall|i: int, j: int|
            0 <= i < j < self.entries@.len() ==> (#[trigger] self.entries@[i]).0@ != (
            #[trigger] self.entries@[j]).0@
    }

    pub fn new() -> (r: Self)
        ensures
            r.wf(),
            r.entries@.len() == 0,
    {
        SearchCache { entries: Vec::new() }
    }

    fn find(&self, query: &String) -> (r: Option<usize>)
        requires
            self.wf(),
        ensures
            match r {
                Some(i) => i < self.entries@.len() && self.entries@[i as int].0@ == query@,
                None => forall|i: int| 0 <= i < self.entries@.len() ==> (#[trigger] self.entries@[i]).0@ != query@,
            },
    {
        let mut i: usize = 0;
        while i < self.entries.len()
            invariant
                i <= self.entries@.len(),
                forall|k: int| 0 <= k < i ==> (#[trigger] self.entries@[k]).0@ != query@,
            decreases self.entries@.len() - i,
        {
            if self.entries[i].0 == *query {
                return Some(i);
            }
            i = i + 1;
        }
        None
    }

    /// The results cached for exactly this query text.
    pub fn get(&self, query: &String) -> (r: Option<Vec<SearchResult>>)
        requires
            self.wf(),
        ensures
            match cached(self.entries@, query@) {
                Some(v) => r matches Some(x) && x@ == v,
                None => r is None,
            },
    {
        match self.find(query) {
            Some(i) => {
                proof {
                    let j = choose|j: int| 0 <= j < self.entries@.len() && (#[trigger] self.entries@[j]).0@ == query@;
                    if j != i {
                        if j < i {
                            assert(self.entries@[j].0@ != self.entries@[i as int].0@);
                        } else {
                            assert(self.entries@[i as int].0@ != self.entries@[j].0@);
                        }
                    }
                }
                Some(clone_results(&self.entries[i].1))
            },
            None => None,
        }
    }

    /// Keeps non-empty results under their query; a later search for the
    /// same query replaces the earlier one. Empty results are not kept.
    pub fn remember(&mut self, query: String, results: Vec<SearchResult>)
        requires
            old(self).wf(),
        ensures
            final(self).wf(),
            results@.len() > 0 ==> cached(final(self).entries@, query@) == Some(results@),
            forall|k: Seq<char>| k != query@ ==> cached(final(self).entries@, k) == cached(old(self).entries@, k),
            results@.len() == 0 ==> final(self).entries@ == old(self).entries@,
    {
        if results.len() == 0 {
            return;
        }
        let ghost old_e = self.entries@;
        let ghost res_view = results@;
        let ghost q = query@;
        match self.find(&query) {
            Some(i) => {
                self.entries.set(i, (query, results));
                proof {
                    let e = self.entries@;
                    assert forall|k: Seq<char>| k != q implies cached(e, k) == cached(old_e, k) by {
                        if exists|j: int| 0 <= j < old_e.len() && (#[trigger] old_e[j]).0@ == k {
                            let j = choose|j: int| 0 <= j < old_e.len() && (#[trigger] old_e[j]).0@ == k;
                            assert(e[j] == old_e[j]);
                            let j2 = choose|j2: int| 0 <= j2 < e.len() && (#[trigger] e[j2]).0@ == k;
                            assert(j2 != i);
                            assert(e[j2] == old_e[j2]);
                            if j != j2 {
                                if j < j2 {
                                    assert(old_e[j].0@ != old_e[j2].0@);
                                } else {
                                    assert(old_e[j2].0@ != old_e[j].0@);
                                }
                            }
                        } else {
                            assert forall|j: int| 0 <= j < e.len() implies (#[trigger] e[j]).0@ != k by {
                                if j != i {
                                    assert(e[j] == old_e[j]);
                                }
                            }
                        }
                    }
                    assert(e[i as int].0@ == q);
                    let j = choose|j: int| 0 <= j < e.len() && (#[trigger] e[j]).0@ == q;
                    if j != i {
                        assert(e[j] == old_e[j]);
                        if j < i {
                            assert(old_e[j].0@ != old_e[i as int].0@);
                        } else {
                            assert(old_e[i as int].0@ != old_e[j].0@);
                        }
                    }
                }
            },
            None => {
                self.entries.push((query, results));
                proof {
                    let e = self.entries@;
                    assert forall|k: Seq<char>| k != q implies cached(e, k) == cached(old_e, k) by {
                        if exists|j: int| 0 <= j < old_e.len() && (#[trigger] old_e[j]).0@ == k {
                            let j = choose|j: int| 0 <= j < old_e.len() && (#[trigger] old_e[j]).0@ == k;
                            assert(e[j] == old_e[j]);
                            let j2 = choose|j2: int| 0 <= j2 < e.len() && (#[trigger] e[j2]).0@ == k;
                            assert(j2 < old_e.len());
                            assert(e[j2] == old_e[j2]);
                            if j != j2 {
                                if j < j2 {
                                    assert(old_e[j].0@ != old_e[j2].0@);
                                } else {
                                    assert(old_e[j2].0@ != old_e[j].0@);
                                }
                            }
                        } else {
                            assert forall|j: int| 0 <= j < e.len() implies (#[trigger] e[j]).0@ != k by {
                                if j < old_e.len() {
                                    assert(e[j] == old_e[j]);
                                }
                            }
                        }
                    }
                    let last = old_e.len() as int;
                    assert(e[last].0@ == q);
                    let j = choose|j: int| 0 <= j < e.len() && (#[trigger] e[j]).0@ == q;
                    if j != last {
                        assert(e[j] == old_e[j]);
                    }
                }
            },
        }
    }
}

} // verus!
