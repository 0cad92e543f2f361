//! The decisions of the preview's runs: which parcel a bin draws from, and the beat
//! sheet of the staged film (which stage a frame is in, and what each stage shows).
use vstd::prelude::*;
use crate::args::Job;
use crate::bins::Bin;

verus! {

/// The position of the first job in `bin`: the parcel that a run reads for that bin.
pub fn find_job(jobs: &[Job], want: Bin) -> (r: Option<usize>)
    ensures
        match r {
            Some(i) => i < jobs@.len() && jobs@[i as int].bin == want && forall|j: int|
                0 <= j < i ==> jobs@[j].bin != want,
            None => forall|j: int| 0 <= j < jobs@.len() ==> jobs@[j].bin != want,
        },
{
    let n = jobs.len();
    let mut i: usize = 0;
    while i < n
        invariant
            n == jobs@.len(),
            i <= n,
            forall|j: int| 0 <= j < i ==> jobs@[j].bin != want,
        decreases n - i,
    {
        if jobs[i].bin == want {
            return Some(i);
        }
        i = i + 1;
    }
    None
}

// ---------------------------------------------------------------------------
// The beat sheet
// ---------------------------------------------------------------------------

/// The stages of the staged film, in the order they are shown.
#[derive(Clone, Copy, Debug, PartialEq, Eq, Structural)]
pub enum Stage {
    Generators,
    Catalog,
    Lens,
    Cage,
    Life,
    Refuse,
}

/// How the associate-family angle moves in a stage: it rests at 0, ramps from 0 to a
/// quarter turn across the stage, or holds at a quarter turn.
#[derive(Clone, Copy, Debug, PartialEq, Eq, Structural)]
pub enum Sweep {
    Rest,
    Ramp,
    Quarter,
}

/// A group of line segments that a stage draws.
#[derive(Clone, Copy, Debug, PartialEq, Eq, Structural)]
pub enum Layer {
    /// The generator parcels S2, T2, K2, P2, revealed one after another.
    Generators,
    S2,
    Catalog,
    Helicoid,
    Catenoid,
    Hyperboloid,
}

/// The position of a stage in the film.
pub open spec fn stage_index(s: Stage) -> nat {
    match s {
        Stage::Generators => 0,
        Stage::Catalog => 1,
        Stage::Lens => 2,
        Stage::Cage => 3,
        Stage::Life => 4,
        Stage::Refuse => 5,
    }
}

/// The stage at a position (positions past the last give the last stage).
pub open spec fn stage_at(k: nat) -> Stage {
    if k == 0 {
        Stage::Generators
    } else if k == 1 {
        Stage::Catalog
    } else if k == 2 {
        Stage::Lens
    } else if k == 3 {
        Stage::Cage
    } else if k == 4 {
        Stage::Life
    } else {
        Stage::Refuse
    }
}

/// The number of frames the film runs: at least one per stage.
pub open spec fn spec_film_frames(requested: u32) -> u32 {
    if requested < 6 {
        6
    } else {
        requested
    }
}

/// The frames each stage gets (the last stage also takes what is left over).
pub open spec fn spec_beat_length(frames: u32) -> u32 {
    if frames / 6 < 1 {
        1
    } else {
        frames / 6
    }
}

/// The stage of frame `i`, and the frame's place within that stage.
pub open spec fn spec_frame_stage(i: u32, beat_len: u32) -> (Stage, u32) {
    let k = if i / beat_len < 5 {
        i / beat_len
    } else {
        5
    };
    (stage_at(k as nat), (i - k * beat_len) as u32)
}

/// The number of frames the film runs for a requested count.
pub fn film_frames(requested: u32) -> (r: u32)
    ensures
        r == spec_film_frames(requested),
{
    if requested < 6 {
        6
    } else {
        requested
    }
}

/// The frames each stage gets.
pub fn beat_length(frames: u32) -> (r: u32)
    ensures
        r == spec_beat_length(frames),
{
    let q = frames / 6;
    if q < 1 {
        1
    } else {
        q
    }
}

/// The stage of frame `i` and the frame's place within it.
pub fn frame_stage(i: u32, beat_len: u32) -> (r: (Stage, u32))
    requires
        beat_len >= 1,
    ensures
        r == spec_frame_stage(i, beat_len),
{
    let q = i / beat_len;
    let k = if q < 5 {
        q
    } else {
        5
    };
    assert(k * beat_len <= i) by (nonlinear_arith)
        requires
            k <= i / beat_len,
            beat_len >= 1,
    {}
    let local = i - k * beat_len;
    let stage = if k == 0 {
        Stage::Generators
    } else if k == 1 {
        Stage::Catalog
    } else if k == 2 {
        Stage::Lens
    } else if k == 3 {
        Stage::Cage
    } else if k == 4 {
        Stage::Life
    } else {
        Stage::Refuse
    };
    (stage, local)
}

/// The title of a stage, as the film's plate shows it.
pub open spec fn stage_title(s: Stage) -> Seq<char> {
    match s {
        Stage::Generators => "GENERATORS"@,
        Stage::Catalog => "CATALOG"@,
        Stage::Lens => "LENS"@,
        Stage::Cage => "CAGE"@,
        Stage::Life => "LIFE"@,
        Stage::Refuse => "REFUSE"@,
    }
}

/// How the angle moves in a stage.
pub open spec fn stage_sweep(s: Stage) -> Sweep {
    match s {
        Stage::Generators | Stage::Catalog => Sweep::Rest,
        Stage::Lens | Stage::Life => Sweep::Ramp,
        Stage::Cage | Stage::Refuse => Sweep::Quarter,
    }
}

/// The layers a stage draws, in drawing order.
pub open spec fn stage_layers(s: Stage) -> Seq<Layer> {
    match s {
        Stage::Generators => seq![Layer::Generators],
        Stage::Catalog => seq![Layer::S2, Layer::Catalog],
        Stage::Lens => seq![Layer::Helicoid, Layer::Catenoid],
        Stage::Cage => seq![Layer::Hyperboloid, Layer::Catalog],
        Stage::Life | Stage::Refuse => seq![Layer::Catalog, Layer::Helicoid, Layer::Catenoid],
    }
}

impl Stage {
    /// The stage's title.
    pub fn title(self) -> (s: &'static str)
        ensures
            s@ == stage_title(self),
    {
        match self {
            Stage::Generators => "GENERATORS",
            Stage::Catalog => "CATALOG",
            Stage::Lens => "LENS",
            Stage::Cage => "CAGE",
            Stage::Life => "LIFE",
            Stage::Refuse => "REFUSE",
        }
    }

    /// How the angle moves in the stage.
    pub fn sweep(self) -> (r: Sweep)
        ensures
            r == stage_sweep(self),
    {
        match self {
            Stage::Generators | Stage::Catalog => Sweep::Rest,
            Stage::Lens | Stage::Life => Sweep::Ramp,
            Stage::Cage | Stage::Refuse => Sweep::Quarter,
        }
    }

    /// Whether the hexavalent hubs fade in (at the polyoma alpha): from Life on.
    pub fn shows_hex_hubs(self) -> (r: bool)
        ensures
            r == (stage_index(self) >= 4),
    {
        matches!(self, Stage::Life | Stage::Refuse)
    }

    /// Whether the mid-plane orb is drawn: from Lens on.
    pub fn shows_mid_orb(self) -> (r: bool)
        ensures
            r == (stage_index(self) >= 2),
    {
        !matches!(self, Stage::Generators | Stage::Catalog)
    }

    /// Whether the motes are drawn: from Life on.
    pub fn shows_motes(self) -> (r: bool)
        ensures
            r == (stage_index(self) >= 4),
    {
        matches!(self, Stage::Life | Stage::Refuse)
    }

    /// Whether the motes stand still: in Refuse.
    pub fn motes_frozen(self) -> (r: bool)
        ensures
            r == (self == Stage::Refuse),
    {
        matches!(self, Stage::Refuse)
    }

    /// Whether the catalog's hubs are stamped (else the stub hubs are drawn): from
    /// Catalog on.
    pub fn stamps_hubs(self) -> (r: bool)
        ensures
            r == (stage_index(self) >= 1),
    {
        !matches!(self, Stage::Generators)
    }

    /// Whether the cage orb rides the hyperboloid rulings: in Cage.
    pub fn rides_cage(self) -> (r: bool)
        ensures
            r == (self == Stage::Cage),
    {
        matches!(self, Stage::Cage)
    }

    /// The layers the stage draws, in drawing order.
    pub fn layers(self) -> (r: Vec<Layer>)
        ensures
            r@ == stage_layers(self),
    {
        let r = match self {
            Stage::Generators => vec![Layer::Generators],
            Stage::Catalog => vec![Layer::S2, Layer::Catalog],
            Stage::Lens => vec![Layer::Helicoid, Layer::Catenoid],
            Stage::Cage => vec![Layer::Hyperboloid, Layer::Catalog],
            Stage::Life | Stage::Refuse => vec![Layer::Catalog, Layer::Helicoid, Layer::Catenoid],
        };
        assert(r@ =~= stage_layers(self));
        r
    }
}

// ---------------------------------------------------------------------------
// Laws of the beat sheet
// ---------------------------------------------------------------------------

proof fn lemma_stage_round_trip(k: nat)
    requires
        k <= 5,
    ensures
        stage_index(stage_at(k)) == k,
{
}

/// Where frame `i` stands: its stage's position times the beat length plus its place
/// within the stage gives `i` back, and only the last stage runs longer than a beat.
pub proof fn lemma_frame_place(i: u32, beat_len: u32)
    requires
        beat_len >= 1,
    ensures
        ({
            let (stage, local) = spec_frame_stage(i, beat_len);
            &&& stage_index(stage) * beat_len + local == i
            &&& stage != Stage::Refuse ==> local < beat_len
        }),
{
    let q = i / beat_len;
    let k: int = if q < 5 {
        q as int
    } else {
        5
    };
    assert(k * beat_len <= i) by (nonlinear_arith)
        requires
            k <= i / beat_len,
            beat_len >= 1,
    {}
    assert(q < 5 ==> i - q * beat_len < beat_len) by (nonlinear_arith)
        requires
            q == i / beat_len,
            beat_len >= 1,
    {}
    lemma_stage_round_trip(k as nat);
}

/// Later frames never go back to an earlier stage.
pub proof fn lemma_stages_in_order(i: u32, j: u32, beat_len: u32)
    requires
        beat_len >= 1,
        i <= j,
    ensures
        stage_index(spec_frame_stage(i, beat_len).0) <= stage_index(
            spec_frame_stage(j, beat_len).0,
        ),
{
    vstd::arithmetic::div_mod::lemma_div_is_ordered(i as int, j as int, beat_len as int);
    let qi = i / beat_len;
    let qj = j / beat_len;
    lemma_stage_round_trip(if qi < 5 { qi as nat } else { 5 });
    lemma_stage_round_trip(if qj < 5 { qj as nat } else { 5 });
}

/// The film opens on Generators, closes on Refuse, and stage `k` begins at frame
/// `k` times the beat length: every stage is shown.
pub proof fn lemma_film_shows_every_stage(requested: u32, k: nat)
    requires
        k <= 5,
    ensures
        ({
            let frames = spec_film_frames(requested);
            let beat_len = spec_beat_length(frames);
            &&& k * beat_len < frames
            &&& spec_frame_stage((k * beat_len) as u32, beat_len) == (stage_at(k), 0u32)
            &&& spec_frame_stage(0, beat_len).0 == Stage::Generators
            &&& spec_frame_stage((frames - 1) as u32, beat_len).0 == Stage::Refuse
        }),
{
    let frames = spec_film_frames(requested);
    let beat_len = spec_beat_length(frames);
    assert(beat_len >= 1 && 6 * beat_len <= frames) by (nonlinear_arith)
        requires
            frames >= 6,
            beat_len == frames / 6,
    {}
    assert(k * beat_len <= 5 * beat_len) by (nonlinear_arith)
        requires
            k <= 5,
            beat_len >= 1,
    {}
    let start = k * beat_len;
    assert(start / (beat_len as int) == k) by (nonlinear_arith)
        requires
            start == k * beat_len,
            beat_len >= 1,
    {}
    assert((frames - 1) / (beat_len as int) >= 5) by (nonlinear_arith)
        requires
            6 * beat_len <= frames,
            beat_len >= 1,
    {}
    assert(0u32 / beat_len == 0) by (nonlinear_arith)
        requires
            beat_len >= 1,
    {}
}

/// The film runs the requested number of frames, but never fewer than six (one per
/// stage); each stage but the last gets the largest beat that fits six times.
pub proof fn lemma_film_length(requested: u32)
    ensures
        requested >= 6 ==> spec_film_frames(requested) == requested,
        requested < 6 ==> spec_film_frames(requested) == 6,
        ({
            let frames = spec_film_frames(requested);
            let beat_len = spec_beat_length(frames);
            6 * beat_len <= frames < 6 * beat_len + 6
        }),
{
    let frames = spec_film_frames(requested);
    let beat_len = spec_beat_length(frames);
    assert(6 * beat_len <= frames < 6 * beat_len + 6) by (nonlinear_arith)
        requires
            frames >= 6,
            beat_len == frames / 6,
    {}
}

/// Whether layer `a` is drawn, and drawn before layer `b`, in `layers`.
pub open spec fn drawn_before(layers: Seq<Layer>, a: Layer, b: Layer) -> bool {
    exists|i: int, j: int| 0 <= i < j < layers.len() && layers[i] == a && layers[j] == b
}

/// The associate family: Lens draws the helicoid and then the catenoid, and every stage
/// from Lens on that draws one of the two surfaces draws both, helicoid first.
pub proof fn lemma_associate_family_drawn_together(s: Stage)
    ensures
        drawn_before(stage_layers(Stage::Lens), Layer::Helicoid, Layer::Catenoid),
        stage_layers(Stage::Lens).len() == 2,
        stage_index(s) >= 2 && (stage_layers(s).contains(Layer::Helicoid) || stage_layers(
            s,
        ).contains(Layer::Catenoid)) ==> drawn_before(
            stage_layers(s),
            Layer::Helicoid,
            Layer::Catenoid,
        ),
        stage_index(s) >= 2 && s != Stage::Cage ==> stage_layers(s).contains(Layer::Helicoid),
{
    let lens = stage_layers(Stage::Lens);
    assert(lens[0] == Layer::Helicoid && lens[1] == Layer::Catenoid);
    let ls = stage_layers(s);
    match s {
        Stage::Lens => {
            assert(ls[0] == Layer::Helicoid);
        },
        Stage::Life | Stage::Refuse => {
            assert(ls[1] == Layer::Helicoid && ls[2] == Layer::Catenoid);
        },
        Stage::Cage => {
            assert(ls[0] != Layer::Helicoid && ls[1] != Layer::Helicoid);
            assert(ls[0] != Layer::Catenoid && ls[1] != Layer::Catenoid);
        },
        _ => {},
    }
}

} // verus!
