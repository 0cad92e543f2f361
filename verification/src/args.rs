//! The preview's command line: which parcels to draw, in which bins, and what to capture.
use vstd::prelude::*;
use vstd::multiset::Multiset;
use crate::bins::{bin_rank, bin_stem, stem_bin, Bin};
use crate::paths::{file_stem, path_file_stem};
use crate::text::{parse_u32, u32_parse_error_text, u32_text};

verus! {

broadcast use vstd::seq_lib::group_seq_properties;

/// The staged film that `--beat` asks for.
#[derive(Clone, Copy, Debug, PartialEq, Eq, Structural)]
pub enum Beat {
    Caterpillar,
}

/// A flag that takes a value from the next argument.
#[derive(Clone, Copy, Debug, PartialEq, Eq, Structural)]
pub enum Flag {
    Frames,
    Capture,
    Beat,
    Field,
    Compare,
    Lines,
    /// One of the flags that name a parcel's bin, such as `--s2`.
    Named(Bin),
}

/// One parcel to draw: the file it is read from and its bin.
#[derive(Debug)]
pub struct Job {
    pub path: String,
    pub bin: Bin,
}

/// A job as values: its path's text and its bin.
pub struct JobView {
    pub path: Seq<char>,
    pub bin: Bin,
}

impl View for Job {
    type V = JobView;

    open spec fn view(&self) -> JobView {
        JobView { path: self.path@, bin: self.bin }
    }
}

/// What the command line asks for.
#[derive(Debug)]
pub struct Args {
    pub frames: u32,
    pub jobs: Vec<Job>,
    pub capture: Option<String>,
    pub beat: Option<Beat>,
    pub field: Option<String>,
    pub compare: Option<String>,
}

/// The command line's request as values.
pub struct ArgsView {
    pub frames: u32,
    pub jobs: Seq<JobView>,
    pub capture: Option<Seq<char>>,
    pub beat: Option<Beat>,
    pub field: Option<Seq<char>>,
    pub compare: Option<Seq<char>>,
}

/// The texts of a list of strings.
pub open spec fn texts(v: Seq<String>) -> Seq<Seq<char>> {
    v.map_values(|s: String| s@)
}

/// The text of an optional string.
pub open spec fn opt_text(o: Option<String>) -> Option<Seq<char>> {
    match o {
        Some(s) => Some(s@),
        None => None,
    }
}

/// The values of a list of jobs.
pub open spec fn job_views(v: Seq<Job>) -> Seq<JobView> {
    v.map_values(|j: Job| j@)
}

impl View for Args {
    type V = ArgsView;

    open spec fn view(&self) -> ArgsView {
        ArgsView {
            frames: self.frames,
            jobs: job_views(self.jobs@),
            capture: opt_text(self.capture),
            beat: self.beat,
            field: opt_text(self.field),
            compare: opt_text(self.compare),
        }
    }
}

/// Why a command line was refused.
#[derive(Debug)]
pub enum ArgError {
    /// The flag came last, without its value.
    MissingValue(Flag),
    /// The value of `--frames` is not a `u32`; `reason` is the parse error's message.
    BadFrames { value: String, reason: String },
    /// An argument that is no flag of the preview.
    UnknownArg(String),
    /// `--headless` was not given.
    NotHeadless,
    /// `--lines` was given together with flags that name bins.
    MixedLinesAndNamed,
    /// `--beat` names no known film.
    UnknownBeat(String),
    /// Neither a parcel nor a film was asked for.
    NothingToRender,
}

/// A refusal as values.
pub enum ArgFault {
    MissingValue(Flag),
    /// The value, and the parse error's message.
    BadFrames(Seq<char>, Seq<char>),
    UnknownArg(Seq<char>),
    NotHeadless,
    MixedLinesAndNamed,
    UnknownBeat(Seq<char>),
    NothingToRender,
}

impl View for ArgError {
    type V = ArgFault;

    open spec fn view(&self) -> ArgFault {
        match self {
            ArgError::MissingValue(f) => ArgFault::MissingValue(*f),
            ArgError::BadFrames { value, reason } => ArgFault::BadFrames(value@, reason@),
            ArgError::UnknownArg(a) => ArgFault::UnknownArg(a@),
            ArgError::NotHeadless => ArgFault::NotHeadless,
            ArgError::MixedLinesAndNamed => ArgFault::MixedLinesAndNamed,
            ArgError::UnknownBeat(b) => ArgFault::UnknownBeat(b@),
            ArgError::NothingToRender => ArgFault::NothingToRender,
        }
    }
}

// ---------------------------------------------------------------------------
// The command line, as a function on its arguments
// ---------------------------------------------------------------------------

/// What has been read of the command line so far.
pub struct Scan {
    pub frames: u32,
    pub headless: bool,
    pub named: Seq<JobView>,
    pub lines: Seq<Seq<char>>,
    pub capture: Option<Seq<char>>,
    pub beat: Option<Seq<char>>,
    pub field: Option<Seq<char>>,
    pub compare: Option<Seq<char>>,
}

/// Nothing read yet: one frame, not headless, no parcels.
pub open spec fn scan_start() -> Scan {
    Scan {
        frames: 1,
        headless: false,
        named: Seq::empty(),
        lines: Seq::empty(),
        capture: None,
        beat: None,
        field: None,
        compare: None,
    }
}

/// The flag that `a` is, among those that take a value.
pub open spec fn flag_named(a: Seq<char>) -> Option<Flag> {
    if a == "--frames"@ {
        Some(Flag::Frames)
    } else if a == "--capture"@ {
        Some(Flag::Capture)
    } else if a == "--beat"@ {
        Some(Flag::Beat)
    } else if a == "--field"@ {
        Some(Flag::Field)
    } else if a == "--compare"@ {
        Some(Flag::Compare)
    } else if a == "--s2"@ {
        Some(Flag::Named(Bin::S2))
    } else if a == "--t2"@ {
        Some(Flag::Named(Bin::T2))
    } else if a == "--k2"@ {
        Some(Flag::Named(Bin::K2))
    } else if a == "--p2"@ {
        Some(Flag::Named(Bin::P2))
    } else if a == "--helicoid"@ {
        Some(Flag::Named(Bin::Helicoid))
    } else if a == "--catenoid"@ {
        Some(Flag::Named(Bin::Catenoid))
    } else if a == "--hyperboloid"@ {
        Some(Flag::Named(Bin::Hyperboloid))
    } else if a == "--theta"@ {
        Some(Flag::Named(Bin::Theta))
    } else if a == "--lines"@ {
        Some(Flag::Lines)
    } else {
        None
    }
}

/// What reading `v` as the value of flag `f` makes of the state: a later value of a
/// one-value flag replaces an earlier one; parcels and line files are appended.
pub open spec fn with_value(st: Scan, f: Flag, v: Seq<char>) -> Result<Scan, ArgFault> {
    match f {
        Flag::Frames => match u32_text(v) {
            Some(n) => Ok(Scan { frames: n, ..st }),
            None => Err(ArgFault::BadFrames(v, u32_parse_error_text(v))),
        },
        Flag::Capture => Ok(Scan { capture: Some(v), ..st }),
        Flag::Beat => Ok(Scan { beat: Some(v), ..st }),
        Flag::Field => Ok(Scan { field: Some(v), ..st }),
        Flag::Compare => Ok(Scan { compare: Some(v), ..st }),
        Flag::Named(b) => Ok(Scan { named: st.named.push(JobView { path: v, bin: b }), ..st }),
        Flag::Lines => Ok(Scan { lines: st.lines.push(v), ..st }),
    }
}

/// Reads the arguments from position `i` on, left to right, stopping at the first
/// argument that is refused.
pub open spec fn scan(args: Seq<Seq<char>>, i: int, st: Scan) -> Result<Scan, ArgFault>
    decreases args.len() - i,
{
    if i < 0 || i >= args.len() {
        Ok(st)
    } else if args[i] == "--headless"@ {
        scan(args, i + 1, Scan { headless: true, ..st })
    } else {
        match flag_named(args[i]) {
            None => Err(ArgFault::UnknownArg(args[i])),
            Some(f) => if i + 1 >= args.len() {
                Err(ArgFault::MissingValue(f))
            } else {
                match with_value(st, f, args[i + 1]) {
                    Ok(next) => scan(args, i + 2, next),
                    Err(e) => Err(e),
                }
            },
        }
    }
}

/// The bin of a parcel given by `--lines`: the one its file stem names, else S2.
pub open spec fn stem_or_default(stem: Option<Seq<char>>) -> Bin {
    match stem_bin(
        match stem {
            Some(s) => s,
            None => Seq::empty(),
        },
    ) {
        Some(b) => b,
        None => Bin::S2,
    }
}

/// The job of a parcel given by `--lines`.
pub open spec fn line_job(p: Seq<char>) -> JobView {
    JobView { path: p, bin: stem_or_default(path_file_stem(p)) }
}

/// Whether a job's bin has rank `r`.
pub open spec fn rank_is(r: nat) -> spec_fn(JobView) -> bool {
    |j: JobView| bin_rank(j.bin) == r
}

/// The jobs of `jobs` that are in the bin of rank `r`, in their order.
pub open spec fn in_rank(jobs: Seq<JobView>, r: nat) -> Seq<JobView> {
    jobs.filter(rank_is(r))
}

/// The jobs whose bins rank below `r`, grouped by rank, each group in the given order.
pub open spec fn ranks_below(jobs: Seq<JobView>, r: nat) -> Seq<JobView>
    decreases r,
{
    if r == 0 {
        Seq::empty()
    } else {
        ranks_below(jobs, (r - 1) as nat) + in_rank(jobs, (r - 1) as nat)
    }
}

/// The jobs in drawing order: by the rank of their bins, and in the given order
/// within a bin.
pub open spec fn in_drawing_order(jobs: Seq<JobView>) -> Seq<JobView> {
    ranks_below(jobs, 8)
}

/// What a fully read command line asks for, or why it is refused.
pub open spec fn settle(st: Scan) -> Result<ArgsView, ArgFault> {
    if !st.headless {
        Err(ArgFault::NotHeadless)
    } else if st.named.len() > 0 && st.lines.len() > 0 {
        Err(ArgFault::MixedLinesAndNamed)
    } else {
        let jobs = if st.named.len() == 0 {
            st.lines.map_values(|p: Seq<char>| line_job(p))
        } else {
            st.named
        };
        let request = ArgsView {
            frames: if st.frames == 0 {
                1
            } else {
                st.frames
            },
            jobs: in_drawing_order(jobs),
            capture: st.capture,
            beat: None,
            field: st.field,
            compare: st.compare,
        };
        match st.beat {
            Some(b) => if b == "caterpillar"@ {
                Ok(ArgsView { beat: Some(Beat::Caterpillar), ..request })
            } else {
                Err(ArgFault::UnknownBeat(b))
            },
            None => if jobs.len() == 0 {
                Err(ArgFault::NothingToRender)
            } else {
                Ok(request)
            },
        }
    }
}

/// What the preview's arguments (without the program name) ask for, or why they are
/// refused.
pub open spec fn args_request(args: Seq<Seq<char>>) -> Result<ArgsView, ArgFault> {
    match scan(args, 0, scan_start()) {
        Ok(st) => settle(st),
        Err(e) => Err(e),
    }
}

// ---------------------------------------------------------------------------
// Reading the command line
// ---------------------------------------------------------------------------

/// What has been read so far, held in exec values.
struct Pending {
    frames: u32,
    headless: bool,
    named: Vec<Job>,
    lines: Vec<String>,
    capture: Option<String>,
    beat: Option<String>,
    field: Option<String>,
    compare: Option<String>,
}

impl View for Pending {
    type V = Scan;

    closed spec fn view(&self) -> Scan {
        Scan {
            frames: self.frames,
            headless: self.headless,
            named: job_views(self.named@),
            lines: texts(self.lines@),
            capture: opt_text(self.capture),
            beat: opt_text(self.beat),
            field: opt_text(self.field),
            compare: opt_text(self.compare),
        }
    }
}

fn same_text(a: &String, lit: &str) -> (r: bool)
    ensures
        r == (a@ == lit@),
{
    a.eq(&String::from_str(lit))
}

fn flag_of(a: &String) -> (r: Option<Flag>)
    ensures
        r == flag_named(a@),
{
    if same_text(a, "--frames") {
        Some(Flag::Frames)
    } else if same_text(a, "--capture") {
        Some(Flag::Capture)
    } else if same_text(a, "--beat") {
        Some(Flag::Beat)
    } else if same_text(a, "--field") {
        Some(Flag::Field)
    } else if same_text(a, "--compare") {
        Some(Flag::Compare)
    } else if same_text(a, "--s2") {
        Some(Flag::Named(Bin::S2))
    } else if same_text(a, "--t2") {
        Some(Flag::Named(Bin::T2))
    } else if same_text(a, "--k2") {
        Some(Flag::Named(Bin::K2))
    } else if same_text(a, "--p2") {
        Some(Flag::Named(Bin::P2))
    } else if same_text(a, "--helicoid") {
        Some(Flag::Named(Bin::Helicoid))
    } else if same_text(a, "--catenoid") {
        Some(Flag::Named(Bin::Catenoid))
    } else if same_text(a, "--hyperboloid") {
        Some(Flag::Named(Bin::Hyperboloid))
    } else if same_text(a, "--theta") {
        Some(Flag::Named(Bin::Theta))
    } else if same_text(a, "--lines") {
        Some(Flag::Lines)
    } else {
        None
    }
}

fn take_value(st: &mut Pending, f: Flag, v: String) -> (r: Result<(), ArgError>)
    ensures
        match r {
            Ok(()) => with_value(old(st)@, f, v@) == Ok::<Scan, ArgFault>(final(st)@),
            Err(e) => with_value(old(st)@, f, v@) == Err::<Scan, ArgFault>(e@),
        },
{
    match f {
        Flag::Frames => match parse_u32(v.as_str()) {
            Ok(n) => {
                st.frames = n;
                Ok(())
            },
            Err(reason) => Err(ArgError::BadFrames { value: v, reason }),
        },
        Flag::Capture => {
            st.capture = Some(v);
            Ok(())
        },
        Flag::Beat => {
            st.beat = Some(v);
            Ok(())
        },
        Flag::Field => {
            st.field = Some(v);
            Ok(())
        },
        Flag::Compare => {
            st.compare = Some(v);
            Ok(())
        },
        Flag::Named(b) => {
            st.named.push(Job { path: v, bin: b });
            assert(job_views(st.named@) =~= job_views(old(st).named@).push(
                JobView { path: v@, bin: b },
            ));
            Ok(())
        },
        Flag::Lines => {
            st.lines.push(v);
            assert(texts(st.lines@) =~= texts(old(st).lines@).push(v@));
            Ok(())
        },
    }
}

impl Job {
    fn duplicate(&self) -> (r: Job)
        ensures
            r@ == self@,
    {
        Job { path: self.path.clone(), bin: self.bin }
    }
}

/// The bin of a parcel given by `--lines`, from the file stem of its path: the bin the
/// stem names, else S2.
pub fn bin_for_stem(stem: Option<&str>) -> (r: Bin)
    ensures
        r == stem_or_default(
            match stem {
                Some(s) => Some(s@),
                None => None,
            },
        ),
{
    let found = match stem {
        Some(s) => Bin::from_stem(s),
        None => Bin::from_stem(""),
    };
    proof {
        assert(""@ =~= Seq::<char>::empty()) by {
            reveal_strlit("");
        }
    }
    match found {
        Some(b) => b,
        None => Bin::S2,
    }
}

/// The bin of a parcel given by `--lines`.
pub fn bin_for_path(path: &str) -> (r: Bin)
    ensures
        r == stem_or_default(path_file_stem(path@)),
{
    match file_stem(path) {
        Some(s) => bin_for_stem(Some(s.as_str())),
        None => bin_for_stem(None),
    }
}

fn line_jobs(lines: &Vec<String>) -> (r: Vec<Job>)
    ensures
        job_views(r@) == texts(lines@).map_values(|p: Seq<char>| line_job(p)),
{
    let n = lines.len();
    let mut out: Vec<Job> = Vec::new();
    let mut i: usize = 0;
    while i < n
        invariant
            n == lines@.len(),
            i <= n,
            job_views(out@) == texts(lines@).take(i as int).map_values(
                |p: Seq<char>| line_job(p),
            ),
        decreases n - i,
    {
        let path = lines[i].clone();
        let bin = bin_for_path(path.as_str());
        let ghost before = out@;
        out.push(Job { path, bin });
        i = i + 1;
        assert(texts(lines@).take(i as int) =~= texts(lines@).take(i - 1).push(lines@[i - 1]@));
        assert(job_views(out@) =~= job_views(before).push(line_job(lines@[i - 1]@)));
        assert(job_views(out@) =~= texts(lines@).take(i as int).map_values(
            |p: Seq<char>| line_job(p),
        ));
    }
    assert(texts(lines@).take(n as int) =~= texts(lines@));
    out
}

/// The jobs in drawing order (see [`in_drawing_order`]).
pub fn order_jobs(jobs: &Vec<Job>) -> (r: Vec<Job>)
    ensures
        job_views(r@) == in_drawing_order(job_views(jobs@)),
{
    let n = jobs.len();
    let ghost all = job_views(jobs@);
    let mut out: Vec<Job> = Vec::new();
    let mut r: u8 = 0;
    while r < 8
        invariant
            n == jobs@.len(),
            all == job_views(jobs@),
            r <= 8,
            job_views(out@) == ranks_below(all, r as nat),
        decreases 8 - r,
    {
        let mut j: usize = 0;
        while j < n
            invariant
                n == jobs@.len(),
                all == job_views(jobs@),
                r < 8,
                j <= n,
                job_views(out@) == ranks_below(all, r as nat) + in_rank(all.take(j as int), r as nat),
            decreases n - j,
        {
            let ghost before = out@;
            assert(all.take(j + 1) =~= all.take(j as int).push(all[j as int]));
            proof {
                all.take(j as int).lemma_filter_push(all[j as int], rank_is(r as nat));
            }
            if jobs[j].bin.rank() == r {
                out.push(jobs[j].duplicate());
                assert(job_views(out@) =~= job_views(before).push(jobs@[j as int]@));
            }
            j = j + 1;
        }
        assert(all.take(n as int) =~= all);
        r = r + 1;
    }
    out
}

fn settle_pending(st: Pending) -> (r: Result<Args, ArgError>)
    ensures
        match r {
            Ok(a) => settle(st@) == Ok::<ArgsView, ArgFault>(a@),
            Err(e) => settle(st@) == Err::<ArgsView, ArgFault>(e@),
        },
{
    let ghost view = st@;
    if !st.headless {
        return Err(ArgError::NotHeadless);
    }
    if st.named.len() > 0 && st.lines.len() > 0 {
        return Err(ArgError::MixedLinesAndNamed);
    }
    let jobs = if st.named.len() == 0 {
        line_jobs(&st.lines)
    } else {
        st.named
    };
    let beat = match st.beat {
        Some(b) => {
            if same_text(&b, "caterpillar") {
                Some(Beat::Caterpillar)
            } else {
                return Err(ArgError::UnknownBeat(b));
            }
        },
        None => None,
    };
    if beat.is_none() && jobs.len() == 0 {
        return Err(ArgError::NothingToRender);
    }
    let ordered = order_jobs(&jobs);
    let frames = if st.frames == 0 {
        1
    } else {
        st.frames
    };
    let a = Args {
        frames,
        jobs: ordered,
        capture: st.capture,
        beat,
        field: st.field,
        compare: st.compare,
    };
    assert(settle(view) == Ok::<ArgsView, ArgFault>(a@));
    Ok(a)
}

/// Reads the preview's arguments (without the program name): flags with their values,
/// left to right, then the checks on the whole request. The result is exactly
/// [`args_request`] of the arguments' texts.
pub fn parse_args(args: &Vec<String>) -> (res: Result<Args, ArgError>)
    ensures
        match res {
            Ok(a) => args_request(texts(args@)) == Ok::<ArgsView, ArgFault>(a@),
            Err(e) => args_request(texts(args@)) == Err::<ArgsView, ArgFault>(e@),
        },
{
    let ghost words = texts(args@);
    let n = args.len();
    let mut st = Pending {
        frames: 1,
        headless: false,
        named: Vec::new(),
        lines: Vec::new(),
        capture: None,
        beat: None,
        field: None,
        compare: None,
    };
    assert(st@ == scan_start()) by {
        assert(job_views(st.named@) =~= Seq::<JobView>::empty());
        assert(texts(st.lines@) =~= Seq::<Seq<char>>::empty());
    }
    let mut i: usize = 0;
    while i < n
        invariant
            n == args@.len(),
            words == texts(args@),
            i <= n,
            scan(words, i as int, st@) == scan(words, 0, scan_start()),
        decreases n - i,
    {
        let arg = &args[i];
        assert(words[i as int] == arg@);
        if same_text(arg, "--headless") {
            st.headless = true;
            i = i + 1;
        } else {
            match flag_of(arg) {
                None => {
                    return Err(ArgError::UnknownArg(arg.clone()));
                },
                Some(f) => {
                    if i + 1 >= n {
                        return Err(ArgError::MissingValue(f));
                    }
                    let v = args[i + 1].clone();
                    assert(words[i + 1] == v@);
                    match take_value(&mut st, f, v) {
                        Ok(()) => {},
                        Err(e) => {
                            return Err(e);
                        },
                    }
                    i = i + 2;
                },
            }
        }
    }
    settle_pending(st)
}

impl Flag {
    /// What the flag expects, as its message shows when the value is missing.
    pub fn usage(self) -> (s: &'static str)
        ensures
            s@ == flag_usage(self),
    {
        match self {
            Flag::Frames => "--frames N",
            Flag::Capture => "--capture DIR",
            Flag::Beat => "--beat NAME",
            Flag::Field => "--field DIR",
            Flag::Compare => "--compare PATH",
            Flag::Lines => "--lines FILE",
            Flag::Named(Bin::S2) => "--s2 PATH",
            Flag::Named(Bin::T2) => "--t2 PATH",
            Flag::Named(Bin::K2) => "--k2 PATH",
            Flag::Named(Bin::P2) => "--p2 PATH",
            Flag::Named(Bin::Helicoid) => "--helicoid PATH",
            Flag::Named(Bin::Catenoid) => "--catenoid PATH",
            Flag::Named(Bin::Hyperboloid) => "--hyperboloid PATH",
            Flag::Named(Bin::Theta) => "--theta PATH",
        }
    }
}

/// What a flag expects.
pub open spec fn flag_usage(f: Flag) -> Seq<char> {
    match f {
        Flag::Frames => "--frames N"@,
        Flag::Capture => "--capture DIR"@,
        Flag::Beat => "--beat NAME"@,
        Flag::Field => "--field DIR"@,
        Flag::Compare => "--compare PATH"@,
        Flag::Lines => "--lines FILE"@,
        Flag::Named(Bin::S2) => "--s2 PATH"@,
        Flag::Named(Bin::T2) => "--t2 PATH"@,
        Flag::Named(Bin::K2) => "--k2 PATH"@,
        Flag::Named(Bin::P2) => "--p2 PATH"@,
        Flag::Named(Bin::Helicoid) => "--helicoid PATH"@,
        Flag::Named(Bin::Catenoid) => "--catenoid PATH"@,
        Flag::Named(Bin::Hyperboloid) => "--hyperboloid PATH"@,
        Flag::Named(Bin::Theta) => "--theta PATH"@,
    }
}

/// The message of a refusal (that of a bad `--frames` value is the parse error's own).
pub open spec fn arg_message(e: ArgFault) -> Seq<char> {
    match e {
        ArgFault::MissingValue(f) => flag_usage(f),
        ArgFault::BadFrames(_, reason) => reason,
        ArgFault::UnknownArg(a) => "unknown arg "@ + a,
        ArgFault::NotHeadless => "pass-2 is --headless only"@,
        ArgFault::MixedLinesAndNamed => "do not mix --lines with named flags"@,
        ArgFault::UnknownBeat(b) => "unknown --beat "@ + b + "; expected caterpillar"@,
        ArgFault::NothingToRender =>
            "need --lines FILE or --s2/--t2/--k2/--p2/--helicoid/--catenoid/--theta"@,
    }
}

impl ArgError {
    /// The refusal's message.
    pub fn message(&self) -> (s: String)
        ensures
            s@ == arg_message(self@),
    {
        match self {
            ArgError::MissingValue(f) => String::from_str(f.usage()),
            ArgError::BadFrames { reason, .. } => reason.clone(),
            ArgError::UnknownArg(a) => {
                let mut s = String::from_str("unknown arg ");
                s.append(a.as_str());
                s
            },
            ArgError::NotHeadless => String::from_str("pass-2 is --headless only"),
            ArgError::MixedLinesAndNamed => String::from_str("do not mix --lines with named flags"),
            ArgError::UnknownBeat(b) => {
                let mut s = String::from_str("unknown --beat ");
                s.append(b.as_str());
                s.append("; expected caterpillar");
                s
            },
            ArgError::NothingToRender => String::from_str(
                "need --lines FILE or --s2/--t2/--k2/--p2/--helicoid/--catenoid/--theta",
            ),
        }
    }
}

// ---------------------------------------------------------------------------
// Laws of the command line
// ---------------------------------------------------------------------------

proof fn lemma_ranks_below_push(s: Seq<JobView>, x: JobView, r: nat)
    ensures
        ranks_below(s.push(x), r).to_multiset() == ranks_below(s, r).to_multiset().add(
            if bin_rank(x.bin) < r {
                Multiset::singleton(x)
            } else {
                Multiset::empty()
            },
        ),
    decreases r,
{
    broadcast use vstd::multiset::group_multiset_axioms;
    broadcast use vstd::seq_lib::lemma_multiset_commutative;
    broadcast use vstd::seq_lib::to_multiset_build;

    if r == 0 {
        assert(ranks_below(s.push(x), r).to_multiset() =~= ranks_below(s, r).to_multiset().add(
            Multiset::empty(),
        ));
    } else {
        let q = (r - 1) as nat;
        lemma_ranks_below_push(s, x, q);
        s.lemma_filter_push(x, rank_is(q));
        if bin_rank(x.bin) == q {
            assert(in_rank(s.push(x), q).to_multiset() =~= in_rank(s, q).to_multiset().insert(x));
            assert(ranks_below(s.push(x), r).to_multiset() =~= ranks_below(s, r).to_multiset().add(
                Multiset::singleton(x),
            ));
        } else if bin_rank(x.bin) < q {
            assert(ranks_below(s.push(x), r).to_multiset() =~= ranks_below(s, r).to_multiset().add(
                Multiset::singleton(x),
            ));
        } else {
            assert(ranks_below(s.push(x), r).to_multiset() =~= ranks_below(s, r).to_multiset().add(
                Multiset::empty(),
            ));
        }
    }
}

proof fn lemma_ranks_below_empty(r: nat)
    ensures
        ranks_below(Seq::<JobView>::empty(), r) == Seq::<JobView>::empty(),
    decreases r,
{
    if r > 0 {
        lemma_ranks_below_empty((r - 1) as nat);
        assert(in_rank(Seq::<JobView>::empty(), (r - 1) as nat) =~= Seq::<JobView>::empty());
        assert(ranks_below(Seq::<JobView>::empty(), r) =~= Seq::<JobView>::empty());
    }
}

proof fn lemma_ranks_below_sorted(s: Seq<JobView>, r: nat)
    ensures
        forall|k: int|
            0 <= k < ranks_below(s, r).len() ==> bin_rank(#[trigger] ranks_below(s, r)[k].bin) < r,
        forall|i: int, j: int|
            0 <= i < j < ranks_below(s, r).len() ==> bin_rank(#[trigger] ranks_below(s, r)[i].bin)
                <= bin_rank(#[trigger] ranks_below(s, r)[j].bin),
    decreases r,
{
    if r > 0 {
        let q = (r - 1) as nat;
        lemma_ranks_below_sorted(s, q);
        let a = ranks_below(s, q);
        let b = in_rank(s, q);
        let whole = ranks_below(s, r);
        assert(whole == a + b);
        assert forall|k: int| 0 <= k < b.len() implies bin_rank(#[trigger] b[k].bin) == q by {
            s.lemma_filter_pred(rank_is(q), k);
        }
        assert forall|k: int| 0 <= k < whole.len() implies bin_rank(#[trigger] whole[k].bin) < r by {
            if k < a.len() {
                assert(whole[k] == a[k]);
            } else {
                assert(whole[k] == b[k - a.len()]);
            }
        }
        assert forall|i: int, j: int| 0 <= i < j < whole.len() implies bin_rank(
            #[trigger] whole[i].bin,
        ) <= bin_rank(#[trigger] whole[j].bin) by {
            if j < a.len() {
                assert(whole[i] == a[i] && whole[j] == a[j]);
            } else if i < a.len() {
                assert(whole[i] == a[i] && whole[j] == b[j - a.len()]);
            } else {
                assert(whole[i] == b[i - a.len()] && whole[j] == b[j - a.len()]);
            }
        }
    }
}

/// Drawing order keeps every job (as many times as it was given) and sorts them by
/// the rank of their bins.
pub proof fn lemma_drawing_order(jobs: Seq<JobView>)
    ensures
        in_drawing_order(jobs).to_multiset() == jobs.to_multiset(),
        forall|i: int, j: int|
            0 <= i < j < in_drawing_order(jobs).len() ==> bin_rank(
                #[trigger] in_drawing_order(jobs)[i].bin,
            ) <= bin_rank(#[trigger] in_drawing_order(jobs)[j].bin),
    decreases jobs.len(),
{
    broadcast use vstd::multiset::group_multiset_axioms;
    broadcast use vstd::seq_lib::to_multiset_build;

    lemma_ranks_below_sorted(jobs, 8);
    if jobs.len() == 0 {
        lemma_ranks_below_empty(8);
        assert(jobs =~= Seq::<JobView>::empty());
        assert(jobs.to_multiset() =~= Multiset::empty());
        assert(in_drawing_order(jobs).to_multiset() =~= Multiset::empty());
    } else {
        let t = jobs.drop_last();
        let x = jobs.last();
        assert(t.push(x) =~= jobs);
        lemma_drawing_order(t);
        lemma_ranks_below_push(t, x, 8);
        assert(bin_rank(x.bin) < 8);
        assert(in_drawing_order(jobs).to_multiset() =~= jobs.to_multiset());
    }
}

proof fn lemma_rank_filter_twice(s: Seq<JobView>, q: nat, r: nat)
    ensures
        in_rank(in_rank(s, q), r) == if q == r {
            in_rank(s, r)
        } else {
            Seq::<JobView>::empty()
        },
    decreases s.len(),
{
    if s.len() == 0 {
        assert(in_rank(s, q) =~= Seq::<JobView>::empty());
        assert(in_rank(in_rank(s, q), r) =~= Seq::<JobView>::empty());
        assert(in_rank(s, r) =~= Seq::<JobView>::empty());
    } else {
        let t = s.drop_last();
        let x = s.last();
        assert(t.push(x) =~= s);
        lemma_rank_filter_twice(t, q, r);
        t.lemma_filter_push(x, rank_is(q));
        t.lemma_filter_push(x, rank_is(r));
        in_rank(t, q).lemma_filter_push(x, rank_is(r));
    }
}

proof fn lemma_ranks_below_of_rank(s: Seq<JobView>, q: nat, r: nat)
    ensures
        in_rank(ranks_below(s, q), r) == if r < q {
            in_rank(s, r)
        } else {
            Seq::<JobView>::empty()
        },
    decreases q,
{
    if q == 0 {
        assert(in_rank(Seq::<JobView>::empty(), r) =~= Seq::<JobView>::empty());
    } else {
        let p = (q - 1) as nat;
        lemma_ranks_below_of_rank(s, p, r);
        lemma_rank_filter_twice(s, p, r);
        Seq::filter_distributes_over_add(ranks_below(s, p), in_rank(s, p), rank_is(r));
        if r < p {
            assert(in_rank(ranks_below(s, q), r) =~= in_rank(s, r));
        } else if r == p {
            assert(in_rank(ranks_below(s, q), r) =~= in_rank(s, r));
        } else {
            assert(in_rank(ranks_below(s, q), r) =~= Seq::<JobView>::empty());
        }
    }
}

/// Drawing order is stable: the jobs of any one bin come out in the order they were
/// given.
pub proof fn lemma_drawing_order_stable(jobs: Seq<JobView>, b: Bin)
    ensures
        in_rank(in_drawing_order(jobs), bin_rank(b)) == in_rank(jobs, bin_rank(b)),
{
    lemma_ranks_below_of_rank(jobs, 8, bin_rank(b));
}

/// An accepted command line always asks for at least one frame.
pub proof fn lemma_request_has_frames(args: Seq<Seq<char>>)
    ensures
        args_request(args) matches Ok(a) ==> a.frames >= 1,
{
}

/// Whether reading the arguments from position `i` comes to position `j` as the place
/// of a flag (not of a flag's value).
pub open spec fn read_as_flag(args: Seq<Seq<char>>, i: int, j: int) -> bool
    decreases args.len() - i,
{
    if i < 0 || i >= args.len() || j < i {
        false
    } else if i == j {
        true
    } else if args[i] == "--headless"@ {
        read_as_flag(args, i + 1, j)
    } else if flag_named(args[i]) is Some && i + 1 < args.len() {
        read_as_flag(args, i + 2, j)
    } else {
        false
    }
}

proof fn lemma_scan_headless(args: Seq<Seq<char>>, i: int, st: Scan)
    requires
        0 <= i,
    ensures
        scan(args, i, st) matches Ok(done) ==> done.headless ==> st.headless || exists|j: int|
            read_as_flag(args, i, j) && args[j] == "--headless"@,
    decreases args.len() - i,
{
    if i < args.len() {
        if args[i] == "--headless"@ {
            assert(read_as_flag(args, i, i));
        } else {
            match flag_named(args[i]) {
                None => {},
                Some(f) => {
                    if i + 1 < args.len() {
                        match with_value(st, f, args[i + 1]) {
                            Ok(next) => {
                                lemma_scan_headless(args, i + 2, next);
                                assert(next.headless == st.headless);
                                if let Ok(done) = scan(args, i, st) {
                                    if done.headless && !st.headless {
                                        let j = choose|j: int|
                                            read_as_flag(args, i + 2, j) && args[j]
                                                == "--headless"@;
                                        assert(read_as_flag(args, i, j));
                                    }
                                }
                            },
                            Err(_) => {},
                        }
                    }
                },
            }
        }
    }
}

/// Only a command line that says `--headless`, in the place of a flag, is accepted.
pub proof fn lemma_accepted_only_headless(args: Seq<Seq<char>>)
    ensures
        args_request(args) is Ok ==> exists|j: int|
            read_as_flag(args, 0, j) && args[j] == "--headless"@,
{
    lemma_scan_headless(args, 0, scan_start());
}

proof fn lemma_ne_at(a: Seq<char>, b: Seq<char>, i: int)
    requires
        0 <= i < a.len(),
        i < b.len(),
        a[i] != b[i],
    ensures
        a != b,
{
}

/// The flag spelled `--` and a bin's stem is the flag that names that bin, and it is not
/// `--headless`.
pub proof fn lemma_flag_of_stem(b: Bin)
    ensures
        flag_named("--"@ + bin_stem(b)) == Some(Flag::Named(b)),
        "--"@ + bin_stem(b) != "--headless"@,
{
    reveal_strlit("--");
    reveal_strlit("s2");
    reveal_strlit("t2");
    reveal_strlit("k2");
    reveal_strlit("p2");
    reveal_strlit("helicoid");
    reveal_strlit("catenoid");
    reveal_strlit("theta");
    reveal_strlit("hyperboloid");
    reveal_strlit("--headless");
    reveal_strlit("--frames");
    reveal_strlit("--capture");
    reveal_strlit("--beat");
    reveal_strlit("--field");
    reveal_strlit("--compare");
    reveal_strlit("--s2");
    reveal_strlit("--t2");
    reveal_strlit("--k2");
    reveal_strlit("--p2");
    reveal_strlit("--helicoid");
    reveal_strlit("--catenoid");
    reveal_strlit("--hyperboloid");
    reveal_strlit("--theta");
    reveal_strlit("--lines");
    let x = "--"@ + bin_stem(b);
    let k: int = match b {
        Bin::Helicoid => 4,
        Bin::Hyperboloid => 3,
        _ => 2,
    };
    lemma_ne_at(x, "--headless"@, k);
    match b {
        Bin::S2 => {
            assert(x =~= "--s2"@);
        },
        Bin::T2 => {
            assert(x =~= "--t2"@);
            lemma_ne_at(x, "--s2"@, 2);
        },
        Bin::K2 => {
            assert(x =~= "--k2"@);
            lemma_ne_at(x, "--s2"@, 2);
            lemma_ne_at(x, "--t2"@, 2);
        },
        Bin::P2 => {
            assert(x =~= "--p2"@);
            lemma_ne_at(x, "--s2"@, 2);
            lemma_ne_at(x, "--t2"@, 2);
            lemma_ne_at(x, "--k2"@, 2);
        },
        Bin::Helicoid => {
            assert(x =~= "--helicoid"@);
        },
        Bin::Catenoid => {
            assert(x =~= "--catenoid"@);
            lemma_ne_at(x, "--helicoid"@, 2);
        },
        Bin::Hyperboloid => {
            assert(x =~= "--hyperboloid"@);
        },
        Bin::Theta => {
            assert(x =~= "--theta"@);
            lemma_ne_at(x, "--field"@, 2);
        },
    }
}

proof fn lemma_single_in_order(x: JobView, r: nat)
    ensures
        ranks_below(seq![x], r) == if bin_rank(x.bin) < r {
            seq![x]
        } else {
            Seq::<JobView>::empty()
        },
    decreases r,
{
    if r > 0 {
        let q = (r - 1) as nat;
        lemma_single_in_order(x, q);
        let e = Seq::<JobView>::empty();
        e.lemma_filter_push(x, rank_is(q));
        assert(e.push(x) =~= seq![x]);
        assert(e.filter(rank_is(q)) =~= e);
        if bin_rank(x.bin) < q {
            assert(ranks_below(seq![x], r) =~= seq![x]);
        } else if bin_rank(x.bin) == q {
            assert(ranks_below(seq![x], r) =~= seq![x]);
        } else {
            assert(ranks_below(seq![x], r) =~= e);
        }
    }
}

/// The flag named after a bin's stem puts its parcel in that bin: `--headless --<stem> P`
/// asks for one frame of exactly one parcel, read from `P`, in that bin.
pub proof fn lemma_named_flag_sets_bin(b: Bin, p: Seq<char>)
    ensures
        args_request(seq!["--headless"@, "--"@ + bin_stem(b), p]) == Ok::<ArgsView, ArgFault>(
            ArgsView {
                frames: 1,
                jobs: seq![JobView { path: p, bin: b }],
                capture: None,
                beat: None,
                field: None,
                compare: None,
            },
        ),
{
    let args = seq!["--headless"@, "--"@ + bin_stem(b), p];
    lemma_flag_of_stem(b);
    let job = JobView { path: p, bin: b };
    lemma_single_in_order(job, 8);
    assert(bin_rank(b) < 8);
    let st1 = Scan { headless: true, ..scan_start() };
    let st2 = Scan { named: st1.named.push(job), ..st1 };
    assert(st1.named.push(job) =~= seq![job]);
    assert(scan(args, 3, st2) == Ok::<Scan, ArgFault>(st2));
    assert(scan(args, 1, st1) == scan(args, 3, st2));
    assert(scan(args, 0, scan_start()) == scan(args, 1, st1));
    assert(settle(st2) == Ok::<ArgsView, ArgFault>(
        ArgsView { frames: 1, jobs: seq![job], capture: None, beat: None, field: None, compare: None },
    ));
}

} // verus!
