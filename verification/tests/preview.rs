use qga_swarm::args::{bin_for_path, bin_for_stem, order_jobs, parse_args, ArgError, Args, Beat, Flag, Job};
use qga_swarm::bins::Bin;
use qga_swarm::film::{beat_length, film_frames, find_job, frame_stage, Layer, Stage, Sweep};
use qga_swarm::paths::{capture_name, capture_stem, theta_capture_stem};

const ALL: [Bin; 8] = [
    Bin::S2,
    Bin::T2,
    Bin::K2,
    Bin::P2,
    Bin::Helicoid,
    Bin::Catenoid,
    Bin::Theta,
    Bin::Hyperboloid,
];

fn words(v: &[&str]) -> Vec<String> {
    v.iter().map(|s| s.to_string()).collect()
}

fn parse(v: &[&str]) -> Result<Args, ArgError> {
    parse_args(&words(v))
}

fn job_list(a: &Args) -> Vec<(String, Bin)> {
    a.jobs.iter().map(|j| (j.path.clone(), j.bin)).collect()
}

#[test]
fn stems_name_their_bins() {
    for b in ALL {
        assert_eq!(Bin::from_stem(b.stem()), Some(b));
    }
    assert_eq!(Bin::Hyperboloid.stem(), "hyperboloid");
    assert_eq!(Bin::S2.stem(), "s2");
}

#[test]
fn from_stem_ignores_ascii_case_and_reads_prefixes() {
    assert_eq!(Bin::from_stem("S2_edges"), Some(Bin::S2));
    assert_eq!(Bin::from_stem("HeLiCoId_edges"), Some(Bin::Helicoid));
    assert_eq!(Bin::from_stem("theta_0.25"), Some(Bin::Theta));
    assert_eq!(Bin::from_stem("Catenoid"), Some(Bin::Catenoid));
    assert_eq!(Bin::from_stem("p2x"), Some(Bin::P2));
    assert_eq!(Bin::from_stem("k"), None);
    assert_eq!(Bin::from_stem(""), None);
    assert_eq!(Bin::from_stem("edges_s2"), None);
    assert_eq!(Bin::from_stem("thet"), None);
}

#[test]
fn drawing_ranks() {
    let ranks: Vec<u8> = ALL.iter().map(|b| b.rank()).collect();
    assert_eq!(ranks, vec![0, 1, 2, 3, 4, 5, 7, 6]);
}

#[test]
fn bins_of_line_files_come_from_their_stems() {
    assert_eq!(bin_for_path("results/local/t2_edges.bin"), Bin::T2);
    assert_eq!(bin_for_path("/tmp/Catenoid_edges.bin"), Bin::Catenoid);
    assert_eq!(bin_for_path("/tmp/mystery.bin"), Bin::S2);
    assert_eq!(bin_for_path(""), Bin::S2);
    assert_eq!(bin_for_stem(Some("k2")), Bin::K2);
    assert_eq!(bin_for_stem(None), Bin::S2);
}

#[test]
fn theta_capture_names() {
    assert_eq!(theta_capture_stem("/tmp/theta_0.50_edges.bin"), "theta_0.50");
    assert_eq!(theta_capture_stem("out/theta_edges"), "theta");
    assert_eq!(theta_capture_stem("out/theta_a.bin"), "theta_a");
    assert_eq!(theta_capture_stem("/"), "theta");
    assert_eq!(capture_stem(Some("x_edges")), "x");
    assert_eq!(capture_stem(Some("_edges")), "");
    assert_eq!(capture_stem(Some("edges")), "edges");
    assert_eq!(capture_stem(None), "theta");
}

#[test]
fn capture_names_of_stills() {
    // one parcel: last.bgra
    assert_eq!(capture_name(false, Bin::P2, "results/local/p2_edges.bin"), "last");
    // four named flags: {s2,t2,k2,p2}.bgra
    for b in [Bin::S2, Bin::T2, Bin::K2, Bin::P2, Bin::Helicoid, Bin::Catenoid] {
        assert_eq!(capture_name(true, b, "whatever.bin"), b.stem());
    }
    assert_eq!(capture_name(true, Bin::Theta, "/tmp/theta_1_edges.bin"), "theta_1");
}

#[test]
fn four_named_flags_in_drawing_order() {
    let a = parse(&[
        "--headless", "--p2", "p.bin", "--k2", "k.bin", "--s2", "s.bin", "--t2", "t.bin",
        "--capture", "/tmp/qga_swarm_four", "--frames", "8",
    ])
    .unwrap();
    assert_eq!(a.frames, 8);
    assert_eq!(a.capture.as_deref(), Some("/tmp/qga_swarm_four"));
    assert_eq!(
        job_list(&a),
        vec![
            ("s.bin".to_string(), Bin::S2),
            ("t.bin".to_string(), Bin::T2),
            ("k.bin".to_string(), Bin::K2),
            ("p.bin".to_string(), Bin::P2),
        ]
    );
    assert!(a.beat.is_none() && a.field.is_none() && a.compare.is_none());
}

#[test]
fn lines_take_their_bins_from_stems() {
    let a = parse(&["--headless", "--lines", "x/helicoid_edges.bin", "--lines", "x/odd.bin"]).unwrap();
    assert_eq!(
        job_list(&a),
        vec![("x/odd.bin".to_string(), Bin::S2), ("x/helicoid_edges.bin".to_string(), Bin::Helicoid)]
    );
    assert_eq!(a.frames, 1);
}

#[test]
fn theta_comes_last_and_ties_keep_their_order() {
    let a = parse(&[
        "--headless", "--theta", "a", "--hyperboloid", "h", "--theta", "b", "--s2", "s",
    ])
    .unwrap();
    assert_eq!(
        job_list(&a),
        vec![
            ("s".to_string(), Bin::S2),
            ("h".to_string(), Bin::Hyperboloid),
            ("a".to_string(), Bin::Theta),
            ("b".to_string(), Bin::Theta),
        ]
    );
}

#[test]
fn order_jobs_is_stable_by_rank() {
    let jobs = vec![
        Job { path: "1".to_string(), bin: Bin::Catenoid },
        Job { path: "2".to_string(), bin: Bin::S2 },
        Job { path: "3".to_string(), bin: Bin::Catenoid },
        Job { path: "4".to_string(), bin: Bin::T2 },
    ];
    let out: Vec<(String, Bin)> = order_jobs(&jobs).iter().map(|j| (j.path.clone(), j.bin)).collect();
    assert_eq!(
        out,
        vec![
            ("2".to_string(), Bin::S2),
            ("4".to_string(), Bin::T2),
            ("1".to_string(), Bin::Catenoid),
            ("3".to_string(), Bin::Catenoid),
        ]
    );
}

#[test]
fn frames_are_at_least_one_and_later_values_win() {
    let a = parse(&["--headless", "--frames", "0", "--s2", "s"]).unwrap();
    assert_eq!(a.frames, 1);
    let a = parse(&["--frames", "+12", "--headless", "--frames", "5", "--s2", "s"]).unwrap();
    assert_eq!(a.frames, 5);
}

#[test]
fn beat_film() {
    let a = parse(&[
        "--headless", "--beat", "caterpillar", "--field", "dump", "--compare", "occ.json",
        "--hyperboloid", "h.bin",
    ])
    .unwrap();
    assert_eq!(a.beat, Some(Beat::Caterpillar));
    assert_eq!(a.field.as_deref(), Some("dump"));
    assert_eq!(a.compare.as_deref(), Some("occ.json"));
    let a = parse(&["--headless", "--beat", "caterpillar"]).unwrap();
    assert!(a.jobs.is_empty());
}

#[test]
fn refusals() {
    assert!(matches!(parse(&["--s2", "s"]), Err(ArgError::NotHeadless)));
    assert!(matches!(
        parse(&["--headless", "--s2", "s", "--lines", "l"]),
        Err(ArgError::MixedLinesAndNamed)
    ));
    assert!(matches!(parse(&["--headless"]), Err(ArgError::NothingToRender)));
    assert!(matches!(parse(&["--headless", "--frames"]), Err(ArgError::MissingValue(Flag::Frames))));
    assert!(matches!(
        parse(&["--headless", "--theta"]),
        Err(ArgError::MissingValue(Flag::Named(Bin::Theta)))
    ));
    match parse(&["--headless", "--bogus"]) {
        Err(ArgError::UnknownArg(a)) => assert_eq!(a, "--bogus"),
        other => panic!("unexpected {other:?}"),
    }
    match parse(&["--headless", "--beat", "moth", "--s2", "s"]) {
        Err(ArgError::UnknownBeat(b)) => assert_eq!(b, "moth"),
        other => panic!("unexpected {other:?}"),
    }
    match parse(&["--headless", "--frames", "eight"]) {
        Err(ArgError::BadFrames { value, reason }) => {
            assert_eq!(value, "eight");
            assert_eq!(reason, "invalid digit found in string");
        }
        other => panic!("unexpected {other:?}"),
    }
    match parse(&["--headless", "--frames", "4294967296"]) {
        Err(ArgError::BadFrames { reason, .. }) => {
            assert_eq!(reason, "number too large to fit in target type")
        }
        other => panic!("unexpected {other:?}"),
    }
    // a --headless taken as the value of a flag does not count
    assert!(matches!(parse(&["--s2", "--headless"]), Err(ArgError::NotHeadless)));
    assert!(matches!(parse(&["--headless", "--frames", "-1"]), Err(ArgError::BadFrames { .. })));
    assert!(matches!(parse(&["--headless", "--frames", "4294967296"]), Err(ArgError::BadFrames { .. })));
    // the first refused argument decides, before the whole-line checks
    assert!(matches!(parse(&["--bogus", "--frames"]), Err(ArgError::UnknownArg(_))));
}

#[test]
fn refusal_messages() {
    let msg = |v: &[&str]| parse(v).unwrap_err().message();
    assert_eq!(msg(&["--s2", "s"]), "pass-2 is --headless only");
    assert_eq!(msg(&["--headless", "--lines", "l", "--t2", "t"]), "do not mix --lines with named flags");
    assert_eq!(
        msg(&["--headless"]),
        "need --lines FILE or --s2/--t2/--k2/--p2/--helicoid/--catenoid/--theta"
    );
    assert_eq!(msg(&["--headless", "--catenoid"]), "--catenoid PATH");
    assert_eq!(msg(&["--headless", "--capture"]), "--capture DIR");
    assert_eq!(msg(&["-x"]), "unknown arg -x");
    assert_eq!(msg(&["--headless", "--beat", "b", "--s2", "s"]), "unknown --beat b; expected caterpillar");
    assert_eq!(msg(&["--headless", "--frames", "x"]), "invalid digit found in string");
}

#[test]
fn first_job_of_a_bin() {
    let jobs = vec![
        Job { path: "a".to_string(), bin: Bin::T2 },
        Job { path: "b".to_string(), bin: Bin::S2 },
        Job { path: "c".to_string(), bin: Bin::T2 },
    ];
    assert_eq!(find_job(&jobs, Bin::T2), Some(0));
    assert_eq!(find_job(&jobs, Bin::S2), Some(1));
    assert_eq!(find_job(&jobs, Bin::Theta), None);
}

#[test]
fn beat_sheet() {
    assert_eq!(film_frames(1), 6);
    assert_eq!(film_frames(48), 48);
    let frames = film_frames(50);
    let len = beat_length(frames);
    assert_eq!(len, 8);
    assert_eq!(beat_length(3), 1);
    assert_eq!(frame_stage(0, len), (Stage::Generators, 0));
    assert_eq!(frame_stage(7, len), (Stage::Generators, 7));
    assert_eq!(frame_stage(8, len), (Stage::Catalog, 0));
    assert_eq!(frame_stage(19, len), (Stage::Lens, 3));
    assert_eq!(frame_stage(24, len), (Stage::Cage, 0));
    assert_eq!(frame_stage(39, len), (Stage::Life, 7));
    assert_eq!(frame_stage(40, len), (Stage::Refuse, 0));
    assert_eq!(frame_stage(49, len), (Stage::Refuse, 9));
    let mut last = 0;
    for i in 0..frames {
        let (s, local) = frame_stage(i, len);
        let k = s as u32;
        assert!(k >= last);
        last = k;
        assert_eq!(k * len + local, i);
    }
    assert_eq!(last, 5);
}

#[test]
fn stages_show() {
    assert_eq!(Stage::Generators.title(), "GENERATORS");
    assert_eq!(Stage::Refuse.title(), "REFUSE");
    assert_eq!(Stage::Lens.sweep(), Sweep::Ramp);
    assert_eq!(Stage::Cage.sweep(), Sweep::Quarter);
    assert_eq!(Stage::Catalog.sweep(), Sweep::Rest);
    assert!(!Stage::Catalog.shows_mid_orb() && Stage::Lens.shows_mid_orb());
    assert!(Stage::Life.shows_motes() && !Stage::Life.motes_frozen());
    assert!(Stage::Refuse.motes_frozen() && Stage::Refuse.shows_hex_hubs());
    assert!(!Stage::Cage.shows_hex_hubs() && Stage::Cage.rides_cage());
    assert!(!Stage::Generators.stamps_hubs() && Stage::Catalog.stamps_hubs());
    assert_eq!(Stage::Cage.layers(), vec![Layer::Hyperboloid, Layer::Catalog]);
    assert_eq!(Stage::Generators.layers(), vec![Layer::Generators]);
    assert_eq!(Stage::Refuse.layers(), vec![Layer::Catalog, Layer::Helicoid, Layer::Catenoid]);
}
