use vstd::prelude::*;

verus! {

/// A pass: a maximal run of consecutive time steps at which the target stands
/// at or above the elevation threshold.
#[derive(Clone, Copy, Debug, PartialEq, Eq, Structural)]
pub struct Window {
    /// First step of the pass.
    pub rise: usize,
    /// Last step of the pass.
    pub set: usize,
}

/// The steps at which a sampled elevation series is at or above `threshold`.
/// Elevations and threshold are in millionths of a degree.
pub open spec fn visible_steps(elevations: Seq<i64>, threshold: i64) -> Seq<bool> {
    Seq::new(elevations.len(), |k: int| elevations[k] >= threshold)
}

/// Steps `a..=b` are all visible, and the run cannot be extended at either end.
pub open spec fn is_pass(flags: Seq<bool>, a: int, b: int) -> bool {
    &&& 0 <= a <= b < flags.len()
    &&& forall|k: int| a <= k <= b ==> flags[k]
    &&& (a == 0 || !flags[a - 1])
    &&& (b == flags.len() - 1 || !flags[b + 1])
}

/// `ws` holds every pass of `flags` once, in time order, and nothing else.
pub open spec fn lists_passes(flags: Seq<bool>, ws: Seq<Window>) -> bool {
    &&& forall|i: int| 0 <= i < ws.len() ==> is_pass(flags, #[trigger] ws[i].rise as int, ws[i].set as int)
    &&& forall|i: int, j: int| 0 <= i < j < ws.len() ==> ws[i].set < ws[j].rise
    &&& forall|a: int, b: int| #[trigger]
        is_pass(flags, a, b) ==> holds_window(ws, a, b)
}

/// Some entry of `ws` runs from step `a` to step `b`.
pub open spec fn holds_window(ws: Seq<Window>, a: int, b: int) -> bool {
    exists|i: int| 0 <= i < ws.len() && (#[trigger] ws[i]).rise == a && ws[i].set == b
}

/// The visibility windows of a sampled elevation series: one window for each
/// maximal run of samples at or above `threshold`, earliest first.
pub fn visibility_windows(elevations: &Vec<i64>, threshold: i64) -> (ws: Vec<Window>)
    ensures
        lists_passes(visible_steps(elevations@, threshold), ws@),
{
    let ghost flags = visible_steps(elevations@, threshold);
    let n: usize = elevations.len();
    let mut ws: Vec<Window> = Vec::new();
    let mut open: Option<usize> = None;
    let mut i: usize = 0;
    while i < n
        invariant
            i <= n,
            n == elevations.len(),
            flags == visible_steps(elevations@, threshold),
            forall|j: int| 0 <= j < ws.len() ==> is_pass(flags, #[trigger] ws[j].rise as int, ws[j].set as int),
            forall|j: int| 0 <= j < ws.len() ==> (#[trigger] ws[j]).set + 1 < i,
            forall|j: int, k: int| 0 <= j < k < ws.len() ==> ws[j].set < ws[k].rise,
            forall|a: int, b: int| #[trigger] is_pass(flags, a, b) && b + 1 < i ==> holds_window(ws@, a, b),
            open matches Some(a) ==> a < i && (a == 0 || !flags[a - 1]) && (forall|k: int| a <= k < i ==> flags[k])
                && (forall|j: int| 0 <= j < ws.len() ==> (#[trigger] ws[j]).set < a),
            open is None ==> i == 0 || !flags[i - 1],
        decreases n - i,
    {
        let up = elevations[i] >= threshold;
        assert(flags[i as int] == up);
        match open {
            Some(a) => {
                if !up {
                    let ghost before = ws@;
                    ws.push(Window { rise: a, set: i - 1 });
                    open = None;
                    proof {
                        assert(is_pass(flags, a as int, i - 1));
                        assert forall|x: int, y: int| #[trigger] is_pass(flags, x, y) && y + 1 < i + 1 implies holds_window(ws@, x, y) by {
                            if y + 1 < i {
                                assert(holds_window(before, x, y));
                                let j = choose|j: int| 0 <= j < before.len() && (#[trigger] before[j]).rise == x && before[j].set == y;
                                assert(ws@[j] == before[j]);
                            } else {
                                if x < a {
                                    assert(flags[a - 1]);
                                } else if a < x {
                                    assert(flags[x - 1]);
                                }
                                assert(ws@[before.len() as int].rise == x);
                            }
                        }
                    }
                } else {
                    proof {
                        assert forall|x: int, y: int| #[trigger] is_pass(flags, x, y) && y + 1 < i + 1 implies holds_window(ws@, x, y) by {
                            if y + 1 == i {
                                assert(flags[y + 1]);
                            }
                        }
                    }
                }
            },
            None => {
                if up {
                    open = Some(i);
                }
                proof {
                    assert forall|x: int, y: int| #[trigger] is_pass(flags, x, y) && y + 1 < i + 1 implies holds_window(ws@, x, y) by {
                        if y + 1 == i {
                            assert(flags[y]);
                        }
                    }
                }
            },
        }
        i = i + 1;
    }
    match open {
        Some(a) => {
            let ghost before = ws@;
            ws.push(Window { rise: a, set: n - 1 });
            proof {
                assert(is_pass(flags, a as int, n - 1));
                assert forall|x: int, y: int| #[trigger] is_pass(flags, x, y) implies holds_window(ws@, x, y) by {
                    if y + 1 < n {
                        assert(holds_window(before, x, y));
                        let j = choose|j: int| 0 <= j < before.len() && (#[trigger] before[j]).rise == x && before[j].set == y;
                        assert(ws@[j] == before[j]);
                    } else {
                        if x < a {
                            assert(flags[a - 1]);
                        } else if a < x {
                            assert(flags[x - 1]);
                        }
                        assert(ws@[before.len() as int].rise == x);
                    }
                }
            }
        },
        None => {
            proof {
                assert forall|x: int, y: int| #[trigger] is_pass(flags, x, y) implies holds_window(ws@, x, y) by {
                    if y + 1 == n {
                        assert(flags[y]);
                    }
                }
            }
        },
    }
    ws
}

/// A series that is visible exactly from step `up` until just before step
/// `down` has exactly one window, and the two crossings bound it.
pub proof fn single_crossing_single_window(
    elevations: Seq<i64>,
    threshold: i64,
    up: int,
    down: int,
    ws: Seq<Window>,
)
    requires
        0 <= up < down <= elevations.len(),
        forall|k: int| 0 <= k < elevations.len() ==> ((#[trigger] elevations[k]) >= threshold <==> up <= k < down),
        lists_passes(visible_steps(elevations, threshold), ws),
    ensures
        ws.len() == 1,
        ws[0].rise == up,
        ws[0].set == down - 1,
{
    let flags = visible_steps(elevations, threshold);
    assert forall|k: int| 0 <= k < flags.len() implies (#[trigger] flags[k] <==> up <= k < down) by {
        assert(flags[k] == (elevations[k] >= threshold));
    }
    assert(is_pass(flags, up, down - 1));
    assert(holds_window(ws, up, down - 1));
    assert forall|i: int| 0 <= i < ws.len() implies (#[trigger] ws[i]).rise == up && ws[i].set == down - 1 by {
        assert(is_pass(flags, ws[i].rise as int, ws[i].set as int));
        let a = ws[i].rise as int;
        let b = ws[i].set as int;
        assert(flags[a]);
        assert(flags[b]);
        if a > up {
            assert(flags[a - 1]);
        }
        if b < down - 1 {
            assert(flags[b + 1]);
        }
    }
    if ws.len() > 1 {
        assert(ws[0].set < ws[1].rise);
    }
}

/// In a list of the passes of `flags`, an entry is found again in any other
/// such list at the same place or further on.
proof fn entry_not_earlier(flags: Seq<bool>, ws: Seq<Window>, vs: Seq<Window>, i: int) -> (j: int)
    requires
        lists_passes(flags, ws),
        lists_passes(flags, vs),
        0 <= i < ws.len(),
    ensures
        i <= j < vs.len(),
        vs[j] == ws[i],
    decreases i,
{
    assert(is_pass(flags, ws[i].rise as int, ws[i].set as int));
    assert(holds_window(vs, ws[i].rise as int, ws[i].set as int));
    let j = choose|j: int| 0 <= j < vs.len() && (#[trigger] vs[j]).rise == ws[i].rise && vs[j].set == ws[i].set;
    if i > 0 {
        let before = entry_not_earlier(flags, ws, vs, i - 1);
        assert(ws[i - 1].set < ws[i].rise);
        assert(is_pass(flags, vs[j].rise as int, vs[j].set as int));
        assert(is_pass(flags, vs[before].rise as int, vs[before].set as int));
        if j < before {
            assert(vs[j].set < vs[before].rise);
        }
    }
    j
}

/// The passes of a series are listed in one way only: two lists that both
/// hold every pass once, in time order, are the same list. The windows
/// reported for a series therefore depend on the series and the threshold
/// alone.
pub proof fn windows_are_determined(flags: Seq<bool>, ws: Seq<Window>, vs: Seq<Window>)
    requires
        lists_passes(flags, ws),
        lists_passes(flags, vs),
    ensures
        ws == vs,
{
    assert forall|i: int| 0 <= i < ws.len() implies i < vs.len() && (#[trigger] ws[i]) == vs[i] by {
        let j = entry_not_earlier(flags, ws, vs, i);
        let back = entry_not_earlier(flags, vs, ws, j);
        assert(is_pass(flags, ws[i].rise as int, ws[i].set as int));
        if i < back {
            assert(ws[i].set < ws[back].rise);
        }
    }
    if ws.len() < vs.len() {
        let back = entry_not_earlier(flags, vs, ws, ws.len() as int);
    }
    if ws.len() > 0 {
        let last = ws.len() - 1;
        assert(ws[last] == vs[last]);
    }
    assert(ws =~= vs);
}

} // verus!
