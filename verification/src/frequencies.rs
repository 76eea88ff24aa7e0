use vstd::prelude::*;

verus! {

/// First index in `[t, m)` whose flag is set.
pub open spec fn first_set(flags: Seq<bool>, t: int, m: int) -> Option<int>
    decreases m - t,
{
    if t >= m {
        None
    } else if flags[t] {
        Some(t)
    } else {
        first_set(flags, t + 1, m)
    }
}

/// Index reached from `t` by stepping forward while the next value is smaller
/// (`descending[t]`) and the next index is below `m`.
pub open spec fn descend(descending: Seq<bool>, t: int, m: int) -> int
    decreases m - t,
{
    if t + 1 < m && descending[t] {
        descend(descending, t + 1, m)
    } else {
        t
    }
}

/// The period that the YIN search picks: the first lag from `tau_min` below
/// `min(tau_max, len)` whose normalized difference is under the threshold,
/// followed downhill to the bottom of its dip.
pub open spec fn spec_pitch_period(
    below: Seq<bool>,
    descending: Seq<bool>,
    tau_min: int,
    tau_max: int,
) -> Option<int> {
    let m = if tau_max < below.len() { tau_max } else { below.len() as int };
    match first_set(below, tau_min, m) {
        Some(t) => Some(descend(descending, t, m)),
        None => None,
    }
}

proof fn lemma_first_set_range(flags: Seq<bool>, t: int, m: int)
    ensures
        match first_set(flags, t, m) {
            Some(i) => t <= i < m && flags[i] && forall|j: int| t <= j < i ==> !#[trigger] flags[j],
            None => forall|j: int| t <= j < m ==> !#[trigger] flags[j],
        },
    decreases m - t,
{
    if t < m && !flags[t] {
        lemma_first_set_range(flags, t + 1, m);
    }
}

proof fn lemma_descend_range(descending: Seq<bool>, t: int, m: int)
    requires
        t < m,
    ensures
        t <= descend(descending, t, m) < m,
        descend(descending, t, m) + 1 == m || !descending[descend(descending, t, m)],
        forall|j: int| t <= j < descend(descending, t, m) ==> #[trigger] descending[j],
    decreases m - t,
{
    if t + 1 < m && descending[t] {
        lemma_descend_range(descending, t + 1, m);
    }
}

/// Search a cumulative mean normalized difference function for the
/// fundamental period. `below[t]` tells whether value `t` is under the
/// harmonic threshold and `descending[t]` whether value `t + 1` is smaller than
/// value `t`. Returns `None` when no lag in range is under the threshold.
pub fn pitch_period(below: &[bool], descending: &[bool], tau_min: usize, tau_max: usize) -> (r: Option<usize>)
    requires
        descending@.len() == below@.len(),
    ensures
        r == match spec_pitch_period(below@, descending@, tau_min as int, tau_max as int) {
            Some(t) => Some(t as usize),
            None => None::<usize>,
        },
        r matches Some(t) ==> tau_min <= t < tau_max && t < below@.len(),
        r is None <==> forall|j: int|
            tau_min <= j < tau_max && j < below@.len() ==> !#[trigger] below@[j],
        r matches Some(t) ==> exists|f: int|
            #![trigger below@[f]]
            tau_min <= f <= t && below@[f] && (forall|j: int| tau_min <= j < f ==> !#[trigger] below@[j])
                && (forall|j: int| f <= j < t ==> #[trigger] descending@[j]),
{
    let len = below.len();
    let m = if tau_max < len {
        tau_max
    } else {
        len
    };
    let mut tau = tau_min;
    while tau < m
        invariant
            len == below@.len(),
            len == descending@.len(),
            m <= len,
            m == if tau_max < below@.len() { tau_max as int } else { below@.len() as int },
            tau_min <= tau,
            first_set(below@, tau_min as int, m as int) == first_set(below@, tau as int, m as int),
        decreases m - tau,
    {
        if below[tau] {
            let mut t = tau;
            while t + 1 < m && descending[t]
                invariant
                    len == descending@.len(),
                    m <= len,
                    tau <= t < m,
                    descend(descending@, tau as int, m as int) == descend(descending@, t as int, m as int),
                decreases m - t,
            {
                t = t + 1;
            }
            proof {
                lemma_descend_range(descending@, tau as int, m as int);
                lemma_pitch_period_found(below@, descending@, tau_min as int, tau_max as int);
            }
            return Some(t);
        }
        tau = tau + 1;
    }
    proof {
        lemma_pitch_period_found(below@, descending@, tau_min as int, tau_max as int);
    }
    None
}

/// The picked period lies in the searched range, its lag is under the
/// threshold or downhill from one that is, and the next value does not drop
/// further.
pub proof fn lemma_pitch_period_is_dip_bottom(
    below: Seq<bool>,
    descending: Seq<bool>,
    tau_min: int,
    tau_max: int,
)
    requires
        descending.len() == below.len(),
    ensures
        spec_pitch_period(below, descending, tau_min, tau_max) matches Some(t) ==> {
            &&& tau_min <= t < tau_max
            &&& t < below.len()
            &&& (t + 1 == tau_max || t + 1 == below.len() || !descending[t])
        },
{
    let m = if tau_max < below.len() { tau_max } else { below.len() as int };
    lemma_first_set_range(below, tau_min, m);
    if let Some(f) = first_set(below, tau_min, m) {
        lemma_descend_range(descending, f, m);
    }
}

/// Whether any lag in `[tau_min, tau_max)` inside the function is under the
/// threshold, and if so which one comes first, as `pitch_period` finds it.
proof fn lemma_pitch_period_found(below: Seq<bool>, descending: Seq<bool>, tau_min: int, tau_max: int)
    ensures
        spec_pitch_period(below, descending, tau_min, tau_max) is None <==> forall|j: int|
            tau_min <= j < tau_max && j < below.len() ==> !#[trigger] below[j],
        spec_pitch_period(below, descending, tau_min, tau_max) matches Some(t) ==> exists|f: int|
            #![trigger below[f]]
            tau_min <= f <= t && below[f] && (forall|j: int| tau_min <= j < f ==> !#[trigger] below[j])
                && (forall|j: int| f <= j < t ==> #[trigger] descending[j]),
{
    let m = if tau_max < below.len() { tau_max } else { below.len() as int };
    lemma_first_set_range(below, tau_min, m);
    match first_set(below, tau_min, m) {
        Some(f) => {
            lemma_descend_range(descending, f, m);
            assert(below[f]);
        },
        None => {
            assert forall|j: int| tau_min <= j < tau_max && j < below.len() implies !#[trigger] below[j] by {
                assert(tau_min <= j < m);
            }
        },
    }
}

/// The YIN period follows the first dip: when `f` is the first lag from
/// `tau_min` whose value is under the threshold, the period is `f` or a lag
/// reached from `f` by strictly descending steps, and the value after it does
/// not drop further (or the searched range ends there).
pub proof fn lemma_pitch_period_follows_first_dip(
    below: Seq<bool>,
    descending: Seq<bool>,
    tau_min: int,
    tau_max: int,
    f: int,
)
    requires
        descending.len() == below.len(),
        tau_min <= f < tau_max,
        f < below.len(),
        below[f],
        forall|j: int| tau_min <= j < f ==> !#[trigger] below[j],
    ensures
        spec_pitch_period(below, descending, tau_min, tau_max) matches Some(t) && f <= t < tau_max
            && t < below.len() && (forall|j: int| f <= j < t ==> #[trigger] descending[j])
            && (t + 1 == tau_max || t + 1 == below.len() || !descending[t]),
{
    let m = if tau_max < below.len() { tau_max } else { below.len() as int };
    lemma_first_set_range(below, tau_min, m);
    match first_set(below, tau_min, m) {
        Some(g) => {
            if g < f {
                assert(!below[g]);
            }
            if f < g {
                assert(!below[f]);
            }
            assert(g == f);
            lemma_descend_range(descending, f, m);
        },
        None => {
            assert(!below[f]);
        },
    }
}

/// No period is found exactly when no lag in the searched range is under the
/// threshold.
pub proof fn lemma_pitch_period_absent(below: Seq<bool>, descending: Seq<bool>, tau_min: int, tau_max: int)
    ensures
        spec_pitch_period(below, descending, tau_min, tau_max) is None <==> forall|j: int|
            tau_min <= j < tau_max && j < below.len() ==> !#[trigger] below[j],
{
    lemma_pitch_period_found(below, descending, tau_min, tau_max);
}

} // verus!
