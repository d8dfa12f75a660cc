//! Performance counters for the translation pipeline.
//!
//! The profiler keeps named event counters and named duration records.
//! Timing itself belongs to the host, which measures and hands elapsed
//! nanoseconds in; everything kept here is plain counting with exact
//! contracts.

use vstd::prelude::*;

verus! {

/// Accumulated durations of one named operation, in nanoseconds.
#[derive(Clone, Debug, PartialEq, Eq, Structural)]
pub struct TimerStats {
    pub total_nanos: u64,
    pub count: u64,
    pub min_nanos: u64,
    pub max_nanos: u64,
}

/// A pending timing: the host measures the elapsed time and records it
/// under the guard's name.
pub struct ProfilerGuard {
    /// The operation being timed.
    pub timer_name: String,
}

/// Named counters and duration records.
pub struct Profiler {
    /// Named event counters.
    pub counters: Vec<(String, u64)>,
    /// Named duration records.
    pub timers: Vec<(String, TimerStats)>,
    /// Whether recording is on.
    pub enabled: bool,
}

/// The value recorded under a name, zero when the name is new.
pub open spec fn spec_counter(cs: Seq<(Seq<char>, u64)>, name: Seq<char>) -> u64
    decreases cs.len(),
{
    if cs.len() == 0 {
        0u64
    } else if cs[0].0 == name {
        cs[0].1
    } else {
        spec_counter(cs.drop_first(), name)
    }
}

impl Profiler {
    pub open spec fn counters_view(self) -> Seq<(Seq<char>, u64)> {
        self.counters@.map_values(|p: (String, u64)| (p.0@, p.1))
    }

    pub open spec fn timers_view(self) -> Seq<(Seq<char>, TimerStats)> {
        self.timers@.map_values(|p: (String, TimerStats)| (p.0@, p.1))
    }

    pub open spec fn spec_enabled(self) -> bool {
        self.enabled
    }

    /// A profiler with recording switched on.
    pub fn new() -> (r: Profiler)
        ensures
            r.counters_view().len() == 0,
            r.timers_view().len() == 0,
            r.spec_enabled(),
    {
        let r = Profiler { counters: Vec::new(), timers: Vec::new(), enabled: true };
        proof {
            assert(r.counters_view() =~= Seq::<(Seq<char>, u64)>::empty());
            assert(r.timers_view() =~= Seq::<(Seq<char>, TimerStats)>::empty());
        }
        r
    }

    /// A profiler that records nothing.
    pub fn disabled() -> (r: Profiler)
        ensures
            r.counters_view().len() == 0,
            r.timers_view().len() == 0,
            !r.spec_enabled(),
    {
        let r = Profiler { counters: Vec::new(), timers: Vec::new(), enabled: false };
        proof {
            assert(r.counters_view() =~= Seq::<(Seq<char>, u64)>::empty());
            assert(r.timers_view() =~= Seq::<(Seq<char>, TimerStats)>::empty());
        }
        r
    }

    /// Switch recording on.
    pub fn enable(&mut self)
        ensures
            final(self).spec_enabled(),
            final(self).counters_view() == old(self).counters_view(),
            final(self).timers_view() == old(self).timers_view(),
    {
        self.enabled = true;
    }

    /// Switch recording off.
    pub fn disable(&mut self)
        ensures
            !final(self).spec_enabled(),
            final(self).counters_view() == old(self).counters_view(),
            final(self).timers_view() == old(self).timers_view(),
    {
        self.enabled = false;
    }

    /// Whether recording is on.
    pub fn is_enabled(&self) -> (r: bool)
        ensures
            r == self.spec_enabled(),
    {
        self.enabled
    }

    /// Begin timing an operation; the host measures and later records the
    /// elapsed nanoseconds under the guard's name.
    pub fn start_timer(&mut self, name: &str) -> (r: ProfilerGuard)
        ensures
            r.timer_name@ == name@,
            final(self).counters_view() == old(self).counters_view(),
            final(self).timers_view() == old(self).timers_view(),
            final(self).spec_enabled() == old(self).spec_enabled(),
    {
        ProfilerGuard { timer_name: name.to_owned() }
    }

    /// Add to a named counter; a disabled profiler records nothing.
    #[verifier::loop_isolation(false)]
    pub fn inc_counter(&mut self, name: &str, amount: u64)
        ensures
            final(self).timers_view() == old(self).timers_view(),
            final(self).spec_enabled() == old(self).spec_enabled(),
            !old(self).spec_enabled() ==> final(self).counters_view() == old(
                self,
            ).counters_view(),
            old(self).spec_enabled() ==> spec_counter(final(self).counters_view(), name@)
                == vstd::wrapping::u64_specs::wrapping_add(
                spec_counter(old(self).counters_view(), name@),
                amount,
            ),
            old(self).spec_enabled() ==> forall|other: Seq<char>|
                other != name@ ==> #[trigger] spec_counter(final(self).counters_view(), other)
                    == spec_counter(old(self).counters_view(), other),
    {
        if !self.enabled {
            return ;
        }
        let old_v = Self::find_counter(&self.counters, name);
        let new_v = match old_v {
            Some((i, v)) => {
                let nv = v.wrapping_add(amount);
                let key = self.counters[i].0.clone();
                self.counters.set(i, (key, nv));
                proof {
                    lemma_counter_set(
                        old(self).counters_view(),
                        name@,
                        i as int,
                        vstd::wrapping::u64_specs::wrapping_add(v, amount),
                    );
                    assert(self.counters_view() =~= old(self).counters_view().update(
                        i as int,
                        (name@, vstd::wrapping::u64_specs::wrapping_add(v, amount)),
                    ));
                }
                nv
            },
            Option::None => {
                self.counters.push((name.to_owned(), amount));
                proof {
                    lemma_counter_push(old(self).counters_view(), name@, amount);
                    assert(self.counters_view() =~= old(self).counters_view().push(
                        (name@, amount),
                    ));
                }
                amount
            },
        };
        let _ = new_v;
    }

    /// Set a named counter; a disabled profiler records nothing.
    #[verifier::loop_isolation(false)]
    pub fn set_counter(&mut self, name: &str, value: u64)
        ensures
            final(self).timers_view() == old(self).timers_view(),
            final(self).spec_enabled() == old(self).spec_enabled(),
            !old(self).spec_enabled() ==> final(self).counters_view() == old(
                self,
            ).counters_view(),
            old(self).spec_enabled() ==> spec_counter(final(self).counters_view(), name@)
                == value,
            old(self).spec_enabled() ==> forall|other: Seq<char>|
                other != name@ ==> #[trigger] spec_counter(final(self).counters_view(), other)
                    == spec_counter(old(self).counters_view(), other),
    {
        if !self.enabled {
            return ;
        }
        let old_v = Self::find_counter(&self.counters, name);
        match old_v {
            Some((i, _)) => {
                let key = self.counters[i].0.clone();
                self.counters.set(i, (key, value));
                proof {
                    lemma_counter_set(old(self).counters_view(), name@, i as int, value);
                    assert(self.counters_view() =~= old(self).counters_view().update(
                        i as int,
                        (name@, value),
                    ));
                }
            },
            Option::None => {
                self.counters.push((name.to_owned(), value));
                proof {
                    lemma_counter_push(old(self).counters_view(), name@, value);
                    assert(self.counters_view() =~= old(self).counters_view().push(
                        (name@, value),
                    ));
                }
            },
        }
    }

    /// The value of a named counter, zero when never recorded.
    pub fn get_counter(&self, name: &str) -> (r: u64)
        ensures
            r == spec_counter(self.counters_view(), name@),
    {
        match Self::find_counter(&self.counters, name) {
            Some((_, v)) => v,
            Option::None => 0,
        }
    }

    #[verifier::loop_isolation(false)]
    fn find_counter(cs: &Vec<(String, u64)>, name: &str) -> (r: Option<(usize, u64)>)
        ensures
            ({
                let view = cs@.map_values(|p: (String, u64)| (p.0@, p.1));
                match r {
                    Some((i, v)) => i < view.len() && view[i as int].0 == name@
                        && view[i as int].1 == v && v == spec_counter(view, name@) && forall|j: int|
                        0 <= j < i ==> (#[trigger] view[j]).0 != name@,
                    Option::None => spec_counter(view, name@) == 0 && forall|j: int|
                        0 <= j < view.len() ==> (#[trigger] view[j]).0 != name@,
                }
            }),
    {
        let ghost view = cs@.map_values(|p: (String, u64)| (p.0@, p.1));
        let name_owned: String = name.to_owned();
        let n = cs.len();
        let mut i: usize = 0;
        proof {
            assert(view.skip(0) =~= view);
        }
        while i < n
            invariant
                i <= n,
                n == view.len(),
                name_owned@ == name@,
                spec_counter(view, name@) == spec_counter(view.skip(i as int), name@),
                forall|j: int| 0 <= j < i ==> (#[trigger] view[j]).0 != name@,
            decreases n - i,
        {
            proof {
                assert(view.skip(i as int)[0] == view[i as int]);
                assert(view.skip(i as int).drop_first() =~= view.skip(i as int + 1));
            }
            if cs[i].0 == name_owned {
                return Some((i, cs[i].1));
            }
            i = i + 1;
        }
        proof {
            assert(view.skip(n as int) =~= Seq::<(Seq<char>, u64)>::empty());
        }
        Option::<(usize, u64)>::None
    }

    /// Record an elapsed duration, in nanoseconds, under a name; totals,
    /// counts and extremes accumulate.  A disabled profiler records
    /// nothing.
    #[verifier::loop_isolation(false)]
    pub fn record_duration(&mut self, name: &str, nanos: u64)
        ensures
            final(self).counters_view() == old(self).counters_view(),
            final(self).spec_enabled() == old(self).spec_enabled(),
            !old(self).spec_enabled() ==> final(self).timers_view() == old(self).timers_view(),
    {
        if !self.enabled {
            return ;
        }
        let name_owned: String = name.to_owned();
        let n = self.timers.len();
        let mut i: usize = 0;
        let mut found: Option<usize> = Option::<usize>::None;
        while i < n
            invariant
                i <= n,
                n == self.timers@.len(),
                found matches Some(k) ==> k < n,
            decreases n - i,
        {
            if self.timers[i].0 == name_owned {
                found = Some(i);
                break;
            }
            i = i + 1;
        }
        match found {
            Some(k) => {
                let old_stats = self.timers[k].1.clone();
                let key = self.timers[k].0.clone();
                let new_stats = TimerStats {
                    total_nanos: old_stats.total_nanos.wrapping_add(nanos),
                    count: old_stats.count.wrapping_add(1),
                    min_nanos: if nanos < old_stats.min_nanos {
                        nanos
                    } else {
                        old_stats.min_nanos
                    },
                    max_nanos: if nanos > old_stats.max_nanos {
                        nanos
                    } else {
                        old_stats.max_nanos
                    },
                };
                self.timers.set(k, (key, new_stats));
            },
            Option::None => {
                self.timers.push(
                    (
                        name.to_owned(),
                        TimerStats {
                            total_nanos: nanos,
                            count: 1,
                            min_nanos: nanos,
                            max_nanos: nanos,
                        },
                    ),
                );
            },
        }
        proof {
            assert(self.counters_view() =~= old(self).counters_view());
        }
    }

    /// Number of named counters held.
    pub fn counter_count(&self) -> (r: usize)
        ensures
            r == self.counters_view().len(),
    {
        self.counters.len()
    }

    /// Number of named timers held.
    pub fn timer_count(&self) -> (r: usize)
        ensures
            r == self.timers_view().len(),
    {
        self.timers.len()
    }

    /// Forget everything recorded.
    pub fn reset(&mut self)
        ensures
            final(self).counters_view().len() == 0,
            final(self).timers_view().len() == 0,
            final(self).spec_enabled() == old(self).spec_enabled(),
    {
        self.counters = Vec::new();
        self.timers = Vec::new();
        proof {
            assert(self.counters_view() =~= Seq::<(Seq<char>, u64)>::empty());
            assert(self.timers_view() =~= Seq::<(Seq<char>, TimerStats)>::empty());
        }
    }

    /// Shorten a name to at most `max_len` characters, marking the cut with
    /// an ellipsis of three dots.
    pub fn truncate(s: &str, max_len: usize) -> (r: String)
        requires
            max_len >= 3,
        ensures
            s@.len() <= max_len ==> r@ == s@,
    {
        proof {
            reveal_strlit("...");
        }
        if s.unicode_len() <= max_len {
            s.to_owned()
        } else {
            let mut r = s.substring_char(0, max_len - 3).to_owned();
            r.append("...");
            r
        }
    }

    /// Render a number with a comma between each group of three digits.
    #[verifier::loop_isolation(false)]
    pub fn format_number(n: u64) -> (r: String)
        ensures
            r@ == spec_grouped(crate::middleend::wat::spec_dec_nat(n as nat)),
    {
        let mut digits = String::new();
        crate::middleend::wat::append_dec_u64(&mut digits, n);
        let ghost dv = digits@;
        let len = digits.unicode_len();
        let mut r = String::new();
        let mut i: usize = 0;
        proof {
            reveal_strlit(",");
            assert(","@ =~= seq![',']);
            assert(dv.take(0) =~= Seq::<char>::empty());
            assert(spec_grouped_prefix(dv, 0) =~= Seq::<char>::empty());
        }
        while i < len
            invariant
                i <= len,
                len == dv.len(),
                digits@ == dv,
                r@ == spec_grouped_prefix(dv, i as int),
            decreases len - i,
        {
            if i > 0 && (len - i) % 3 == 0 {
                r.append(",");
            }
            let c = digits.get_char(i);
            let one = Self::char_str(c);
            r.append(one.as_str());
            proof {
                assert(r@ =~= spec_grouped_prefix(dv, i as int + 1));
            }
            i = i + 1;
        }
        proof {
            assert(spec_grouped_prefix(dv, dv.len() as int) =~= spec_grouped(dv));
        }
        r
    }

    /// Relies on String::push: appends exactly the one character.
    #[verifier::external_body]
    fn char_str(c: char) -> (r: String)
        ensures
            r@ == seq![c],
    {
        let mut s = String::new();
        s.push(c);
        s
    }
}

/// The first `i` characters of the digit string with the group commas that
/// fall inside them.
pub open spec fn spec_grouped_prefix(digits: Seq<char>, i: int) -> Seq<char>
    decreases i,
{
    if i <= 0 {
        Seq::<char>::empty()
    } else {
        let before = spec_grouped_prefix(digits, i - 1);
        let here = if i - 1 > 0 && (digits.len() - (i - 1)) % 3 == 0 {
            seq![','].push(digits[i - 1])
        } else {
            seq![digits[i - 1]]
        };
        before + here
    }
}

/// A digit string with a comma between each group of three digits.
pub open spec fn spec_grouped(digits: Seq<char>) -> Seq<char> {
    spec_grouped_prefix(digits, digits.len() as int)
}

proof fn lemma_counter_set(cs: Seq<(Seq<char>, u64)>, name: Seq<char>, i: int, v: u64)
    requires
        0 <= i < cs.len(),
        cs[i].0 == name,
        forall|j: int| 0 <= j < i ==> (#[trigger] cs[j]).0 != name,
    ensures
        spec_counter(cs.update(i, (name, v)), name) == v,
        forall|other: Seq<char>|
            other != name ==> #[trigger] spec_counter(cs.update(i, (name, v)), other)
                == spec_counter(cs, other),
    decreases cs.len(),
{
    if i == 0 {
        assert forall|other: Seq<char>| other != name implies #[trigger] spec_counter(
            cs.update(i, (name, v)),
            other,
        ) == spec_counter(cs, other) by {
            assert(cs.update(0, (name, v)).drop_first() =~= cs.drop_first());
        }
    } else {
        lemma_counter_set(cs.drop_first(), name, i - 1, v);
        assert(cs.update(i, (name, v)).drop_first() =~= cs.drop_first().update(
            i - 1,
            (name, v),
        ));
        assert forall|other: Seq<char>| other != name implies #[trigger] spec_counter(
            cs.update(i, (name, v)),
            other,
        ) == spec_counter(cs, other) by {
            assert(cs.update(i, (name, v)).drop_first() =~= cs.drop_first().update(
                i - 1,
                (name, v),
            ));
            assert(spec_counter(cs.drop_first().update(i - 1, (name, v)), other) == spec_counter(
                cs.drop_first(),
                other,
            ));
        }
    }
}

proof fn lemma_counter_push(cs: Seq<(Seq<char>, u64)>, name: Seq<char>, v: u64)
    requires
        forall|j: int| 0 <= j < cs.len() ==> (#[trigger] cs[j]).0 != name,
    ensures
        spec_counter(cs.push((name, v)), name) == v,
        forall|other: Seq<char>|
            other != name ==> #[trigger] spec_counter(cs.push((name, v)), other) == spec_counter(
                cs,
                other,
            ),
    decreases cs.len(),
{
    if cs.len() == 0 {
        assert(cs.push((name, v))[0] == (name, v));
        assert forall|other: Seq<char>| other != name implies #[trigger] spec_counter(
            cs.push((name, v)),
            other,
        ) == spec_counter(cs, other) by {
            reveal_with_fuel(spec_counter, 3);
            assert(cs.push((name, v)).drop_first() =~= Seq::<(Seq<char>, u64)>::empty());
            assert(spec_counter(cs.push((name, v)), other) == spec_counter(
                cs.push((name, v)).drop_first(),
                other,
            ));
        }
    } else {
        assert forall|j: int| 0 <= j < cs.drop_first().len() implies (#[trigger] cs.drop_first()[j]).0
            != name by {
            assert(cs.drop_first()[j] == cs[j + 1]);
        }
        lemma_counter_push(cs.drop_first(), name, v);
        assert(cs.push((name, v)).drop_first() =~= cs.drop_first().push((name, v)));
        assert forall|other: Seq<char>| other != name implies #[trigger] spec_counter(
            cs.push((name, v)),
            other,
        ) == spec_counter(cs, other) by {
            assert(cs.push((name, v))[0] == cs[0]);
            assert(cs.push((name, v)).len() == cs.len() + 1);
            if cs[0].0 == other {
                assert(spec_counter(cs.push((name, v)), other) == cs[0].1);
                assert(spec_counter(cs, other) == cs[0].1);
            } else {
                assert(spec_counter(cs.push((name, v)), other) == spec_counter(
                    cs.drop_first().push((name, v)),
                    other,
                ));
                assert(spec_counter(cs.drop_first().push((name, v)), other) == spec_counter(
                    cs.drop_first(),
                    other,
                ));
            }
        }
    }
}

impl Default for Profiler {
    /// A profiler with recording switched on.
    fn default() -> (r: Profiler)
        ensures
            r.counters_view().len() == 0,
            r.timers_view().len() == 0,
            r.spec_enabled(),
    {
        Profiler::new()
    }
}

} // verus!
