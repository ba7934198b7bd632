//! Benchmarks of three ways to draw a user interface: through the VM, a hybrid of
//! native widgets and the VM, and native widgets alone.
//!
//! Each approach is simulated by a schedule of pauses that the library decides
//! (`pause_schedule`): one for start-up and one for drawing. The caller pauses for
//! each, measures both phases with the monotonic clock, and hands the two times
//! back; the library records them with the approach's name, widget count and
//! memory estimate, under the approach's key.

use vstd::prelude::*;
use std::time::Duration;
use std::collections::HashMap;
use crate::text::{owned, str_eq};

verus! {

/// `std::time::Duration::ZERO`. A `Duration` is opaque to the proofs here, so
/// nothing is claimed of the value.
#[verifier::external_body]
fn zero_duration() -> Duration {
    Duration::ZERO
}

/// What one benchmark measured. Copies are made with `duplicate`.
#[derive(Debug)]
pub struct BenchmarkResults {
    pub approach: String,
    pub startup_time: Duration,
    pub render_time: Duration,
    pub memory_usage: usize,
    pub widget_count: usize,
}

impl BenchmarkResults {
    /// Results for an approach, with nothing measured yet.
    pub fn new(approach: &str) -> (r: Self)
        ensures
            r.approach@ == approach@,
            r.memory_usage == 0,
            r.widget_count == 0,
    {
        BenchmarkResults {
            approach: owned(approach),
            startup_time: zero_duration(),
            render_time: zero_duration(),
            memory_usage: 0,
            widget_count: 0,
        }
    }

    /// A copy of the results, field for field.
    pub fn duplicate(&self) -> (r: Self)
        ensures
            r.approach@ == self.approach@,
            r.startup_time == self.startup_time,
            r.render_time == self.render_time,
            r.memory_usage == self.memory_usage,
            r.widget_count == self.widget_count,
    {
        BenchmarkResults {
            approach: self.approach.clone(),
            startup_time: self.startup_time,
            render_time: self.render_time,
            memory_usage: self.memory_usage,
            widget_count: self.widget_count,
        }
    }
}

/// The three approaches that are measured.
#[derive(Debug, Clone, Copy, PartialEq, Eq, Structural)]
pub enum Approach {
    VmUi,
    HybridUi,
    PureRustUi,
}

/// The pause before start-up completes, in microseconds.
pub open spec fn base_pause(a: Approach) -> u64 {
    match a {
        Approach::VmUi => 50_000,
        Approach::HybridUi => 20_000,
        Approach::PureRustUi => 10_000,
    }
}

/// The start-up pause for widget `i`: a VM call costs 100 µs, a native widget 20 µs;
/// the hybrid makes every other widget native, starting with the first.
pub open spec fn startup_pause(a: Approach, i: int) -> u64 {
    match a {
        Approach::VmUi => 100,
        Approach::HybridUi => if i % 2 == 0 { 20 } else { 100 },
        Approach::PureRustUi => 20,
    }
}

/// The drawing pause for widget `i`: 50 µs through the VM, 10 µs natively.
pub open spec fn render_pause(a: Approach, i: int) -> u64 {
    match a {
        Approach::VmUi => 50,
        Approach::HybridUi => if i % 2 == 0 { 10 } else { 50 },
        Approach::PureRustUi => 10,
    }
}

/// The start-up pauses of approach `a` over `n` widgets: the base pause, then one
/// per widget.
pub open spec fn startup_pauses(a: Approach, n: nat) -> Seq<u64> {
    seq![base_pause(a)] + Seq::new(n, |i: int| startup_pause(a, i))
}

/// The drawing pauses of approach `a` over `n` widgets, one per widget.
pub open spec fn render_pauses(a: Approach, n: nat) -> Seq<u64> {
    Seq::new(n, |i: int| render_pause(a, i))
}

/// The pauses that simulate approach `a` over `widget_count` widgets: those of
/// start-up, then those of drawing, in microseconds.
pub fn pause_schedule(a: Approach, widget_count: usize) -> (r: (Vec<u64>, Vec<u64>))
    ensures
        r.0@ == startup_pauses(a, widget_count as nat),
        r.1@ == render_pauses(a, widget_count as nat),
{
    let base: u64 = match a {
        Approach::VmUi => 50_000,
        Approach::HybridUi => 20_000,
        Approach::PureRustUi => 10_000,
    };
    let mut startup: Vec<u64> = Vec::new();
    startup.push(base);
    let mut render: Vec<u64> = Vec::new();
    let mut i: usize = 0;
    while i < widget_count
        invariant
            i <= widget_count,
            startup@ == seq![base_pause(a)] + Seq::new(i as nat, |k: int| startup_pause(a, k)),
            render@ == Seq::new(i as nat, |k: int| render_pause(a, k)),
        decreases widget_count - i,
    {
        let (up, draw): (u64, u64) = match a {
            Approach::VmUi => (100, 50),
            Approach::HybridUi => if i % 2 == 0 { (20, 10) } else { (100, 50) },
            Approach::PureRustUi => (20, 10),
        };
        startup.push(up);
        render.push(draw);
        proof {
            assert(seq![base_pause(a)] + Seq::new((i + 1) as nat, |k: int| startup_pause(a, k)) =~= (seq![
                base_pause(a),
            ] + Seq::new(i as nat, |k: int| startup_pause(a, k))).push(up));
            assert(Seq::new((i + 1) as nat, |k: int| render_pause(a, k)) =~= Seq::new(
                i as nat,
                |k: int| render_pause(a, k),
            ).push(draw));
        }
        i = i + 1;
    }
    (startup, render)
}

/// The key under which an approach's results are kept.
pub open spec fn vm_key() -> Seq<char> {
    "vm_ui"@
}

pub open spec fn hybrid_key() -> Seq<char> {
    "hybrid_ui"@
}

pub open spec fn pure_key() -> Seq<char> {
    "pure_rust_ui"@
}

spec fn approach_key(a: Approach) -> Seq<char> {
    match a {
        Approach::VmUi => vm_key(),
        Approach::HybridUi => hybrid_key(),
        Approach::PureRustUi => pure_key(),
    }
}

spec fn approach_name(a: Approach) -> Seq<char> {
    match a {
        Approach::VmUi => "VM-based UI"@,
        Approach::HybridUi => "Hybrid UI"@,
        Approach::PureRustUi => "Pure Rust UI"@,
    }
}

/// The memory an approach is estimated to use for each widget, in bytes.
spec fn bytes_per_widget(a: Approach) -> nat {
    match a {
        Approach::VmUi => 1024,
        Approach::HybridUi => 512,
        Approach::PureRustUi => 256,
    }
}

/// The results recorded by one benchmark of approach `a` over `count` widgets.
spec fn recorded(r: BenchmarkResults, a: Approach, count: usize) -> bool {
    &&& r.approach@ == approach_name(a)
    &&& r.widget_count == count
    &&& r.memory_usage == count * bytes_per_widget(a)
}

/// The results of a VM benchmark over `count` widgets.
pub open spec fn vm_results(r: BenchmarkResults, count: usize) -> bool {
    &&& r.approach@ == "VM-based UI"@
    &&& r.widget_count == count
    &&& r.memory_usage == count * 1024
}

/// The results of a hybrid benchmark over `count` widgets.
pub open spec fn hybrid_results(r: BenchmarkResults, count: usize) -> bool {
    &&& r.approach@ == "Hybrid UI"@
    &&& r.widget_count == count
    &&& r.memory_usage == count * 512
}

/// The results of a pure Rust benchmark over `count` widgets.
pub open spec fn pure_results(r: BenchmarkResults, count: usize) -> bool {
    &&& r.approach@ == "Pure Rust UI"@
    &&& r.widget_count == count
    &&& r.memory_usage == count * 256
}

/// The position of the entry with key `k`, or -1.
pub open spec fn find_key(s: Seq<(Seq<char>, BenchmarkResults)>, k: Seq<char>) -> int
    decreases s.len(),
{
    if s.len() == 0 {
        -1
    } else if s.last().0 == k {
        s.len() - 1
    } else {
        find_key(s.drop_last(), k)
    }
}

/// Records `v` under `k`: it replaces the entry with that key, or is added at the end.
pub open spec fn put(s: Seq<(Seq<char>, BenchmarkResults)>, k: Seq<char>, v: BenchmarkResults) -> Seq<
    (Seq<char>, BenchmarkResults),
> {
    let i = find_key(s, k);
    if i >= 0 {
        s.update(i, (k, v))
    } else {
        s.push((k, v))
    }
}

proof fn lemma_find_key_bounds(s: Seq<(Seq<char>, BenchmarkResults)>, k: Seq<char>)
    ensures
        -1 <= find_key(s, k) < s.len(),
        find_key(s, k) >= 0 ==> s[find_key(s, k)].0 == k,
        find_key(s, k) == -1 ==> forall|j: int| 0 <= j < s.len() ==> #[trigger] s[j].0 != k,
    decreases s.len(),
{
    if s.len() > 0 {
        lemma_find_key_bounds(s.drop_last(), k);
        if find_key(s, k) == -1 {
            assert forall|j: int| 0 <= j < s.len() implies #[trigger] s[j].0 != k by {
                if j < s.len() - 1 {
                    assert(s[j] == s.drop_last()[j]);
                }
            }
        }
    }
}

/// The results kept under `k`, if any.
pub open spec fn latest(s: Seq<(Seq<char>, BenchmarkResults)>, k: Seq<char>) -> Option<BenchmarkResults> {
    let i = find_key(s, k);
    if i >= 0 {
        Some(s[i].1)
    } else {
        None
    }
}

/// `d` is what `f` gave for a schedule of pauses `pauses`.
pub open spec fn measured_over<F: Fn(&Vec<u64>) -> Duration>(f: F, pauses: Seq<u64>, d: Duration) -> bool {
    exists|s: Vec<u64>| s@ == pauses && #[trigger] call_ensures(f, (&s,), d)
}

/// The times of a full run for one widget count are what `f` measured over each
/// approach's start-up and drawing pauses.
pub open spec fn full_measured<F: Fn(&Vec<u64>) -> Duration>(f: F, v: Seq<BenchmarkResults>, count: usize) -> bool {
    &&& measured_over(f, startup_pauses(Approach::VmUi, count as nat), v[0].startup_time)
    &&& measured_over(f, render_pauses(Approach::VmUi, count as nat), v[0].render_time)
    &&& measured_over(f, startup_pauses(Approach::HybridUi, count as nat), v[1].startup_time)
    &&& measured_over(f, render_pauses(Approach::HybridUi, count as nat), v[1].render_time)
    &&& measured_over(f, startup_pauses(Approach::PureRustUi, count as nat), v[2].startup_time)
    &&& measured_over(f, render_pauses(Approach::PureRustUi, count as nat), v[2].render_time)
}

/// The results of a full run for one widget count: VM, hybrid and pure Rust, in order.
pub open spec fn full_results(v: Seq<BenchmarkResults>, count: usize) -> bool {
    &&& v.len() == 3
    &&& vm_results(v[0], count)
    &&& hybrid_results(v[1], count)
    &&& pure_results(v[2], count)
}

proof fn lemma_find_key_update(
    s: Seq<(Seq<char>, BenchmarkResults)>,
    i: int,
    e: (Seq<char>, BenchmarkResults),
    k: Seq<char>,
)
    requires
        0 <= i < s.len(),
        s[i].0 == e.0,
    ensures
        find_key(s.update(i, e), k) == find_key(s, k),
    decreases s.len(),
{
    if i == s.len() - 1 {
        assert(s.update(i, e).drop_last() =~= s.drop_last());
    } else {
        assert(s.update(i, e).drop_last() =~= s.drop_last().update(i, e));
        lemma_find_key_update(s.drop_last(), i, e, k);
    }
}

/// After recording `v` under `k`, `k` holds `v` and every other key holds what it held.
pub proof fn law_put_latest(
    s: Seq<(Seq<char>, BenchmarkResults)>,
    k: Seq<char>,
    v: BenchmarkResults,
    k2: Seq<char>,
)
    ensures
        latest(put(s, k, v), k2) == (if k2 == k {
            Some(v)
        } else {
            latest(s, k2)
        }),
{
    lemma_find_key_bounds(s, k);
    lemma_find_key_bounds(s, k2);
    let i = find_key(s, k);
    if i >= 0 {
        lemma_find_key_update(s, i, (k, v), k2);
        lemma_find_key_update(s, i, (k, v), k);
    } else {
        assert(s.push((k, v)).drop_last() =~= s);
    }
}

/// The entries of a benchmark suite, as key and results.
pub open spec fn entries_view(v: Seq<(String, BenchmarkResults)>) -> Seq<(Seq<char>, BenchmarkResults)> {
    v.map_values(|e: (String, BenchmarkResults)| (e.0@, e.1))
}

/// A suite of benchmarks, with the latest results of each approach.
pub struct UIBenchmark {
    results: Vec<(String, BenchmarkResults)>,
}

impl UIBenchmark {
    /// The recorded results, in the order their keys were first recorded.
    pub closed spec fn results_view(&self) -> Seq<(Seq<char>, BenchmarkResults)> {
        entries_view(self.results@)
    }

    pub fn new() -> (r: Self)
        ensures
            r.results_view().len() == 0,
    {
        UIBenchmark { results: Vec::new() }
    }

    /// All results, as key and results.
    pub fn get_results(&self) -> (r: &Vec<(String, BenchmarkResults)>)
        ensures
            entries_view(r@) == self.results_view(),
    {
        &self.results
    }

    /// Records results under a key; returns where they stand.
    fn record(&mut self, key: &str, result: BenchmarkResults) -> (i: usize)
        ensures
            final(self).results_view() == put(old(self).results_view(), key@, result),
            i < final(self).results@.len(),
            final(self).results@[i as int].1 == result,
    {
        let ghost s = self.results_view();
        proof {
            lemma_find_key_bounds(s, key@);
        }
        let mut i = self.results.len();
        assert(s.take(i as int) =~= s);
        while i > 0
            invariant
                i <= self.results@.len(),
                s == self.results_view(),
                s == old(self).results_view(),
                find_key(s, key@) == find_key(s.take(i as int), key@),
            decreases i,
        {
            assert(s.take(i as int).drop_last() =~= s.take(i - 1));
            if str_eq(self.results[i - 1].0.as_str(), key) {
                assert(s[i - 1].0 == key@);
                assert(s.take(i as int).last() == s[i - 1]);
                assert(find_key(s.take(i as int), key@) == i - 1);
                let k = owned(key);
                self.results.set(i - 1, (k, result));
                assert(entries_view(self.results@) =~= s.update(i - 1, (key@, result)));
                return i - 1;
            }
            i = i - 1;
        }
        assert(s.take(0) =~= Seq::<(Seq<char>, BenchmarkResults)>::empty());
        let k = owned(key);
        self.results.push((k, result));
        assert(entries_view(self.results@) =~= s.push((key@, result)));
        self.results.len() - 1
    }

    /// Records the measured times of one approach over `widget_count` widgets, with
    /// its name, widget count and memory estimate.
    fn run_approach(
        &mut self,
        a: Approach,
        widget_count: usize,
        startup: Duration,
        render: Duration,
    ) -> (i: usize)
        requires
            widget_count * bytes_per_widget(a) <= usize::MAX,
        ensures
            final(self).results_view() == put(
                old(self).results_view(),
                approach_key(a),
                final(self).results@[i as int].1,
            ),
            i < final(self).results@.len(),
            recorded(final(self).results@[i as int].1, a, widget_count),
            final(self).results@[i as int].1.startup_time == startup,
            final(self).results@[i as int].1.render_time == render,
    {
        let (name, key, bytes): (&str, &str, usize) = match a {
            Approach::VmUi => ("VM-based UI", "vm_ui", 1024),
            Approach::HybridUi => ("Hybrid UI", "hybrid_ui", 512),
            Approach::PureRustUi => ("Pure Rust UI", "pure_rust_ui", 256),
        };
        proof {
            reveal_strlit("VM-based UI");
            reveal_strlit("vm_ui");
            reveal_strlit("Hybrid UI");
            reveal_strlit("hybrid_ui");
            reveal_strlit("Pure Rust UI");
            reveal_strlit("pure_rust_ui");
        }
        let mut result = BenchmarkResults::new(name);
        result.widget_count = widget_count;
        result.startup_time = startup;
        result.render_time = render;
        result.memory_usage = widget_count * bytes;
        self.record(key, result)
    }

    /// Benchmarks drawing through the VM: a long start-up and a VM call per widget.
    /// `startup` and `render` are the times measured over the pauses of
    /// `pause_schedule(Approach::VmUi, widget_count)`.
    pub fn benchmark_vm_ui(&mut self, widget_count: usize, startup: Duration, render: Duration) -> (r:
        &BenchmarkResults)
        requires
            widget_count * 1024 <= usize::MAX,
        ensures
            final(self).results_view() == put(old(self).results_view(), vm_key(), *r),
            vm_results(*r, widget_count),
            r.startup_time == startup,
            r.render_time == render,
    {
        let i = self.run_approach(Approach::VmUi, widget_count, startup, render);
        &self.results[i].1
    }

    /// Benchmarks the hybrid: every other widget is native, the others go through the VM.
    /// `startup` and `render` are the times measured over the pauses of
    /// `pause_schedule(Approach::HybridUi, widget_count)`.
    pub fn benchmark_hybrid_ui(&mut self, widget_count: usize, startup: Duration, render: Duration) -> (r:
        &BenchmarkResults)
        requires
            widget_count * 512 <= usize::MAX,
        ensures
            final(self).results_view() == put(old(self).results_view(), hybrid_key(), *r),
            hybrid_results(*r, widget_count),
            r.startup_time == startup,
            r.render_time == render,
    {
        let i = self.run_approach(Approach::HybridUi, widget_count, startup, render);
        &self.results[i].1
    }

    /// Benchmarks native widgets alone.
    /// `startup` and `render` are the times measured over the pauses of
    /// `pause_schedule(Approach::PureRustUi, widget_count)`.
    pub fn benchmark_pure_rust_ui(&mut self, widget_count: usize, startup: Duration, render: Duration) -> (r:
        &BenchmarkResults)
        requires
            widget_count * 256 <= usize::MAX,
        ensures
            final(self).results_view() == put(old(self).results_view(), pure_key(), *r),
            pure_results(*r, widget_count),
            r.startup_time == startup,
            r.render_time == render,
    {
        let i = self.run_approach(Approach::PureRustUi, widget_count, startup, render);
        &self.results[i].1
    }

    /// Runs the three benchmarks for each widget count in turn, measuring each phase
    /// with `measure` over the pauses of `pause_schedule`. The results of each count
    /// are returned under it, in the order VM, hybrid, pure Rust.
    pub fn run_full_benchmark<F: Fn(&Vec<u64>) -> Duration>(
        &mut self,
        widget_counts: Vec<usize>,
        measure: &F,
    ) -> (r: HashMap<usize, Vec<BenchmarkResults>>)
        requires
            forall|i: int| 0 <= i < widget_counts@.len() ==> #[trigger] widget_counts@[i] * 1024 <= usize::MAX,
            forall|s: &Vec<u64>| call_requires(*measure, (s,)),
        ensures
            forall|c: usize| r@.contains_key(c) <==> widget_counts@.contains(c),
            forall|c: usize| #[trigger] r@.contains_key(c) ==> full_results(r@[c]@, c),
            forall|c: usize| #[trigger] r@.contains_key(c) ==> full_measured(*measure, r@[c]@, c),
            widget_counts@.len() > 0 ==> {
                let c = widget_counts@.last();
                &&& latest(final(self).results_view(), vm_key()) matches Some(x) && vm_results(x, c)
                &&& latest(final(self).results_view(), hybrid_key()) matches Some(x) && hybrid_results(x, c)
                &&& latest(final(self).results_view(), pure_key()) matches Some(x) && pure_results(x, c)
            },
            forall|k: Seq<char>|
                k != vm_key() && k != hybrid_key() && k != pure_key() ==> #[trigger] latest(
                    final(self).results_view(),
                    k,
                ) == latest(old(self).results_view(), k),
    {
        broadcast use vstd::std_specs::hash::group_hash_axioms;
        let mut all_results: HashMap<usize, Vec<BenchmarkResults>> = HashMap::new();
        let mut i: usize = 0;
        while i < widget_counts.len()
            invariant
                i <= widget_counts@.len(),
                forall|j: int| 0 <= j < widget_counts@.len() ==> #[trigger] widget_counts@[j] * 1024 <= usize::MAX,
                forall|s: &Vec<u64>| call_requires(*measure, (s,)),
                forall|c: usize| all_results@.contains_key(c) <==> widget_counts@.take(i as int).contains(c),
                forall|c: usize| #[trigger] all_results@.contains_key(c) ==> full_results(all_results@[c]@, c),
                forall|c: usize| #[trigger] all_results@.contains_key(c) ==> full_measured(*measure, all_results@[c]@, c),
                i > 0 ==> {
                    let c = widget_counts@[i - 1];
                    &&& latest(self.results_view(), vm_key()) matches Some(x) && vm_results(x, c)
                    &&& latest(self.results_view(), hybrid_key()) matches Some(x) && hybrid_results(x, c)
                    &&& latest(self.results_view(), pure_key()) matches Some(x) && pure_results(x, c)
                },
                forall|k: Seq<char>|
                    k != vm_key() && k != hybrid_key() && k != pure_key() ==> #[trigger] latest(
                        self.results_view(),
                        k,
                    ) == latest(old(self).results_view(), k),
            decreases widget_counts@.len() - i,
        {
            let count = widget_counts[i];
            assert(count * 1024 <= usize::MAX);
            let ghost s0 = self.results_view();
            let mut results: Vec<BenchmarkResults> = Vec::new();
            let (vs, vr) = pause_schedule(Approach::VmUi, count);
            let vs_time = measure(&vs);
            let vr_time = measure(&vr);
            let (hs, hr) = pause_schedule(Approach::HybridUi, count);
            let hs_time = measure(&hs);
            let hr_time = measure(&hr);
            let (ps, pr) = pause_schedule(Approach::PureRustUi, count);
            let ps_time = measure(&ps);
            let pr_time = measure(&pr);
            proof {
                assert(measured_over(*measure, startup_pauses(Approach::VmUi, count as nat), vs_time)) by {
                    assert(call_ensures(*measure, (&vs,), vs_time));
                }
                assert(measured_over(*measure, render_pauses(Approach::VmUi, count as nat), vr_time)) by {
                    assert(call_ensures(*measure, (&vr,), vr_time));
                }
                assert(measured_over(*measure, startup_pauses(Approach::HybridUi, count as nat), hs_time)) by {
                    assert(call_ensures(*measure, (&hs,), hs_time));
                }
                assert(measured_over(*measure, render_pauses(Approach::HybridUi, count as nat), hr_time)) by {
                    assert(call_ensures(*measure, (&hr,), hr_time));
                }
                assert(measured_over(*measure, startup_pauses(Approach::PureRustUi, count as nat), ps_time)) by {
                    assert(call_ensures(*measure, (&ps,), ps_time));
                }
                assert(measured_over(*measure, render_pauses(Approach::PureRustUi, count as nat), pr_time)) by {
                    assert(call_ensures(*measure, (&pr,), pr_time));
                }
            }
            let ra = self.benchmark_vm_ui(count, vs_time, vr_time);
            let ghost va = *ra;
            let a = ra.duplicate();
            let ghost s1 = self.results_view();
            results.push(a);
            let rb = self.benchmark_hybrid_ui(count, hs_time, hr_time);
            let ghost vb = *rb;
            let b = rb.duplicate();
            let ghost s2 = self.results_view();
            results.push(b);
            let rc = self.benchmark_pure_rust_ui(count, ps_time, pr_time);
            let ghost vc = *rc;
            let c = rc.duplicate();
            results.push(c);
            proof {
                reveal_strlit("vm_ui");
                reveal_strlit("hybrid_ui");
                reveal_strlit("pure_rust_ui");
                assert(vm_key()[0] != hybrid_key()[0]);
                assert(vm_key()[0] != pure_key()[0]);
                assert(hybrid_key() != pure_key());
                law_put_latest(s0, vm_key(), va, vm_key());
                law_put_latest(s1, hybrid_key(), vb, vm_key());
                law_put_latest(s1, hybrid_key(), vb, hybrid_key());
                law_put_latest(s2, pure_key(), vc, vm_key());
                law_put_latest(s2, pure_key(), vc, hybrid_key());
                law_put_latest(s2, pure_key(), vc, pure_key());
                assert forall|k: Seq<char>|
                    k != vm_key() && k != hybrid_key() && k != pure_key() implies #[trigger] latest(
                        self.results_view(),
                        k,
                    ) == latest(old(self).results_view(), k) by {
                    law_put_latest(s0, vm_key(), va, k);
                    law_put_latest(s1, hybrid_key(), vb, k);
                    law_put_latest(s2, pure_key(), vc, k);
                }
                assert(full_results(results@, count));
                assert(full_measured(*measure, results@, count));
            }
            let ghost before = all_results@;
            all_results.insert(count, results);
            proof {
                let t = widget_counts@.take(i as int);
                assert(widget_counts@.take(i + 1) =~= t.push(count));
                assert forall|c: usize| all_results@.contains_key(c) <==> widget_counts@.take(i + 1).contains(c) by {
                    if t.contains(c) {
                        let j = choose|j: int| 0 <= j < t.len() && t[j] == c;
                        assert(t.push(count)[j] == c);
                    }
                    if c == count {
                        assert(t.push(count)[t.len() as int] == c);
                    }
                    if t.push(count).contains(c) && c != count {
                        let j = choose|j: int| 0 <= j < t.len() + 1 && t.push(count)[j] == c;
                        assert(t[j] == c);
                    }
                }
            }
            i = i + 1;
        }
        assert(widget_counts@.take(i as int) =~= widget_counts@);
        all_results
    }
}

} // verus!
