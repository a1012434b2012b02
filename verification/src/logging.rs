use vstd::prelude::*;

use crate::paths::{join_text, path_join};
use crate::text::{
    decimal, has_prefix, has_suffix, is_digit, lemma_decimal_digits, parse_digits,
    parse_unsigned, parse_unsigned_chars, push_decimal, push_str, starts_with, ends_with,
    string_from_chars, subrange, to_chars,
};

verus! {

/// Where this instance logs.
#[derive(Debug, Clone)]
pub struct LogPaths {
    pub state_dir: String,
    pub application: String,
    pub ffmpeg: String,
    pub gstreamer: String,
    pub verbose: bool,
}

/// The file name of the GStreamer trace of process `pid`.
pub open spec fn trace_name(pid: u32) -> Seq<char> {
    "gstreamer-"@ + decimal(pid as nat) + ".log"@
}

/// GStreamer truncates `GST_DEBUG_FILE` on open, so each instance gets its
/// own trace, named after its process id.
pub fn trace_path(dir: &str, pid: u32) -> (r: String)
    ensures
        r@ == join_text(dir@, trace_name(pid)),
{
    let mut v: Vec<char> = Vec::new();
    push_str(&mut v, "gstreamer-");
    push_decimal(&mut v, pid as u64);
    push_str(&mut v, ".log");
    let name = string_from_chars(v.as_slice());
    path_join(dir, name.as_str())
}

/// The GStreamer debug setting: element factory creation always (one line
/// per element, enough to see the playback decoder); more in verbose mode.
pub open spec fn gst_debug_text(verbose: bool) -> Seq<char> {
    if verbose {
        "2,webkit*:4,va*:4,dmabuf*:4,GST_ELEMENT_FACTORY:4"@
    } else {
        "GST_ELEMENT_FACTORY:4"@
    }
}

pub fn gst_debug(verbose: bool) -> (r: &'static str)
    ensures
        r@ == gst_debug_text(verbose),
{
    if verbose {
        "2,webkit*:4,va*:4,dmabuf*:4,GST_ELEMENT_FACTORY:4"
    } else {
        "GST_ELEMENT_FACTORY:4"
    }
}

/// The process id in a trace file name `gstreamer-<pid>.log`.
pub open spec fn trace_pid_of(name: Seq<char>) -> Option<nat> {
    if has_prefix(name, "gstreamer-"@) && has_suffix(name.skip("gstreamer-"@.len() as int), ".log"@) {
        let rest = name.skip("gstreamer-"@.len() as int);
        parse_unsigned(rest.take(rest.len() - ".log"@.len()), u32::MAX as nat)
    } else {
        None
    }
}

pub fn trace_pid(name: &str) -> (r: Option<u32>)
    ensures
        match r {
            Some(p) => trace_pid_of(name@) == Some(p as nat),
            None => trace_pid_of(name@) is None,
        },
{
    let n = to_chars(name);
    let prefix = to_chars("gstreamer-");
    let suffix = to_chars(".log");
    if !starts_with(n.as_slice(), prefix.as_slice()) {
        return None;
    }
    let rest = subrange(n.as_slice(), prefix.len(), n.len());
    assert(rest@ == n@.skip("gstreamer-"@.len() as int));
    if !ends_with(rest.as_slice(), suffix.as_slice()) {
        return None;
    }
    let digits = subrange(rest.as_slice(), 0, rest.len() - suffix.len());
    assert(digits@ == rest@.take(rest@.len() - ".log"@.len()));
    match parse_unsigned_chars(digits.as_slice(), u32::MAX as u64) {
        Some(p) => Some(p as u32),
        None => None,
    }
}

/// Whether the startup sweep removes the state-directory entry `name`: it
/// is the trace of a process that does not run any more.
pub open spec fn is_stale_trace(name: Seq<char>, running: Seq<u32>) -> bool {
    match trace_pid_of(name) {
        Some(p) => !running.contains(p as u32),
        None => false,
    }
}

/// The entries among `names` that the sweep removes, in order.
pub open spec fn stale_traces_of(names: Seq<Seq<char>>, running: Seq<u32>) -> Seq<Seq<char>>
    decreases names.len(),
{
    if names.len() == 0 {
        Seq::empty()
    } else if is_stale_trace(names.last(), running) {
        stale_traces_of(names.drop_last(), running).push(names.last())
    } else {
        stale_traces_of(names.drop_last(), running)
    }
}

fn holds(v: &Vec<u32>, x: u32) -> (r: bool)
    ensures
        r == v@.contains(x),
{
    let mut i: usize = 0;
    while i < v.len()
        invariant
            i <= v@.len(),
            forall|j: int| 0 <= j < i ==> v@[j] != x,
        decreases v@.len() - i,
    {
        if v[i] == x {
            assert(v@[i as int] == x);
            return true;
        }
        i = i + 1;
    }
    false
}

/// The sweep removes exactly the traces of processes that do not run: an
/// entry goes iff it is one of `names` and names the trace of a process not
/// among `running`; the trace of process `p` goes iff `p` does not run.
pub proof fn sweep_removes_dead_traces(names: Seq<Seq<char>>, running: Seq<u32>, x: Seq<char>, p: u32)
    ensures
        stale_traces_of(names, running).contains(x) <==> names.contains(x) && is_stale_trace(x, running),
        is_stale_trace(trace_name(p), running) <==> !running.contains(p),
    decreases names.len(),
{
    trace_name_round_trip(p);
    if names.len() > 0 {
        let init = names.drop_last();
        sweep_removes_dead_traces(init, running, x, p);
        assert(names =~= init.push(names.last()));
        if names.contains(x) && !init.contains(x) {
            let k = choose|k: int| 0 <= k < names.len() && names[k] == x;
            if k < init.len() {
                assert(init[k] == x);
            }
        }
        if init.contains(x) {
            let k = choose|k: int| 0 <= k < init.len() && init[k] == x;
            assert(names[k] == x);
        }
        let r0 = stale_traces_of(init, running);
        if is_stale_trace(names.last(), running) {
            assert(stale_traces_of(names, running) == r0.push(names.last()));
            if r0.push(names.last()).contains(x) && x != names.last() {
                let k = choose|k: int| 0 <= k < r0.push(names.last()).len() && r0.push(names.last())[k] == x;
                assert(r0[k] == x);
            }
            if r0.contains(x) {
                let k = choose|k: int| 0 <= k < r0.len() && r0[k] == x;
                assert(r0.push(names.last())[k] == x);
            }
            assert(r0.push(names.last())[r0.len() as int] == names.last());
        }
        assert(names[names.len() - 1] == names.last());
    }
}

/// The traces of processes that do not run any more, among the entries
/// `names` of the state directory, given the ids of the running processes;
/// other files, and traces of running processes, stay.
pub fn stale_traces(names: &Vec<String>, running: &Vec<u32>) -> (r: Vec<String>)
    ensures
        r@.map_values(|s: String| s@) == stale_traces_of(names@.map_values(|s: String| s@), running@),
{
    let ghost nv = names@.map_values(|s: String| s@);
    let mut out: Vec<String> = Vec::new();
    let mut i: usize = 0;
    while i < names.len()
        invariant
            i <= names@.len(),
            nv == names@.map_values(|s: String| s@),
            out@.map_values(|s: String| s@) == stale_traces_of(nv.take(i as int), running@),
        decreases names@.len() - i,
    {
        let ghost before = out@.map_values(|s: String| s@);
        assert(nv.take(i + 1).drop_last() =~= nv.take(i as int));
        assert(nv.take(i + 1).last() == names@[i as int]@);
        let stale = match trace_pid(names[i].as_str()) {
            Some(p) => !holds(running, p),
            None => false,
        };
        if stale {
            out.push(names[i].clone());
            assert(out@.map_values(|s: String| s@) =~= before.push(nv[i as int]));
        }
        i = i + 1;
    }
    assert(nv.take(names@.len() as int) =~= nv);
    out
}

/// The trace of a process is recognised as that process's: reading the pid
/// back from the trace's file name gives the pid it was named after.
pub proof fn trace_name_round_trip(pid: u32)
    ensures
        trace_pid_of(trace_name(pid)) == Some(pid as nat),
{
    let p = "gstreamer-"@;
    let sfx = ".log"@;
    let d = decimal(pid as nat);
    let name = trace_name(pid);
    lemma_decimal_digits(pid as nat);
    assert(name == p + d + sfx);
    assert(name.take(p.len() as int) =~= p);
    let rest = name.skip(p.len() as int);
    assert(rest =~= d + sfx);
    assert(rest.skip(rest.len() - sfx.len()) =~= sfx);
    assert(rest.take(rest.len() - sfx.len()) =~= d);
    assert(is_digit(d[0]));
    assert(parse_digits(d) == Some(pid as nat));
}

} // verus!
