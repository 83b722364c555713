//! Elapsed / ETA formatting shared by Frames, Cameras, and Train stats.

use vstd::prelude::*;

use crate::text::{dec_str, dec_str2, push_dec, push_dec2, push_str, string_from};

verus! {

/// Live-stats rendering of a duration: `Ns` under a minute, `Mm SSs` up to
/// 90 minutes, `Hh MMm` from 90 minutes on.
pub open spec fn duration_text(secs: nat) -> Seq<char> {
    if secs >= 90 * 60 {
        dec_str(secs / 3600) + "h "@ + dec_str2((secs % 3600) / 60) + "m"@
    } else if secs >= 60 {
        dec_str(secs / 60) + "m "@ + dec_str2(secs % 60) + "s"@
    } else {
        dec_str(secs) + "s"@
    }
}

/// `a * b`, capped at `u64::MAX`.
pub open spec fn sat_mul_u64(a: nat, b: nat) -> nat {
    if a * b > u64::MAX {
        u64::MAX as nat
    } else {
        a * b
    }
}

/// Linear ETA: remaining work at the observed rate, `None` without progress
/// or once everything is done.
pub open spec fn eta_value(elapsed: u64, done: u32, total: u32) -> Option<u64> {
    if done == 0 || total == 0 || done >= total {
        None
    } else {
        Some((sat_mul_u64(elapsed as nat, (total - done) as nat) / (done as nat)) as u64)
    }
}

pub fn push_duration(out: &mut Vec<char>, secs: u64)
    ensures
        final(out)@ == old(out)@ + duration_text(secs as nat),
{
    if secs >= 90 * 60 {
        push_dec(out, secs / 3600);
        push_str(out, "h ");
        push_dec2(out, (secs % 3600) / 60);
        push_str(out, "m");
    } else if secs >= 60 {
        push_dec(out, secs / 60);
        push_str(out, "m ");
        push_dec2(out, secs % 60);
        push_str(out, "s");
    } else {
        push_dec(out, secs);
        push_str(out, "s");
    }
}

/// Formats a duration for live stats. Uses hours once the span is over 90 minutes.
pub fn format_duration(secs: u64) -> (r: String)
    ensures
        r@ == duration_text(secs as nat),
{
    let mut out: Vec<char> = Vec::new();
    push_duration(&mut out, secs);
    string_from(&out)
}

/// Linear ETA from work already done. `None` until something has finished.
pub fn eta_secs(elapsed: u64, done: u32, total: u32) -> (r: Option<u64>)
    ensures
        r == eta_value(elapsed, done, total),
{
    if done == 0 || total == 0 || done >= total {
        return None;
    }
    let rem: u64 = (total - done) as u64;
    let prod: u64 = match elapsed.checked_mul(rem) {
        Some(p) => p,
        None => u64::MAX,
    };
    Some(prod / (done as u64))
}

/// An ETA is only ever reported while work is in progress, and it never
/// exceeds the elapsed time scaled by the remaining-to-done ratio.
pub proof fn law_eta_needs_progress(elapsed: u64, done: u32, total: u32)
    ensures
        eta_value(elapsed, done, total) is Some <==> (0 < done < total),
        eta_value(elapsed, done, total) matches Some(e) ==> e as nat * (done as nat) <= elapsed
            as nat * ((total - done) as nat),
{
    if 0 < done < total {
        let p = sat_mul_u64(elapsed as nat, (total - done) as nat);
        let q = p / (done as nat);
        assert(q * (done as nat) <= p) by (nonlinear_arith)
            requires
                q == p / (done as nat),
                done > 0,
        ;
    }
}

} // verus!
