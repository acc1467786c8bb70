//! The stereo processor: two independent channel chains, driven
//! sample-synchronously by the same per-sample control signals.
//!
//! The channels share no state; left and right are each a full
//! `MultibandEngine`, and a frame is processed sample by sample.

use crate::engine::{
    band_init, engine_config_err_from, engine_config_ok, engine_next_seq, engine_out_seq,
    mode_from_signal, mode_of, Band, MultibandEngine, BAND_COUNT,
};
use crate::fixed::FX_MAX;
use crate::ConfigError;
use vstd::prelude::*;

verus! {

/// The band states of one channel after the first `k` samples of a frame.
pub open spec fn chain_after(
    bs: Seq<Band>,
    ins: Seq<i64>,
    modes: Seq<i64>,
    gains: Seq<i64>,
    k: int,
) -> Seq<Band>
    decreases k,
{
    if k <= 0 {
        bs
    } else {
        engine_next_seq(
            chain_after(bs, ins, modes, gains, k - 1),
            ins[k - 1] as int,
            mode_of(modes[k - 1] as int),
            gains[k - 1] as int,
        )
    }
}

/// The output sample a channel produces at frame position `k`, given the
/// band states it entered the frame with.
pub open spec fn chain_out(
    bs: Seq<Band>,
    ins: Seq<i64>,
    modes: Seq<i64>,
    gains: Seq<i64>,
    out_gains: Seq<i64>,
    k: int,
) -> int {
    engine_out_seq(
        chain_after(bs, ins, modes, gains, k),
        ins[k] as int,
        mode_of(modes[k] as int),
        gains[k] as int,
        out_gains[k] as int,
    )
}

/// Two independent channel chains.
#[derive(Debug)]
pub struct StereoProcessor {
    pub left: MultibandEngine,
    pub right: MultibandEngine,
}

impl StereoProcessor {
    /// Both channels are well-formed.
    pub open spec fn wf(&self) -> bool {
        &&& self.left.wf()
        &&& self.right.wf()
    }

    /// Builds both channels identically for the given sample rate
    /// (Q31.32 Hz).
    pub fn new(sample_rate: i64) -> (r: Result<StereoProcessor, ConfigError>)
        ensures
            r is Ok <==> engine_config_ok(sample_rate as int),
            r matches Ok(p) ==> {
                &&& p.wf()
                &&& forall|i: int|
                    0 <= i < BAND_COUNT ==> p.left.bands@[i] == #[trigger] band_init(
                        sample_rate as int,
                        i,
                    ) && p.right.bands@[i] == band_init(sample_rate as int, i)
            },
            r matches Err(e) ==> e == engine_config_err_from(sample_rate as int, 0),
    {
        let left = match MultibandEngine::new(sample_rate) {
            Ok(e) => e,
            Err(e) => {
                return Err(e);
            },
        };
        let right = match MultibandEngine::new(sample_rate) {
            Ok(e) => e,
            Err(e) => {
                return Err(e);
            },
        };
        Ok(StereoProcessor { left, right })
    }

    /// Processes one frame: per-sample input, mode, input-gain and
    /// output-gain signals, all already resolved to plain values by the
    /// caller. Returns the left and right output frames; the contract pins
    /// every output sample and the final state of both channels exactly.
    pub fn process(
        &mut self,
        in_l: &Vec<i64>,
        in_r: &Vec<i64>,
        modes: &Vec<i64>,
        gains: &Vec<i64>,
        out_gains: &Vec<i64>,
    ) -> (out: (Vec<i64>, Vec<i64>))
        requires
            old(self).wf(),
            in_r@.len() == in_l@.len(),
            modes@.len() == in_l@.len(),
            gains@.len() == in_l@.len(),
            out_gains@.len() == in_l@.len(),
        ensures
            final(self).wf(),
            out.0@.len() == in_l@.len(),
            out.1@.len() == in_l@.len(),
            forall|k: int|
                0 <= k < in_l@.len() ==> -FX_MAX <= #[trigger] out.0@[k] <= FX_MAX && -FX_MAX
                    <= #[trigger] out.1@[k] <= FX_MAX,
            forall|k: int|
                0 <= k < in_l@.len() ==> out.0@[k] as int == chain_out(
                    old(self).left.bands@,
                    in_l@,
                    modes@,
                    gains@,
                    out_gains@,
                    k,
                ),
            forall|k: int|
                0 <= k < in_l@.len() ==> out.1@[k] as int == chain_out(
                    old(self).right.bands@,
                    in_r@,
                    modes@,
                    gains@,
                    out_gains@,
                    k,
                ),
            final(self).left.bands@ == chain_after(
                old(self).left.bands@,
                in_l@,
                modes@,
                gains@,
                in_l@.len() as int,
            ),
            final(self).right.bands@ == chain_after(
                old(self).right.bands@,
                in_r@,
                modes@,
                gains@,
                in_l@.len() as int,
            ),
    {
        let ghost lbs0 = self.left.bands@;
        let ghost rbs0 = self.right.bands@;
        let n = in_l.len();
        let mut out_l: Vec<i64> = Vec::new();
        let mut out_r: Vec<i64> = Vec::new();
        let mut k: usize = 0;
        while k < n
            invariant
                k <= n,
                n == in_l@.len(),
                in_r@.len() == n,
                modes@.len() == n,
                gains@.len() == n,
                out_gains@.len() == n,
                self.left.wf(),
                self.right.wf(),
                out_l@.len() == k,
                out_r@.len() == k,
                forall|j: int|
                    0 <= j < k ==> -FX_MAX <= #[trigger] out_l@[j] <= FX_MAX && -FX_MAX
                        <= #[trigger] out_r@[j] <= FX_MAX,
                self.left.bands@ == chain_after(lbs0, in_l@, modes@, gains@, k as int),
                self.right.bands@ == chain_after(rbs0, in_r@, modes@, gains@, k as int),
                forall|j: int|
                    0 <= j < k ==> out_l@[j] as int == chain_out(
                        lbs0,
                        in_l@,
                        modes@,
                        gains@,
                        out_gains@,
                        j,
                    ),
                forall|j: int|
                    0 <= j < k ==> out_r@[j] as int == chain_out(
                        rbs0,
                        in_r@,
                        modes@,
                        gains@,
                        out_gains@,
                        j,
                    ),
            decreases n - k,
        {
            let mode = mode_from_signal(modes[k]);
            let l = self.left.process_sample(in_l[k], mode, gains[k], out_gains[k]);
            let r = self.right.process_sample(in_r[k], mode, gains[k], out_gains[k]);
            out_l.push(l);
            out_r.push(r);
            k = k + 1;
        }
        (out_l, out_r)
    }
}

} // verus!
