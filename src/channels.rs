use vstd::prelude::*;

use crate::frame::Frame;

verus! {

/// Why decoded audio cannot become frames.
#[derive(Clone, Copy, Debug, PartialEq, Eq, Structural)]
pub enum DecodeError {
    /// Only mono and stereo audio can be played; this many channels came.
    UnsupportedNumberOfChannels(usize),
}

/// The frames of decoded channel planes: a mono plane is duplicated to both
/// channels, two planes are paired sample by sample (as far as the shorter
/// one goes), and any other number of planes is refused.
pub open spec fn frames_of(planes: Seq<Seq<i32>>) -> Result<Seq<Frame>, DecodeError> {
    if planes.len() == 1 {
        Ok(planes[0].map_values(|v: i32| Frame { left: v, right: v }))
    } else if planes.len() == 2 {
        let n = if planes[0].len() <= planes[1].len() {
            planes[0].len()
        } else {
            planes[1].len()
        };
        Ok(Seq::new(n, |i: int| Frame { left: planes[0][i], right: planes[1][i] }))
    } else {
        Err(DecodeError::UnsupportedNumberOfChannels(planes.len() as usize))
    }
}

/// The frames of decoded channel planes, one plane per channel.
pub fn frames_from_channels(planes: &Vec<Vec<i32>>) -> (r: Result<Vec<Frame>, DecodeError>)
    ensures
        match (r, frames_of(planes@.map_values(|p: Vec<i32>| p@))) {
            (Ok(v), Ok(s)) => v@ == s,
            (Err(e), Err(f)) => e == f,
            _ => false,
        },
{
    let ghost views = planes@.map_values(|p: Vec<i32>| p@);
    let count = planes.len();
    if count == 1 {
        let mono = &planes[0];
        let mut out: Vec<Frame> = Vec::with_capacity(mono.len());
        let mut i: usize = 0;
        while i < mono.len()
            invariant
                i <= mono@.len(),
                mono@ == views[0],
                out@ == views[0].take(i as int).map_values(|v: i32| Frame { left: v, right: v }),
            decreases mono@.len() - i,
        {
            out.push(Frame::from_mono(mono[i]));
            proof {
                assert(views[0].take(i + 1) =~= views[0].take(i as int).push(mono@[i as int]));
            }
            i = i + 1;
        }
        proof {
            assert(views[0].take(mono@.len() as int) =~= views[0]);
        }
        Ok(out)
    } else if count == 2 {
        let left = &planes[0];
        let right = &planes[1];
        let n = if left.len() <= right.len() {
            left.len()
        } else {
            right.len()
        };
        let mut out: Vec<Frame> = Vec::with_capacity(n);
        let mut i: usize = 0;
        while i < n
            invariant
                i <= n,
                n <= left@.len(),
                n <= right@.len(),
                left@ == views[0],
                right@ == views[1],
                out@ == Seq::new(i as nat, |k: int| Frame { left: views[0][k], right: views[1][k] }),
            decreases n - i,
        {
            out.push(Frame::new(left[i], right[i]));
            proof {
                assert(out@ =~= Seq::new(
                    (i + 1) as nat,
                    |k: int| Frame { left: views[0][k], right: views[1][k] },
                ));
            }
            i = i + 1;
        }
        Ok(out)
    } else {
        Err(DecodeError::UnsupportedNumberOfChannels(count))
    }
}

} // verus!
