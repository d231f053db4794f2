use vstd::prelude::*;

use crate::color::Rgba;

verus! {

/// Per-channel light contribution, already truncated to whole colour units.
#[derive(Debug, Clone, Copy, PartialEq, Eq, Structural)]
pub struct ColorTerm {
    pub r: u64,
    pub g: u64,
    pub b: u64,
}

/// What one light adds at a surface point: its diffuse and specular terms,
/// and whether a shadow ray toward it was blocked. A blocked light adds
/// nothing.
#[derive(Debug, Clone, Copy, PartialEq, Eq, Structural)]
pub struct LightSample {
    pub occluded: bool,
    pub diffuse: ColorTerm,
    pub specular: ColorTerm,
}

/// Channel 0 is red, 1 green, 2 blue.
pub open spec fn term_channel(t: ColorTerm, ch: int) -> nat {
    if ch == 0 {
        t.r as nat
    } else if ch == 1 {
        t.g as nat
    } else {
        t.b as nat
    }
}

pub open spec fn color_channel(c: Rgba, ch: int) -> nat {
    if ch == 0 {
        c.r as nat
    } else if ch == 1 {
        c.g as nat
    } else {
        c.b as nat
    }
}

/// What one light adds to a channel: diffuse plus specular, or nothing when
/// the light is blocked.
pub open spec fn sample_channel(s: LightSample, ch: int) -> nat {
    if s.occluded {
        0
    } else {
        term_channel(s.diffuse, ch) + term_channel(s.specular, ch)
    }
}

/// Sum over all lights of what they add to a channel.
pub open spec fn lit_sum(samples: Seq<LightSample>, ch: int) -> nat
    decreases samples.len(),
{
    if samples.len() == 0 {
        0
    } else {
        lit_sum(samples.drop_last(), ch) + sample_channel(samples.last(), ch)
    }
}

/// Final value of a channel: a third of ambient plus all light terms,
/// clamped to 255.
pub open spec fn shaded_channel(ambient: nat, lit: nat) -> nat {
    let v = (ambient + lit) / 3;
    if v > 255 {
        255
    } else {
        v
    }
}

/// The shaded colour at a surface point with the given ambient colour.
pub open spec fn shaded(ambient: Rgba, samples: Seq<LightSample>) -> Rgba {
    Rgba {
        r: shaded_channel(ambient.r as nat, lit_sum(samples, 0)) as u8,
        g: shaded_channel(ambient.g as nat, lit_sum(samples, 1)) as u8,
        b: shaded_channel(ambient.b as nat, lit_sum(samples, 2)) as u8,
        a: 255,
    }
}

/// A running sum at or above this value already shades to 255.
pub const SATURATION: u64 = 765;

/// `acc + x`, held at `SATURATION` once it gets there.
fn add_saturating(acc: u64, x: u64) -> (r: u64)
    requires
        acc <= SATURATION,
    ensures
        r == if acc + x >= SATURATION {
            SATURATION as int
        } else {
            acc + x
        },
{
    if x >= SATURATION - acc {
        SATURATION
    } else {
        acc + x
    }
}

/// A third of a running sum, clamped to 255.
fn finish_channel(acc: u64) -> (r: u8)
    requires
        acc <= SATURATION,
    ensures
        r == shaded_channel(acc as nat, 0),
{
    (acc / 3) as u8
}

proof fn lemma_saturated_shade(ambient: nat, lit: nat, acc: nat)
    requires
        acc == if ambient + lit >= SATURATION {
            SATURATION as nat
        } else {
            ambient + lit
        },
    ensures
        shaded_channel(acc, 0) == shaded_channel(ambient, lit),
{
}

/// Combine the ambient colour with the terms of every light: each colour
/// channel is a third of ambient plus all unblocked diffuse and specular
/// terms, clamped to 255; alpha is opaque.
pub fn shade(ambient: Rgba, samples: &Vec<LightSample>) -> (c: Rgba)
    ensures
        c == shaded(ambient, samples@),
{
    let mut acc_r: u64 = ambient.r as u64;
    let mut acc_g: u64 = ambient.g as u64;
    let mut acc_b: u64 = ambient.b as u64;
    let mut k: usize = 0;
    while k < samples.len()
        invariant
            k <= samples@.len(),
            acc_r == if ambient.r + lit_sum(samples@.take(k as int), 0) >= SATURATION {
                SATURATION as int
            } else {
                ambient.r + lit_sum(samples@.take(k as int), 0)
            },
            acc_g == if ambient.g + lit_sum(samples@.take(k as int), 1) >= SATURATION {
                SATURATION as int
            } else {
                ambient.g + lit_sum(samples@.take(k as int), 1)
            },
            acc_b == if ambient.b + lit_sum(samples@.take(k as int), 2) >= SATURATION {
                SATURATION as int
            } else {
                ambient.b + lit_sum(samples@.take(k as int), 2)
            },
        decreases samples@.len() - k,
    {
        let s = samples[k];
        proof {
            assert(samples@.take(k + 1).drop_last() =~= samples@.take(k as int));
            assert(samples@.take(k + 1).last() == s);
        }
        if !s.occluded {
            acc_r = add_saturating(add_saturating(acc_r, s.diffuse.r), s.specular.r);
            acc_g = add_saturating(add_saturating(acc_g, s.diffuse.g), s.specular.g);
            acc_b = add_saturating(add_saturating(acc_b, s.diffuse.b), s.specular.b);
        }
        k += 1;
    }
    proof {
        assert(samples@.take(samples@.len() as int) =~= samples@);
        lemma_saturated_shade(ambient.r as nat, lit_sum(samples@, 0), acc_r as nat);
        lemma_saturated_shade(ambient.g as nat, lit_sum(samples@, 1), acc_g as nat);
        lemma_saturated_shade(ambient.b as nat, lit_sum(samples@, 2), acc_b as nat);
    }
    Rgba { r: finish_channel(acc_r), g: finish_channel(acc_g), b: finish_channel(acc_b), a: 255 }
}

/// One more light changes each channel's light sum by exactly its own terms,
/// and a light whose shadow ray is blocked leaves the shaded colour as it was.
pub proof fn lemma_light_visibility(samples: Seq<LightSample>, s: LightSample, ambient: Rgba)
    ensures
        forall|ch: int|
            lit_sum(#[trigger] samples.push(s), ch) == lit_sum(samples, ch) + sample_channel(s, ch),
        s.occluded ==> shaded(ambient, samples.push(s)) == shaded(ambient, samples),
        !s.occluded ==> forall|ch: int|
            lit_sum(#[trigger] samples.push(s), ch) == lit_sum(samples, ch) + term_channel(
                s.diffuse,
                ch,
            ) + term_channel(s.specular, ch),
{
    assert(samples.push(s).drop_last() =~= samples);
}

} // verus!
