//! Pointwise kernels that check every range they are handed.

use crate::arith::{greater, lesser};
use crate::buffer::{CudaSlice, Elem, FloatBits, Fp32};
use crate::device::{int_fits, ints_fit};
use crate::device::moving::{concatenates, copies, runs_are_copied, two_runs_lie_end_to_end};
use crate::device::pointwise::{
    adds_gated, every_id_gets_all_of_its_packed_row, every_row_is_added_through_the_gates,
    looks_up_packed, masks, the_mask_is_met_from_its_offset, updates_weights,
    weights_are_replaced_and_summed,
};
use crate::error::CudaError;
use crate::launch::{flat_cfg, LaunchConfig, BLOCK};
use crate::names::Kernel;
use crate::quant::Quant;
use crate::queue::{launch, made, made_in, num, ptr, uninit, Arg, Cmd, Gpu};
use vstd::math::{max, min};
use vstd::prelude::*;

verus! {

/// A copy between ranges.
pub open spec fn copy_from_into_cmd(
    dst: &CudaSlice<Fp32>,
    doff: usize,
    src: &CudaSlice<Fp32>,
    soff: usize,
    n: usize,
) -> Cmd {
    launch(
        Kernel::CopyFromInto,
        seq![
            ptr(*dst),
            num(doff as int),
            ptr(*src),
            num(soff as int),
            num(n as int),
        ],
        flat_cfg(n as int),
    )
}

/// Two runs end to end: a thread an output.
pub open spec fn concat2_cmd(
    dst: &CudaSlice<Fp32>,
    a: &CudaSlice<Fp32>,
    na: usize,
    b: &CudaSlice<Fp32>,
    nb: usize,
) -> Cmd {
    launch(
        Kernel::Concat2,
        seq![ptr(*dst), ptr(*a), num(na as int), ptr(*b), num(nb as int)],
        flat_cfg(na + nb),
    )
}

/// The rectifier under a mask.
pub open spec fn relu_mask_cmd(
    y: &CudaSlice<Fp32>,
    mask: &CudaSlice<Fp32>,
    off: usize,
    n: usize,
) -> Cmd {
    launch(
        Kernel::ReluMask,
        seq![ptr(*y), ptr(*mask), num(off as int), num(n as int)],
        flat_cfg(n as int),
    )
}

/// The update: a thread a position.
pub open spec fn attn_weights_update_cmd(
    cat: &CudaSlice<Fp32>,
    alignment: &CudaSlice<Fp32>,
    t: usize,
) -> Cmd {
    launch(
        Kernel::AttnWeightsUpdate,
        seq![ptr(*cat), ptr(*alignment), num(t as int)],
        flat_cfg(t as int),
    )
}

/// The gated sum: a thread an element.
pub open spec fn gate_add_cmd(
    h: &CudaSlice<Fp32>,
    x: &CudaSlice<Fp32>,
    mods: &CudaSlice<Fp32>,
    gate_off: usize,
    rows: usize,
    cols: usize,
) -> Cmd {
    launch(
        Kernel::GateAdd,
        seq![
            ptr(*h),
            ptr(*x),
            ptr(*mods),
            num(gate_off as int),
            num(cols as int),
            num(rows * cols),
        ],
        flat_cfg(rows * cols),
    )
}

impl Gpu {
    /// `dst[doff..doff + n] = src[soff..soff + n]`, both ranges checked.
    pub fn copy_from_into(
        &mut self,
        dst: &CudaSlice<Fp32>,
        doff: usize,
        src: &CudaSlice<Fp32>,
        soff: usize,
        n: usize,
    ) -> (r: Result<(), CudaError>)
        requires
            doff + n <= usize::MAX,
            soff + n <= usize::MAX,
        ensures
            dst.len < doff + n || src.len < soff + n ==> r == Err::<(), CudaError>(
                CudaError::SliceOverrun {
                    at: max(doff + n, soff + n) as usize,
                    len: min(dst.len as int, src.len as int) as usize,
                },
            ) && final(self)@ == old(self)@,
            dst.len >= doff + n && src.len >= soff + n ==> r == Ok::<(), CudaError>(())
                && final(self)@ == old(self)@.push(
                copy_from_into_cmd(dst, doff, src, soff, n),
            ),
            r is Ok && int_fits(doff as int) && int_fits(soff as int) && int_fits(n as int)
                ==> copies(final(self)@.last(), *src, soff as int, *dst, doff as int, n as int),
    {
        if dst.len() < doff + n || src.len() < soff + n {
            return Err(
                CudaError::SliceOverrun {
                    at: greater(doff + n, soff + n),
                    len: lesser(dst.len(), src.len()),
                },
            );
        }
        self.launch(
            Kernel::CopyFromInto,
            vec![Arg::ptr(dst), Arg::num(doff), Arg::ptr(src), Arg::num(soff), Arg::num(n)],
            LaunchConfig::flat(n),
        );
        proof {
            if int_fits(doff as int) && int_fits(soff as int) && int_fits(n as int) {
                runs_are_copied(src, soff, *dst, doff, n);
            }
        }
        Ok(())
    }

    /// `dst[0..na] = a[0..na]` and `dst[na..na + nb] = b[0..nb]` in one
    /// launch.
    pub fn concat2(
        &mut self,
        dst: &CudaSlice<Fp32>,
        a: &CudaSlice<Fp32>,
        na: usize,
        b: &CudaSlice<Fp32>,
        nb: usize,
    ) -> (r: Result<(), CudaError>)
        requires
            na + nb <= usize::MAX,
            dst.len < na + nb || a.len < na || b.len < nb ==> a.len + nb <= usize::MAX && b.len + na
                <= usize::MAX,
        ensures
            dst.len < na + nb || a.len < na || b.len < nb ==> r == Err::<(), CudaError>(
                CudaError::SliceOverrun {
                    at: (na + nb) as usize,
                    len: min(min(dst.len as int, a.len + nb), b.len + na) as usize,
                },
            ) && final(self)@ == old(self)@,
            dst.len >= na + nb && a.len >= na && b.len >= nb ==> r == Ok::<(), CudaError>(())
                && final(self)@ == old(self)@.push(
                concat2_cmd(dst, a, na, b, nb),
            ),
            r is Ok && int_fits(na + nb)
                ==> concatenates(final(self)@.last(), *dst, *a, na as int, *b, nb as int),
    {
        if dst.len() < na + nb || a.len() < na || b.len() < nb {
            return Err(
                CudaError::SliceOverrun {
                    at: na + nb,
                    len: lesser(lesser(dst.len(), a.len() + nb), b.len() + na),
                },
            );
        }
        self.launch(
            Kernel::Concat2,
            vec![Arg::ptr(dst), Arg::ptr(a), Arg::num(na), Arg::ptr(b), Arg::num(nb)],
            LaunchConfig::flat(na + nb),
        );
        proof {
            if int_fits(na + nb) {
                two_runs_lie_end_to_end(dst, a, na, b, nb);
            }
        }
        Ok(())
    }

    /// `y = relu(y) * mask[off..off + n]`, a prenet's dropout in one pass:
    /// [`Gpu::relu`] then [`Gpu::mul_inplace`].
    pub fn relu_mask(
        &mut self,
        y: &CudaSlice<Fp32>,
        mask: &CudaSlice<Fp32>,
        off: usize,
        n: usize,
    ) -> (r: Result<(), CudaError>)
        requires
            off + n <= usize::MAX,
            y.len < n || mask.len < off + n ==> y.len + off <= usize::MAX,
        ensures
            y.len < n || mask.len < off + n ==> r == Err::<(), CudaError>(
                CudaError::SliceOverrun {
                    at: (off + n) as usize,
                    len: min(mask.len as int, y.len + off) as usize,
                },
            ) && final(self)@ == old(self)@,
            y.len >= n && mask.len >= off + n ==> r == Ok::<(), CudaError>(()) && final(self)@
                == old(self)@.push(
                relu_mask_cmd(y, mask, off, n),
            ),
            r is Ok && int_fits(n as int) && int_fits(off as int)
                ==> masks(final(self)@.last(), *y, *mask, off as int, n as int),
    {
        if y.len() < n || mask.len() < off + n {
            return Err(
                CudaError::SliceOverrun { at: off + n, len: lesser(mask.len(), y.len() + off) },
            );
        }
        self.launch(
            Kernel::ReluMask,
            vec![Arg::ptr(y), Arg::ptr(mask), Arg::num(off), Arg::num(n)],
            LaunchConfig::flat(n),
        );
        proof {
            if int_fits(n as int) && int_fits(off as int) {
                the_mask_is_met_from_its_offset(y, mask, off, n);
            }
        }
        Ok(())
    }

    /// The location attention's `[alignment; cumulative]` of `t` each,
    /// updated with a new alignment: the first half replaced, the second
    /// added to.
    pub fn attn_weights_update(
        &mut self,
        cat: &CudaSlice<Fp32>,
        alignment: &CudaSlice<Fp32>,
        t: usize,
    ) -> (r: Result<(), CudaError>)
        requires
            2 * t <= usize::MAX,
            cat.len < 2 * t || alignment.len < t ==> 2 * alignment.len <= usize::MAX,
        ensures
            cat.len < 2 * t || alignment.len < t ==> r == Err::<(), CudaError>(
                CudaError::SliceOverrun {
                    at: (2 * t) as usize,
                    len: min(cat.len as int, 2 * alignment.len) as usize,
                },
            ) && final(self)@ == old(self)@,
            cat.len >= 2 * t && alignment.len >= t ==> r == Ok::<(), CudaError>(())
                && final(self)@ == old(self)@.push(
                attn_weights_update_cmd(cat, alignment, t),
            ),
            r is Ok && int_fits(2 * t)
                ==> updates_weights(final(self)@.last(), *cat, *alignment, t as int),
    {
        if cat.len() < 2 * t || alignment.len() < t {
            return Err(
                CudaError::SliceOverrun { at: 2 * t, len: lesser(cat.len(), 2 * alignment.len()) },
            );
        }
        self.launch(
            Kernel::AttnWeightsUpdate,
            vec![Arg::ptr(cat), Arg::ptr(alignment), Arg::num(t)],
            LaunchConfig::flat(t),
        );
        proof {
            if int_fits(2 * t) {
                weights_are_replaced_and_summed(cat, alignment, t);
            }
        }
        Ok(())
    }

    /// The gated residual of a DiT block:
    /// `h[p, c] += mods[gate_off + c] * x[p, c]` over `rows` rows of `cols`.
    pub fn gate_add(
        &mut self,
        h: &CudaSlice<Fp32>,
        x: &CudaSlice<Fp32>,
        mods: &CudaSlice<Fp32>,
        gate_off: usize,
        rows: usize,
        cols: usize,
    ) -> (r: Result<(), CudaError>)
        requires
            rows * cols <= usize::MAX,
            h.len >= rows * cols && x.len >= rows * cols ==> gate_off + cols <= usize::MAX,
        ensures
            h.len < rows * cols || x.len < rows * cols ==> r == Err::<(), CudaError>(
                CudaError::SliceOverrun {
                    at: (rows * cols) as usize,
                    len: min(h.len as int, x.len as int) as usize,
                },
            ) && final(self)@ == old(self)@,
            h.len >= rows * cols && x.len >= rows * cols && mods.len < gate_off + cols ==> r
                == Err::<(), CudaError>(
                CudaError::SliceOverrun { at: (gate_off + cols) as usize, len: mods.len },
            ) && final(self)@ == old(self)@,
            h.len >= rows * cols && x.len >= rows * cols && mods.len >= gate_off + cols ==> r
                == Ok::<(), CudaError>(()) && final(self)@ == old(self)@.push(
                gate_add_cmd(h, x, mods, gate_off, rows, cols),
            ),
            r is Ok && ints_fit(rows as int, cols as int) && int_fits(gate_off as int)
                ==> adds_gated(
                    final(self)@.last(),
                    *h,
                    *x,
                    *mods,
                    gate_off as int,
                    rows as int,
                    cols as int,
                ),
    {
        let n: usize = rows * cols;
        if h.len() < n || x.len() < n {
            return Err(CudaError::SliceOverrun { at: n, len: lesser(h.len(), x.len()) });
        }
        if mods.len() < gate_off + cols {
            return Err(CudaError::SliceOverrun { at: gate_off + cols, len: mods.len() });
        }
        self.launch(
            Kernel::GateAdd,
            vec![
                Arg::ptr(h),
                Arg::ptr(x),
                Arg::ptr(mods),
                Arg::num(gate_off),
                Arg::num(cols),
                Arg::num(n),
            ],
            LaunchConfig::flat(n),
        );
        proof {
            if ints_fit(rows as int, cols as int) && int_fits(gate_off as int) {
                every_row_is_added_through_the_gates(h, x, mods, gate_off, rows, cols);
            }
        }
        Ok(())
    }

    /// [`Gpu::embed_scaled`] off a table that stays in its checkpoint's
    /// blocks.
    ///
    /// `table` is `vocab` rows of `ch` elements in `ty`'s blocks, as
    /// [`Gpu::upload_quant`] laid them out; each gathered row is unpacked on
    /// the way out. Refuses a row that is not a whole number of blocks, since
    /// a row that started mid-block would decode plausibly and wrongly.
    pub fn embed_packed(
        &mut self,
        table: &CudaSlice<u8>,
        ty: Quant,
        ids: &CudaSlice<i64>,
        t: usize,
        ch: usize,
        scale: FloatBits,
    ) -> (r: Result<CudaSlice<Fp32>, CudaError>)
        requires
            ch as int % ty.spec_block_size() == 0 && ids.len >= t ==> t * ch <= usize::MAX,
        ensures
            match embed_refusal(ty, ids, t, ch) {
                Some(e) => r == Err::<CudaSlice<Fp32>, CudaError>(e) && final(self)@
                    == old(self)@,
                None => {
                    let out = made::<Fp32>(old(self)@.len() as int, t * ch);
                    &&& r == Ok::<CudaSlice<Fp32>, CudaError>(out)
                    &&& final(self)@ == old(self)@.push(uninit(Elem::F32, t * ch)) + if t == 0 {
                        Seq::<Cmd>::empty()
                    } else {
                        seq![embed_launch(table, ty, ids, out, t, ch, scale)]
                    }
                },
            },
            r is Ok && 0 < t && 0 < ch && ints_fit(t as int, ch as int)
                ==> looks_up_packed(
                    final(self)@.last(),
                    *table,
                    ty,
                    *ids,
                    r->Ok_0,
                    t as int,
                    ch as int,
                    scale,
                ),
            r is Ok ==> made_in(final(self)@, r->Ok_0, Elem::F32, t * ch),
    {
        let bs: usize = ty.block_size();
        if ch % bs != 0 {
            return Err(CudaError::RaggedBlock { k: ch, block: bs });
        }
        if ids.len() < t {
            return Err(CudaError::SliceOverrun { at: t, len: ids.len() });
        }
        let out = self.uninit(t * ch);
        if t == 0 {
            return Ok(out);
        }
        let cfg = LaunchConfig {
            grid_dim: (t as u32, 1, 1),
            block_dim: (BLOCK, 1, 1),
            shared_mem_bytes: 0,
        };
        self.launch(
            Kernel::EmbedQ,
            vec![
                Arg::ptr(table),
                Arg::I32(ty.id()),
                Arg::num(bs),
                Arg::num(ty.device_stride()),
                Arg::ptr(ids),
                Arg::ptr(&out),
                Arg::num(t),
                Arg::num(ch),
                Arg::Float(scale),
            ],
            cfg,
        );
        proof {
            if 0 < t && 0 < ch && ints_fit(t as int, ch as int) {
                every_id_gets_all_of_its_packed_row(table, ty, ids, out, t, ch, scale);
            }
        }
        Ok(out)
    }
}

/// Why a packed lookup is refused, if it is.
pub open spec fn embed_refusal(
    ty: Quant,
    ids: &CudaSlice<i64>,
    t: usize,
    ch: usize,
) -> Option<CudaError> {
    if ch as int % ty.spec_block_size() != 0 {
        Some(CudaError::RaggedBlock { k: ch, block: ty.spec_block_size() as usize })
    } else if ids.len < t {
        Some(CudaError::SliceOverrun { at: t, len: ids.len })
    } else {
        None
    }
}

/// A packed lookup: a block a row.
pub open spec fn embed_launch(
    table: &CudaSlice<u8>,
    ty: Quant,
    ids: &CudaSlice<i64>,
    out: CudaSlice<Fp32>,
    t: usize,
    ch: usize,
    scale: FloatBits,
) -> Cmd {
    launch(
        Kernel::EmbedQ,
        seq![
            ptr(*table),
            Arg::I32(ty.spec_id()),
            num(ty.spec_block_size()),
            num(ty.spec_device_stride()),
            ptr(*ids),
            ptr(out),
            num(t as int),
            num(ch as int),
            Arg::Float(scale),
        ],
        LaunchConfig {
            grid_dim: (t as u32, 1, 1),
            block_dim: (BLOCK, 1, 1),
            shared_mem_bytes: 0,
        },
    )
}

} // verus!
