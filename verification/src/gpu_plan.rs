use vstd::prelude::*;
use crate::kinds::Component;
use crate::spectrum::{is_power_of_two, lemma_double_power_of_two};
use vstd::string::StringExecFns;

verus! {

/// Bytes of one complex sample in the RF input buffer (two 32-bit values).
pub const RF_INPUT_BYTES: u32 = 8;

/// Side of the square workgroup of the colormap compute passes.
pub const WORKGROUP_SIDE: u32 = 8;

/// The device limits that shape the FFT compute passes.
#[derive(Clone, Copy, PartialEq, Eq, Debug)]
pub struct GpuLimits {
    pub max_compute_invocations_per_workgroup: u32,
    pub max_compute_workgroup_size_x: u32,
    pub max_compute_workgroup_size_y: u32,
    pub max_compute_workgroup_storage_size: u32,
}

/// Workgroup shape of the FFT passes and the longest FFT that fits in
/// workgroup storage.
#[derive(Clone, Copy, PartialEq, Eq, Debug)]
pub struct FftRuntimeConfig {
    pub wg_x: u32,
    pub wg_bins: u32,
    pub shared_max_n: u32,
}

pub open spec fn max_u32(a: u32, b: u32) -> u32 {
    if a > b {
        a
    } else {
        b
    }
}

pub open spec fn min_u32(a: u32, b: u32) -> u32 {
    if a < b {
        a
    } else {
        b
    }
}

/// The largest power of two that is at most `v`, and one for `v <= 1`.
pub fn floor_pow2(v: u32) -> (p: u32)
    ensures
        is_power_of_two(p as nat),
        v <= 1 ==> p == 1,
        v > 1 ==> p <= v && v < 2 * p,
{
    if v <= 1 {
        return 1;
    }
    let mut p: u32 = 1;
    while p <= v / 2
        invariant
            1 <= p <= v,
            is_power_of_two(p as nat),
        decreases v - p,
    {
        proof {
            lemma_double_power_of_two(p as nat);
        }
        p = p * 2;
    }
    p
}

/// `cfg` is the FFT workgroup shape for the device `limits`: `wg_x` is 64
/// capped by the device, `wg_bins` is 4 capped by the device and by the
/// invocations left, and `shared_max_n` is the largest power of two (at
/// least 2) of complex samples per bin that fits in workgroup storage.
pub open spec fn fft_config_for(limits: GpuLimits, cfg: FftRuntimeConfig) -> bool {
    let max_inv = max_u32(limits.max_compute_invocations_per_workgroup, 1);
    let max_x = max_u32(limits.max_compute_workgroup_size_x, 1);
    let max_y = max_u32(limits.max_compute_workgroup_size_y, 1);
    let wg_x = max_u32(min_u32(min_u32(64, max_x), max_inv), 1);
    let wg_bins = max_u32(
        min_u32(min_u32(4, max_y), max_u32((max_inv / wg_x) as u32, 1)),
        1,
    );
    let by_storage = max_u32(
        (limits.max_compute_workgroup_storage_size as int / (wg_bins as int * RF_INPUT_BYTES as int)) as u32,
        2,
    );
    &&& cfg.wg_x == wg_x
    &&& cfg.wg_bins == wg_bins
    &&& is_power_of_two(cfg.shared_max_n as nat)
    &&& cfg.shared_max_n <= by_storage < 2 * cfg.shared_max_n
}

/// The FFT workgroup fits the device: at most 64 by 4, within the device's
/// workgroup sizes (where they are at least one) and its invocations per
/// workgroup; and a bin's samples fit in workgroup storage whenever the
/// storage holds two samples per bin at all.
pub proof fn fft_workgroup_fits_device(limits: GpuLimits, cfg: FftRuntimeConfig)
    requires
        fft_config_for(limits, cfg),
    ensures
        1 <= cfg.wg_x <= 64,
        1 <= cfg.wg_bins <= 4,
        limits.max_compute_workgroup_size_x >= 1 ==> cfg.wg_x <= limits.max_compute_workgroup_size_x,
        limits.max_compute_workgroup_size_y >= 1 ==> cfg.wg_bins <= limits.max_compute_workgroup_size_y,
        cfg.wg_x * cfg.wg_bins <= max_u32(limits.max_compute_invocations_per_workgroup, 1),
        cfg.shared_max_n >= 2,
        limits.max_compute_workgroup_storage_size >= 2 * cfg.wg_bins * RF_INPUT_BYTES
            ==> cfg.shared_max_n * cfg.wg_bins * RF_INPUT_BYTES
            <= limits.max_compute_workgroup_storage_size,
{
    let max_inv = max_u32(limits.max_compute_invocations_per_workgroup, 1) as int;
    let wg_x = cfg.wg_x as int;
    let wg_bins = cfg.wg_bins as int;
    let q = max_inv / wg_x;
    assert(wg_x * q <= max_inv) by (nonlinear_arith)
        requires
            wg_x >= 1,
            q == max_inv / wg_x,
    ;
    assert(wg_x * wg_bins <= max_inv) by (nonlinear_arith)
        requires
            wg_x >= 1,
            1 <= wg_bins,
            q >= 1 ==> wg_bins <= q,
            q < 1 ==> wg_bins == 1 && wg_x <= max_inv,
            wg_x * q <= max_inv,
    ;
    let st = limits.max_compute_workgroup_storage_size as int;
    let per = wg_bins * (RF_INPUT_BYTES as int);
    let n = cfg.shared_max_n as int;
    if st >= 2 * per {
        let d = st / per;
        assert(d >= 2) by (nonlinear_arith)
            requires
                per > 0,
                st >= 2 * per,
                d == st / per,
        ;
        assert(d * per <= st) by (nonlinear_arith)
            requires
                per > 0,
                d == st / per,
        ;
        assert(n <= d);
        assert(n * per <= st) by (nonlinear_arith)
            requires
                n <= d,
                d * per <= st,
                per > 0,
        ;
        assert(n * wg_bins * (RF_INPUT_BYTES as int) == n * per) by (nonlinear_arith)
            requires
                per == wg_bins * (RF_INPUT_BYTES as int),
        ;
    }
}

/// The FFT workgroup shape for the given device.
pub fn fft_runtime_config(limits: GpuLimits) -> (cfg: FftRuntimeConfig)
    ensures
        fft_config_for(limits, cfg),
{
    let max_inv = if limits.max_compute_invocations_per_workgroup > 1 {
        limits.max_compute_invocations_per_workgroup
    } else {
        1
    };
    let max_x = if limits.max_compute_workgroup_size_x > 1 {
        limits.max_compute_workgroup_size_x
    } else {
        1
    };
    let max_y = if limits.max_compute_workgroup_size_y > 1 {
        limits.max_compute_workgroup_size_y
    } else {
        1
    };
    let mut wg_x: u32 = 64;
    if max_x < wg_x {
        wg_x = max_x;
    }
    if max_inv < wg_x {
        wg_x = max_inv;
    }
    if wg_x < 1 {
        wg_x = 1;
    }
    let per_bin = max_inv / wg_x;
    let per_bin = if per_bin > 1 {
        per_bin
    } else {
        1
    };
    let mut wg_bins: u32 = 4;
    if max_y < wg_bins {
        wg_bins = max_y;
    }
    if per_bin < wg_bins {
        wg_bins = per_bin;
    }
    if wg_bins < 1 {
        wg_bins = 1;
    }
    let by_storage = limits.max_compute_workgroup_storage_size / (wg_bins * RF_INPUT_BYTES);
    let by_storage = if by_storage > 2 {
        by_storage
    } else {
        2
    };
    let p = floor_pow2(by_storage);
    let shared_max_n = if p > 2 {
        p
    } else {
        2
    };
    FftRuntimeConfig { wg_x, wg_bins, shared_max_n }
}

/// The settings that select and size the colormap compute passes.
#[derive(Clone, Copy, PartialEq, Eq, Debug)]
pub struct ComputeUniforms {
    pub width: u32,
    pub height: u32,
    /// 0: raw data; 1: RF FFT of the history.
    pub compute_mode: u32,
    pub rf_db_scale: u32,
    pub rf_global_norm: u32,
    pub raw_component: u32,
    pub raw_db_scale: u32,
    pub raw_gpu_range: u32,
}

/// A compute pass of the colormap pipeline.
#[derive(Clone, Copy, PartialEq, Eq, Debug)]
pub enum ComputePass {
    RawReduce,
    Raw,
    RfTranspose,
    RfStage1,
    RfReduceGlobal,
    RfStage2,
}

/// A pass and its workgroup counts.
#[derive(Clone, Copy, PartialEq, Eq, Debug)]
pub struct Dispatch {
    pub pass: ComputePass,
    pub x: u32,
    pub y: u32,
    pub z: u32,
}

pub open spec fn div_ceil(a: int, b: int) -> int {
    (a + b - 1) / b
}

/// The passes that fill the colormap texture, in order, with their
/// workgroup counts.
pub open spec fn compute_passes_spec(u: ComputeUniforms, wg_bins: u32) -> Seq<Dispatch> {
    let dx = div_ceil(u.width as int, WORKGROUP_SIDE as int) as u32;
    let dy = div_ceil(u.height as int, WORKGROUP_SIDE as int) as u32;
    let bins = max_u32(wg_bins, 1);
    if u.compute_mode == 0 {
        let raw = seq![Dispatch { pass: ComputePass::Raw, x: dx, y: dy, z: 1 }];
        if u.raw_gpu_range != 0 {
            seq![Dispatch { pass: ComputePass::RawReduce, x: 1, y: 1, z: 1 }] + raw
        } else {
            raw
        }
    } else {
        let head = seq![
            Dispatch { pass: ComputePass::RfTranspose, x: dx, y: dy, z: 1 },
            Dispatch {
                pass: ComputePass::RfStage1,
                x: div_ceil(u.width as int, bins as int) as u32,
                y: 1,
                z: 1,
            },
        ];
        let tail = seq![Dispatch { pass: ComputePass::RfStage2, x: dx, y: dy, z: 1 }];
        if u.rf_global_norm != 0 {
            head + seq![Dispatch { pass: ComputePass::RfReduceGlobal, x: 1, y: 1, z: 1 }] + tail
        } else {
            head + tail
        }
    }
}

fn div_ceil_u32(a: u32, b: u32) -> (r: u32)
    requires
        b > 0,
    ensures
        r == div_ceil(a as int, b as int),
{
    let q = a / b;
    if a % b == 0 {
        proof {
            assert(div_ceil(a as int, b as int) == q) by (nonlinear_arith)
                requires
                    a % b == 0,
                    q == a / b,
                    b > 0,
            ;
        }
        q
    } else {
        proof {
            assert(div_ceil(a as int, b as int) == q + 1) by (nonlinear_arith)
                requires
                    a % b != 0,
                    q == a / b,
                    b > 0,
            ;
            assert(b >= 2) by {
                if b == 1 {
                    assert(a % b == 0);
                }
            }
            assert(q * b <= a) by (nonlinear_arith)
                requires
                    q == a / b,
                    b > 0,
            ;
            assert(q + 1 <= u32::MAX) by (nonlinear_arith)
                requires
                    q * b <= a,
                    b >= 2,
                    a <= u32::MAX,
            ;
        }
        q + 1
    }
}

/// The passes that fill the colormap texture: the raw pipeline (with a
/// reduction first when the range is found on the GPU), or the RF pipeline
/// (transpose, FFT stage one, a global reduction when normalising over the
/// whole map, FFT stage two).
pub fn compute_passes(u: &ComputeUniforms, wg_bins: u32) -> (r: Vec<Dispatch>)
    ensures
        r@ == compute_passes_spec(*u, wg_bins),
{
    let dx = div_ceil_u32(u.width, WORKGROUP_SIDE);
    let dy = div_ceil_u32(u.height, WORKGROUP_SIDE);
    let bins = if wg_bins > 1 {
        wg_bins
    } else {
        1
    };
    let mut r: Vec<Dispatch> = Vec::new();
    if u.compute_mode == 0 {
        if u.raw_gpu_range != 0 {
            r.push(Dispatch { pass: ComputePass::RawReduce, x: 1, y: 1, z: 1 });
        }
        r.push(Dispatch { pass: ComputePass::Raw, x: dx, y: dy, z: 1 });
    } else {
        r.push(Dispatch { pass: ComputePass::RfTranspose, x: dx, y: dy, z: 1 });
        let sx = div_ceil_u32(u.width, bins);
        r.push(Dispatch { pass: ComputePass::RfStage1, x: sx, y: 1, z: 1 });
        if u.rf_global_norm != 0 {
            r.push(Dispatch { pass: ComputePass::RfReduceGlobal, x: 1, y: 1, z: 1 });
        }
        r.push(Dispatch { pass: ComputePass::RfStage2, x: dx, y: dy, z: 1 });
    }
    assert(r@ =~= compute_passes_spec(*u, wg_bins));
    r
}

/// `n` workgroups of `side` cells are the fewest that cover `cells` cells.
pub open spec fn covers(n: int, side: int, cells: int) -> bool {
    n * side >= cells && (n - 1) * side < cells
}

/// In raw mode the passes end with exactly one raw colormap pass over
/// workgroups covering the whole map, preceded by one reduction exactly
/// when the range is found on the GPU.  In RF mode they start with the
/// transpose over the whole map, end with the second FFT stage over the
/// whole map, and hold one global reduction exactly when normalising over
/// the whole map.
pub proof fn compute_passes_draw_the_whole_map(u: ComputeUniforms, wg_bins: u32)
    ensures
        ({
            let p = compute_passes_spec(u, wg_bins);
            let last = p[p.len() - 1];
            &&& p.len() >= 1
            &&& u.compute_mode == 0 ==> {
                &&& last.pass == ComputePass::Raw
                &&& covers(last.x as int, WORKGROUP_SIDE as int, u.width as int)
                &&& covers(last.y as int, WORKGROUP_SIDE as int, u.height as int)
                &&& last.z == 1
                &&& p.len() == (if u.raw_gpu_range != 0 {
                    2int
                } else {
                    1int
                })
                &&& u.raw_gpu_range != 0 ==> p[0] == Dispatch {
                    pass: ComputePass::RawReduce,
                    x: 1,
                    y: 1,
                    z: 1,
                }
            }
            &&& u.compute_mode != 0 ==> {
                &&& p[0].pass == ComputePass::RfTranspose
                &&& covers(p[0].x as int, WORKGROUP_SIDE as int, u.width as int)
                &&& covers(p[0].y as int, WORKGROUP_SIDE as int, u.height as int)
                &&& p[1].pass == ComputePass::RfStage1
                &&& covers(p[1].x as int, max_u32(wg_bins, 1) as int, u.width as int)
                &&& last.pass == ComputePass::RfStage2
                &&& covers(last.x as int, WORKGROUP_SIDE as int, u.width as int)
                &&& covers(last.y as int, WORKGROUP_SIDE as int, u.height as int)
                &&& p.len() == (if u.rf_global_norm != 0 {
                    4int
                } else {
                    3int
                })
                &&& u.rf_global_norm != 0 ==> p[2].pass == ComputePass::RfReduceGlobal
            }
        }),
{
    let w = u.width as int;
    let h = u.height as int;
    assert(covers(div_ceil(w, 8), 8, w));
    assert(covers(div_ceil(h, 8), 8, h));
    assert(0 <= div_ceil(w, 8) <= u32::MAX);
    assert(0 <= div_ceil(h, 8) <= u32::MAX);
    let bins = max_u32(wg_bins, 1) as int;
    let q = div_ceil(w, bins);
    assert(covers(q, bins, w) && 0 <= q <= w) by (nonlinear_arith)
        requires
            bins >= 1,
            q == (w + bins - 1) / bins,
            0 <= w,
    ;
}

impl ComputeUniforms {
    /// Uniforms of a new map: raw mode showing magnitudes, nothing scaled.
    pub fn new(width: u32, height: u32) -> (u: Self)
        ensures
            u == (ComputeUniforms {
                width,
                height,
                compute_mode: 0,
                rf_db_scale: 0,
                rf_global_norm: 0,
                raw_component: 2,
                raw_db_scale: 0,
                raw_gpu_range: 0,
            }),
    {
        ComputeUniforms {
            width,
            height,
            compute_mode: 0,
            rf_db_scale: 0,
            rf_global_norm: 0,
            raw_component: 2,
            raw_db_scale: 0,
            raw_gpu_range: 0,
        }
    }

    /// Resizes the map; sizes of one or less in either direction are
    /// ignored.  Returns the number of cells when the size was taken.
    pub fn set_size(&mut self, width: u32, height: u32) -> (cells: Option<usize>)
        requires
            width * height <= usize::MAX,
        ensures
            (width <= 1 || height <= 1) ==> *final(self) == *old(self) && cells is None,
            !(width <= 1 || height <= 1) ==> {
                &&& *final(self) == (ComputeUniforms { width, height, ..*old(self) })
                &&& cells == Some((width * height) as usize)
            },
    {
        if width <= 1 || height <= 1 {
            return None;
        }
        self.width = width;
        self.height = height;
        Some(width as usize * height as usize)
    }

    /// The number of history rows shown, which is the map's height.
    pub fn max_log(&self) -> (r: Option<usize>)
        ensures
            self.height == 0 ==> r is None,
            self.height != 0 ==> r == Some(self.height as usize),
    {
        if self.height == 0 {
            None
        } else {
            Some(self.height as usize)
        }
    }

    /// Switches to showing raw history of one component.
    pub fn set_raw_mode(&mut self, component: Component, db_scale: bool, gpu_range: bool)
        ensures
            *final(self) == (ComputeUniforms {
                compute_mode: 0,
                rf_global_norm: 0,
                raw_component: component.index(),
                raw_db_scale: if db_scale {
                    1u32
                } else {
                    0u32
                },
                raw_gpu_range: if gpu_range {
                    1u32
                } else {
                    0u32
                },
                ..*old(self)
            }),
    {
        self.compute_mode = 0;
        self.rf_global_norm = 0;
        self.raw_component = component.to_index();
        self.raw_db_scale = if db_scale {
            1
        } else {
            0
        };
        self.raw_gpu_range = if gpu_range {
            1
        } else {
            0
        };
    }

    /// Switches to the RF FFT of the history.
    pub fn set_rf_mode(&mut self, db_scale: bool, global_norm: bool)
        ensures
            *final(self) == (ComputeUniforms {
                compute_mode: 1,
                rf_db_scale: if db_scale {
                    1u32
                } else {
                    0u32
                },
                rf_global_norm: if global_norm {
                    1u32
                } else {
                    0u32
                },
                ..*old(self)
            }),
    {
        self.compute_mode = 1;
        self.rf_db_scale = if db_scale {
            1
        } else {
            0
        };
        self.rf_global_norm = if global_norm {
            1
        } else {
            0
        };
    }
}

/// The source of the compute shader: the shared utilities, the FFT and
/// the colormap kernels, one after the other, separated by line breaks.
pub fn compute_shader_source(utils: &str, fft: &str, compute: &str) -> (r: String)
    ensures
        r@ == utils@ + "\n"@ + fft@ + "\n"@ + compute@,
{
    let mut r = String::from_str(utils);
    r.append("\n");
    r.append(fft);
    r.append("\n");
    r.append(compute);
    r
}

/// Byte sizes of the buffers of a `width` by `height` colormap.
#[derive(Clone, Copy, PartialEq, Eq, Debug)]
pub struct BufferSizes {
    pub raw_data: u64,
    pub rf_input: u64,
    pub rf_fft_state: u64,
    pub rf_value: u64,
    pub rf_minmax: u64,
    pub cache: u64,
}

/// Byte sizes of the buffers: two 32-bit values per cell for the raw data,
/// the RF input and the FFT state, one per cell for the RF values and the
/// texture cache, and two per column for the RF minima and maxima.
pub fn buffer_sizes(width: u32, height: u32) -> (b: BufferSizes)
    requires
        width * height <= u32::MAX,
    ensures
        b.raw_data == width * height * 8,
        b.rf_input == width * height * 8,
        b.rf_fft_state == width * height * 8,
        b.rf_value == width * height * 4,
        b.rf_minmax == width * 8,
        b.cache == width * height * 4,
{
    let cells = width * height;
    let cells64 = cells as u64;
    BufferSizes {
        raw_data: cells64 * 8,
        rf_input: cells64 * 8,
        rf_fft_state: cells64 * 8,
        rf_value: cells64 * 4,
        rf_minmax: width as u64 * 8,
        cache: cells64 * 4,
    }
}

} // verus!
