use vstd::prelude::*;

verus! {

/// The colour (red, green, blue) that `colorous` gives for sample `i` of
/// `n` evenly spaced samples of the viridis gradient.
pub uninterp spec fn viridis_rgb(i: usize, n: usize) -> (u8, u8, u8);

/// Calls `colorous::VIRIDIS.eval_rational(i, n)`, which takes sample `i`
/// (clamped to `n - 1`) of `n` evenly spaced samples of the viridis
/// gradient and panics for `n == 0`.  The result is believed to be
/// `viridis_rgb(i, n)`, a function of the two arguments alone; nothing
/// more is claimed of it.
#[verifier::external_body]
fn viridis_eval_rational(i: usize, n: usize) -> (c: (u8, u8, u8))
    requires
        n > 0,
    ensures
        c == viridis_rgb(i, n),
{
    colorous::VIRIDIS.eval_rational(i, n).into_tuple()
}

/// Pixel layouts the colour table can be written in.
#[derive(Clone, Copy, PartialEq, Eq, Debug)]
pub enum TextureFormat {
    Rgba8Unorm,
    Bgra8Unorm,
    /// Any other layout, for which no table can be made.
    Other,
}

/// A colour as a table entry: opaque, with its channels in the order of
/// the format.
pub open spec fn table_entry(c: (u8, u8, u8), format: TextureFormat) -> [u8; 4] {
    let (r, g, b) = c;
    match format {
        TextureFormat::Bgra8Unorm => [b, g, r, 255u8],
        _ => [r, g, b, 255u8],
    }
}

/// Entry `l` of a colour table of `len` entries: sample `l` of `len - 1`
/// samples of the gradient as a table entry.
pub open spec fn colormap_entry(l: usize, len: usize, format: TextureFormat) -> [u8; 4] {
    table_entry(viridis_rgb(l, (len - 1) as usize), format)
}

/// The colour table made of the given colours, in the given pixel layout.
pub fn colormap_from_samples(samples: &Vec<(u8, u8, u8)>, format: TextureFormat) -> (t: Vec<
    [u8; 4],
>)
    requires
        format != TextureFormat::Other,
    ensures
        t@.len() == samples@.len(),
        forall|l: int| 0 <= l < samples@.len() ==> #[trigger] t@[l] == table_entry(samples@[l], format),
{
    let mut t: Vec<[u8; 4]> = Vec::new();
    let mut l: usize = 0;
    while l < samples.len()
        invariant
            l <= samples@.len(),
            t@.len() == l,
            forall|k: int| 0 <= k < l ==> #[trigger] t@[k] == table_entry(samples@[k], format),
        decreases samples@.len() - l,
    {
        let (r, g, b) = samples[l];
        let entry: [u8; 4] = match format {
            TextureFormat::Bgra8Unorm => [b, g, r, 255],
            _ => [r, g, b, 255],
        };
        t.push(entry);
        l = l + 1;
    }
    t
}

/// The viridis colour table with `len` entries in the given pixel layout
/// (a table of one entry would sample a gradient of no samples).
pub fn get_colormap(len: usize, format: TextureFormat) -> (t: Vec<[u8; 4]>)
    requires
        len != 1,
        format != TextureFormat::Other,
    ensures
        t@.len() == len,
        forall|l: int| 0 <= l < len ==> #[trigger] t@[l] == colormap_entry(l as usize, len, format),
{
    let mut samples: Vec<(u8, u8, u8)> = Vec::new();
    let mut l: usize = 0;
    while l < len
        invariant
            len != 1,
            l <= len,
            samples@.len() == l,
            forall|k: int| 0 <= k < l ==> #[trigger] samples@[k] == viridis_rgb(k as usize, (len - 1) as usize),
        decreases len - l,
    {
        samples.push(viridis_eval_rational(l, len - 1));
        l = l + 1;
    }
    let t = colormap_from_samples(&samples, format);
    assert forall|l: int| 0 <= l < len implies #[trigger] t@[l] == colormap_entry(l as usize, len, format) by {
        assert(samples@[l] == viridis_rgb(l as usize, (len - 1) as usize));
    }
    t
}

} // verus!
