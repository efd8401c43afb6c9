//! The raster scaling operator: rewrites every pixel of a tile by a slope
//! and an offset.
//!
//! Unscaling computes `p * slope + offset`; scaling inverts it with
//! `(p - offset) / slope`, truncating towards zero. The no-data value is
//! passed through untouched.

use vstd::prelude::*;
use crate::grid::Grid2D;
use crate::raster::RasterTile;

verus! {

/// Whether pixel values are scaled down or unscaled back up.
#[derive(Clone, Copy, Debug, PartialEq, Eq, Structural)]
pub enum ScalingMode {
    Scale,
    Unscale,
}

/// The largest pixel and offset magnitudes the scaling arithmetic admits
/// without overflow.
pub open spec fn spec_scaling_cap() -> int {
    0x4000_0000
}

/// Truncating division, as Rust's `/` computes it on signed integers,
/// written over magnitudes so that only division by a positive number
/// occurs.
pub open spec fn spec_trunc_div(a: int, b: int) -> int {
    if b >= 0 {
        if a >= 0 {
            a / b
        } else {
            -((-a) / b)
        }
    } else {
        if a >= 0 {
            -(a / (-b))
        } else {
            (-a) / (-b)
        }
    }
}

/// What one pixel becomes: no-data stays no-data, every other value follows
/// the scaling formula. Scaling divides truncating towards zero.
pub open spec fn spec_scaled_pixel(
    v: i64,
    no_data: Option<i64>,
    slope: i64,
    offset: i64,
    mode: ScalingMode,
) -> int {
    if no_data matches Some(nd) && nd == v {
        v as int
    } else {
        match mode {
            ScalingMode::Unscale => v * slope + offset,
            ScalingMode::Scale => spec_trunc_div(v - offset, slope as int),
        }
    }
}

/// Errors of the scaling transformation.
#[derive(Clone, Copy, Debug, PartialEq, Eq, Structural)]
pub enum ScalingError {
    /// Scaling would divide by a slope of zero.
    SlopeIsZero,
    /// The properties carry no entry under the requested key.
    MissingProperty,
    /// A property value exceeds the magnitude the arithmetic admits.
    PropertyOutOfRange,
}

/// A raster's named integer metadata, carried beside its tiles — such as a
/// sensor's calibration slope and offset.
///
/// Invariant (`wf`): keys are distinct.
#[derive(Clone, Debug)]
pub struct RasterProperties {
    pub entries: Vec<(String, i64)>,
}

impl RasterProperties {
    pub open spec fn wf(self) -> bool {
        forall|i: int, j: int|
            0 <= i < j < self.entries@.len() ==> (#[trigger] self.entries@[i]).0@ != (#[trigger]
            self.entries@[j]).0@
    }

    /// Whether a property of the given key exists.
    pub open spec fn spec_has(self, key: Seq<char>) -> bool {
        exists|j: int| 0 <= j < self.entries@.len() && (#[trigger] self.entries@[j]).0@ == key
    }

    /// The numeric property under the key; fails exactly when none exists.
    pub fn number_property(&self, key: &String) -> (r: Result<i64, ScalingError>)
        ensures
            r is Ok <==> self.spec_has(key@),
            r matches Ok(v) ==> exists|j: int|
                0 <= j < self.entries@.len() && (#[trigger] self.entries@[j]).0@ == key@
                    && self.entries@[j].1 == v,
            r is Err ==> r == Result::<i64, ScalingError>::Err(ScalingError::MissingProperty),
    {
        let mut j: usize = 0;
        while j < self.entries.len()
            invariant
                j <= self.entries@.len(),
                forall|i: int| 0 <= i < j ==> (#[trigger] self.entries@[i]).0@ != key@,
            decreases self.entries@.len() - j,
        {
            if self.entries[j].0.eq(key) {
                return Ok(self.entries[j].1);
            }
            j = j + 1;
        }
        Err(ScalingError::MissingProperty)
    }
}

/// Where the scaling operator reads its slope or offset: a metadata key of
/// the input raster's properties, or a constant.
#[derive(Clone, Debug)]
pub enum PropertiesKeyOrValue {
    MetadataKey(String),
    Constant(i64),
}

/// Whether a key-or-constant resolves against given properties: a constant
/// always does, a metadata key exactly when the key exists.
pub open spec fn spec_prop_resolvable(p: PropertiesKeyOrValue, props: RasterProperties) -> bool {
    match p {
        PropertiesKeyOrValue::Constant(_) => true,
        PropertiesKeyOrValue::MetadataKey(key) => props.spec_has(key@),
    }
}

/// The value a key-or-constant resolves to against given properties, when
/// it resolves at all.
pub open spec fn spec_prop_resolves(
    p: PropertiesKeyOrValue,
    props: RasterProperties,
    v: i64,
) -> bool {
    match p {
        PropertiesKeyOrValue::Constant(c) => v == c,
        PropertiesKeyOrValue::MetadataKey(key) => exists|j: int|
            0 <= j < props.entries@.len() && (#[trigger] props.entries@[j]).0@ == key@
                && props.entries@[j].1 == v,
    }
}

/// With distinct property keys, a key-or-constant resolves to at most one
/// value.
pub proof fn lemma_prop_resolution_unique(
    p: PropertiesKeyOrValue,
    props: RasterProperties,
    v1: i64,
    v2: i64,
)
    requires
        props.wf(),
        spec_prop_resolves(p, props, v1),
        spec_prop_resolves(p, props, v2),
    ensures
        v1 == v2,
{
    match p {
        PropertiesKeyOrValue::Constant(_) => {},
        PropertiesKeyOrValue::MetadataKey(key) => {
            let j1 = choose|j: int|
                0 <= j < props.entries@.len() && (#[trigger] props.entries@[j]).0@ == key@
                    && props.entries@[j].1 == v1;
            let j2 = choose|j: int|
                0 <= j < props.entries@.len() && (#[trigger] props.entries@[j]).0@ == key@
                    && props.entries@[j].1 == v2;
            if j1 < j2 {
                assert(props.entries@[j1].0@ != props.entries@[j2].0@);
            }
            if j2 < j1 {
                assert(props.entries@[j2].0@ != props.entries@[j1].0@);
            }
        },
    }
}

/// Resolves a slope or offset: a constant is itself, a metadata key is
/// looked up in the properties. Fails exactly when the key is absent.
pub fn prop_value(prop_key_or_value: &PropertiesKeyOrValue, props: &RasterProperties) -> (r:
    Result<i64, ScalingError>)
    ensures
        r is Ok <==> spec_prop_resolvable(*prop_key_or_value, *props),
        r matches Ok(v) ==> spec_prop_resolves(*prop_key_or_value, *props, v),
        r is Err ==> r == Result::<i64, ScalingError>::Err(ScalingError::MissingProperty),
{
    match prop_key_or_value {
        PropertiesKeyOrValue::Constant(c) => Ok(*c),
        PropertiesKeyOrValue::MetadataKey(key) => props.number_property(key),
    }
}

/// Rust's truncating division, verified against `spec_trunc_div`.
fn trunc_div(a: i64, b: i64) -> (r: i64)
    requires
        b != 0,
        -0x1000_0000_0000_0000 <= a <= 0x1000_0000_0000_0000,
        -0x1000_0000_0000_0000 <= b <= 0x1000_0000_0000_0000,
    ensures
        r == spec_trunc_div(a as int, b as int),
{
    proof {
        if a >= 0 {
            vstd::arithmetic::div_mod::lemma_div_is_ordered_by_denominator(
                a as int,
                1,
                if b >= 0 {
                    b as int
                } else {
                    -b as int
                },
            );
        } else {
            vstd::arithmetic::div_mod::lemma_div_is_ordered_by_denominator(
                -a as int,
                1,
                if b >= 0 {
                    b as int
                } else {
                    -b as int
                },
            );
        }
    }
    if a >= 0 {
        if b > 0 {
            a / b
        } else {
            -(a / (-b))
        }
    } else {
        if b > 0 {
            -((-a) / b)
        } else {
            (-a) / (-b)
        }
    }
}

/// Applies the scaling formula to every pixel of a grid.
///
/// Returns the rewritten grid, or an error exactly when scaling is asked
/// for with a slope of zero.
pub fn transform_grid(grid: &Grid2D, slope: i64, offset: i64, mode: ScalingMode) -> (r: Result<
    Grid2D,
    ScalingError,
>)
    requires
        grid.wf(),
        forall|p: int|
            0 <= p < grid.data@.len() ==> -spec_scaling_cap() <= (#[trigger] grid.data@[p])
                <= spec_scaling_cap(),
        -0x8000 <= slope <= 0x8000,
        -spec_scaling_cap() <= offset <= spec_scaling_cap(),
    ensures
        r is Ok <==> (mode is Scale ==> slope != 0),
        r is Err ==> r == Result::<Grid2D, ScalingError>::Err(ScalingError::SlopeIsZero),
        r matches Ok(g) ==> {
            &&& g.shape == grid.shape
            &&& g.no_data_value == grid.no_data_value
            &&& g.wf()
            &&& g.data@.len() == grid.data@.len()
            &&& forall|p: int|
                0 <= p < grid.data@.len() ==> (#[trigger] g.data@[p]) == spec_scaled_pixel(
                    grid.data@[p],
                    grid.no_data_value,
                    slope,
                    offset,
                    mode,
                )
        },
{
    match mode {
        ScalingMode::Scale => {
            if slope == 0 {
                return Err(ScalingError::SlopeIsZero);
            }
        },
        ScalingMode::Unscale => {},
    }
    let n = grid.data.len();
    let mut data: Vec<i64> = Vec::new();
    let mut i: usize = 0;
    while i < n
        invariant
            i <= n,
            n == grid.data@.len(),
            data@.len() == i,
            mode is Scale ==> slope != 0,
            forall|p: int|
                0 <= p < i ==> (#[trigger] data@[p]) == spec_scaled_pixel(
                    grid.data@[p],
                    grid.no_data_value,
                    slope,
                    offset,
                    mode,
                ),
        decreases n - i,
    {
        let v = grid.data[i];
        let is_no_data = match grid.no_data_value {
            Option::Some(nd) => nd == v,
            Option::None => false,
        };
        let w: i64 = if is_no_data {
            v
        } else {
            match mode {
                ScalingMode::Unscale => {
                    proof {
                        assert(-0x2000_0000_0000 <= v * slope <= 0x2000_0000_0000)
                            by (nonlinear_arith)
                            requires
                                -spec_scaling_cap() <= v <= spec_scaling_cap(),
                                -0x8000 <= slope <= 0x8000,
                        ;
                    }
                    v * slope + offset
                },
                ScalingMode::Scale => trunc_div(v - offset, slope),
            }
        };
        data.push(w);
        i = i + 1;
    }
    Ok(Grid2D { shape: grid.shape, data, no_data_value: grid.no_data_value })
}

/// Applies the scaling formula to a whole tile, with slope and offset
/// resolved from the tile's properties or given as constants — the form
/// the scaling processor uses per tile.
///
/// Fails exactly when a key is absent, a resolved value leaves the
/// admitted range, or scaling is asked for with a slope of zero.
pub fn scale_tile_with_properties(
    tile: &RasterTile,
    properties: &RasterProperties,
    slope: &PropertiesKeyOrValue,
    offset: &PropertiesKeyOrValue,
    mode: ScalingMode,
) -> (r: Result<RasterTile, ScalingError>)
    requires
        tile.wf(),
        properties.wf(),
        forall|p: int|
            0 <= p < tile.data.data@.len() ==> -spec_scaling_cap() <= (#[trigger]
            tile.data.data@[p]) <= spec_scaling_cap(),
    ensures
        r is Ok <==> spec_prop_resolvable(*slope, *properties) && spec_prop_resolvable(
            *offset,
            *properties,
        ) && (forall|sl: i64|
            spec_prop_resolves(*slope, *properties, sl) ==> -0x8000 <= sl <= 0x8000 && (
            mode is Scale ==> sl != 0)) && (forall|off: i64|
            spec_prop_resolves(*offset, *properties, off) ==> -spec_scaling_cap() <= off
                <= spec_scaling_cap()),
        r matches Ok(t) ==> exists|sl: i64, off: i64|
            #![trigger spec_prop_resolves(*slope, *properties, sl), spec_prop_resolves(*offset, *properties, off)]
            {
                &&& spec_prop_resolves(*slope, *properties, sl)
                &&& spec_prop_resolves(*offset, *properties, off)
                &&& -0x8000 <= sl <= 0x8000
                &&& -spec_scaling_cap() <= off <= spec_scaling_cap()
                &&& (mode is Scale ==> sl != 0)
                &&& t.wf()
                &&& t.time == tile.time
                &&& t.tile == tile.tile
                &&& t.data.shape == tile.data.shape
                &&& t.data.no_data_value == tile.data.no_data_value
                &&& forall|p: int|
                    0 <= p < tile.data.data@.len() ==> (#[trigger] t.data.data@[p])
                        == spec_scaled_pixel(
                        tile.data.data@[p],
                        tile.data.no_data_value,
                        sl,
                        off,
                        mode,
                    )
            },
        !spec_prop_resolvable(*slope, *properties) || !spec_prop_resolvable(*offset, *properties)
            ==> r == Result::<RasterTile, ScalingError>::Err(ScalingError::MissingProperty),
        r is Err ==> {
            ||| r == Result::<RasterTile, ScalingError>::Err(ScalingError::MissingProperty) && (
            !spec_prop_resolvable(*slope, *properties) || !spec_prop_resolvable(
                *offset,
                *properties,
            ))
            ||| r == Result::<RasterTile, ScalingError>::Err(ScalingError::PropertyOutOfRange)
            ||| r == Result::<RasterTile, ScalingError>::Err(ScalingError::SlopeIsZero)
                && mode is Scale
        },
{
    let sl = match prop_value(slope, properties) {
        Ok(v) => v,
        Err(e) => {
            return Err(e);
        },
    };
    let off = match prop_value(offset, properties) {
        Ok(v) => v,
        Err(e) => {
            return Err(e);
        },
    };
    proof {
        assert forall|v: i64| spec_prop_resolves(*slope, *properties, v) implies v == sl by {
            lemma_prop_resolution_unique(*slope, *properties, v, sl);
        }
        assert forall|v: i64| spec_prop_resolves(*offset, *properties, v) implies v == off by {
            lemma_prop_resolution_unique(*offset, *properties, v, off);
        }
    }
    if !(-0x8000 <= sl && sl <= 0x8000 && -0x4000_0000 <= off && off <= 0x4000_0000) {
        return Err(ScalingError::PropertyOutOfRange);
    }
    if sl == 0 {
        match mode {
            ScalingMode::Scale => {
                return Err(ScalingError::SlopeIsZero);
            },
            ScalingMode::Unscale => {},
        }
    }
    match scale_tile(tile, sl, off, mode) {
        Ok(t) => Ok(t),
        Err(e) => Err(e),
    }
}

/// Applies the scaling formula to a whole tile.
pub fn scale_tile(tile: &RasterTile, slope: i64, offset: i64, mode: ScalingMode) -> (r: Result<
    RasterTile,
    ScalingError,
>)
    requires
        tile.wf(),
        forall|p: int|
            0 <= p < tile.data.data@.len() ==> -spec_scaling_cap() <= (#[trigger]
            tile.data.data@[p]) <= spec_scaling_cap(),
        -0x8000 <= slope <= 0x8000,
        -spec_scaling_cap() <= offset <= spec_scaling_cap(),
    ensures
        r is Ok <==> (mode is Scale ==> slope != 0),
        r is Err ==> r == Result::<RasterTile, ScalingError>::Err(ScalingError::SlopeIsZero),
        r matches Ok(t) ==> {
            &&& t.wf()
            &&& t.time == tile.time
            &&& t.tile == tile.tile
            &&& t.data.shape == tile.data.shape
            &&& t.data.no_data_value == tile.data.no_data_value
            &&& forall|p: int|
                0 <= p < tile.data.data@.len() ==> (#[trigger] t.data.data@[p])
                    == spec_scaled_pixel(
                    tile.data.data@[p],
                    tile.data.no_data_value,
                    slope,
                    offset,
                    mode,
                )
        },
{
    match transform_grid(&tile.data, slope, offset, mode) {
        Ok(data) => Ok(RasterTile { time: tile.time, tile: tile.tile, data }),
        Err(e) => Err(e),
    }
}

/// Applies the scaling formula to every tile of a stream, as the scaling
/// processor does to its child's output, tile by tile.
///
/// Fails exactly when scaling is asked for with a slope of zero.
pub fn scale_tiles(tiles: &Vec<RasterTile>, slope: i64, offset: i64, mode: ScalingMode) -> (r:
    Result<Vec<RasterTile>, ScalingError>)
    requires
        forall|k: int| 0 <= k < tiles@.len() ==> (#[trigger] tiles@[k]).wf(),
        forall|k: int, p: int|
            0 <= k < tiles@.len() && 0 <= p < (#[trigger] tiles@[k]).data.data@.len()
                ==> -spec_scaling_cap() <= (#[trigger] tiles@[k].data.data@[p])
                <= spec_scaling_cap(),
        -0x8000 <= slope <= 0x8000,
        -spec_scaling_cap() <= offset <= spec_scaling_cap(),
    ensures
        r is Ok <==> (mode is Scale ==> slope != 0),
        r is Err ==> r == Result::<Vec<RasterTile>, ScalingError>::Err(ScalingError::SlopeIsZero),
        r matches Ok(out) ==> out@.len() == tiles@.len() && (forall|k: int|
            0 <= k < tiles@.len() ==> {
                &&& (#[trigger] out@[k]).wf()
                &&& out@[k].time == tiles@[k].time
                &&& out@[k].tile == tiles@[k].tile
                &&& out@[k].data.shape == tiles@[k].data.shape
                &&& out@[k].data.no_data_value == tiles@[k].data.no_data_value
                &&& forall|p: int|
                    0 <= p < tiles@[k].data.data@.len() ==> (#[trigger] out@[k].data.data@[p])
                        == spec_scaled_pixel(
                        tiles@[k].data.data@[p],
                        tiles@[k].data.no_data_value,
                        slope,
                        offset,
                        mode,
                    )
            }),
{
    match mode {
        ScalingMode::Scale => {
            if slope == 0 {
                return Err(ScalingError::SlopeIsZero);
            }
        },
        ScalingMode::Unscale => {},
    }
    let mut out: Vec<RasterTile> = Vec::new();
    let mut k: usize = 0;
    while k < tiles.len()
        invariant
            k <= tiles@.len(),
            out@.len() == k,
            mode is Scale ==> slope != 0,
            forall|q: int|
                0 <= q < k ==> {
                    &&& (#[trigger] out@[q]).wf()
                    &&& out@[q].time == tiles@[q].time
                    &&& out@[q].tile == tiles@[q].tile
                    &&& out@[q].data.shape == tiles@[q].data.shape
                    &&& out@[q].data.no_data_value == tiles@[q].data.no_data_value
                    &&& forall|p: int|
                        0 <= p < tiles@[q].data.data@.len() ==> (#[trigger] out@[q].data.data@[p])
                            == spec_scaled_pixel(
                            tiles@[q].data.data@[p],
                            tiles@[q].data.no_data_value,
                            slope,
                            offset,
                            mode,
                        )
                },
        decreases tiles@.len() - k,
    {
        match scale_tile(&tiles[k], slope, offset, mode) {
            Ok(tile) => {
                out.push(tile);
            },
            Err(e) => {
                return Err(e);
            },
        }
        k = k + 1;
    }
    Ok(out)
}

} // verus!
