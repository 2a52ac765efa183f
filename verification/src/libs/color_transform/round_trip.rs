//! How close to the channels it started from a conversion comes back: from
//! the channels to hue, saturation and value and back, and from the channels
//! to the inks and back.

use crate::libs::arith::{
    lemma_round_div_bounds, lemma_round_div_exact, lemma_round_div_range,
    lemma_round_div_scale, lemma_round_div_shift, round_div,
};
use crate::libs::color_transform::cmyk_color::CmykModel;
use crate::libs::color_transform::hsv_color::{turn_of, HsvModel};
use crate::libs::color_transform::rgb_color::{shade, RgbModel};
use crate::libs::fraction::Ratio;
use vstd::prelude::*;

verus! {

/// No channel of `a` differs from that of `b` by more than `by`.
pub open spec fn near(a: RgbModel, b: RgbModel, by: int) -> bool {
    &&& -by <= a.red - b.red <= by
    &&& -by <= a.green - b.green <= by
    &&& -by <= a.blue - b.blue <= by
}

/// Each channel of `after` is that of `before`, as it was or moved by `m`,
/// and one of them is moved by `m`.
pub open spec fn moved_by(after: RgbModel, before: RgbModel, m: int) -> bool {
    &&& after.red == before.red || after.red == before.red + m
    &&& after.green == before.green || after.green == before.green + m
    &&& after.blue == before.blue || after.blue == before.blue + m
    &&& after.red == before.red + m || after.green == before.green + m || after.blue
        == before.blue + m
}

/// What rounding the hue to whole degrees does to the channel that is
/// neither the brightest nor the darkest, in sixtieths of a unit: `spread`
/// times the degrees that rounding added to the hue, counted towards the
/// brighter neighbour of the brightest channel. See `turn_of` for the
/// parameters.
pub open spec fn drift_of(base: int, next: int, prev: int, spread: int) -> int {
    let exact = 60 * (next - prev) + base * spread;
    let slip = spread * turn_of(base, next, prev, spread) - exact;
    if next >= prev {
        slip
    } else {
        -slip
    }
}

/// What rounding the hue of the given channels to whole degrees does to the
/// channel that is neither the brightest nor the darkest, in sixtieths of a
/// unit. It is 0 for grey.
pub open spec fn hue_drift(rgb: RgbModel) -> int {
    let top = rgb.highest();
    let spread = top - rgb.lowest();
    if spread == 0 {
        0
    } else if top == rgb.red {
        drift_of(360, rgb.green, rgb.blue, spread)
    } else if top == rgb.green {
        drift_of(120, rgb.blue, rgb.red, spread)
    } else {
        drift_of(240, rgb.red, rgb.green, spread)
    }
}

/// The channels in the order that a sector of the colour wheel gives them:
/// `top` the brightest, `low` the darkest, `up` the third where it rises
/// through the sector and `down` where it falls.
pub open spec fn wheel(sector: int, top: int, low: int, up: int, down: int) -> RgbModel {
    if sector == 0 {
        RgbModel { red: top, green: up, blue: low }
    } else if sector == 1 {
        RgbModel { red: down, green: top, blue: low }
    } else if sector == 2 {
        RgbModel { red: low, green: top, blue: up }
    } else if sector == 3 {
        RgbModel { red: low, green: down, blue: top }
    } else if sector == 4 {
        RgbModel { red: up, green: low, blue: top }
    } else {
        RgbModel { red: top, green: low, blue: down }
    }
}

/// With the saturation and value that channels of brightest `top` and
/// darkest `top - spread` have, a channel is the brightest less the weight's
/// share of the spread.
proof fn lemma_shade_of_channels(top: int, spread: int, w: int)
    requires
        0 < top,
        0 <= spread <= top,
        0 <= w <= 60,
    ensures
        shade(Ratio { num: 100 * spread, den: top }, Ratio { num: 100 * top, den: 255 }, w, 60)
            == round_div(60 * top - spread * w, 60),
{
    let x = 60 * top - spread * w;
    let k = 2550000 * top;
    assert(255 * ((100 * top) * (100 * (top * 60) - (100 * spread) * w)) == x * k)
        by (nonlinear_arith)
        requires
            x == 60 * top - spread * w,
            k == 2550000 * top,
    ;
    assert(10000 * (255 * (top * 60)) == 60 * k) by (nonlinear_arith)
        requires
            k == 2550000 * top,
    ;
    lemma_round_div_scale(x, 60, k);
}

/// The channels that come back from hue, saturation and value of channels
/// with brightest `top`, darkest `low` and hue `hue`.
proof fn lemma_back(top: int, low: int, hue: int)
    requires
        0 <= low < top <= 255,
        0 <= hue < 360,
    ensures
        RgbModel::from_hsv(
            HsvModel {
                hue: Ratio::whole(hue),
                saturation: Ratio { num: 100 * (top - low), den: top },
                value: Ratio { num: 100 * top, den: 255 },
            },
        ) == wheel(
            hue / 60,
            top,
            low,
            round_div(60 * low + (top - low) * (hue % 60), 60),
            round_div(60 * top - (top - low) * (hue % 60), 60),
        ),
{
    let spread = top - low;
    let f = hue % 60;
    lemma_shade_of_channels(top, spread, 0);
    lemma_shade_of_channels(top, spread, 60);
    lemma_shade_of_channels(top, spread, f);
    lemma_shade_of_channels(top, spread, 60 - f);
    assert(spread * 0 == 0);
    lemma_round_div_exact(top, 60);
    lemma_round_div_exact(low, 60);
    assert(60 * top - spread * 60 == low * 60);
    assert(60 * top - spread * (60 - f) == 60 * low + spread * f) by (nonlinear_arith)
        requires
            spread == top - low,
    ;
}

/// Where the third channel rises: the hue is `k` whole degrees past the
/// place of the brightest channel, and the third channel comes back moved by
/// what rounding did to `k`.
proof fn lemma_rising(base: int, low: int, spread: int, u: int)
    requires
        spread > 0,
        0 <= u <= spread,
    ensures
        0 <= round_div(60 * u, spread) <= 60,
        turn_of(base, low + u, low, spread) == base + round_div(60 * u, spread),
        drift_of(base, low + u, low, spread) == spread * round_div(60 * u, spread) - 60 * u,
        round_div(60 * low + spread * round_div(60 * u, spread), 60) == low + u + round_div(
            drift_of(base, low + u, low, spread),
            60,
        ),
        -spread < 2 * drift_of(base, low + u, low, spread) <= spread,
{
    let k = round_div(60 * u, spread);
    assert(0 * spread <= 60 * u <= 60 * spread);
    lemma_round_div_range(60 * u, spread, 0, 60);
    lemma_round_div_shift(60 * u, spread, base);
    assert(spread * (base + k) == base * spread + spread * k) by (nonlinear_arith);
    let drift = spread * k - 60 * u;
    lemma_round_div_shift(drift, 60, low + u);
    lemma_round_div_bounds(60 * u, spread);
    assert((2 * spread) * k == 2 * (spread * k)) by (nonlinear_arith);
}

/// Where the third channel falls: the hue is `j` whole degrees past the
/// place 60 degrees before that of the brightest channel, and the third
/// channel comes back moved by what rounding did to `j`.
proof fn lemma_falling(base: int, top: int, spread: int, u: int)
    requires
        spread > 0,
        0 <= u < spread,
    ensures
        0 <= round_div(60 * u, spread) <= 60,
        turn_of(base, top - spread, top - u, spread) == base - 60 + round_div(60 * u, spread),
        drift_of(base, top - spread, top - u, spread) == 60 * u - spread * round_div(
            60 * u,
            spread,
        ),
        round_div(60 * top - spread * round_div(60 * u, spread), 60) == top - u + round_div(
            drift_of(base, top - spread, top - u, spread),
            60,
        ),
        -spread <= 2 * drift_of(base, top - spread, top - u, spread) < spread,
{
    let j = round_div(60 * u, spread);
    assert(0 * spread <= 60 * u <= 60 * spread);
    lemma_round_div_range(60 * u, spread, 0, 60);
    lemma_round_div_shift(60 * u, spread, base - 60);
    assert(60 * ((top - spread) - (top - u)) + base * spread == 60 * u + (base - 60) * spread)
        by (nonlinear_arith);
    assert(spread * (base - 60 + j) == (base - 60) * spread + spread * j) by (nonlinear_arith);
    let drift = 60 * u - spread * j;
    lemma_round_div_shift(drift, 60, top - u);
    lemma_round_div_bounds(60 * u, spread);
    assert((2 * spread) * j == 2 * (spread * j)) by (nonlinear_arith);
}

/// The channels with brightest `top`, darkest `low` and third `third`, where
/// the brightest stands at `base` degrees and the third follows it on the
/// colour wheel.
pub open spec fn rising_channels(base: int, top: int, low: int, third: int) -> RgbModel {
    if base == 360 {
        RgbModel { red: top, green: third, blue: low }
    } else if base == 120 {
        RgbModel { red: low, green: top, blue: third }
    } else {
        RgbModel { red: third, green: low, blue: top }
    }
}

/// The channels with brightest `top`, darkest `low` and third `third`, where
/// the brightest stands at `base` degrees and the third precedes it on the
/// colour wheel.
pub open spec fn falling_channels(base: int, top: int, low: int, third: int) -> RgbModel {
    if base == 360 {
        RgbModel { red: top, green: low, blue: third }
    } else if base == 120 {
        RgbModel { red: third, green: top, blue: low }
    } else {
        RgbModel { red: low, green: third, blue: top }
    }
}

/// The round trip of channels whose third one follows the brightest.
proof fn lemma_round_trip_rising(base: int, top: int, low: int, third: int)
    requires
        0 <= low <= third <= top <= 255,
        low < top,
        base == 360 || base == 120 || base == 240,
    ensures
        RgbModel::from_hsv(
            HsvModel {
                hue: Ratio::whole(turn_of(base, third, low, top - low) % 360),
                saturation: Ratio { num: 100 * (top - low), den: top },
                value: Ratio { num: 100 * top, den: 255 },
            },
        ) == rising_channels(
            base,
            top,
            low,
            third + round_div(drift_of(base, third, low, top - low), 60),
        ),
        -(top - low) < 2 * drift_of(base, third, low, top - low) <= top - low,
{
    let spread = top - low;
    let u = third - low;
    lemma_rising(base, low, spread, u);
    let k = round_div(60 * u, spread);
    let hue = (base + k) % 360;
    let m = round_div(drift_of(base, third, low, spread), 60);
    lemma_back(top, low, hue);
    let up = round_div(60 * low + spread * (hue % 60), 60);
    let down = round_div(60 * top - spread * (hue % 60), 60);
    if k < 60 {
        assert(hue % 60 == k);
        assert(up == third + m);
        assert(hue / 60 == (if base == 360 {
            0int
        } else if base == 120 {
            2int
        } else {
            4int
        }));
    } else {
        assert(hue % 60 == 0);
        assert(spread * 0 == 0);
        lemma_round_div_exact(top, 60);
        assert(down == top);
        assert(60 * low + spread * 60 == top * 60);
        assert(top == third + m);
        assert(hue / 60 == (if base == 360 {
            1int
        } else if base == 120 {
            3int
        } else {
            5int
        }));
    }
}

/// The round trip of channels whose third one precedes the brightest.
proof fn lemma_round_trip_falling(base: int, top: int, low: int, third: int)
    requires
        0 <= low < third <= top <= 255,
        base == 360 || base == 120 || base == 240,
    ensures
        RgbModel::from_hsv(
            HsvModel {
                hue: Ratio::whole(turn_of(base, low, third, top - low) % 360),
                saturation: Ratio { num: 100 * (top - low), den: top },
                value: Ratio { num: 100 * top, den: 255 },
            },
        ) == falling_channels(
            base,
            top,
            low,
            third + round_div(drift_of(base, low, third, top - low), 60),
        ),
        -(top - low) <= 2 * drift_of(base, low, third, top - low) < top - low,
{
    let spread = top - low;
    let u = top - third;
    lemma_falling(base, top, spread, u);
    let j = round_div(60 * u, spread);
    let hue = (base - 60 + j) % 360;
    let m = round_div(drift_of(base, low, third, spread), 60);
    lemma_back(top, low, hue);
    let up = round_div(60 * low + spread * (hue % 60), 60);
    let down = round_div(60 * top - spread * (hue % 60), 60);
    if j < 60 {
        assert(hue % 60 == j);
        assert(down == third + m);
        assert(hue / 60 == (if base == 360 {
            5int
        } else if base == 120 {
            1int
        } else {
            3int
        }));
    } else {
        assert(hue % 60 == 0);
        assert(spread * 0 == 0);
        lemma_round_div_exact(low, 60);
        assert(up == low);
        assert(60 * top - spread * 60 == low * 60);
        assert(low == third + m);
        assert(hue / 60 == (if base == 360 {
            0int
        } else if base == 120 {
            2int
        } else {
            4int
        }));
    }
}

/// The round trip of grey.
proof fn lemma_round_trip_grey(top: int)
    requires
        0 <= top <= 255,
    ensures
        RgbModel::from_hsv(
            HsvModel {
                hue: Ratio::whole(0),
                saturation: if top == 0 {
                    Ratio::whole(0)
                } else {
                    Ratio { num: 0, den: top }
                },
                value: Ratio { num: 100 * top, den: 255 },
            },
        ) == (RgbModel { red: top, green: top, blue: top }),
{
    let v = Ratio { num: 100 * top, den: 255 };
    if top == 0 {
        let s = Ratio::whole(0);
        lemma_round_div_exact(0, 153000000int);
        assert(0 * (100 * (1 * 60) - 0 * 0) == 0);
        assert(shade(s, v, 0, 60) == 0);
    } else {
        let s = Ratio { num: 0, den: top };
        lemma_shade_of_channels(top, 0, 0);
        lemma_round_div_exact(top, 60);
        assert(0 * 0 == 0 && 100 * 0 == 0);
        assert(shade(s, v, 0, 60) == top);
    }
}

/// From the channels to hue, saturation and value and back: the brightest
/// and the darkest channel come back as they were, and rounding the hue to
/// whole degrees moves the third one by `hue_drift` sixtieths, rounded.
pub proof fn lemma_rgb_hsv_round_trip(rgb: RgbModel)
    requires
        rgb.in_range(),
    ensures
        moved_by(
            RgbModel::from_hsv(HsvModel::from_rgb(rgb)),
            rgb,
            round_div(hue_drift(rgb), 60),
        ),
        -255 < 2 * hue_drift(rgb) <= 255,
{
    let top = rgb.highest();
    let low = rgb.lowest();
    let spread = top - low;
    assert(rgb.clamped() == rgb);
    if spread == 0 {
        lemma_round_div_exact(0, 60);
        lemma_round_trip_grey(top);
    } else if top == rgb.red {
        if rgb.green >= rgb.blue {
            lemma_round_trip_rising(360, top, low, rgb.green);
        } else {
            lemma_round_trip_falling(360, top, low, rgb.blue);
        }
    } else if top == rgb.green {
        if rgb.blue >= rgb.red {
            lemma_round_trip_rising(120, top, low, rgb.blue);
        } else {
            lemma_round_trip_falling(120, top, low, rgb.red);
        }
    } else {
        if rgb.red >= rgb.green {
            lemma_round_trip_rising(240, top, low, rgb.red);
        } else {
            lemma_round_trip_falling(240, top, low, rgb.green);
        }
    }
}

/// From the channels to hue, saturation and value and back, no channel
/// moves by more than 2.
pub proof fn lemma_rgb_hsv_within_two(rgb: RgbModel)
    requires
        rgb.in_range(),
    ensures
        near(RgbModel::from_hsv(HsvModel::from_rgb(rgb)), rgb, 2),
{
    lemma_rgb_hsv_round_trip(rgb);
    lemma_round_div_bounds(hue_drift(rgb), 60);
}

/// From the channels to hue, saturation and value and back, no channel
/// moves by more than 1 where rounding the hue moves the third channel by
/// less than one and a half: where `hue_drift` is at least -90 and less
/// than 90.
pub proof fn lemma_rgb_hsv_within_one(rgb: RgbModel)
    requires
        rgb.in_range(),
        -90 <= hue_drift(rgb) < 90,
    ensures
        near(RgbModel::from_hsv(HsvModel::from_rgb(rgb)), rgb, 1),
{
    lemma_rgb_hsv_round_trip(rgb);
    lemma_round_div_bounds(hue_drift(rgb), 60);
}

/// From the channels to hue, saturation and value and back, a channel moves
/// by 2 wherever `hue_drift` is below -90 or at least 90.
pub proof fn lemma_rgb_hsv_beyond_one(rgb: RgbModel)
    requires
        rgb.in_range(),
        !(-90 <= hue_drift(rgb) < 90),
    ensures
        !near(RgbModel::from_hsv(HsvModel::from_rgb(rgb)), rgb, 1),
{
    lemma_rgb_hsv_round_trip(rgb);
    lemma_round_div_bounds(hue_drift(rgb), 60);
}

/// Channels that are no more than 180 apart have a `hue_drift` of at least
/// -90 and less than 90: from them to hue, saturation and value and back,
/// no channel moves by more than 1.
pub proof fn lemma_hue_drift_of_close_channels(rgb: RgbModel)
    requires
        rgb.in_range(),
        rgb.highest() - rgb.lowest() <= 180,
    ensures
        -90 <= hue_drift(rgb) < 90,
        near(RgbModel::from_hsv(HsvModel::from_rgb(rgb)), rgb, 1),
{
    let top = rgb.highest();
    let low = rgb.lowest();
    let spread = top - low;
    if spread == 0 {
    } else if top == rgb.red {
        if rgb.green >= rgb.blue {
            lemma_rising(360, low, spread, rgb.green - low);
            lemma_half_turn(spread, round_div(60 * (rgb.green - low), spread), rgb.green - low);
        } else {
            lemma_falling(360, top, spread, top - rgb.blue);
        }
    } else if top == rgb.green {
        if rgb.blue >= rgb.red {
            lemma_rising(120, low, spread, rgb.blue - low);
            lemma_half_turn(spread, round_div(60 * (rgb.blue - low), spread), rgb.blue - low);
        } else {
            lemma_falling(120, top, spread, top - rgb.red);
        }
    } else {
        if rgb.red >= rgb.green {
            lemma_rising(240, low, spread, rgb.red - low);
            lemma_half_turn(spread, round_div(60 * (rgb.red - low), spread), rgb.red - low);
        } else {
            lemma_falling(240, top, spread, top - rgb.green);
        }
    }
    lemma_rgb_hsv_within_one(rgb);
}

/// With a spread of 180, whole degrees never miss the hue by 90 of its
/// units.
proof fn lemma_half_turn(spread: int, k: int, u: int)
    requires
        spread <= 180,
        2 * (spread * k - 60 * u) <= spread,
    ensures
        spread * k - 60 * u < 90,
{
    let x = spread * k;
    if spread == 180 {
        let t = 3 * k - u;
        assert(x - 60 * u == 60 * t) by (nonlinear_arith)
            requires
                x == spread * k,
                spread == 180,
                t == 3 * k - u,
        ;
        assert(t <= 1);
    } else {
        assert(2 * (x - 60 * u) <= 179);
    }
}

/// What rounding the share of black does to the share of 255 that black
/// leaves, in hundredths of a unit, for channels of brightest `top`.
pub open spec fn black_slip(top: int) -> int {
    255 * (100 - round_div(100 * (255 - top), 255)) - 100 * top
}

/// What rounding the share of an ink does to the share of `top` that the ink
/// leaves, in hundredths of a unit, for the channel `channel` beside a
/// brightest channel `top`.
pub open spec fn ink_slip(top: int, channel: int) -> int {
    top * (100 - round_div(100 * (top - channel), top)) - 100 * channel
}

/// What rounding the inks to whole percent does to a channel of the given
/// channels, in ten-thousandths of a unit: what it does to the share that
/// black leaves, times the share that the channel's ink leaves, and a
/// hundred times what it does to that one. It is 0 for black.
pub open spec fn ink_drift(rgb: RgbModel, channel: int) -> int {
    let top = rgb.highest();
    if top == 0 {
        0
    } else {
        (100 - round_div(100 * (top - channel), top)) * black_slip(top) + 100 * ink_slip(
            top,
            channel,
        )
    }
}

/// Rounding moves the share that black leaves by less than 128 hundredths,
/// and by no more than 120 for a brightest channel above 245.
proof fn lemma_black_slip(top: int)
    requires
        0 <= top <= 255,
    ensures
        -127 <= black_slip(top) <= 127,
        top >= 246 ==> -120 <= black_slip(top) <= 120,
        0 <= round_div(100 * (255 - top), 255) <= 100,
{
    let k = round_div(100 * (255 - top), 255);
    lemma_round_div_bounds(100 * (255 - top), 255);
    lemma_round_div_range(100 * (255 - top), 255, 0, 100);
    assert((2 * 255) * k == 510 * k);
}

/// One channel on its way to the inks and back: it moves by `ink_drift`
/// ten-thousandths, rounded, and that is less than two and a half.
proof fn lemma_channel_round_trip(top: int, channel: int)
    requires
        0 < top <= 255,
        0 <= channel <= top,
    ensures
        round_div(
            255 * ((100 - round_div(100 * (top - channel), top)) * (100 - round_div(
                100 * (255 - top),
                255,
            ))),
            10000,
        ) == channel + round_div(
            (100 - round_div(100 * (top - channel), top)) * black_slip(top) + 100 * ink_slip(
                top,
                channel,
            ),
            10000,
        ),
        -25000 < (100 - round_div(100 * (top - channel), top)) * black_slip(top) + 100
            * ink_slip(top, channel) < 25000,
        0 <= round_div(100 * (top - channel), top) <= 100,
{
    let c = round_div(100 * (top - channel), top);
    let k = round_div(100 * (255 - top), 255);
    let a = black_slip(top);
    let b = ink_slip(top, channel);
    let left = 100 - c;
    lemma_black_slip(top);
    assert(0 * top <= 100 * (top - channel) <= 100 * top);
    lemma_round_div_range(100 * (top - channel), top, 0, 100);
    lemma_round_div_bounds(100 * (top - channel), top);
    assert(-top <= 2 * b < top) by (nonlinear_arith)
        requires
            (2 * top) * c <= 2 * (100 * (top - channel)) + top < (2 * top) * c + 2 * top,
            b == top * (100 - c) - 100 * channel,
    ;
    let drift = left * a + 100 * b;
    assert(255 * (left * (100 - k)) == drift + channel * 10000) by (nonlinear_arith)
        requires
            a == 255 * (100 - k) - 100 * top,
            b == top * left - 100 * channel,
            drift == left * a + 100 * b,
    ;
    lemma_round_div_shift(drift, 10000, channel);
    if top >= 246 {
        assert(-12000 <= left * a <= 12000) by (nonlinear_arith)
            requires
                0 <= left <= 100,
                -120 <= a <= 120,
        ;
    } else {
        assert(-12700 <= left * a <= 12700) by (nonlinear_arith)
            requires
                0 <= left <= 100,
                -127 <= a <= 127,
        ;
    }
}

/// From the channels to the inks and back: each channel moves by its
/// `ink_drift` ten-thousandths, rounded, which is never more than 2.
pub proof fn lemma_rgb_cmyk_round_trip(rgb: RgbModel)
    requires
        rgb.in_range(),
    ensures
        RgbModel::from_cmyk(CmykModel::from_rgb(rgb)) == (RgbModel {
            red: rgb.red + round_div(ink_drift(rgb, rgb.red), 10000),
            green: rgb.green + round_div(ink_drift(rgb, rgb.green), 10000),
            blue: rgb.blue + round_div(ink_drift(rgb, rgb.blue), 10000),
        }),
        -25000 < ink_drift(rgb, rgb.red) < 25000,
        -25000 < ink_drift(rgb, rgb.green) < 25000,
        -25000 < ink_drift(rgb, rgb.blue) < 25000,
{
    let top = rgb.highest();
    assert(rgb.clamped() == rgb);
    if top == 0 {
        lemma_round_div_exact(0, 10000);
        assert(255 * ((100 - 0) * (100 - 100)) == 0);
    } else {
        lemma_black_slip(top);
        lemma_channel_round_trip(top, rgb.red);
        lemma_channel_round_trip(top, rgb.green);
        lemma_channel_round_trip(top, rgb.blue);
        assert(CmykModel::from_rgb(rgb).clamped() == CmykModel::from_rgb(rgb));
    }
}

/// From the channels to the inks and back, no channel moves by more than 2.
pub proof fn lemma_rgb_cmyk_within_two(rgb: RgbModel)
    requires
        rgb.in_range(),
    ensures
        near(RgbModel::from_cmyk(CmykModel::from_rgb(rgb)), rgb, 2),
{
    lemma_rgb_cmyk_round_trip(rgb);
    lemma_round_div_bounds(ink_drift(rgb, rgb.red), 10000);
    lemma_round_div_bounds(ink_drift(rgb, rgb.green), 10000);
    lemma_round_div_bounds(ink_drift(rgb, rgb.blue), 10000);
}

/// Whether rounding the inks moves each channel by less than one and a half:
/// each `ink_drift` is at least -15000 and less than 15000.
pub open spec fn inks_hold(rgb: RgbModel) -> bool {
    &&& -15000 <= ink_drift(rgb, rgb.red) < 15000
    &&& -15000 <= ink_drift(rgb, rgb.green) < 15000
    &&& -15000 <= ink_drift(rgb, rgb.blue) < 15000
}

/// From the channels to the inks and back, no channel moves by more than 1
/// where the inks hold.
pub proof fn lemma_rgb_cmyk_within_one(rgb: RgbModel)
    requires
        rgb.in_range(),
        inks_hold(rgb),
    ensures
        near(RgbModel::from_cmyk(CmykModel::from_rgb(rgb)), rgb, 1),
{
    lemma_rgb_cmyk_round_trip(rgb);
    lemma_round_div_bounds(ink_drift(rgb, rgb.red), 10000);
    lemma_round_div_bounds(ink_drift(rgb, rgb.green), 10000);
    lemma_round_div_bounds(ink_drift(rgb, rgb.blue), 10000);
}

/// From the channels to the inks and back, a channel moves by 2 wherever the
/// inks do not hold.
pub proof fn lemma_rgb_cmyk_beyond_one(rgb: RgbModel)
    requires
        rgb.in_range(),
        !inks_hold(rgb),
    ensures
        !near(RgbModel::from_cmyk(CmykModel::from_rgb(rgb)), rgb, 1),
{
    lemma_rgb_cmyk_round_trip(rgb);
    lemma_round_div_bounds(ink_drift(rgb, rgb.red), 10000);
    lemma_round_div_bounds(ink_drift(rgb, rgb.green), 10000);
    lemma_round_div_bounds(ink_drift(rgb, rgb.blue), 10000);
}

/// The inks hold for every colour that needs no black: one whose brightest
/// channel is 255.
pub proof fn lemma_inks_hold_without_black(rgb: RgbModel)
    requires
        rgb.in_range(),
        rgb.highest() == 255,
    ensures
        inks_hold(rgb),
        near(RgbModel::from_cmyk(CmykModel::from_rgb(rgb)), rgb, 1),
{
    lemma_round_div_exact(0, 255);
    assert(black_slip(255) == 0);
    lemma_ink_slip(255, rgb.red);
    lemma_ink_slip(255, rgb.green);
    lemma_ink_slip(255, rgb.blue);
    lemma_rgb_cmyk_within_one(rgb);
}

/// Rounding moves the share that an ink leaves by no more than half of the
/// brightest channel, in hundredths.
proof fn lemma_ink_slip(top: int, channel: int)
    requires
        0 < top <= 255,
        0 <= channel <= top,
    ensures
        -top <= 2 * ink_slip(top, channel) < top,
        (100 - round_div(100 * (top - channel), top)) * 0 == 0,
{
    let c = round_div(100 * (top - channel), top);
    lemma_round_div_bounds(100 * (top - channel), top);
    assert(-top <= 2 * ink_slip(top, channel) < top) by (nonlinear_arith)
        requires
            (2 * top) * c <= 2 * (100 * (top - channel)) + top < (2 * top) * c + 2 * top,
            ink_slip(top, channel) == top * (100 - c) - 100 * channel,
    ;
}

} // verus!
