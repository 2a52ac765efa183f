//! What holds of the conversions and the text formats, for every colour.

use crate::constants::DEGREE;
use crate::libs::color_transform::cmyk_color::{cmyk_marks, CmykModel};
use crate::libs::arith::{lemma_round_div_exact, lemma_round_div_range, round_div};
use crate::libs::color_transform::hex_color::{
    all_hex, bare, hex_digit_value, hex_text, is_hex_digit, is_hex_text, is_long_hex,
    lemma_hex_of_rgb, lower_char, lower_text, rgb_of_hex, six_digits,
};
use crate::libs::color_transform::hsl_color::HslModel;
use crate::libs::color_transform::hsv_color::{degree_marks, parse_degrees, HsvModel};
use crate::libs::color_transform::rgb_color::{rgb_marks, shade, RgbModel};
use crate::libs::color_transform::ColorModel;
use crate::libs::color_validate::{
    valid_cmyk_text, valid_hex_text, valid_hsv_text, valid_rgb_text,
};
use crate::libs::fraction::{lemma_rounded_at_most, lemma_wrapped_below, Ratio};
use crate::libs::grammar::{
    fields_at, in_marks, join_fields, last_match, lemma_fields_alphabet, lemma_fields_of_join,
    lemma_last_match_is_match, lemma_last_of_whole, match_at,
};
use crate::libs::text::{decimal_text, is_digit, is_space, lemma_decimal_text};
use vstd::arithmetic::div_mod::{
    lemma_div_pos_is_pos, lemma_fundamental_div_mod, lemma_fundamental_div_mod_converse,
    lemma_mod_bound,
};
use vstd::prelude::*;

verus! {

/// Without saturation the three channels are equal, whatever the hue.
pub proof fn lemma_achromatic(hsv: HsvModel)
    requires
        hsv.wf(),
        hsv.saturation.is_zero(),
    ensures
        RgbModel::from_hsv(hsv).red == RgbModel::from_hsv(hsv).green,
        RgbModel::from_hsv(hsv).green == RgbModel::from_hsv(hsv).blue,
{
}

/// A full turn added to the hue does not change the channels.
pub proof fn lemma_full_turn(hsv: HsvModel)
    requires
        hsv.wf(),
    ensures
        RgbModel::from_hsv(
            HsvModel {
                hue: Ratio { num: hsv.hue.num + 360 * hsv.hue.den, den: hsv.hue.den },
                saturation: hsv.saturation,
                value: hsv.value,
            },
        ) == RgbModel::from_hsv(hsv),
{
    let turn = 60 * hsv.hue.den;
    let n = hsv.hue.num;
    assert(n + 360 * hsv.hue.den == n + 6 * turn);
    lemma_fundamental_div_mod(n, turn);
    let q = n / turn;
    let r = n % turn;
    assert(n + 6 * turn == (q + 6) * turn + r) by (nonlinear_arith)
        requires
            n == turn * q + r,
    ;
    lemma_fundamental_div_mod_converse(n + 6 * turn, turn, q + 6, r);
}

/// The channels of a hue are those of what is left of it when the whole
/// turns of 360 degrees are taken away.
pub proof fn lemma_hue_wrapped(hsv: HsvModel)
    requires
        hsv.wf(),
    ensures
        RgbModel::from_hsv(
            HsvModel {
                hue: hsv.hue.wrapped(360),
                saturation: hsv.saturation,
                value: hsv.value,
            },
        ) == RgbModel::from_hsv(hsv),
{
    let d = hsv.hue.den;
    let n = hsv.hue.num;
    let turn = 60 * d;
    let full = 360 * d;
    let q = n / full;
    let r = n % full;
    let k = r / turn;
    let f = r % turn;
    lemma_fundamental_div_mod(n, full);
    lemma_mod_bound(n, full);
    lemma_fundamental_div_mod(r, turn);
    lemma_mod_bound(r, turn);
    lemma_div_pos_is_pos(r, turn);
    assert(k < 6) by (nonlinear_arith)
        requires
            r == turn * k + f,
            0 <= f,
            r < 6 * turn,
            turn > 0,
    ;
    assert(n == (6 * q + k) * turn + f) by (nonlinear_arith)
        requires
            n == full * q + r,
            r == turn * k + f,
            full == 6 * turn,
    ;
    lemma_fundamental_div_mod_converse(n, turn, 6 * q + k, f);
    assert((6 * q + k) % 6 == k % 6);
}

/// Built from numbers, a hue of 360 degrees gives the colour that a hue of
/// 0 degrees gives, for every saturation and value in range: its hue is 0.
pub proof fn lemma_hue_wraps(s: Ratio, v: Ratio)
    requires
        s.wf() && s.at_most(100),
        v.wf() && v.at_most(100),
    ensures
        ColorModel::from_hsv_values(Ratio::whole(360), s, v) is Some,
        ColorModel::from_hsv_values(Ratio::whole(360), s, v) == ColorModel::from_hsv_values(
            Ratio::whole(0),
            s,
            v,
        ),
        ColorModel::from_hsv_values(Ratio::whole(360), s, v)->0.hsv.hue == Ratio::whole(0),
        ColorModel::from_hsv_values(Ratio::whole(360), s, v)->0.hsv.saturation == s,
        ColorModel::from_hsv_values(Ratio::whole(360), s, v)->0.hsv.value == v,
{
    assert(360int % 360int == 0);
    assert(0int % 360int == 0);
}

/// Built from numbers, a colour has a hue from 0 to below 360, whatever the
/// hue given, and the channels of the hue given; it is in range throughout.
pub proof fn lemma_from_values_in_range(h: Ratio, s: Ratio, v: Ratio)
    requires
        h.wf(),
        s.wf() && s.at_most(100),
        v.wf() && v.at_most(100),
    ensures
        ColorModel::from_hsv_values(h, s, v) is Some,
        all_in_range(ColorModel::from_hsv_values(h, s, v)->0),
        ColorModel::from_hsv_values(h, s, v)->0.rgb == RgbModel::from_hsv(
            HsvModel { hue: h, saturation: s, value: v },
        ),
{
    lemma_wrapped_below(h, 360);
    lemma_hue_wrapped(HsvModel { hue: h, saturation: s, value: v });
    lemma_of_hsv_in_range(HsvModel { hue: h.wrapped(360), saturation: s, value: v });
}

/// Four texts with a mark and a space behind each but the last, which has a
/// mark alone, grouped from the left and from the right.
proof fn lemma_regroup_four(
    d0: Seq<char>,
    d1: Seq<char>,
    d2: Seq<char>,
    d3: Seq<char>,
    m: Seq<char>,
    g: Seq<char>,
    last: Seq<char>,
)
    requires
        g == m + seq![' '],
    ensures
        d0 + g + d1 + g + d2 + g + d3 + last == d0 + m + seq![' '] + (d1 + m + seq![' '] + (d2 + m
            + seq![' '] + (d3 + last))),
{
    assert(d0 + g + d1 + g + d2 + g + d3 + last =~= d0 + m + seq![' '] + (d1 + m + seq![' '] + (d2
        + m + seq![' '] + (d3 + last))));
}

/// Three texts with a mark and a space behind the first and the second, and
/// a mark behind the third, grouped from the left and from the right.
proof fn lemma_regroup_three(
    d0: Seq<char>,
    d1: Seq<char>,
    d2: Seq<char>,
    m0: Seq<char>,
    g0: Seq<char>,
    m1: Seq<char>,
    g1: Seq<char>,
    last: Seq<char>,
)
    requires
        g0 == m0 + seq![' '],
        g1 == m1 + seq![' '],
    ensures
        d0 + g0 + d1 + g1 + d2 + last == d0 + m0 + seq![' '] + (d1 + m1 + seq![' '] + (d2
            + last)),
{
    assert(d0 + g0 + d1 + g1 + d2 + last =~= d0 + m0 + seq![' '] + (d1 + m1 + seq![' '] + (d2
        + last)));
}

/// The text of four inks reads back as the same inks.
pub proof fn lemma_cmyk_text_reads_back(cmyk: CmykModel)
    requires
        cmyk.fits_text(),
    ensures
        CmykModel::parse(cmyk.text()) == Some(cmyk),
{
    let values = seq![
        cmyk.cyan as nat,
        cmyk.magenta as nat,
        cmyk.yellow as nat,
        cmyk.black as nat,
    ];
    let marks = cmyk_marks();
    let m1 = marks.drop_first();
    let m2 = m1.drop_first();
    let m3 = m2.drop_first();
    let v1 = values.drop_first();
    let v2 = v1.drop_first();
    let v3 = v2.drop_first();
    let d0 = decimal_text(cmyk.cyan as nat);
    let d1 = decimal_text(cmyk.magenta as nat);
    let d2 = decimal_text(cmyk.yellow as nat);
    let d3 = decimal_text(cmyk.black as nat);
    let between = seq!['%', ','];
    let text = cmyk.text();
    assert(text == join_fields(values, marks)) by {
        assert(m1 =~= seq![between, between, seq!['%']]);
        assert(m2 =~= seq![between, seq!['%']]);
        assert(m3 =~= seq![seq!['%']]);
        assert(v1 =~= seq![cmyk.magenta as nat, cmyk.yellow as nat, cmyk.black as nat]);
        assert(v2 =~= seq![cmyk.yellow as nat, cmyk.black as nat]);
        assert(v3 =~= seq![cmyk.black as nat]);
        assert(join_fields(v3, m3) == d3 + seq!['%']);
        assert(join_fields(v2, m2) == d2 + between + seq![' '] + join_fields(v3, m3));
        assert(join_fields(v1, m1) == d1 + between + seq![' '] + join_fields(v2, m2));
        assert(join_fields(values, marks) == d0 + between + seq![' '] + join_fields(v1, m1));
        assert(seq!['%', ',', ' '] =~= between + seq![' ']);
        lemma_regroup_four(d0, d1, d2, d3, between, seq!['%', ',', ' '], seq!['%']);
    }
    assert(text.subrange(0, text.len() as int) =~= text);
    lemma_fields_of_join(text, 0, values, marks);
}

/// The text of three channels reads back as the same channels.
pub proof fn lemma_rgb_text_reads_back(rgb: RgbModel)
    requires
        rgb.fits_text(),
    ensures
        RgbModel::parse(rgb.text()) == Some(rgb),
{
    let values = seq![rgb.red as nat, rgb.green as nat, rgb.blue as nat];
    let marks = rgb_marks();
    let m1 = marks.drop_first();
    let m2 = m1.drop_first();
    let v1 = values.drop_first();
    let v2 = v1.drop_first();
    let d0 = decimal_text(rgb.red as nat);
    let d1 = decimal_text(rgb.green as nat);
    let d2 = decimal_text(rgb.blue as nat);
    let text = rgb.text();
    assert(text == join_fields(values, marks)) by {
        assert(m1 =~= seq![seq![','], Seq::<char>::empty()]);
        assert(m2 =~= seq![Seq::<char>::empty()]);
        assert(v1 =~= seq![rgb.green as nat, rgb.blue as nat]);
        assert(v2 =~= seq![rgb.blue as nat]);
        assert(join_fields(v2, m2) == d2 + Seq::<char>::empty());
        assert(join_fields(v1, m1) == d1 + seq![','] + seq![' '] + join_fields(v2, m2));
        assert(join_fields(values, marks) == d0 + seq![','] + seq![' '] + join_fields(v1, m1));
        assert(seq![',', ' '] =~= seq![','] + seq![' ']);
        lemma_regroup_three(
            d0,
            d1,
            d2,
            seq![','],
            seq![',', ' '],
            seq![','],
            seq![',', ' '],
            Seq::<char>::empty(),
        );
        assert(d0 + seq![',', ' '] + d1 + seq![',', ' '] + d2 + Seq::<char>::empty() =~= text);
    }
    assert(text.subrange(0, text.len() as int) =~= text);
    lemma_fields_of_join(text, 0, values, marks);
}

/// The text of three numbers with a degree sign and two percent signs reads
/// back as these numbers.
pub proof fn lemma_degrees_read_back(a: nat, b: nat, c: nat)
    requires
        a <= 999,
        b <= 999,
        c <= 999,
    ensures
        parse_degrees(
            decimal_text(a) + seq![DEGREE, ',', ' '] + decimal_text(b) + seq!['%', ',', ' ']
                + decimal_text(c) + seq!['%'],
        ) == Some(seq![a, b, c]),
{
    let d0 = decimal_text(a);
    let d1 = decimal_text(b);
    let d2 = decimal_text(c);
    let text = d0 + seq![DEGREE, ',', ' '] + d1 + seq!['%', ',', ' '] + d2 + seq!['%'];
    let values = seq![a, b, c];
    let marks = degree_marks();
    let m1 = marks.drop_first();
    let m2 = m1.drop_first();
    let v1 = values.drop_first();
    let v2 = v1.drop_first();
    assert(text == join_fields(values, marks)) by {
        assert(m1 =~= seq![seq!['%', ','], seq!['%']]);
        assert(m2 =~= seq![seq!['%']]);
        assert(v1 =~= seq![b, c]);
        assert(v2 =~= seq![c]);
        assert(join_fields(v2, m2) == d2 + seq!['%']);
        assert(join_fields(v1, m1) == d1 + seq!['%', ','] + seq![' '] + join_fields(v2, m2));
        assert(join_fields(values, marks) == d0 + seq![DEGREE, ','] + seq![' '] + join_fields(
            v1,
            m1,
        ));
        assert(seq![DEGREE, ',', ' '] =~= seq![DEGREE, ','] + seq![' ']);
        assert(seq!['%', ',', ' '] =~= seq!['%', ','] + seq![' ']);
        lemma_regroup_three(
            d0,
            d1,
            d2,
            seq![DEGREE, ','],
            seq![DEGREE, ',', ' '],
            seq!['%', ','],
            seq!['%', ',', ' '],
            seq!['%'],
        );
    }
    assert(text.subrange(0, text.len() as int) =~= text);
    lemma_fields_of_join(text, 0, values, marks);
    assert(text.len() > 0) by {
        lemma_decimal_text(a);
    }
    lemma_last_of_whole(text, values, marks);
}

/// The text of hue, saturation and value reads back as the three numbers
/// that it shows: the components rounded.
pub proof fn lemma_hsv_text_reads_back(hsv: HsvModel)
    requires
        hsv.fits_text(),
    ensures
        HsvModel::parse(hsv.text()) == Some(
            HsvModel {
                hue: Ratio::whole(hsv.hue.rounded()),
                saturation: Ratio::whole(hsv.saturation.rounded()),
                value: Ratio::whole(hsv.value.rounded()),
            },
        ),
{
    lemma_rounded_at_most(hsv.hue, 999);
    lemma_rounded_at_most(hsv.saturation, 999);
    lemma_rounded_at_most(hsv.value, 999);
    lemma_degrees_read_back(
        hsv.hue.rounded() as nat,
        hsv.saturation.rounded() as nat,
        hsv.value.rounded() as nat,
    );
}

/// The text of hue, saturation and lightness reads back as the three numbers
/// that it shows: the hue rounded, saturation and lightness as they are.
pub proof fn lemma_hsl_text_reads_back(hsl: HslModel)
    requires
        hsl.fits_text(),
    ensures
        HslModel::parse(hsl.text()) == Some(
            HslModel {
                hue: Ratio::whole(hsl.hue.rounded()),
                saturation: hsl.saturation,
                lightness: hsl.lightness,
            },
        ),
{
    lemma_rounded_at_most(hsl.hue, 999);
    lemma_degrees_read_back(
        hsl.hue.rounded() as nat,
        hsl.saturation as nat,
        hsl.lightness as nat,
    );
}

/// A whole number rounds to itself.
pub proof fn lemma_whole_rounded(n: int)
    ensures
        Ratio::whole(n).rounded() == n,
{
    lemma_round_div_exact(n, 1);
    assert(n * 1 == n);
}

/// The canonical form of a colour in hexadecimal is a colour in hexadecimal,
/// denotes the same channels, and is its own canonical form.
pub proof fn lemma_hex_text_canonical(s: Seq<char>)
    requires
        is_hex_text(s),
    ensures
        is_long_hex(hex_text(s)),
        rgb_of_hex(hex_text(s)) == rgb_of_hex(s),
        hex_text(hex_text(s)) == hex_text(s),
{
    let six = six_digits(s);
    let b = bare(s);
    assert(six.len() == 6);
    assert forall|i: int| 0 <= i < 6 implies is_hex_digit(#[trigger] six[i]) by {
        if b.len() == 3 {
            assert(is_hex_digit(b[0]) && is_hex_digit(b[1]) && is_hex_digit(b[2]));
        } else {
            assert(is_hex_digit(b[i]));
        }
    }
    let low = lower_text(six);
    let t = hex_text(s);
    assert(t == seq!['#'] + low);
    assert(bare(t) =~= low);
    assert forall|i: int| 0 <= i < 6 implies is_hex_digit(#[trigger] low[i]) && hex_digit_value(
        low[i],
    ) == hex_digit_value(six[i]) && lower_char(low[i]) == low[i] by {
        assert(is_hex_digit(six[i]));
        assert(low[i] == lower_char(six[i]));
    }
    assert(all_hex(bare(t)));
    assert(six_digits(t) == low);
    assert(lower_text(low) =~= low);
}

/// Writing a colour in hexadecimal and reading what was written gives a
/// colour that is written in the same way.
pub proof fn lemma_hex_value_idempotent(c: ColorModel)
    requires
        c.wf(),
    ensures
        ColorModel::from_hex(hex_text(c.hex)) is Some,
        hex_text(ColorModel::from_hex(hex_text(c.hex))->0.hex) == hex_text(c.hex),
{
    lemma_hex_text_canonical(c.hex);
}

/// Writing the channels of a colour and reading what was written gives a
/// colour with the same channels, written in the same way.
pub proof fn lemma_rgb_value_idempotent(c: ColorModel)
    requires
        c.wf(),
    ensures
        ColorModel::from_rgb(c.rgb.text()) is Some,
        ColorModel::from_rgb(c.rgb.text())->0.rgb == c.rgb,
        ColorModel::from_rgb(c.rgb.text())->0.rgb.text() == c.rgb.text(),
{
    lemma_rgb_text_reads_back(c.rgb);
}

/// Writing the inks of a colour and reading what was written gives a colour
/// with the same inks, written in the same way.
pub proof fn lemma_cmyk_value_idempotent(c: ColorModel)
    requires
        c.wf(),
    ensures
        ColorModel::from_cmyk(c.cmyk.text()) is Some,
        ColorModel::from_cmyk(c.cmyk.text())->0.cmyk == c.cmyk,
        ColorModel::from_cmyk(c.cmyk.text())->0.cmyk.text() == c.cmyk.text(),
{
    lemma_cmyk_text_reads_back(c.cmyk);
}

/// Writing hue, saturation and value of a colour and reading what was
/// written gives a colour whose hue, saturation and value are written in
/// the same way.
pub proof fn lemma_hsv_value_idempotent(c: ColorModel)
    requires
        c.wf(),
    ensures
        ColorModel::from_hsv(c.hsv.text()) is Some,
        ColorModel::from_hsv(c.hsv.text())->0.hsv.text() == c.hsv.text(),
{
    lemma_hsv_text_reads_back(c.hsv);
    lemma_whole_rounded(c.hsv.hue.rounded());
    lemma_whole_rounded(c.hsv.saturation.rounded());
    lemma_whole_rounded(c.hsv.value.rounded());
}

/// Writing hue, saturation and lightness of a colour and reading what was
/// written gives a colour whose hue, saturation and lightness are written
/// in the same way.
pub proof fn lemma_hsl_value_idempotent(c: ColorModel)
    requires
        c.wf(),
    ensures
        ColorModel::from_hsl(c.hsl.text()) is Some,
        ColorModel::from_hsl(c.hsl.text())->0.hsl.text() == c.hsl.text(),
{
    lemma_hsl_text_reads_back(c.hsl);
    lemma_whole_rounded(c.hsl.hue.rounded());
}

/// A channel of a colour in range lies from 0 to 255.
pub proof fn lemma_shade_in_range(s: Ratio, v: Ratio, w: int, wd: int)
    requires
        s.wf() && s.at_most(100),
        v.wf() && v.at_most(100),
        0 <= w <= wd,
        0 < wd,
    ensures
        0 <= shade(s, v, w, wd) <= 255,
{
    let base = s.den * wd;
    let rest = 100 * base - s.num * w;
    assert(0 < base && 0 <= rest <= 100 * base) by (nonlinear_arith)
        requires
            base == s.den * wd,
            rest == 100 * base - s.num * w,
            0 <= s.num <= 100 * s.den,
            0 < s.den,
            0 <= w <= wd,
            0 < wd,
    ;
    let n = 255 * (v.num * rest);
    let d = 10000 * (v.den * base);
    assert(0 < d && 0 * d <= n <= 255 * d) by (nonlinear_arith)
        requires
            n == 255 * (v.num * rest),
            d == 10000 * (v.den * base),
            0 <= v.num <= 100 * v.den,
            0 < v.den,
            0 < base,
            0 <= rest <= 100 * base,
    ;
    lemma_round_div_range(n, d, 0, 255);
}

/// The channels of any hue, saturation and value lie from 0 to 255.
pub proof fn lemma_rgb_of_hsv_in_range(hsv: HsvModel)
    requires
        hsv.wf(),
    ensures
        RgbModel::from_hsv(hsv).in_range(),
{
    let s = hsv.saturation.capped(100);
    let v = hsv.value.capped(100);
    let turn = 60 * hsv.hue.den;
    let f = hsv.hue.num % turn;
    lemma_shade_in_range(s, v, 0, turn);
    lemma_shade_in_range(s, v, turn, turn);
    lemma_shade_in_range(s, v, f, turn);
    lemma_shade_in_range(s, v, turn - f, turn);
}

/// The channels of any inks lie from 0 to 255.
pub proof fn lemma_rgb_of_cmyk_in_range(cmyk: CmykModel)
    ensures
        RgbModel::from_cmyk(cmyk).in_range(),
{
    let c = cmyk.clamped();
    lemma_left_of_inks(c.cyan, c.black);
    lemma_left_of_inks(c.magenta, c.black);
    lemma_left_of_inks(c.yellow, c.black);
}

/// What two inks leave of a channel lies from 0 to 255.
proof fn lemma_left_of_inks(ink: int, black: int)
    requires
        0 <= ink <= 100,
        0 <= black <= 100,
    ensures
        0 <= round_div(255 * ((100 - ink) * (100 - black)), 10000) <= 255,
{
    let left = (100 - ink) * (100 - black);
    assert(0 <= left <= 10000) by (nonlinear_arith)
        requires
            left == (100 - ink) * (100 - black),
            0 <= ink <= 100,
            0 <= black <= 100,
    ;
    lemma_round_div_range(255 * left, 10000, 0, 255);
}

/// The channels of a colour in hexadecimal lie from 0 to 255.
pub proof fn lemma_rgb_of_hex_in_range(s: Seq<char>)
    requires
        is_hex_text(s),
    ensures
        rgb_of_hex(s).in_range(),
{
    let six = six_digits(s);
    let b = bare(s);
    assert forall|i: int| 0 <= i < 6 implies is_hex_digit(#[trigger] six[i]) by {
        if b.len() == 3 {
            assert(is_hex_digit(b[0]) && is_hex_digit(b[1]) && is_hex_digit(b[2]));
        } else {
            assert(is_hex_digit(b[i]));
        }
    }
    assert(is_hex_digit(six[0]) && is_hex_digit(six[1]) && is_hex_digit(six[2]) && is_hex_digit(
        six[3],
    ) && is_hex_digit(six[4]) && is_hex_digit(six[5]));
}

/// Hue, saturation and value of any channels lie in their ranges, the hue
/// below 360.
pub proof fn lemma_hsv_of_rgb_in_range(rgb: RgbModel)
    ensures
        HsvModel::from_rgb(rgb).in_range(),
        HsvModel::from_rgb(rgb).hue.at_most(359),
{
}

/// The inks of any channels lie from 0 to 100.
pub proof fn lemma_cmyk_of_rgb_in_range(rgb: RgbModel)
    ensures
        CmykModel::from_rgb(rgb).in_range(),
{
    let c = rgb.clamped();
    let top = c.highest();
    if top > 0 {
        lemma_round_div_range(100 * (top - c.red), top, 0, 100);
        lemma_round_div_range(100 * (top - c.green), top, 0, 100);
        lemma_round_div_range(100 * (top - c.blue), top, 0, 100);
        lemma_round_div_range(100 * (255 - top), 255, 0, 100);
    }
}

/// Saturation and lightness of any hue, saturation and value lie from 0 to
/// 100.
pub proof fn lemma_hsl_of_hsv_in_range(hsv: HsvModel)
    requires
        hsv.wf(),
    ensures
        0 <= HslModel::from_hsv(hsv).saturation <= 100,
        0 <= HslModel::from_hsv(hsv).lightness <= 100,
        HslModel::from_hsv(hsv).hue == hsv.hue,
{
    let s = hsv.saturation.capped(100);
    let v = hsv.value.capped(100);
    let sn = s.num;
    let sd = s.den;
    let vn = v.num;
    let vd = v.den;
    let light = (200 * sd - sn) * vn;
    let whole = 20000 * (sd * vd);
    let chroma = sn * vn;
    assert(0 <= light <= whole && 0 <= chroma <= light && chroma <= whole - light && 0 < whole)
        by (nonlinear_arith)
        requires
            light == (200 * sd - sn) * vn,
            whole == 20000 * (sd * vd),
            chroma == sn * vn,
            0 <= sn <= 100 * sd,
            0 <= vn <= 100 * vd,
            1 <= sd,
            1 <= vd,
    ;
    lemma_round_div_range(100 * light, whole, 0, 100);
    lemma_round_div_range(sn, sd, 0, 100);
    if light > 0 {
        lemma_round_div_range(100 * chroma, light, 0, 100);
    }
    if light < whole {
        lemma_round_div_range(100 * chroma, whole - light, 0, 100);
    }
}

/// Saturation and value of any hue, saturation and lightness are whole
/// numbers from 0 to 100.
pub proof fn lemma_hsv_of_hsl_in_range(hsl: HslModel)
    requires
        hsl.wf(),
    ensures
        HsvModel::from_hsl(hsl).wf(),
        HsvModel::from_hsl(hsl).saturation.at_most(100),
        HsvModel::from_hsl(hsl).value.at_most(100),
        HsvModel::from_hsl(hsl).hue == hsl.hue,
{
    let c = hsl.clamped();
    let span = 2 * c.lightness;
    let reach = if span <= 100 {
        span
    } else {
        200 - span
    };
    let spread = c.saturation * reach;
    assert(0 <= spread <= 100 * reach) by (nonlinear_arith)
        requires
            spread == c.saturation * reach,
            0 <= c.saturation <= 100,
            0 <= reach,
    ;
    let total = 100 * span + spread;
    lemma_round_div_range(total, 200, 0, 100);
    if total > 0 {
        lemma_round_div_range(200 * spread, total, 0, 100);
    }
}

/// Every representation of a colour lies in its documented range; the hue
/// lies from 0 to below 360.
pub open spec fn all_in_range(c: ColorModel) -> bool {
    &&& is_hex_text(c.hex)
    &&& c.hsv.in_range()
    &&& c.rgb.in_range()
    &&& c.cmyk.in_range()
    &&& c.hsl.in_range()
}

/// Every representation of a colour lies within the bounds that text may
/// have: its documented range and, for the hue, 360 itself.
pub open spec fn all_within_bounds(c: ColorModel) -> bool {
    &&& is_hex_text(c.hex)
    &&& c.hsv.within_bounds()
    &&& c.rgb.in_range()
    &&& c.cmyk.in_range()
    &&& c.hsl.within_bounds()
}

/// A colour built from channels in range is in range throughout.
pub proof fn lemma_of_rgb_in_range(rgb: RgbModel)
    requires
        rgb.in_range(),
    ensures
        all_in_range(ColorModel::of_rgb(rgb)),
{
    let hsv = HsvModel::from_rgb(rgb);
    lemma_hex_of_rgb(rgb);
    lemma_hsv_of_rgb_in_range(rgb);
    lemma_cmyk_of_rgb_in_range(rgb);
    lemma_hsl_of_hsv_in_range(hsv);
}

/// A colour built from a colour in hexadecimal is in range throughout.
pub proof fn lemma_of_hex_in_range(hex: Seq<char>)
    requires
        is_hex_text(hex),
    ensures
        all_in_range(ColorModel::of_hex(hex)),
{
    let rgb = rgb_of_hex(hex);
    let hsv = HsvModel::from_rgb(rgb);
    lemma_rgb_of_hex_in_range(hex);
    lemma_hsv_of_rgb_in_range(rgb);
    lemma_cmyk_of_rgb_in_range(rgb);
    lemma_hsl_of_hsv_in_range(hsv);
}

/// A colour built from inks in range is in range throughout.
pub proof fn lemma_of_cmyk_in_range(cmyk: CmykModel)
    requires
        cmyk.in_range(),
    ensures
        all_in_range(ColorModel::of_cmyk(cmyk)),
{
    let rgb = RgbModel::from_cmyk(cmyk);
    let hsv = HsvModel::from_rgb(rgb);
    lemma_rgb_of_cmyk_in_range(cmyk);
    lemma_hex_of_rgb(rgb);
    lemma_hsv_of_rgb_in_range(rgb);
    lemma_hsl_of_hsv_in_range(hsv);
}

/// A colour built from hue, saturation and value in range is in range
/// throughout.
pub proof fn lemma_of_hsv_in_range(hsv: HsvModel)
    requires
        hsv.in_range(),
    ensures
        all_in_range(ColorModel::of_hsv(hsv)),
{
    let rgb = RgbModel::from_hsv(hsv);
    lemma_rgb_of_hsv_in_range(hsv);
    lemma_hex_of_rgb(rgb);
    lemma_cmyk_of_rgb_in_range(rgb);
    lemma_hsl_of_hsv_in_range(hsv);
}

/// A colour built from hue, saturation and lightness in range is in range
/// throughout.
pub proof fn lemma_of_hsl_in_range(hsl: HslModel)
    requires
        hsl.in_range(),
    ensures
        all_in_range(ColorModel::of_hsl(hsl)),
{
    let hsv = HsvModel::from_hsl(hsl);
    let rgb = RgbModel::from_hsv(hsv);
    lemma_hsv_of_hsl_in_range(hsl);
    lemma_rgb_of_hsv_in_range(hsv);
    lemma_hex_of_rgb(rgb);
    lemma_cmyk_of_rgb_in_range(rgb);
}

/// A text that the validator of colours in hexadecimal accepts gives a
/// colour, and one in range throughout.
pub proof fn lemma_valid_hex_gives_colour(s: Seq<char>)
    requires
        valid_hex_text(s),
    ensures
        ColorModel::from_hex(s) is Some,
        all_in_range(ColorModel::from_hex(s)->0),
{
    lemma_of_hex_in_range(s);
}

/// A text that the validator of channels accepts gives a colour, and one in
/// range throughout.
pub proof fn lemma_valid_rgb_gives_colour(s: Seq<char>)
    requires
        valid_rgb_text(s),
    ensures
        ColorModel::from_rgb(s) is Some,
        all_in_range(ColorModel::from_rgb(s)->0),
{
    lemma_of_rgb_in_range(RgbModel::parse(s)->0);
}

/// A text that the validator of inks accepts gives a colour, and one in
/// range throughout.
pub proof fn lemma_valid_cmyk_gives_colour(s: Seq<char>)
    requires
        valid_cmyk_text(s),
    ensures
        ColorModel::from_cmyk(s) is Some,
        all_in_range(ColorModel::from_cmyk(s)->0),
{
    lemma_of_cmyk_in_range(CmykModel::parse(s)->0);
}

/// A colour built from hue, saturation and value within the bounds of text
/// is within them throughout: it keeps the hue as the text gave it, 360
/// too.
pub proof fn lemma_of_hsv_within_bounds(hsv: HsvModel)
    requires
        hsv.within_bounds(),
    ensures
        all_within_bounds(ColorModel::of_hsv(hsv)),
{
    let rgb = RgbModel::from_hsv(hsv);
    lemma_rgb_of_hsv_in_range(hsv);
    lemma_hex_of_rgb(rgb);
    lemma_cmyk_of_rgb_in_range(rgb);
    lemma_hsl_of_hsv_in_range(hsv);
}

/// A colour built from hue, saturation and lightness within the bounds of
/// text is within them throughout: it keeps the hue as the text gave it,
/// 360 too.
pub proof fn lemma_of_hsl_within_bounds(hsl: HslModel)
    requires
        hsl.within_bounds(),
    ensures
        all_within_bounds(ColorModel::of_hsl(hsl)),
{
    let hsv = HsvModel::from_hsl(hsl);
    let rgb = RgbModel::from_hsv(hsv);
    lemma_hsv_of_hsl_in_range(hsl);
    lemma_rgb_of_hsv_in_range(hsv);
    lemma_hex_of_rgb(rgb);
    lemma_cmyk_of_rgb_in_range(rgb);
}

/// A text that the validator of hue, saturation and value accepts gives a
/// colour, and one within the bounds of text throughout, whether it is read
/// as hue, saturation and value or as hue, saturation and lightness. With a
/// hue below 360 it is in range throughout.
pub proof fn lemma_valid_hsv_gives_colour(s: Seq<char>)
    requires
        valid_hsv_text(s),
    ensures
        ColorModel::from_hsv(s) is Some,
        all_within_bounds(ColorModel::from_hsv(s)->0),
        ColorModel::from_hsl(s) is Some,
        all_within_bounds(ColorModel::from_hsl(s)->0),
        HsvModel::parse(s)->0.hue.below(360) ==> all_in_range(ColorModel::from_hsv(s)->0)
            && all_in_range(ColorModel::from_hsl(s)->0),
{
    lemma_of_hsv_within_bounds(HsvModel::parse(s)->0);
    lemma_of_hsl_within_bounds(HslModel::parse(s)->0);
    if HsvModel::parse(s)->0.hue.below(360) {
        lemma_of_hsv_in_range(HsvModel::parse(s)->0);
        lemma_of_hsl_in_range(HslModel::parse(s)->0);
    }
}

/// A text that denotes three channels holds nothing but digits from `0` to
/// `9`, commas and white space: with any other character, a digit of
/// another script too, it denotes nothing.
pub proof fn lemma_rgb_text_alphabet(s: Seq<char>)
    requires
        RgbModel::parse(s) is Some,
    ensures
        forall|j: int|
            0 <= j < s.len() ==> is_digit(#[trigger] s[j]) || is_space(s[j]) || s[j] == ',',
{
    let marks = rgb_marks();
    lemma_fields_alphabet(s, 0, marks);
    assert forall|j: int| 0 <= j < s.len() implies is_digit(#[trigger] s[j]) || is_space(s[j])
        || s[j] == ',' by {
        if in_marks(marks, s[j]) {
            let (k, m) = choose|k: int, m: int|
                0 <= k < marks.len() && 0 <= m < marks[k].len() && #[trigger] marks[k][m] == s[j];
            assert(marks[k][m] == ',');
        }
    }
}

/// A text that denotes four inks holds nothing but digits from `0` to `9`,
/// percent signs, commas and white space.
pub proof fn lemma_cmyk_text_alphabet(s: Seq<char>)
    requires
        CmykModel::parse(s) is Some,
    ensures
        forall|j: int|
            0 <= j < s.len() ==> is_digit(#[trigger] s[j]) || is_space(s[j]) || s[j] == ','
                || s[j] == '%',
{
    let marks = cmyk_marks();
    lemma_fields_alphabet(s, 0, marks);
    assert forall|j: int| 0 <= j < s.len() implies is_digit(#[trigger] s[j]) || is_space(s[j])
        || s[j] == ',' || s[j] == '%' by {
        if in_marks(marks, s[j]) {
            let (k, m) = choose|k: int, m: int|
                0 <= k < marks.len() && 0 <= m < marks[k].len() && #[trigger] marks[k][m] == s[j];
            assert(marks[k][m] == ',' || marks[k][m] == '%');
        }
    }
}

/// A text that denotes hue, saturation and value, or hue, saturation and
/// lightness, holds a stretch with the numbers that it denotes, and that
/// stretch holds nothing but digits from `0` to `9`, a degree sign, percent
/// signs, commas and white space. What stands before and behind the
/// stretch is free.
pub proof fn lemma_degrees_alphabet(s: Seq<char>)
    requires
        parse_degrees(s) is Some,
    ensures
        exists|i: int|
            0 <= i < s.len() && #[trigger] match_at(s, i, degree_marks()) == parse_degrees(s)
                && holds_degrees(s, i),
{
    let marks = degree_marks();
    lemma_last_match_is_match(s, 0, marks);
    let i = choose|i: int|
        0 <= i < s.len() && #[trigger] match_at(s, i, marks) == last_match(s, 0, marks);
    lemma_fields_alphabet(s, i, marks);
    match fields_at(s, i, marks) {
        Some((values, end)) => {
            assert forall|j: int| i <= j < end implies is_digit(#[trigger] s[j]) || is_space(
                s[j],
            ) || s[j] == ',' || s[j] == '%' || s[j] == DEGREE by {
                if in_marks(marks, s[j]) {
                    let (k, m) = choose|k: int, m: int|
                        0 <= k < marks.len() && 0 <= m < marks[k].len() && #[trigger] marks[k][m]
                            == s[j];
                    assert(marks[k][m] == ',' || marks[k][m] == '%' || marks[k][m] == DEGREE);
                }
            }
            assert(holds_degrees(s, i));
        },
        None => {},
    }
}

/// From the place `i` on, `s` holds three numbers with a degree sign and two
/// percent signs, in a stretch of nothing but digits from `0` to `9`, these
/// signs, commas and white space.
pub open spec fn holds_degrees(s: Seq<char>, i: int) -> bool {
    match fields_at(s, i, degree_marks()) {
        Some((values, end)) => i < end <= s.len() && forall|j: int|
            i <= j < end ==> is_digit(#[trigger] s[j]) || is_space(s[j]) || s[j] == ',' || s[j]
                == '%' || s[j] == DEGREE,
        None => false,
    }
}

/// A colour in hexadecimal holds nothing but hexadecimal digits, behind a
/// `#` if it begins with one.
pub proof fn lemma_hex_text_alphabet(s: Seq<char>)
    requires
        is_hex_text(s),
    ensures
        forall|j: int|
            0 <= j < s.len() ==> is_hex_digit(#[trigger] s[j]) || (j == 0 && s[j] == '#'),
{
    let b = bare(s);
    assert forall|j: int| 0 <= j < s.len() implies is_hex_digit(#[trigger] s[j]) || (j == 0
        && s[j] == '#') by {
        if s[0] == '#' {
            if j > 0 {
                assert(b[j - 1] == s[j]);
            }
        } else {
            assert(b[j] == s[j]);
        }
    }
}

} // verus!
