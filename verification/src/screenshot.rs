//! Screenshots: that there is one, and whether it shows anything.
use crate::double::{
    difference_of, is_less, is_normal, is_within, lemma_count_exponent,
    lemma_difference_exponent, lemma_one_over_one, lemma_product_exponent,
    lemma_quotient_exponent, lemma_sum_exponent, lemma_two_pow_adds, lemma_two_pow_positive,
    lemma_two_pow_values, of_count, product_of, quotient_of, sum_of, two_pow, zero, Binary,
    Double,
};
use crate::rounding::{
    distance, is_moderate, is_near, law_differences_are_the_nearest, law_quotients_are_the_nearest,
    law_small_counts_are_exact, law_sums_are_the_nearest, lemma_close_is_near, lemma_count_close,
    lemma_differences_close, lemma_distance_scales, lemma_equal_is_near,
    lemma_equal_numbers_vary_little, lemma_less_scaled, lemma_near_adds, lemma_near_chains,
    lemma_near_multiplies, lemma_near_scales, lemma_near_turns, lemma_near_unscales,
    lemma_near_widens, lemma_product_close, lemma_quotient_close, lemma_sum_close, repeated,
    scaled, unit, unit_bits,
};
use vstd::prelude::*;

verus! {

/// A pixel with no channel above this level is black.
pub const BLACK_LEVEL: u8 = 8;

/// The double 0.299, by which red counts in the luma of a pixel.
pub open spec fn red_weight() -> Binary {
    Binary { mantissa: 5_386_305_154_335_113, exponent: -54 }
}

/// The double 0.587, by which green counts in the luma of a pixel.
pub open spec fn green_weight() -> Binary {
    Binary { mantissa: 5_287_225_962_532_962, exponent: -53 }
}

/// The double 0.114, by which blue counts in the luma of a pixel.
pub open spec fn blue_weight() -> Binary {
    Binary { mantissa: 8_214_565_720_323_785, exponent: -56 }
}

/// The double 0.001: a frame of which a lesser share is not black is a black frame.
pub open spec fn least_share() -> Binary {
    Binary { mantissa: 4_611_686_018_427_388, exponent: -62 }
}

/// The double 4.0: the least luma variance of a usable capture.
pub open spec fn least_variance() -> Binary {
    Binary { mantissa: 4_503_599_627_370_496, exponent: -50 }
}

/// What a screenshot shows, measured in double precision.
#[derive(Clone, Copy, Debug, PartialEq, Eq, Structural)]
pub struct ScreenshotQuality {
    pub normalized_width: u32,
    pub normalized_height: u32,
    /// The share of the pixels that are not black.
    pub non_black_ratio: Double,
    /// The variance of the pixels' luma.
    pub luma_variance: Double,
    pub black_frame: bool,
    pub capture_quality_ok: bool,
}

/// What a screenshot shows, with its measures as numbers.
pub struct Quality {
    pub normalized_width: u32,
    pub normalized_height: u32,
    pub non_black_ratio: Binary,
    pub luma_variance: Binary,
    pub black_frame: bool,
    pub capture_quality_ok: bool,
}

impl View for ScreenshotQuality {
    type V = Quality;

    open spec fn view(&self) -> Quality {
        Quality {
            normalized_width: self.normalized_width,
            normalized_height: self.normalized_height,
            non_black_ratio: self.non_black_ratio@,
            luma_variance: self.luma_variance@,
            black_frame: self.black_frame,
            capture_quality_ok: self.capture_quality_ok,
        }
    }
}

/// What can be wrong with a screenshot.
#[derive(Debug, PartialEq, Eq)]
pub enum ScreenshotError {
    /// There is none.
    Missing,
    /// There is one without a byte.
    Empty,
    /// Its bytes are no PNG image, for this cause.
    InvalidPng(String),
    /// It is an image without a pixel.
    EmptyPng,
}

/// An image of three bytes a pixel (red, green, blue), row by row.
pub struct RgbFrame {
    pub width: u32,
    pub height: u32,
    pub data: Vec<u8>,
}

impl RgbFrame {
    /// The data is as long as the size says.
    pub open spec fn well_formed(self) -> bool {
        self.data@.len() == 3 * (self.width * self.height)
    }
}

/// A channel, weighed.
pub open spec fn weighed(weight: Binary, channel: u8) -> Binary {
    product_of(weight, of_count(channel as nat))
}

/// The luma of a pixel.
pub open spec fn luma_of(red: u8, green: u8, blue: u8) -> Binary {
    sum_of(
        sum_of(weighed(red_weight(), red), weighed(green_weight(), green)),
        weighed(blue_weight(), blue),
    )
}

/// The luma of pixel `i`.
pub open spec fn pixel_luma(data: Seq<u8>, i: int) -> Binary {
    luma_of(data[3 * i], data[3 * i + 1], data[3 * i + 2])
}

/// Whether pixel `i` has a channel above [`BLACK_LEVEL`].
pub open spec fn is_non_black(data: Seq<u8>, i: int) -> bool {
    data[3 * i] > BLACK_LEVEL || data[3 * i + 1] > BLACK_LEVEL || data[3 * i + 2] > BLACK_LEVEL
}

/// How many of the first `count` pixels are not black.
pub open spec fn non_black_pixels(data: Seq<u8>, count: nat) -> nat
    decreases count,
{
    if count == 0 {
        0
    } else {
        non_black_pixels(data, (count - 1) as nat) + if is_non_black(data, count - 1) {
            1nat
        } else {
            0
        }
    }
}

/// The sum of the luma of the first `count` pixels, added up in their order.
pub open spec fn luma_sum(data: Seq<u8>, count: nat) -> Binary
    decreases count,
{
    if count == 0 {
        zero()
    } else {
        sum_of(luma_sum(data, (count - 1) as nat), pixel_luma(data, count - 1))
    }
}

/// The sum of the squares of the luma of the first `count` pixels, added up in their order.
pub open spec fn luma_square_sum(data: Seq<u8>, count: nat) -> Binary
    decreases count,
{
    if count == 0 {
        zero()
    } else {
        let luma = pixel_luma(data, count - 1);
        sum_of(luma_square_sum(data, (count - 1) as nat), product_of(luma, luma))
    }
}

/// The variance of values that number `count`, of sum `sum` and of squares that sum to `squares`:
/// the mean of the squares less the square of the mean, or zero where that would be negative.
pub open spec fn variance_of(sum: Binary, squares: Binary, count: nat) -> Binary {
    let mean = quotient_of(sum, of_count(count));
    difference_of(quotient_of(squares, of_count(count)), product_of(mean, mean))
}

/// What a frame of `width` by `height` pixels shows.
pub open spec fn quality_of(width: u32, height: u32, data: Seq<u8>) -> Quality {
    let count = (width * height) as nat;
    let non_black_ratio = quotient_of(of_count(non_black_pixels(data, count)), of_count(count));
    let luma_variance = variance_of(luma_sum(data, count), luma_square_sum(data, count), count);
    let black_frame = is_less(non_black_ratio, least_share());
    Quality {
        normalized_width: width,
        normalized_height: height,
        non_black_ratio,
        luma_variance,
        black_frame,
        capture_quality_ok: !black_frame && !is_less(luma_variance, least_variance()),
    }
}

proof fn lemma_non_black_bounded(data: Seq<u8>, count: nat)
    ensures
        non_black_pixels(data, count) <= count,
    decreases count,
{
    if count > 0 {
        lemma_non_black_bounded(data, (count - 1) as nat);
    }
}

/// The exponents that weighed channels have.
proof fn lemma_weighed_exponent(weight: Binary, channel: u8)
    requires
        is_normal(weight),
        -56 <= weight.exponent <= -53,
    ensures
        is_normal(of_count(channel as nat)),
        is_within(of_count(channel as nat), -52, -44),
        is_normal(weighed(weight, channel)),
        is_within(weighed(weight, channel), -56, -43),
{
    assert(two_pow(8) == 256) by {
        reveal_with_fuel(two_pow, 9);
    }
    lemma_count_exponent(channel as nat, 8);
    lemma_product_exponent(weight, of_count(channel as nat));
}

/// The exponents that luma and its square have.
proof fn lemma_luma_exponent(red: u8, green: u8, blue: u8)
    ensures
        ({
            let two = sum_of(weighed(red_weight(), red), weighed(green_weight(), green));
            is_normal(two) && is_within(two, -56, -41)
        }),
        is_normal(luma_of(red, green, blue)),
        is_within(luma_of(red, green, blue), -56, -39),
        is_normal(product_of(luma_of(red, green, blue), luma_of(red, green, blue))),
        is_within(product_of(luma_of(red, green, blue), luma_of(red, green, blue)), -60, -24),
{
    lemma_weighed_exponent(red_weight(), red);
    lemma_weighed_exponent(green_weight(), green);
    lemma_weighed_exponent(blue_weight(), blue);
    let two = sum_of(weighed(red_weight(), red), weighed(green_weight(), green));
    lemma_sum_exponent(weighed(red_weight(), red), weighed(green_weight(), green));
    assert(is_within(two, -56, -43 + 2));
    lemma_sum_exponent(two, weighed(blue_weight(), blue));
    let luma = luma_of(red, green, blue);
    assert(is_within(luma, -56, -41 + 2));
    lemma_product_exponent(luma, luma);
}

/// The exponents that the sums over a frame have.
proof fn lemma_sums_exponent(data: Seq<u8>, count: nat)
    ensures
        is_normal(luma_sum(data, count)),
        is_within(luma_sum(data, count), -56, 18),
        is_normal(luma_square_sum(data, count)),
        is_within(luma_square_sum(data, count), -60, 33),
    decreases count,
{
    if count > 0 {
        let before = (count - 1) as nat;
        lemma_sums_exponent(data, before);
        let luma = pixel_luma(data, count - 1);
        lemma_luma_exponent(
            data[3 * (count - 1)],
            data[3 * (count - 1) + 1],
            data[3 * (count - 1) + 2],
        );
        lemma_sum_exponent(luma_sum(data, before), luma);
        assert(is_within(luma, -56, 18 - 57));
        assert(is_within(luma_sum(data, count), -56, 18));
        lemma_sum_exponent(luma_square_sum(data, before), product_of(luma, luma));
        assert(is_within(product_of(luma, luma), -60, 33 - 57));
        assert(is_within(luma_square_sum(data, count), -60, 33));
    }
}

/// What a weight makes of each channel.
fn weigh(weight: &Double) -> (table: Vec<Double>)
    requires
        is_normal(weight@),
        -56 <= weight@.exponent <= -53,
    ensures
        table@.len() == 256,
        forall|i: int| 0 <= i < 256 ==> (#[trigger] table@[i])@ == weighed(weight@, i as u8),
{
    let mut table: Vec<Double> = Vec::new();
    for i in 0..256u64
        invariant
            is_normal(weight@),
            -56 <= weight@.exponent <= -53,
            table@.len() == i,
            forall|j: int| 0 <= j < i ==> (#[trigger] table@[j])@ == weighed(weight@, j as u8),
    {
        let channel = Double::from_count(i);
        proof {
            lemma_weighed_exponent(weight@, i as u8);
        }
        table.push(weight.times(&channel));
    }
    table
}

/// The sums over a frame's pixels: how many are not black, and their luma and its square.
struct Tally {
    non_black: u64,
    sum: Double,
    squares: Double,
}

fn tally(data: &Vec<u8>, count: usize) -> (tally: Tally)
    requires
        data@.len() == 3 * count,
    ensures
        tally.non_black == non_black_pixels(data@, count as nat),
        tally.sum@ == luma_sum(data@, count as nat),
        tally.squares@ == luma_square_sum(data@, count as nat),
{
    let reds = weigh(&Double::new(5_386_305_154_335_113, -54));
    let greens = weigh(&Double::new(5_287_225_962_532_962, -53));
    let blues = weigh(&Double::new(8_214_565_720_323_785, -56));
    let length: usize = data.len();
    let mut non_black: u64 = 0;
    let mut sum = Double::zero();
    let mut squares = Double::zero();
    for i in 0..count
        invariant
            length == data@.len(),
            length == 3 * count,
            reds@.len() == 256,
            greens@.len() == 256,
            blues@.len() == 256,
            forall|j: int| 0 <= j < 256 ==> (#[trigger] reds@[j])@ == weighed(red_weight(), j as u8),
            forall|j: int|
                0 <= j < 256 ==> (#[trigger] greens@[j])@ == weighed(green_weight(), j as u8),
            forall|j: int|
                0 <= j < 256 ==> (#[trigger] blues@[j])@ == weighed(blue_weight(), j as u8),
            non_black == non_black_pixels(data@, i as nat),
            non_black <= i,
            sum@ == luma_sum(data@, i as nat),
            squares@ == luma_square_sum(data@, i as nat),
    {
        let red: u8 = data[3 * i];
        let green: u8 = data[3 * i + 1];
        let blue: u8 = data[3 * i + 2];
        if red > BLACK_LEVEL || green > BLACK_LEVEL || blue > BLACK_LEVEL {
            non_black += 1;
        }
        proof {
            lemma_weighed_exponent(red_weight(), red);
            lemma_weighed_exponent(green_weight(), green);
            lemma_weighed_exponent(blue_weight(), blue);
            lemma_luma_exponent(red, green, blue);
            lemma_sums_exponent(data@, i as nat);
            lemma_sums_exponent(data@, (i + 1) as nat);
        }
        let two = reds[red as usize].plus(&greens[green as usize]);
        let luma = two.plus(&blues[blue as usize]);
        sum = sum.plus(&luma);
        squares = squares.plus(&luma.times(&luma));
    }
    Tally { non_black, sum, squares }
}

/// Measures what `frame` shows. A frame without a pixel shows nothing to measure.
pub fn measure_frame(frame: &RgbFrame) -> (quality: Result<ScreenshotQuality, ScreenshotError>)
    requires
        frame.well_formed(),
    ensures
        frame.width == 0 || frame.height == 0 ==> quality == Err::<
            ScreenshotQuality,
            ScreenshotError,
        >(ScreenshotError::EmptyPng),
        frame.width > 0 && frame.height > 0 ==> (quality matches Ok(quality) && quality@
            == quality_of(frame.width, frame.height, frame.data@)),
{
    let ghost pixels: int = frame.width * frame.height;
    proof {
        assert(frame.data.len() == frame.data@.len());
        assert(0 <= pixels <= 4_294_967_295 * 4_294_967_295) by (nonlinear_arith)
            requires
                pixels == frame.width * frame.height,
                0 <= frame.width <= 4_294_967_295,
                0 <= frame.height <= 4_294_967_295,
        ;
        assert(pixels == 0 <==> frame.width == 0 || frame.height == 0) by (nonlinear_arith)
            requires
                pixels == frame.width * frame.height,
                0 <= frame.width,
                0 <= frame.height,
        ;
    }
    let count: u64 = (frame.width as u64) * (frame.height as u64);
    if count == 0 {
        return Err(ScreenshotError::EmptyPng);
    }
    let tally = tally(&frame.data, count as usize);
    let total = Double::from_count(count);
    let non_black = Double::from_count(tally.non_black);
    proof {
        lemma_two_pow_values();
        lemma_count_exponent(count as nat, 64);
        lemma_count_exponent(tally.non_black as nat, 64);
        lemma_sums_exponent(frame.data@, count as nat);
        lemma_quotient_exponent(tally.sum@, total@);
        lemma_quotient_exponent(tally.squares@, total@);
        lemma_quotient_exponent(non_black@, total@);
        let mean = quotient_of(tally.sum@, total@);
        lemma_product_exponent(mean, mean);
        let mean_square = quotient_of(tally.squares@, total@);
        let squared_mean = product_of(mean, mean);
        if is_less(squared_mean, mean_square) && squared_mean.mantissa > 0 {
            lemma_difference_exponent(mean_square, squared_mean);
        }
    }
    let non_black_ratio = non_black.over(&total);
    let mean = tally.sum.over(&total);
    let luma_variance = tally.squares.over(&total).minus(&mean.times(&mean));
    let black_frame: bool = non_black_ratio.is_below(&Double::new(4_611_686_018_427_388, -62));
    let varied: bool = !luma_variance.is_below(&Double::new(4_503_599_627_370_496, -50));
    Ok(
        ScreenshotQuality {
            normalized_width: frame.width,
            normalized_height: frame.height,
            non_black_ratio,
            luma_variance,
            black_frame,
            capture_quality_ok: !black_frame && varied,
        },
    )
}

/// The width, the height and the pixels that the `image` crate reads from the bytes of a PNG
/// image, or what it says where it reads no image from them.
pub uninterp spec fn decoded_png(png: Seq<u8>) -> Result<(u32, u32, Seq<u8>), Seq<char>>;

/// Whether `result` is what `decoded` was read as.
pub open spec fn is_read_as(
    result: Result<RgbFrame, String>,
    decoded: Result<(u32, u32, Seq<u8>), Seq<char>>,
) -> bool {
    match result {
        Ok(frame) => decoded matches Ok(image) && image == (frame.width, frame.height, frame.data@),
        Err(cause) => decoded matches Err(text) && text == cause@,
    }
}

/// Reads a PNG image, by `image::load_from_memory_with_format` and `DynamicImage::to_rgb8`.
///
/// What is read depends on the bytes alone and is named [`decoded_png`]. An image has three
/// bytes for each of its pixels. An error is kept as it is displayed.
#[verifier::external_body]
fn decode_png(png: &[u8]) -> (frame: Result<RgbFrame, String>)
    ensures
        frame matches Ok(frame) ==> frame.well_formed(),
        is_read_as(frame, decoded_png(png@)),
{
    match image::load_from_memory_with_format(png, image::ImageFormat::Png) {
        Ok(image) => {
            let image = image.to_rgb8();
            Ok(RgbFrame { width: image.width(), height: image.height(), data: image.into_raw() })
        },
        Err(error) => Err(error.to_string()),
    }
}

/// Whether `analysis` is what is made of a screenshot from which `decoded` was read.
pub open spec fn is_analysis_of(
    analysis: Result<ScreenshotQuality, ScreenshotError>,
    decoded: Result<(u32, u32, Seq<u8>), Seq<char>>,
) -> bool {
    match decoded {
        Err(text) => analysis matches Err(ScreenshotError::InvalidPng(cause)) && cause@ == text,
        Ok((width, height, data)) => if width == 0 || height == 0 {
            analysis == Err::<ScreenshotQuality, ScreenshotError>(ScreenshotError::EmptyPng)
        } else {
            analysis matches Ok(quality) && quality@ == quality_of(width, height, data)
        },
    }
}

/// Measures what the PNG screenshot `png` shows.
pub fn analyze_screenshot_quality(png: &[u8]) -> (quality: Result<
    ScreenshotQuality,
    ScreenshotError,
>)
    ensures
        is_analysis_of(quality, decoded_png(png@)),
        decoded_png(png@) matches Err(text) ==> (quality matches Err(ScreenshotError::InvalidPng(
            cause,
        )) && cause@ == text),
        decoded_png(png@) matches Ok(image) ==> image.0 == 0 || image.1 == 0 ==> quality == Err::<
            ScreenshotQuality,
            ScreenshotError,
        >(ScreenshotError::EmptyPng),
        decoded_png(png@) matches Ok(image) ==> image.0 > 0 && image.1 > 0 ==> (quality matches Ok(
            quality,
        ) && quality@ == quality_of(image.0, image.1, image.2)),
{
    match decode_png(png) {
        Ok(frame) => measure_frame(&frame),
        Err(cause) => Err(ScreenshotError::InvalidPng(cause)),
    }
}

/// The length of the screenshot, which has to be there and to hold a byte.
pub fn require_screenshot_bytes(image: Option<&[u8]>) -> (length: Result<usize, ScreenshotError>)
    ensures
        length == (match image {
            None => Err::<usize, ScreenshotError>(ScreenshotError::Missing),
            Some(bytes) => if bytes@.len() == 0 {
                Err(ScreenshotError::Empty)
            } else {
                Ok(bytes@.len() as usize)
            },
        }),
        length matches Ok(length) ==> length == image->0@.len(),
{
    match image {
        None => Err(ScreenshotError::Missing),
        Some(bytes) => if bytes.len() == 0 {
            Err(ScreenshotError::Empty)
        } else {
            Ok(bytes.len())
        },
    }
}

/// What is said of `error`.
pub open spec fn screenshot_error_message(error: ScreenshotError) -> Seq<char> {
    match error {
        ScreenshotError::Missing => "Connection succeeded but MaaCore returned no screenshot"@,
        ScreenshotError::Empty => "Connection succeeded but MaaCore returned an empty screenshot"@,
        ScreenshotError::InvalidPng(_) => "MaaCore returned an invalid PNG screenshot"@,
        ScreenshotError::EmptyPng => "MaaCore returned an empty PNG screenshot"@,
    }
}

/// The cause behind `error`, where there is one.
pub open spec fn screenshot_error_cause(error: ScreenshotError) -> Option<Seq<char>> {
    match error {
        ScreenshotError::InvalidPng(cause) => Some(cause@),
        _ => None,
    }
}

impl ScreenshotError {
    /// Says what is wrong.
    pub fn message(&self) -> (message: &'static str)
        ensures
            message@ == screenshot_error_message(*self),
    {
        match self {
            ScreenshotError::Missing => "Connection succeeded but MaaCore returned no screenshot",
            ScreenshotError::Empty => {
                "Connection succeeded but MaaCore returned an empty screenshot"
            },
            ScreenshotError::InvalidPng(_) => "MaaCore returned an invalid PNG screenshot",
            ScreenshotError::EmptyPng => "MaaCore returned an empty PNG screenshot",
        }
    }

    /// The cause behind what is wrong, where there is one.
    pub fn cause(&self) -> (cause: Option<&str>)
        ensures
            cause is Some <==> screenshot_error_cause(*self) is Some,
            cause matches Some(cause) ==> cause@ == screenshot_error_cause(*self)->0,
    {
        match self {
            ScreenshotError::InvalidPng(cause) => Some(cause.as_str()),
            _ => None,
        }
    }
}

proof fn lemma_black_pixels(data: Seq<u8>, count: nat)
    requires
        forall|i: int| 0 <= i < count ==> !#[trigger] is_non_black(data, i),
    ensures
        non_black_pixels(data, count) == 0,
    decreases count,
{
    if count > 0 {
        lemma_black_pixels(data, (count - 1) as nat);
    }
}

/// A frame of which no byte is above eight is a black frame, of ratio zero, and no usable capture.
pub proof fn law_black_frames_are_rejected(width: u32, height: u32, data: Seq<u8>)
    requires
        0 < width,
        0 < height,
        forall|i: int| 0 <= i < 3 * (width * height) ==> #[trigger] data[i] <= 8,
    ensures
        quality_of(width, height, data).non_black_ratio == (Binary { mantissa: 0, exponent: 0 }),
        quality_of(width, height, data).black_frame,
        !quality_of(width, height, data).capture_quality_ok,
{
    assert(0 < width * height) by (nonlinear_arith)
        requires
            0 < width,
            0 < height,
    ;
    lemma_black_pixels(data, (width * height) as nat);
    assert(two_pow(0) == 1);
    assert(0 * two_pow(62) == 0);
}

/// The verdicts follow from the measures that are reported with them: a frame is black where
/// less than a thousandth of it is not, and a capture is usable where it is not black and its
/// luma varies by four or more.
pub proof fn law_verdicts_follow_from_the_measures(width: u32, height: u32, data: Seq<u8>)
    ensures
        ({
            let quality = quality_of(width, height, data);
            &&& quality.black_frame <==> is_less(quality.non_black_ratio, least_share())
            &&& quality.capture_quality_ok <==> !quality.black_frame && !is_less(
                quality.luma_variance,
                least_variance(),
            )
        }),
{
}

/// Weighing a channel makes it at most 257 times the weight.
proof fn lemma_weighed_bounded(weight: Binary, channel: u8)
    requires
        is_normal(weight),
        -56 <= weight.exponent <= -53,
    ensures
        scaled(weighed(weight, channel)) <= 257 * scaled(weight),
{
    lemma_weighed_exponent(weight, channel);
    let count = of_count(channel as nat);
    lemma_count_close(channel as nat);
    lemma_product_close(weight, count);
    lemma_two_pow_positive(unit_bits());
    let one = unit() as int;
    let w = scaled(weight) as int;
    let c = scaled(count) as int;
    let p = scaled(weighed(weight, channel)) as int;
    assert(channel * one <= 255 * one) by (nonlinear_arith)
        requires
            channel <= 255,
            one > 0,
    ;
    assert(c <= 256 * one);
    let product = w * c;
    assert(product <= 256 * (w * one)) by (nonlinear_arith)
        requires
            product == w * c,
            c <= 256 * one,
            0 <= w,
    ;
    assert(0 <= w * one) by (nonlinear_arith)
        requires
            0 <= w,
            0 < one,
    ;
    assert(p * one <= 257 * (w * one));
    assert(p <= 257 * w) by (nonlinear_arith)
        requires
            p * one <= 257 * (w * one),
            0 < one,
    ;
}

/// Luma is at most 260.
proof fn lemma_luma_bounded(red: u8, green: u8, blue: u8)
    ensures
        scaled(luma_of(red, green, blue)) <= 260 * unit(),
{
    lemma_weighed_exponent(red_weight(), red);
    lemma_weighed_exponent(green_weight(), green);
    lemma_weighed_exponent(blue_weight(), blue);
    lemma_weighed_bounded(red_weight(), red);
    lemma_weighed_bounded(green_weight(), green);
    lemma_weighed_bounded(blue_weight(), blue);
    lemma_luma_exponent(red, green, blue);
    let two = sum_of(weighed(red_weight(), red), weighed(green_weight(), green));
    lemma_sum_close(weighed(red_weight(), red), weighed(green_weight(), green));
    lemma_sum_close(two, weighed(blue_weight(), blue));
    lemma_two_pow_values();
    let power = two_pow(1144);
    assert(two_pow(1147) == 8 * power && two_pow(1146) == 4 * power) by {
        reveal_with_fuel(two_pow, 4);
    }
    assert(two_pow(56) == 0x100_0000_0000_0000) by {
        reveal_with_fuel(two_pow, 4);
    }
    lemma_two_pow_adds(1144, 56);
    assert(unit() == 0x100_0000_0000_0000 * power);
}

proof fn lemma_flat_sums(data: Seq<u8>, count: nat, level: Binary)
    requires
        forall|i: int| 0 <= i < count ==> #[trigger] pixel_luma(data, i) == level,
    ensures
        luma_sum(data, count) == repeated(level, count),
        luma_square_sum(data, count) == repeated(product_of(level, level), count),
    decreases count,
{
    if count > 0 {
        lemma_flat_sums(data, (count - 1) as nat, level);
        assert(pixel_luma(data, count - 1) == level);
    }
}

/// A frame of one luma throughout, of up to two to the power 35 pixels, has a variance below four
/// and is no usable capture. In larger frames what is lost in adding up can be more.
pub proof fn law_flat_frames_are_rejected(width: u32, height: u32, data: Seq<u8>, level: Binary)
    requires
        0 < width,
        0 < height,
        width * height <= 0x8_0000_0000,
        forall|i: int| 0 <= i < width * height ==> #[trigger] pixel_luma(data, i) == level,
    ensures
        scaled(quality_of(width, height, data).luma_variance) < 4 * unit(),
        !quality_of(width, height, data).capture_quality_ok,
{
    assert(0 < width * height) by (nonlinear_arith)
        requires
            0 < width,
            0 < height,
    ;
    let count = (width * height) as nat;
    assert(pixel_luma(data, 0) == level);
    lemma_luma_exponent(data[0], data[1], data[2]);
    lemma_luma_bounded(data[0], data[1], data[2]);
    lemma_flat_sums(data, count, level);
    lemma_equal_numbers_vary_little(level, count);
    let variance = quality_of(width, height, data).luma_variance;
    lemma_less_scaled(variance, least_variance());
    lemma_two_pow_positive(unit_bits());
    assert(scaled(least_variance()) == 4 * unit()) by {
        lemma_two_pow_values();
        lemma_two_pow_adds(52, 1150);
        lemma_two_pow_adds(2, unit_bits());
        reveal_with_fuel(two_pow, 3);
    }
}

/// Where every pixel of a frame has a byte above eight, the share that is not black is one, and
/// the frame is not black.
pub proof fn law_bright_frames_are_not_black(width: u32, height: u32, data: Seq<u8>)
    requires
        0 < width,
        0 < height,
        forall|i: int|
            #![trigger pixel_luma(data, i)]
            0 <= i < width * height ==> data[3 * i] > 8 || data[3 * i + 1] > 8 || data[3 * i + 2]
                > 8,
    ensures
        quality_of(width, height, data).non_black_ratio == (Binary {
            mantissa: 0x10_0000_0000_0000,
            exponent: -52,
        }),
        !quality_of(width, height, data).black_frame,
{
    assert forall|i: int| 0 <= i < width * height implies #[trigger] is_non_black(data, i) by {
        assert(pixel_luma(data, i) == luma_of(data[3 * i], data[3 * i + 1], data[3 * i + 2]));
    }
    assert(0 < width * height <= 4_294_967_295 * 4_294_967_295) by (nonlinear_arith)
        requires
            0 < width <= 4_294_967_295,
            0 < height <= 4_294_967_295,
    ;
    let count = (width * height) as nat;
    lemma_bright_pixels(data, count);
    lemma_two_pow_values();
    lemma_count_exponent(count, 64);
    lemma_one_over_one(of_count(count));
    assert(two_pow(10) == 1024) by {
        reveal_with_fuel(two_pow, 11);
    }
    assert(two_pow(0) == 1);
}

proof fn lemma_bright_pixels(data: Seq<u8>, count: nat)
    requires
        forall|i: int| 0 <= i < count ==> #[trigger] is_non_black(data, i),
    ensures
        non_black_pixels(data, count) == count,
    decreases count,
{
    if count > 0 {
        lemma_bright_pixels(data, (count - 1) as nat);
    }
}

/// A pixel is counted as not black exactly where one of its three bytes is above eight: each
/// pixel adds one to the count of those before it, or nothing, whatever else is in the frame.
pub proof fn law_pixels_are_counted_by_their_bytes(data: Seq<u8>, count: nat)
    ensures
        non_black_pixels(data, 0) == 0,
        ({
            let i = 3 * (count as int);
            let bright = data[i] > 8 || data[i + 1] > 8 || data[i + 2] > 8;
            non_black_pixels(data, count + 1) == non_black_pixels(data, count) + (if bright {
                1int
            } else {
                0
            })
        }),
        non_black_pixels(data, count) <= count,
{
    lemma_non_black_bounded(data, count);
}

/// What is counted depends on the bytes of the pixels that are counted alone, and brighter bytes
/// count for no less.
pub proof fn law_brighter_frames_count_for_no_less(dark: Seq<u8>, bright: Seq<u8>, count: nat)
    requires
        forall|i: int| 0 <= i < 3 * count ==> #[trigger] dark[i] <= bright[i],
    ensures
        non_black_pixels(dark, count) <= non_black_pixels(bright, count),
    decreases count,
{
    if count > 0 {
        let last = (count - 1) as nat;
        law_brighter_frames_count_for_no_less(dark, bright, last);
        let i = 3 * (last as int);
        assert(dark[i] <= bright[i]);
        assert(dark[i + 1] <= bright[i + 1]);
        assert(dark[i + 2] <= bright[i + 2]);
    }
}

/// The exponents that the measures of a frame have.
proof fn lemma_measures_moderate(width: u32, height: u32, data: Seq<u8>)
    requires
        0 < width,
        0 < height,
    ensures
        0 < width * height < 0x1_0000_0000_0000_0000,
        is_moderate(quality_of(width, height, data).non_black_ratio),
        is_moderate(quality_of(width, height, data).luma_variance),
        is_moderate(of_count((width * height) as nat)),
        of_count((width * height) as nat).mantissa > 0,
        ({
            let count = (width * height) as nat;
            let mean = quotient_of(luma_sum(data, count), of_count(count));
            let mean_square = quotient_of(luma_square_sum(data, count), of_count(count));
            &&& is_moderate(luma_sum(data, count))
            &&& is_moderate(luma_square_sum(data, count))
            &&& is_moderate(of_count(non_black_pixels(data, count)))
            &&& is_moderate(mean)
            &&& is_moderate(mean_square)
            &&& is_moderate(product_of(mean, mean))
        }),
{
    assert(0 < width * height <= 4_294_967_295 * 4_294_967_295) by (nonlinear_arith)
        requires
            0 < width <= 4_294_967_295,
            0 < height <= 4_294_967_295,
    ;
    let count = (width * height) as nat;
    let bright = non_black_pixels(data, count);
    lemma_non_black_bounded(data, count);
    lemma_two_pow_values();
    lemma_count_exponent(count, 64);
    lemma_count_exponent(bright, 64);
    lemma_sums_exponent(data, count);
    let total = of_count(count);
    lemma_quotient_exponent(luma_sum(data, count), total);
    lemma_quotient_exponent(luma_square_sum(data, count), total);
    lemma_quotient_exponent(of_count(bright), total);
    let mean = quotient_of(luma_sum(data, count), total);
    lemma_product_exponent(mean, mean);
    let mean_square = quotient_of(luma_square_sum(data, count), total);
    let squared_mean = product_of(mean, mean);
    if is_less(squared_mean, mean_square) && squared_mean.mantissa > 0 {
        lemma_difference_exponent(mean_square, squared_mean);
    }
}

/// What the limits are in units.
proof fn lemma_limits()
    ensures
        1000 * scaled(least_share()) == unit() + 96 * two_pow(1138),
        unit() == 0x4000_0000_0000_0000 * two_pow(1138),
        scaled(least_share()) == 4_611_686_018_427_388 * two_pow(1138),
        scaled(least_variance()) == 4 * unit(),
        two_pow(1138) > 0,
{
    lemma_two_pow_values();
    lemma_two_pow_positive(1138);
    lemma_two_pow_adds(62, 1138);
    assert(two_pow(62) == 0x4000_0000_0000_0000) by {
        reveal_with_fuel(two_pow, 11);
    }
    lemma_two_pow_adds(52, 1150);
    lemma_two_pow_adds(2, unit_bits());
    reveal_with_fuel(two_pow, 3);
}

/// A double below a thousandth is at least one in its last place below the double of a
/// thousandth.
proof fn lemma_below_the_least_share(share: Binary)
    requires
        is_moderate(share),
        scaled(share) < scaled(least_share()),
    ensures
        scaled(share) + two_pow(1138) <= scaled(least_share()),
{
    lemma_limits();
    let last = two_pow(1138) as int;
    if share.exponent >= -62 {
        let shift = (share.exponent + 62) as nat;
        lemma_two_pow_adds(shift, 1138);
        let k = (share.mantissa * two_pow(shift)) as int;
        assert(scaled(share) == k * last) by (nonlinear_arith)
            requires
                scaled(share) == share.mantissa * (two_pow(shift) * last),
                k == share.mantissa * two_pow(shift),
        ;
        assert(k < 4_611_686_018_427_388) by (nonlinear_arith)
            requires
                k * last < 4_611_686_018_427_388 * last,
                0 < last,
        ;
        assert(k * last <= 4_611_686_018_427_387 * last) by (nonlinear_arith)
            requires
                k <= 4_611_686_018_427_387,
                0 < last,
        ;
    } else {
        let low = (share.exponent + unit_bits()) as nat;
        let gap = (1138 - low) as nat;
        lemma_two_pow_adds(gap, low);
        lemma_two_pow_positive((gap - 1) as nat);
        let fine = two_pow(low) as int;
        let wide = two_pow(gap) as int;
        assert(wide >= 2);
        assert(last >= 2 * fine) by (nonlinear_arith)
            requires
                last == wide * fine,
                wide >= 2,
                fine >= 0,
        ;
        assert(share.mantissa * fine <= 0x20_0000_0000_0000 * fine) by (nonlinear_arith)
            requires
                share.mantissa <= 0x20_0000_0000_0000,
                0 <= fine,
        ;
    }
}

/// A frame is black exactly where the share that is reported is below a thousandth, and a capture
/// is usable exactly where its frame is not black and the variance that is reported is four or
/// more.
pub proof fn law_verdicts_compare_the_measures(width: u32, height: u32, data: Seq<u8>)
    requires
        0 < width,
        0 < height,
    ensures
        ({
            let quality = quality_of(width, height, data);
            &&& quality.normalized_width == width
            &&& quality.normalized_height == height
            &&& quality.black_frame <==> 1000 * scaled(quality.non_black_ratio) < unit()
            &&& quality.capture_quality_ok <==> !quality.black_frame && scaled(
                quality.luma_variance,
            ) >= 4 * unit()
        }),
{
    let quality = quality_of(width, height, data);
    lemma_measures_moderate(width, height, data);
    lemma_limits();
    lemma_less_scaled(quality.non_black_ratio, least_share());
    lemma_less_scaled(quality.luma_variance, least_variance());
    if scaled(quality.non_black_ratio) < scaled(least_share()) {
        lemma_below_the_least_share(quality.non_black_ratio);
    }
}

/// The quotient of two doubles that are near to numbers of units is near to their quotient.
proof fn lemma_quotient_near(above: Binary, below: Binary, count: nat)
    requires
        is_moderate(above),
        is_moderate(below),
        below.mantissa > 0,
        is_moderate(quotient_of(above, below)),
        below == of_count(count),
        count > 0,
    ensures
        is_near(
            (scaled(quotient_of(above, below)) * count) as int,
            scaled(above) as int,
            4,
        ),
{
    lemma_quotient_close(above, below);
    lemma_count_close(count);
    lemma_two_pow_positive(unit_bits());
    let one = unit() as int;
    let q = scaled(quotient_of(above, below)) as int;
    let a = scaled(above) as int;
    let b = scaled(below) as int;
    let n = count as int;
    lemma_close_is_near(q * b, a * one);
    lemma_close_is_near(b, n * one);
    assert(0 <= n * one && 0 <= q * b && 0 <= a * one && 0 <= q * (n * one)) by (nonlinear_arith)
        requires
            0 <= n,
            0 <= one,
            0 <= q,
            0 <= b,
            0 <= a,
    ;
    lemma_near_turns(b, n * one, 1);
    lemma_near_scales(n * one, b, 2, q);
    lemma_near_chains(q * (n * one), q * b, a * one, 2, 1);
    assert(q * (n * one) == (q * n) * one) by (nonlinear_arith);
    lemma_near_unscales(q * n, a, 4, one);
}

/// The share that is reported is that of the pixels that are not black, up to rounding: times
/// the number of pixels it is their number, to one part in two to the power 50.
pub proof fn law_the_share_is_of_the_pixels(width: u32, height: u32, data: Seq<u8>)
    requires
        0 < width,
        0 < height,
    ensures
        ({
            let share = scaled(quality_of(width, height, data).non_black_ratio);
            let count = (width * height) as nat;
            let bright = non_black_pixels(data, count) * unit();
            0x4_0000_0000_0000 * distance((share * count) as int, bright as int) <= bright
        }),
{
    let quality = quality_of(width, height, data);
    lemma_measures_moderate(width, height, data);
    let count = (width * height) as nat;
    let bright = non_black_pixels(data, count);
    lemma_quotient_near(of_count(bright), of_count(count), count);
    lemma_count_close(bright);
    let share = scaled(quality.non_black_ratio) as int;
    let b = scaled(of_count(bright)) as int;
    let exact = (bright * unit()) as int;
    lemma_close_is_near(b, exact);
    lemma_products_not_negative(share, count as int);
    lemma_near_chains(share * count, b, exact, 4, 1);
    lemma_near_widens(share * count, exact, 6, 8);
}

proof fn lemma_products_not_negative(left: int, right: int)
    requires
        0 <= left,
        0 <= right,
    ensures
        0 <= left * right,
{
    assert(0 <= left * right) by (nonlinear_arith)
        requires
            0 <= left,
            0 <= right,
    ;
}

/// A frame of less than two to the power 50 pixels is black exactly where less than one in a
/// thousand of its pixels is not black.
pub proof fn law_black_frames_have_few_bright_pixels(width: u32, height: u32, data: Seq<u8>)
    requires
        0 < width,
        0 < height,
        width * height < 0x4_0000_0000_0000,
    ensures
        quality_of(width, height, data).black_frame <==> 1000 * non_black_pixels(
            data,
            (width * height) as nat,
        ) < width * height,
{
    let quality = quality_of(width, height, data);
    lemma_measures_moderate(width, height, data);
    law_verdicts_compare_the_measures(width, height, data);
    law_the_share_is_of_the_pixels(width, height, data);
    lemma_limits();
    let count = (width * height) as nat;
    let bright = non_black_pixels(data, count);
    lemma_non_black_bounded(data, count);
    let n = count as int;
    let k = bright as int;
    let one = unit() as int;
    let last = two_pow(1138) as int;
    let share = scaled(quality.non_black_ratio) as int;
    let limit = scaled(least_share()) as int;
    if 1000 * k < n {
        assert(1000 * share < one) by (nonlinear_arith)
            requires
                0x4_0000_0000_0000 * (share * n - k * one) <= k * one,
                1000 * k < n,
                0 <= k,
                0 < n < 0x4_0000_0000_0000,
                0 < one,
        {
            assert(0x4_0000_0000_0000 * (share * n) <= 0x4_0000_0000_0001 * (k * one));
            assert(1000 * (0x4_0000_0000_0001 * (k * one)) <= 0x4_0000_0000_0001 * ((n - 1)
                * one));
            assert(0x4_0000_0000_0001 * (n - 1) < 0x4_0000_0000_0000 * n);
            assert((0x4_0000_0000_0001 * (n - 1)) * one < (0x4_0000_0000_0000 * n) * one);
            assert(1000 * (share * n) < n * one);
            if 1000 * share >= one {
                assert((1000 * share) * n >= one * n);
            }
        }
    } else {
        law_small_counts_are_exact(count);
        law_small_counts_are_exact(bright);
        law_quotients_are_the_nearest(of_count(bright), of_count(count), least_share());
        assert(share * (n * one) == (share * n) * one && limit * (n * one) == (limit * n) * one)
            by (nonlinear_arith);
        lemma_distance_scales(share * n, k * one, one);
        lemma_distance_scales(limit * n, k * one, one);
        let near = distance(share * n, k * one);
        let far = distance(limit * n, k * one);
        assert(near <= far) by (nonlinear_arith)
            requires
                near * one <= far * one,
                0 < one,
        ;
        if 1000 * share < one {
            lemma_below_the_least_share(quality.non_black_ratio);
            assert(share * n <= limit * n - last * n) by (nonlinear_arith)
                requires
                    share + last <= limit,
                    0 < n,
            ;
            assert(1000 * (limit * n) == n * one + 96 * (last * n)) by (nonlinear_arith)
                requires
                    1000 * limit == one + 96 * last,
            ;
            assert(n * one <= 1000 * (k * one)) by (nonlinear_arith)
                requires
                    n <= 1000 * k,
                    0 < one,
            ;
            assert(0 < last * n) by (nonlinear_arith)
                requires
                    0 < last,
                    0 < n,
            ;
            assert(false);
        }
    }
}

/// What the weights are in units.
proof fn lemma_weights()
    ensures
        ({
            let part = two_pow(1144);
            &&& part > 0
            &&& unit() == 0x100_0000_0000_0000 * part
            &&& scaled(red_weight()) == 5_386_305_154_335_113 * (4 * part)
            &&& scaled(green_weight()) == 5_287_225_962_532_962 * (8 * part)
            &&& scaled(blue_weight()) == 8_214_565_720_323_785 * part
        }),
{
    lemma_two_pow_values();
    lemma_two_pow_positive(1144);
    let power = two_pow(1144);
    assert(two_pow(1147) == 8 * power && two_pow(1146) == 4 * power) by {
        reveal_with_fuel(two_pow, 4);
    }
    assert(two_pow(56) == 0x100_0000_0000_0000) by {
        reveal_with_fuel(two_pow, 4);
    }
    lemma_two_pow_adds(1144, 56);
}

/// A channel, weighed by a double that is near to so many thousandths, is near to that.
proof fn lemma_weighed_near(weight: Binary, thousandths: int, channel: u8)
    requires
        is_normal(weight),
        -56 <= weight.exponent <= -53,
        0 <= thousandths,
        is_near((1000 * scaled(weight)) as int, thousandths * unit(), 1),
    ensures
        is_near(
            (1000 * scaled(weighed(weight, channel))) as int,
            (thousandths * channel) * unit(),
            5,
        ),
{
    lemma_weighed_exponent(weight, channel);
    let count = of_count(channel as nat);
    lemma_count_close(channel as nat);
    lemma_product_close(weight, count);
    lemma_two_pow_positive(unit_bits());
    let one = unit() as int;
    let w = scaled(weight) as int;
    let c = scaled(count) as int;
    let p = scaled(weighed(weight, channel)) as int;
    let n = channel as int;
    lemma_close_is_near(p * one, w * c);
    lemma_close_is_near(c, n * one);
    lemma_products_not_negative(n, one);
    lemma_products_not_negative(p, one);
    lemma_products_not_negative(w, c);
    lemma_products_not_negative(w, n * one);
    lemma_near_scales(c, n * one, 1, w);
    lemma_near_chains(p * one, w * c, w * (n * one), 1, 1);
    assert(w * (n * one) == (w * n) * one) by (nonlinear_arith);
    lemma_near_unscales(p, w * n, 3, one);
    lemma_near_scales(p, w * n, 3, 1000);
    lemma_near_scales(1000 * w, thousandths * one, 1, n);
    assert(1000 * (w * n) == (1000 * w) * n) by (nonlinear_arith);
    assert((thousandths * one) * n == (thousandths * n) * one) by (nonlinear_arith);
    lemma_products_not_negative(w, n);
    lemma_products_not_negative(thousandths, n);
    lemma_products_not_negative(thousandths * n, one);
    lemma_near_chains(1000 * p, 1000 * (w * n), (thousandths * n) * one, 3, 1);
}

proof fn lemma_luma_near(red: u8, green: u8, blue: u8)
    ensures
        is_near(
            (1000 * scaled(luma_of(red, green, blue))) as int,
            (299 * red + 587 * green + 114 * blue) * unit(),
            9,
        ),
{
    lemma_weights();
    lemma_weighed_near(red_weight(), 299, red);
    lemma_weighed_near(green_weight(), 587, green);
    lemma_weighed_near(blue_weight(), 114, blue);
    lemma_weighed_exponent(red_weight(), red);
    lemma_weighed_exponent(green_weight(), green);
    lemma_weighed_exponent(blue_weight(), blue);
    lemma_luma_exponent(red, green, blue);
    let two = sum_of(weighed(red_weight(), red), weighed(green_weight(), green));
    lemma_sum_close(weighed(red_weight(), red), weighed(green_weight(), green));
    lemma_sum_close(two, weighed(blue_weight(), blue));
    let one = unit() as int;
    let r = scaled(weighed(red_weight(), red)) as int;
    let g = scaled(weighed(green_weight(), green)) as int;
    let b = scaled(weighed(blue_weight(), blue)) as int;
    let rg = scaled(two) as int;
    let luma = scaled(luma_of(red, green, blue)) as int;
    let er = (299 * red) * one;
    let eg = (587 * green) * one;
    let eb = (114 * blue) * one;
    lemma_products_not_negative(299 * red, one);
    lemma_products_not_negative(587 * green, one);
    lemma_products_not_negative(114 * blue, one);
    lemma_near_adds(1000 * r, er, 1000 * g, eg, 5);
    lemma_close_is_near(rg, r + g);
    lemma_near_scales(rg, r + g, 1, 1000);
    lemma_near_chains(1000 * rg, 1000 * (r + g), er + eg, 1, 5);
    lemma_near_widens(1000 * b, eb, 5, 7);
    lemma_near_adds(1000 * rg, er + eg, 1000 * b, eb, 7);
    lemma_close_is_near(luma, rg + b);
    lemma_near_scales(luma, rg + b, 1, 1000);
    lemma_near_chains(1000 * luma, 1000 * (rg + b), er + eg + eb, 1, 7);
    assert((299 * red + 587 * green + 114 * blue) * one == er + eg + eb) by (nonlinear_arith)
        requires
            er == (299 * red) * one,
            eg == (587 * green) * one,
            eb == (114 * blue) * one,
    ;
}

/// The luma of a pixel is 0.299 of its red, 0.587 of its green and 0.114 of its blue, to one part
/// in two to the power 49.
pub proof fn law_luma_weighs_the_channels(red: u8, green: u8, blue: u8)
    ensures
        ({
            let luma = 1000 * scaled(luma_of(red, green, blue));
            let exact = (299 * red + 587 * green + 114 * blue) * unit();
            0x2_0000_0000_0000 * distance(luma as int, exact) <= exact
        }),
{
    lemma_luma_near(red, green, blue);
    let exact = (299 * red + 587 * green + 114 * blue) * unit();
    lemma_products_not_negative(299 * red + 587 * green + 114 * blue, unit() as int);
    lemma_near_widens((1000 * scaled(luma_of(red, green, blue))) as int, exact, 9, 16);
}

/// Luma adds up channel by channel: that of red and green is the double nearest to the sum of
/// theirs, and with blue it is the double nearest to that and blue's.
pub proof fn law_luma_adds_up_in_order(red: u8, green: u8, blue: u8, other: Binary)
    requires
        is_moderate(other),
    ensures
        ({
            let exact = scaled(luma_of(red, 0, 0)) + scaled(luma_of(0, green, 0));
            distance(scaled(luma_of(red, green, 0)) as int, exact as int) <= distance(
                scaled(other) as int,
                exact as int,
            )
        }),
        ({
            let exact = scaled(luma_of(red, green, 0)) + scaled(luma_of(0, 0, blue));
            distance(scaled(luma_of(red, green, blue)) as int, exact as int) <= distance(
                scaled(other) as int,
                exact as int,
            )
        }),
{
    assert(weighed(red_weight(), 0) == zero());
    assert(weighed(green_weight(), 0) == zero());
    assert(weighed(blue_weight(), 0) == zero());
    lemma_weighed_exponent(red_weight(), red);
    lemma_weighed_exponent(green_weight(), green);
    lemma_weighed_exponent(blue_weight(), blue);
    lemma_luma_exponent(red, green, blue);
    let two = sum_of(weighed(red_weight(), red), weighed(green_weight(), green));
    law_sums_are_the_nearest(weighed(red_weight(), red), weighed(green_weight(), green), other);
    law_sums_are_the_nearest(two, weighed(blue_weight(), blue), other);
}

/// The sums over a frame start from zero, and each pixel adds its luma and the square of it, in
/// double precision: each is the double nearest to what it was and what is added.
pub proof fn law_sums_grow_by_each_pixel(data: Seq<u8>, count: nat, other: Binary)
    requires
        is_moderate(other),
    ensures
        scaled(luma_sum(data, 0)) == 0,
        scaled(luma_square_sum(data, 0)) == 0,
        ({
            let i = 3 * (count as int);
            let luma = luma_of(data[i], data[i + 1], data[i + 2]);
            let exact = scaled(luma_sum(data, count)) + scaled(luma);
            distance(scaled(luma_sum(data, count + 1)) as int, exact as int) <= distance(
                scaled(other) as int,
                exact as int,
            )
        }),
        ({
            let i = 3 * (count as int);
            let luma = luma_of(data[i], data[i + 1], data[i + 2]);
            let exact = scaled(luma_square_sum(data, count)) + scaled(product_of(luma, luma));
            distance(scaled(luma_square_sum(data, count + 1)) as int, exact as int) <= distance(
                scaled(other) as int,
                exact as int,
            )
        }),
{
    assert(0 * two_pow(unit_bits()) == 0);
    let i = 3 * (count as int);
    let luma = luma_of(data[i], data[i + 1], data[i + 2]);
    assert(luma == pixel_luma(data, count as int));
    lemma_luma_exponent(data[i], data[i + 1], data[i + 2]);
    lemma_sums_exponent(data, count);
    lemma_sums_exponent(data, count + 1);
    law_sums_are_the_nearest(luma_sum(data, count), luma, other);
    law_sums_are_the_nearest(luma_square_sum(data, count), product_of(luma, luma), other);
}

/// Each pixel adds to the sums over a frame its weighed channels and their square, to one part
/// in two to the power 48.
pub proof fn law_sums_weigh_the_channels(data: Seq<u8>, count: nat)
    ensures
        ({
            let i = 3 * (count as int);
            let level = 299 * data[i] + 587 * data[i + 1] + 114 * data[i + 2];
            let exact = 1000 * scaled(luma_sum(data, count)) + level * unit();
            0x1_0000_0000_0000 * distance(
                (1000 * scaled(luma_sum(data, count + 1))) as int,
                exact,
            ) <= exact
        }),
        ({
            let i = 3 * (count as int);
            let level = 299 * data[i] + 587 * data[i + 1] + 114 * data[i + 2];
            let exact = 1_000_000 * scaled(luma_square_sum(data, count)) + (level * level)
                * unit();
            0x1_0000_0000_0000 * distance(
                (1_000_000 * scaled(luma_square_sum(data, count + 1))) as int,
                exact,
            ) <= exact
        }),
{
    let i = 3 * (count as int);
    let level = 299 * data[i] + 587 * data[i + 1] + 114 * data[i + 2];
    let luma = luma_of(data[i], data[i + 1], data[i + 2]);
    assert(luma == pixel_luma(data, count as int));
    lemma_luma_exponent(data[i], data[i + 1], data[i + 2]);
    lemma_luma_near(data[i], data[i + 1], data[i + 2]);
    lemma_sums_exponent(data, count);
    lemma_sums_exponent(data, count + 1);
    lemma_sum_close(luma_sum(data, count), luma);
    lemma_sum_close(luma_square_sum(data, count), product_of(luma, luma));
    lemma_product_close(luma, luma);
    lemma_two_pow_positive(unit_bits());
    let one = unit() as int;
    let l = scaled(luma) as int;
    let q = scaled(product_of(luma, luma)) as int;
    let before = scaled(luma_sum(data, count)) as int;
    let after = scaled(luma_sum(data, count + 1)) as int;
    let squares_before = scaled(luma_square_sum(data, count)) as int;
    let squares_after = scaled(luma_square_sum(data, count + 1)) as int;
    let exact = level * one;
    lemma_products_not_negative(level, one);
    lemma_equal_is_near(1000 * before, 9);
    lemma_near_adds(1000 * before, 1000 * before, 1000 * l, exact, 9);
    lemma_close_is_near(after, before + l);
    lemma_near_scales(after, before + l, 1, 1000);
    lemma_near_chains(1000 * after, 1000 * (before + l), 1000 * before + exact, 1, 9);
    lemma_near_widens(1000 * after, 1000 * before + exact, 11, 32);
    lemma_close_is_near(q * one, l * l);
    lemma_near_multiplies(1000 * l, exact, 1000 * l, exact, 9, 9);
    assert((1000 * l) * (1000 * l) == 1_000_000 * (l * l)) by (nonlinear_arith);
    lemma_near_scales(q * one, l * l, 1, 1_000_000);
    lemma_products_not_negative(q, one);
    lemma_products_not_negative(l, l);
    lemma_products_not_negative(exact, exact);
    lemma_near_chains(1_000_000 * (q * one), 1_000_000 * (l * l), exact * exact, 1, 19);
    let square = (level * level) * one;
    assert(exact * exact == square * one && 1_000_000 * (q * one) == (1_000_000 * q) * one)
        by (nonlinear_arith)
        requires
            exact == level * one,
            square == (level * level) * one,
    ;
    lemma_near_unscales(1_000_000 * q, square, 21, one);
    lemma_products_not_negative(level, level);
    lemma_products_not_negative(level * level, one);
    lemma_equal_is_near(1_000_000 * squares_before, 21);
    lemma_near_adds(
        1_000_000 * squares_before,
        1_000_000 * squares_before,
        1_000_000 * q,
        square,
        21,
    );
    lemma_close_is_near(squares_after, squares_before + q);
    lemma_near_scales(squares_after, squares_before + q, 1, 1_000_000);
    lemma_near_chains(
        1_000_000 * squares_after,
        1_000_000 * (squares_before + q),
        1_000_000 * squares_before + square,
        1,
        21,
    );
    lemma_near_widens(
        1_000_000 * squares_after,
        1_000_000 * squares_before + square,
        23,
        32,
    );
}

/// The variance that is reported is the mean of the squares of luma less the square of its mean,
/// and not negative: times the square of the number of pixels it is what that makes of the two
/// sums, to one part in two to the power 48 of them.
pub proof fn law_the_variance_is_of_the_sums(width: u32, height: u32, data: Seq<u8>)
    requires
        0 < width,
        0 < height,
    ensures
        ({
            let count = (width * height) as nat;
            let variance = scaled(quality_of(width, height, data).luma_variance) as int;
            let sum = scaled(luma_sum(data, count)) as int;
            let squares = (scaled(luma_square_sum(data, count)) * count) * unit();
            let exact = if squares > sum * sum {
                squares - sum * sum
            } else {
                0
            };
            0x1_0000_0000_0000 * distance(((variance * count) * count) * unit(), exact) <= squares
                + sum * sum
        }),
{
    let quality = quality_of(width, height, data);
    lemma_measures_moderate(width, height, data);
    lemma_two_pow_positive(unit_bits());
    let count = (width * height) as nat;
    let total = of_count(count);
    let mean = quotient_of(luma_sum(data, count), total);
    let mean_square = quotient_of(luma_square_sum(data, count), total);
    let squared_mean = product_of(mean, mean);
    lemma_quotient_near(luma_sum(data, count), total, count);
    lemma_quotient_near(luma_square_sum(data, count), total, count);
    lemma_product_close(mean, mean);
    lemma_differences_close(mean_square, squared_mean);
    let n = count as int;
    let one = unit() as int;
    let s = scaled(luma_sum(data, count)) as int;
    let q = scaled(luma_square_sum(data, count)) as int;
    let m = scaled(mean) as int;
    let v = scaled(mean_square) as int;
    let w = scaled(squared_mean) as int;
    let r = scaled(quality.luma_variance) as int;
    // The mean of the squares, in the measure of the claim.
    lemma_near_scales(v * n, q, 4, n * one);
    let a = (q * n) * one;
    let va = ((v * n) * n) * one;
    assert((v * n) * (n * one) == va && q * (n * one) == a) by (nonlinear_arith)
        requires
            va == ((v * n) * n) * one,
            a == (q * n) * one,
    ;
    // The square of the mean.
    lemma_products_not_negative(m, n);
    lemma_near_multiplies(m * n, s, m * n, s, 4, 4);
    lemma_close_is_near(w * one, m * m);
    lemma_products_not_negative(n, n);
    lemma_near_scales(w * one, m * m, 1, n * n);
    let wa = ((w * n) * n) * one;
    assert((w * one) * (n * n) == wa && (m * m) * (n * n) == (m * n) * (m * n))
        by (nonlinear_arith)
        requires
            wa == ((w * n) * n) * one,
    ;
    lemma_products_not_negative(w, n);
    lemma_products_not_negative(w * n, n);
    lemma_products_not_negative((w * n) * n, one);
    lemma_products_not_negative(m * n, m * n);
    lemma_products_not_negative(s, s);
    lemma_near_chains(wa, (m * n) * (m * n), s * s, 1, 9);
    // The difference.
    let ra = ((r * n) * n) * one;
    let factor = (n * n) * one;
    assert(va == v * factor && wa == w * factor && ra == r * factor) by (nonlinear_arith)
        requires
            va == ((v * n) * n) * one,
            wa == ((w * n) * n) * one,
            ra == ((r * n) * n) * one,
            factor == (n * n) * one,
    ;
    lemma_products_not_negative(n * n, one);
    lemma_products_not_negative(q, n);
    lemma_products_not_negative(q * n, one);
    if v <= w {
        assert(va <= wa) by (nonlinear_arith)
            requires
                va == v * factor,
                wa == w * factor,
                v <= w,
                0 <= factor,
        ;
        assert(ra == 0) by (nonlinear_arith)
            requires
                ra == r * factor,
                r == 0,
        ;
    } else {
        lemma_close_is_near(r, v - w);
        lemma_near_scales(r, v - w, 1, factor);
        assert((v - w) * factor == va - wa && va >= wa) by (nonlinear_arith)
            requires
                va == v * factor,
                wa == w * factor,
                w < v,
                0 <= factor,
        ;
    }
}

/// What is said of a screenshot is about what is wrong with it, whatever the cause behind it is,
/// and bytes that are no image have their cause, and nothing else has one.
pub proof fn law_bad_screenshots_are_named(error: ScreenshotError)
    ensures
        match error {
            ScreenshotError::Missing => screenshot_error_message(error)
                == "Connection succeeded but MaaCore returned no screenshot"@,
            ScreenshotError::Empty => screenshot_error_message(error)
                == "Connection succeeded but MaaCore returned an empty screenshot"@,
            ScreenshotError::InvalidPng(_) => screenshot_error_message(error)
                == "MaaCore returned an invalid PNG screenshot"@,
            ScreenshotError::EmptyPng => screenshot_error_message(error)
                == "MaaCore returned an empty PNG screenshot"@,
        },
        screenshot_error_cause(error) == (match error {
            ScreenshotError::InvalidPng(cause) => Some(cause@),
            _ => None,
        }),
{
}

/// The share that is reported is the double nearest to the quotient of the two numbers of pixels,
/// as doubles, and the variance the double nearest to the mean of the squares less the square of
/// the mean, as doubles, and zero where that would not be positive.
pub proof fn law_measures_are_the_nearest(width: u32, height: u32, data: Seq<u8>, other: Binary)
    requires
        0 < width,
        0 < height,
        is_moderate(other),
    ensures
        ({
            let count = (width * height) as nat;
            let share = scaled(quality_of(width, height, data).non_black_ratio);
            let all = scaled(of_count(count));
            let bright = scaled(of_count(non_black_pixels(data, count)));
            distance((share * all) as int, (bright * unit()) as int) <= distance(
                (scaled(other) * all) as int,
                (bright * unit()) as int,
            )
        }),
        ({
            let count = (width * height) as nat;
            let variance = scaled(quality_of(width, height, data).luma_variance);
            let mean = quotient_of(luma_sum(data, count), of_count(count));
            let of_squares = scaled(quotient_of(luma_square_sum(data, count), of_count(count)));
            let squared = scaled(product_of(mean, mean));
            if of_squares <= squared {
                variance == 0
            } else {
                distance(variance as int, of_squares - squared) <= distance(
                    scaled(other) as int,
                    of_squares - squared,
                )
            }
        }),
{
    lemma_measures_moderate(width, height, data);
    let count = (width * height) as nat;
    let total = of_count(count);
    law_quotients_are_the_nearest(of_count(non_black_pixels(data, count)), total, other);
    let mean = quotient_of(luma_sum(data, count), total);
    let mean_square = quotient_of(luma_square_sum(data, count), total);
    law_differences_are_the_nearest(mean_square, product_of(mean, mean), other);
}

/// A frame of which every pixel has the same three bytes, of up to two to the power 35 pixels, is
/// no usable capture, whatever its colour.
pub proof fn law_frames_of_one_colour_are_rejected(width: u32, height: u32, data: Seq<u8>)
    requires
        0 < width,
        0 < height,
        width * height <= 0x8_0000_0000,
        forall|i: int|
            #![trigger pixel_luma(data, i)]
            0 <= i < width * height ==> data[3 * i] == data[0] && data[3 * i + 1] == data[1]
                && data[3 * i + 2] == data[2],
    ensures
        scaled(quality_of(width, height, data).luma_variance) < 4 * unit(),
        !quality_of(width, height, data).capture_quality_ok,
{
    let level = luma_of(data[0], data[1], data[2]);
    assert forall|i: int| 0 <= i < width * height implies #[trigger] pixel_luma(data, i)
        == level by {
        assert(pixel_luma(data, i) == luma_of(data[3 * i], data[3 * i + 1], data[3 * i + 2]));
    }
    law_flat_frames_are_rejected(width, height, data, level);
}

} // verus!
