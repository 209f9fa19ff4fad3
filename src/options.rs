use vstd::prelude::*;

verus! {

/// Options for how to format a floating point number.
#[derive(Clone, Copy, Debug, PartialEq, Eq, Hash)]
pub struct FloatFormatOptions {
    /// Always show the sign, even if it is positive (`+`).
    pub always_sign: bool,
    /// Maximum digits of precision to use, counting both the integer and the fractional part.
    pub precision: usize,
    /// Max number of decimals to show after the decimal point.
    ///
    /// If not specified, `precision` decides alone.
    pub num_decimals: Option<usize>,
    /// Drop trailing zeros of the decimal expansion, and then a bare trailing point.
    pub strip_trailing_zeros: bool,
    /// Only add thousands separators to decimals if there are at least this many decimals.
    pub min_decimals_for_thousands_separators: usize,
}

/// The options that differ from the presets only in their precision.
pub open spec fn is_preset(o: FloatFormatOptions, precision: usize) -> bool {
    &&& !o.always_sign
    &&& o.precision == precision
    &&& o.num_decimals is None
    &&& o.strip_trailing_zeros
    &&& o.min_decimals_for_thousands_separators == 6
}

/// The options for a latitude or a longitude.
pub open spec fn lat_lon_options() -> FloatFormatOptions {
    FloatFormatOptions {
        always_sign: true,
        precision: 10,
        num_decimals: Some(6),
        strip_trailing_zeros: false,
        min_decimals_for_thousands_separators: 10,
    }
}

impl FloatFormatOptions {
    /// Default options for a 16-bit float: five digits of precision.
    pub fn default_f16() -> (r: Self)
        ensures
            is_preset(r, 5),
    {
        FloatFormatOptions {
            always_sign: false,
            precision: 5,
            num_decimals: None,
            strip_trailing_zeros: true,
            min_decimals_for_thousands_separators: 6,
        }
    }

    /// Default options for a 32-bit float: seven digits of precision.
    pub fn default_f32() -> (r: Self)
        ensures
            is_preset(r, 7),
    {
        FloatFormatOptions {
            always_sign: false,
            precision: 7,
            num_decimals: None,
            strip_trailing_zeros: true,
            min_decimals_for_thousands_separators: 6,
        }
    }

    /// Default options for a 64-bit float: fifteen digits of precision.
    pub fn default_f64() -> (r: Self)
        ensures
            is_preset(r, 15),
    {
        FloatFormatOptions {
            always_sign: false,
            precision: 15,
            num_decimals: None,
            strip_trailing_zeros: true,
            min_decimals_for_thousands_separators: 6,
        }
    }

    /// Options for a latitude or a longitude: always signed, exactly six decimals.
    pub fn lat_lon() -> (r: Self)
        ensures
            r == lat_lon_options(),
    {
        FloatFormatOptions {
            always_sign: true,
            precision: 10,
            num_decimals: Some(6),
            strip_trailing_zeros: false,
            min_decimals_for_thousands_separators: 10,
        }
    }

    /// Always show the sign, even if it is positive (`+`).
    pub fn with_always_sign(self, always_sign: bool) -> (r: Self)
        ensures
            r == (FloatFormatOptions { always_sign, ..self }),
    {
        FloatFormatOptions { always_sign, ..self }
    }

    /// Show at most this many digits of precision,
    /// including both the integer part and the fractional part.
    pub fn with_precision(self, precision: usize) -> (r: Self)
        ensures
            r == (FloatFormatOptions { precision, ..self }),
    {
        FloatFormatOptions { precision, ..self }
    }

    /// Max number of decimals to show after the decimal point.
    pub fn with_decimals(self, num_decimals: usize) -> (r: Self)
        ensures
            r == (FloatFormatOptions { num_decimals: Some(num_decimals), ..self }),
    {
        FloatFormatOptions { num_decimals: Some(num_decimals), ..self }
    }

    /// Strip trailing zeros from the decimal expansion?
    pub fn with_strip_trailing_zeros(self, strip_trailing_zeros: bool) -> (r: Self)
        ensures
            r == (FloatFormatOptions { strip_trailing_zeros, ..self }),
    {
        FloatFormatOptions { strip_trailing_zeros, ..self }
    }
}

} // verus!
