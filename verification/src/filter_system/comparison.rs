//! Numeric comparisons such as `>5`, `>=5`, `<5`, `<=5` or an exact text.
use vstd::prelude::*;
use crate::text::{
    decimal, decimal_matches, float_text, is_float_text, parse_unsigned, parse_unsigned_max,
    str_trim, trim,
};

verus! {

/// A comparison against a number, or an exact match against the text of a
/// number.
#[derive(Debug, Clone, PartialEq)]
pub enum ComparisonFilter<T> {
    GreaterThan(T),
    GreaterOrEqualThan(T),
    LessThan(T),
    LessOrEqualThan(T),
    Equals(String),
}

/// A [`ComparisonFilter`] with its value taken by its view and its text as
/// characters.
pub enum ComparisonView<V> {
    GreaterThan(V),
    GreaterOrEqualThan(V),
    LessThan(V),
    LessOrEqualThan(V),
    Equals(Seq<char>),
}

impl<T: View> View for ComparisonFilter<T> {
    type V = ComparisonView<T::V>;

    open spec fn view(&self) -> ComparisonView<T::V> {
        match self {
            ComparisonFilter::GreaterThan(v) => ComparisonView::GreaterThan(v@),
            ComparisonFilter::GreaterOrEqualThan(v) => ComparisonView::GreaterOrEqualThan(v@),
            ComparisonFilter::LessThan(v) => ComparisonView::LessThan(v@),
            ComparisonFilter::LessOrEqualThan(v) => ComparisonView::LessOrEqualThan(v@),
            ComparisonFilter::Equals(s) => ComparisonView::Equals(s@),
        }
    }
}

/// A value that a comparison can hold, read from text.
pub trait ComparisonValue: View + Sized {
    /// The value that the text denotes, if any.
    spec fn spec_from_text(s: Seq<char>) -> Option<<Self as View>::V>;

    fn from_text(s: &str) -> (r: Option<Self>)
        ensures
            match r {
                Some(v) => Self::spec_from_text(s@) == Some(v@),
                None => Self::spec_from_text(s@) is None,
            },
    ;
}

impl ComparisonValue for usize {
    open spec fn spec_from_text(s: Seq<char>) -> Option<usize> {
        match parse_unsigned(s, usize::MAX as nat) {
            Some(v) => Some(v as usize),
            None => None,
        }
    }

    fn from_text(s: &str) -> (r: Option<usize>) {
        let max: u64 = if usize::MAX as u64 == u64::MAX {
            u64::MAX
        } else {
            usize::MAX as u64
        };
        assert(max == usize::MAX);
        match parse_unsigned_max(s, max) {
            Some(v) => Some(v as usize),
            None => None,
        }
    }
}

impl ComparisonValue for u32 {
    open spec fn spec_from_text(s: Seq<char>) -> Option<u32> {
        match parse_unsigned(s, u32::MAX as nat) {
            Some(v) => Some(v as u32),
            None => None,
        }
    }

    fn from_text(s: &str) -> (r: Option<u32>) {
        match parse_unsigned_max(s, u32::MAX as u64) {
            Some(v) => Some(v as u32),
            None => None,
        }
    }
}

/// The text of a floating-point number, exactly as `f64`'s `FromStr`
/// accepts it (see [`is_float_text`]).
#[derive(Debug, PartialEq)]
pub struct FloatLiteral {
    text: String,
}

impl View for FloatLiteral {
    type V = Seq<char>;

    closed spec fn view(&self) -> Seq<char> {
        self.text@
    }
}

impl FloatLiteral {
    #[verifier::type_invariant]
    spec fn is_float(self) -> bool {
        is_float_text(self.text@)
    }

    /// The number's text.
    pub fn as_str(&self) -> (s: &str)
        ensures
            s@ == self@,
            is_float_text(s@),
    {
        proof {
            use_type_invariant(self);
        }
        self.text.as_str()
    }
}

impl Clone for FloatLiteral {
    fn clone(&self) -> (r: FloatLiteral)
        ensures
            r@ == self@,
    {
        proof {
            use_type_invariant(self);
        }
        FloatLiteral { text: self.text.clone() }
    }
}

impl ComparisonValue for FloatLiteral {
    open spec fn spec_from_text(s: Seq<char>) -> Option<Seq<char>> {
        if is_float_text(s) {
            Some(s)
        } else {
            None
        }
    }

    fn from_text(s: &str) -> (r: Option<FloatLiteral>) {
        if float_text(s) {
            Some(FloatLiteral { text: s.to_owned() })
        } else {
            None
        }
    }
}

/// The comparison that `value` denotes: `>=n`, `>n`, `<=n`, `<n` with `n`
/// read after trimming, and any other text as an exact match on that text;
/// `None` when the number after an operator does not read as a value.
pub open spec fn spec_comparison<T: ComparisonValue>(value: Seq<char>) -> Option<
    ComparisonView<<T as View>::V>,
> {
    if value.len() > 0 && value[0] == '>' {
        let rest = value.drop_first();
        if rest.len() > 0 && rest[0] == '=' {
            match T::spec_from_text(str_trim(rest.drop_first())) {
                Some(v) => Some(ComparisonView::GreaterOrEqualThan(v)),
                None => None,
            }
        } else {
            match T::spec_from_text(str_trim(rest)) {
                Some(v) => Some(ComparisonView::GreaterThan(v)),
                None => None,
            }
        }
    } else if value.len() >= 2 && value[0] == '<' && value[1] == '=' {
        match T::spec_from_text(str_trim(value.subrange(2, value.len() as int))) {
            Some(v) => Some(ComparisonView::LessOrEqualThan(v)),
            None => None,
        }
    } else if value.len() > 0 && value[0] == '<' {
        match T::spec_from_text(str_trim(value.drop_first())) {
            Some(v) => Some(ComparisonView::LessThan(v)),
            None => None,
        }
    } else {
        Some(ComparisonView::Equals(value))
    }
}

/// A parse result taken by its view.
pub open spec fn option_view<T: View>(o: Option<T>) -> Option<T::V> {
    match o {
        Some(t) => Some(t@),
        None => None,
    }
}

impl<T: ComparisonValue> ComparisonFilter<T> {
    /// Reads a comparison (see [`spec_comparison`]).
    pub fn parse(value: &str) -> (r: Option<Self>)
        ensures
            option_view(r) == spec_comparison::<T>(value@),
    {
        let n = value.unicode_len();
        if n > 0 && value.get_char(0) == '>' {
            let rest = value.substring_char(1, n);
            assert(rest@ =~= value@.drop_first());
            if n > 1 && value.get_char(1) == '=' {
                let num = value.substring_char(2, n);
                assert(num@ =~= rest@.drop_first());
                match T::from_text(trim(num)) {
                    Some(v) => Some(ComparisonFilter::GreaterOrEqualThan(v)),
                    None => None,
                }
            } else {
                match T::from_text(trim(rest)) {
                    Some(v) => Some(ComparisonFilter::GreaterThan(v)),
                    None => None,
                }
            }
        } else if n >= 2 && value.get_char(0) == '<' && value.get_char(1) == '=' {
            let num = value.substring_char(2, n);
            match T::from_text(trim(num)) {
                Some(v) => Some(ComparisonFilter::LessOrEqualThan(v)),
                None => None,
            }
        } else if n > 0 && value.get_char(0) == '<' {
            let num = value.substring_char(1, n);
            assert(num@ =~= value@.drop_first());
            match T::from_text(trim(num)) {
                Some(v) => Some(ComparisonFilter::LessThan(v)),
                None => None,
            }
        } else {
            Some(ComparisonFilter::Equals(value.to_owned()))
        }
    }
}

/// Whether `n` satisfies a comparison; an exact match compares the
/// decimal text of `n` with the stored text.
pub open spec fn compares_usize(n: usize, c: ComparisonView<usize>) -> bool {
    match c {
        ComparisonView::GreaterThan(v) => n > v,
        ComparisonView::GreaterOrEqualThan(v) => n >= v,
        ComparisonView::LessThan(v) => n < v,
        ComparisonView::LessOrEqualThan(v) => n <= v,
        ComparisonView::Equals(s) => decimal(n as nat) == s,
    }
}

/// Whether `n` satisfies a comparison; an exact match compares the
/// decimal text of `n` with the stored text.
pub open spec fn compares_u32(n: u32, c: ComparisonView<u32>) -> bool {
    match c {
        ComparisonView::GreaterThan(v) => n > v,
        ComparisonView::GreaterOrEqualThan(v) => n >= v,
        ComparisonView::LessThan(v) => n < v,
        ComparisonView::LessOrEqualThan(v) => n <= v,
        ComparisonView::Equals(s) => decimal(n as nat) == s,
    }
}

impl ComparisonFilter<usize> {
    /// Whether `n` satisfies this comparison (see [`compares_usize`]).
    pub fn holds_for(&self, n: usize) -> (r: bool)
        ensures
            r == compares_usize(n, self@),
    {
        match self {
            ComparisonFilter::GreaterThan(v) => n > *v,
            ComparisonFilter::GreaterOrEqualThan(v) => n >= *v,
            ComparisonFilter::LessThan(v) => n < *v,
            ComparisonFilter::LessOrEqualThan(v) => n <= *v,
            ComparisonFilter::Equals(s) => decimal_matches(n as u128, s.as_str()),
        }
    }
}

impl ComparisonFilter<u32> {
    /// Whether `n` satisfies this comparison (see [`compares_u32`]).
    pub fn holds_for(&self, n: u32) -> (r: bool)
        ensures
            r == compares_u32(n, self@),
    {
        match self {
            ComparisonFilter::GreaterThan(v) => n > *v,
            ComparisonFilter::GreaterOrEqualThan(v) => n >= *v,
            ComparisonFilter::LessThan(v) => n < *v,
            ComparisonFilter::LessOrEqualThan(v) => n <= *v,
            ComparisonFilter::Equals(s) => decimal_matches(n as u128, s.as_str()),
        }
    }
}

/// What a count comparison decides: `>`, `>=`, `<` and `<=` compare the
/// numbers, and an exact comparison holds when the decimal text of the count
/// is the stored text.
pub proof fn lemma_count_comparisons(n: usize, v: usize, m: u32, w: u32, s: Seq<char>)
    ensures
        compares_usize(n, ComparisonView::GreaterThan(v)) == (n > v),
        compares_usize(n, ComparisonView::GreaterOrEqualThan(v)) == (n >= v),
        compares_usize(n, ComparisonView::LessThan(v)) == (n < v),
        compares_usize(n, ComparisonView::LessOrEqualThan(v)) == (n <= v),
        compares_usize(n, ComparisonView::Equals(s)) == (decimal(n as nat) == s),
        compares_u32(m, ComparisonView::GreaterThan(w)) == (m > w),
        compares_u32(m, ComparisonView::GreaterOrEqualThan(w)) == (m >= w),
        compares_u32(m, ComparisonView::LessThan(w)) == (m < w),
        compares_u32(m, ComparisonView::LessOrEqualThan(w)) == (m <= w),
        compares_u32(m, ComparisonView::Equals(s)) == (decimal(m as nat) == s),
{
}

} // verus!
