//! The filter that each scanline went through before it was compressed, and
//! its reversal.

use crate::error::parse_failure;
use crate::error::Error;
use crate::error::ErrorKind;
use crate::error::ErrorView;
use vstd::prelude::*;
use vstd::std_specs::convert::TryFromSpecImpl;

verus! {

/// How the bytes of a scanline were predicted from their neighbours. The
/// first variant stands for no filtering at all.
#[derive(Debug, Clone, Copy, PartialEq, Eq, Structural)]
pub enum FilterType {
    Unfiltered,
    Sub,
    Up,
    Average,
    Paeth,
}

impl FilterType {
    /// The byte that stands for this filter at the head of a scanline.
    pub open spec fn spec_code(self) -> u8 {
        match self {
            FilterType::Unfiltered => 0,
            FilterType::Sub => 1,
            FilterType::Up => 2,
            FilterType::Average => 3,
            FilterType::Paeth => 4,
        }
    }

    /// The filter that `value` stands for, if any.
    pub open spec fn spec_from_code(value: u8) -> Option<FilterType> {
        match value {
            0 => Some(FilterType::Unfiltered),
            1 => Some(FilterType::Sub),
            2 => Some(FilterType::Up),
            3 => Some(FilterType::Average),
            4 => Some(FilterType::Paeth),
            _ => None,
        }
    }

    /// The byte that stands for this filter at the head of a scanline.
    #[verifier::when_used_as_spec(spec_code)]
    pub fn code(self) -> (b: u8)
        ensures
            b == self.spec_code(),
    {
        match self {
            FilterType::Unfiltered => 0,
            FilterType::Sub => 1,
            FilterType::Up => 2,
            FilterType::Average => 3,
            FilterType::Paeth => 4,
        }
    }
}

impl TryFrom<u8> for FilterType {
    type Error = Error;

    fn try_from(value: u8) -> (r: Result<Self, Error>) {
        match value {
            0 => Ok(FilterType::Unfiltered),
            1 => Ok(FilterType::Sub),
            2 => Ok(FilterType::Up),
            3 => Ok(FilterType::Average),
            4 => Ok(FilterType::Paeth),
            _ => Err(Error::InvalidFilterType(value)),
        }
    }
}

impl TryFromSpecImpl<u8> for FilterType {
    open spec fn obeys_try_from_spec() -> bool {
        true
    }

    open spec fn try_from_spec(value: u8) -> Result<Self, Error> {
        match FilterType::spec_from_code(value) {
            Some(filter_type) => Ok(filter_type),
            None => Err(Error::InvalidFilterType(value)),
        }
    }
}

/// The distance between two numbers.
pub open spec fn distance(a: int, b: int) -> int {
    if a <= b {
        b - a
    } else {
        a - b
    }
}

/// The Paeth predictor: of the three neighbours, the one nearest to
/// `left + up - up_left`, with `left` before `up` before `up_left` where two
/// are equally near.
pub open spec fn paeth_predictor(left: int, up: int, up_left: int) -> int {
    let estimate = left + up - up_left;
    let d_left = distance(estimate, left);
    let d_up = distance(estimate, up);
    let d_up_left = distance(estimate, up_left);
    if d_left <= d_up && d_left <= d_up_left {
        left
    } else if d_up <= d_up_left {
        up
    } else {
        up_left
    }
}

/// What a filter predicts for a byte from its three neighbours.
pub open spec fn predictor(filter_type: FilterType, left: int, up: int, up_left: int) -> int {
    match filter_type {
        FilterType::Unfiltered => 0,
        FilterType::Sub => left,
        FilterType::Up => up,
        FilterType::Average => (left + up) / 2,
        FilterType::Paeth => paeth_predictor(left, up, up_left),
    }
}

/// The sum of a byte and a number, modulo 256.
pub open spec fn add_mod(byte: u8, n: int) -> u8 {
    ((byte as int + n) % 256) as u8
}

/// The difference of a byte and a number, modulo 256.
pub open spec fn sub_mod(byte: u8, n: int) -> u8 {
    ((byte as int - n) % 256) as u8
}

/// Whether byte `i` of a record has a byte one pixel to its left. Byte `0`
/// of a record is the filter type and is no neighbour.
pub open spec fn has_left(i: int, bytes_per_pixel: int) -> bool {
    bytes_per_pixel >= 1 && i - bytes_per_pixel >= 1
}

/// The byte one pixel to the left of byte `i`, or `0` where there is none.
pub open spec fn left_of(record: Seq<u8>, i: int, bytes_per_pixel: int) -> int {
    if has_left(i, bytes_per_pixel) {
        record[i - bytes_per_pixel] as int
    } else {
        0
    }
}

/// The byte above byte `i`, in the record before, or `0` where there is none.
pub open spec fn up_of(previous: Seq<u8>, i: int) -> int {
    if 1 <= i < previous.len() {
        previous[i] as int
    } else {
        0
    }
}

/// The byte above and one pixel to the left of byte `i`, or `0` where there
/// is none.
pub open spec fn up_left_of(previous: Seq<u8>, i: int, bytes_per_pixel: int) -> int {
    if has_left(i, bytes_per_pixel) && i - bytes_per_pixel < previous.len() {
        previous[i - bytes_per_pixel] as int
    } else {
        0
    }
}

/// The first `n` bytes of the record that `raw` is the filtered form of.
/// Byte `0` is cleared; every other byte is the raw byte plus what the filter
/// predicts from the bytes already reconstructed and the record before.
pub open spec fn spec_defilter_prefix(
    filter_type: FilterType,
    raw: Seq<u8>,
    previous: Seq<u8>,
    bytes_per_pixel: int,
    n: nat,
) -> Seq<u8>
    decreases n,
{
    if n == 0 {
        Seq::empty()
    } else {
        let head = spec_defilter_prefix(filter_type, raw, previous, bytes_per_pixel, (n - 1) as nat);
        let i = n - 1;
        if i == 0 {
            head.push(0u8)
        } else {
            head.push(
                add_mod(
                    raw[i],
                    predictor(
                        filter_type,
                        left_of(head, i, bytes_per_pixel),
                        up_of(previous, i),
                        up_left_of(previous, i, bytes_per_pixel),
                    ),
                ),
            )
        }
    }
}

/// The record that the scanline `raw` is the filtered form of, given the
/// record before it (empty for the first). It fails on an empty scanline and
/// on one whose first byte names no filter.
pub open spec fn spec_defilter(raw: Seq<u8>, previous: Seq<u8>, bytes_per_pixel: int) -> Result<
    Seq<u8>,
    ErrorView,
> {
    if raw.len() == 0 {
        Err(parse_failure(raw, ErrorKind::Eof))
    } else {
        match FilterType::spec_from_code(raw[0]) {
            None => Err(ErrorView::InvalidFilterType(raw[0])),
            Some(filter_type) => Ok(
                spec_defilter_prefix(filter_type, raw, previous, bytes_per_pixel, raw.len()),
            ),
        }
    }
}

/// The filtered form of the record `record`: its first byte names the
/// filter, every other byte is the record's byte less what the filter
/// predicts for it.
pub open spec fn spec_filter(
    filter_type: FilterType,
    record: Seq<u8>,
    previous: Seq<u8>,
    bytes_per_pixel: int,
) -> Seq<u8> {
    Seq::new(
        record.len(),
        |i: int|
            if i == 0 {
                filter_type.spec_code()
            } else {
                sub_mod(
                    record[i],
                    predictor(
                        filter_type,
                        left_of(record, i, bytes_per_pixel),
                        up_of(previous, i),
                        up_left_of(previous, i, bytes_per_pixel),
                    ),
                )
            },
    )
}

/// A prefix of a reconstruction has the length asked for, and a longer
/// prefix begins with the shorter.
pub proof fn lemma_defilter_prefix_grows(
    filter_type: FilterType,
    raw: Seq<u8>,
    previous: Seq<u8>,
    bytes_per_pixel: int,
    m: nat,
    n: nat,
)
    requires
        m <= n,
    ensures
        spec_defilter_prefix(filter_type, raw, previous, bytes_per_pixel, n).len() == n,
        spec_defilter_prefix(filter_type, raw, previous, bytes_per_pixel, n).take(m as int)
            == spec_defilter_prefix(filter_type, raw, previous, bytes_per_pixel, m),
    decreases n,
{
    let long = spec_defilter_prefix(filter_type, raw, previous, bytes_per_pixel, n);
    if n == 0 {
        assert(long.take(0) =~= Seq::<u8>::empty());
    } else {
        let head = spec_defilter_prefix(filter_type, raw, previous, bytes_per_pixel, (n - 1) as nat);
        lemma_defilter_prefix_grows(filter_type, raw, previous, bytes_per_pixel, 0, (n - 1) as nat);
        if m == n {
            assert(long.take(m as int) =~= long);
        } else {
            lemma_defilter_prefix_grows(
                filter_type,
                raw,
                previous,
                bytes_per_pixel,
                m,
                (n - 1) as nat,
            );
            assert(long.take(m as int) =~= head.take(m as int));
        }
    }
}

/// A reconstructed record is as long as the scanline that it was made from.
pub proof fn lemma_defilter_keeps_length(raw: Seq<u8>, previous: Seq<u8>, bytes_per_pixel: int)
    ensures
        spec_defilter(raw, previous, bytes_per_pixel) matches Ok(record) ==> record.len()
            == raw.len(),
{
    if raw.len() > 0 {
        match FilterType::spec_from_code(raw[0]) {
            Some(filter_type) => {
                lemma_defilter_prefix_grows(
                    filter_type,
                    raw,
                    previous,
                    bytes_per_pixel,
                    0,
                    raw.len(),
                );
            },
            None => {},
        }
    }
}

/// Filtering a record and then reversing the filter gives the record back,
/// whatever the filter, the bytes, the record before and the size of a pixel.
/// Only byte `0`, which carries the filter type, comes back cleared.
pub proof fn lemma_filter_round_trip(
    filter_type: FilterType,
    record: Seq<u8>,
    previous: Seq<u8>,
    bytes_per_pixel: int,
)
    requires
        record.len() >= 1,
    ensures
        spec_defilter(spec_filter(filter_type, record, previous, bytes_per_pixel), previous, bytes_per_pixel)
            == Ok::<Seq<u8>, ErrorView>(record.update(0, 0u8)),
{
    let filtered = spec_filter(filter_type, record, previous, bytes_per_pixel);
    assert(FilterType::spec_from_code(filtered[0]) == Some(filter_type));
    lemma_round_trip_prefix(filter_type, record, previous, bytes_per_pixel, record.len());
    assert(record.update(0, 0u8).take(record.len() as int) =~= record.update(0, 0u8));
}

proof fn lemma_round_trip_prefix(
    filter_type: FilterType,
    record: Seq<u8>,
    previous: Seq<u8>,
    bytes_per_pixel: int,
    n: nat,
)
    requires
        record.len() >= 1,
        n <= record.len(),
    ensures
        spec_defilter_prefix(
            filter_type,
            spec_filter(filter_type, record, previous, bytes_per_pixel),
            previous,
            bytes_per_pixel,
            n,
        ) == record.update(0, 0u8).take(n as int),
    decreases n,
{
    let filtered = spec_filter(filter_type, record, previous, bytes_per_pixel);
    let target = record.update(0, 0u8);
    let rebuilt = spec_defilter_prefix(filter_type, filtered, previous, bytes_per_pixel, n);
    if n == 0 {
        assert(rebuilt =~= target.take(0));
    } else {
        lemma_round_trip_prefix(filter_type, record, previous, bytes_per_pixel, (n - 1) as nat);
        let head = spec_defilter_prefix(filter_type, filtered, previous, bytes_per_pixel, (n - 1) as nat);
        let i = n - 1;
        if i > 0 {
            let predicted = predictor(
                filter_type,
                left_of(record, i, bytes_per_pixel),
                up_of(previous, i),
                up_left_of(previous, i, bytes_per_pixel),
            );
            assert(left_of(head, i, bytes_per_pixel) == left_of(record, i, bytes_per_pixel));
            assert(add_mod(sub_mod(record[i], predicted), predicted) == record[i]);
        }
        assert(rebuilt =~= target.take(n as int));
    }
}

/// With nothing above it and nothing to its left, a byte passes through the
/// Paeth filter unchanged: at the first pixel of the first row the
/// reconstructed byte is the raw byte.
pub proof fn lemma_paeth_first_pixel_is_identity(raw: Seq<u8>, bytes_per_pixel: int, i: int)
    requires
        raw.len() >= 1,
        raw[0] == FilterType::Paeth.spec_code(),
        1 <= i < raw.len(),
        i <= bytes_per_pixel,
    ensures
        paeth_predictor(0, 0, 0) == 0,
        spec_defilter(raw, Seq::empty(), bytes_per_pixel) matches Ok(record) && record[i] == raw[i],
{
    let previous = Seq::<u8>::empty();
    let whole = spec_defilter_prefix(FilterType::Paeth, raw, previous, bytes_per_pixel, raw.len());
    let upto = spec_defilter_prefix(FilterType::Paeth, raw, previous, bytes_per_pixel, (i + 1) as nat);
    lemma_defilter_prefix_grows(
        FilterType::Paeth,
        raw,
        previous,
        bytes_per_pixel,
        (i + 1) as nat,
        raw.len(),
    );
    lemma_defilter_prefix_grows(FilterType::Paeth, raw, previous, bytes_per_pixel, 0, i as nat);
    assert(whole[i] == whole.take(i + 1)[i]);
}

fn predict(filter_type: FilterType, left: u8, up: u8, up_left: u8) -> (p: u8)
    ensures
        p == predictor(filter_type, left as int, up as int, up_left as int),
{
    match filter_type {
        FilterType::Unfiltered => 0,
        FilterType::Sub => left,
        FilterType::Up => up,
        FilterType::Average => ((left as u16 + up as u16) / 2) as u8,
        FilterType::Paeth => {
            let estimate: i16 = left as i16 + up as i16 - up_left as i16;
            let d_left: i16 = if estimate <= left as i16 {
                left as i16 - estimate
            } else {
                estimate - left as i16
            };
            let d_up: i16 = if estimate <= up as i16 {
                up as i16 - estimate
            } else {
                estimate - up as i16
            };
            let d_up_left: i16 = if estimate <= up_left as i16 {
                up_left as i16 - estimate
            } else {
                estimate - up_left as i16
            };
            if d_left <= d_up && d_left <= d_up_left {
                left
            } else if d_up <= d_up_left {
                up
            } else {
                up_left
            }
        },
    }
}

/// Reverses the filter of one scanline in place. `scanline` holds the filter
/// type in its first byte and the filtered samples after it; `previous` is
/// the record before, already reconstructed, or empty for the first row. On
/// success the first byte is cleared and the samples are reconstructed; on
/// failure nothing is changed.
pub fn defilter(scanline: &mut Vec<u8>, previous: &[u8], bytes_per_pixel: usize) -> (r: Result<
    (),
    Error,
>)
    ensures
        match spec_defilter(old(scanline)@, previous@, bytes_per_pixel as int) {
            Ok(record) => r is Ok && final(scanline)@ == record,
            Err(e) => r is Err && r->Err_0@ == e && final(scanline)@ == old(scanline)@,
        },
{
    let len = scanline.len();
    if len == 0 {
        return Err(Error::from_error_kind(scanline.as_slice(), ErrorKind::Eof));
    }
    let filter_type = match FilterType::try_from(scanline[0]) {
        Ok(filter_type) => filter_type,
        Err(e) => {
            return Err(e);
        },
    };
    let ghost raw = scanline@;
    scanline.set(0, 0);
    let mut i: usize = 1;
    assert(scanline@.take(1) =~= spec_defilter_prefix(
        filter_type,
        raw,
        previous@,
        bytes_per_pixel as int,
        1,
    )) by {
        reveal_with_fuel(spec_defilter_prefix, 2);
    }
    while i < len
        invariant
            1 <= i <= len,
            len == raw.len(),
            scanline@.len() == len,
            scanline@.take(i as int) == spec_defilter_prefix(
                filter_type,
                raw,
                previous@,
                bytes_per_pixel as int,
                i as nat,
            ),
            forall|j: int| i <= j < len ==> scanline@[j] == raw[j],
        decreases len - i,
    {
        let ghost head = scanline@.take(i as int);
        let left: u8 = if bytes_per_pixel >= 1 && i > bytes_per_pixel {
            scanline[i - bytes_per_pixel]
        } else {
            0
        };
        let up: u8 = if i < previous.len() {
            previous[i]
        } else {
            0
        };
        let up_left: u8 = if bytes_per_pixel >= 1 && i > bytes_per_pixel && i - bytes_per_pixel
            < previous.len() {
            previous[i - bytes_per_pixel]
        } else {
            0
        };
        assert(left == left_of(head, i as int, bytes_per_pixel as int));
        let value = scanline[i].wrapping_add(predict(filter_type, left, up, up_left));
        scanline.set(i, value);
        assert(scanline@.take(i + 1) =~= head.push(value));
        i += 1;
    }
    assert(scanline@.take(len as int) =~= scanline@);
    Ok(())
}

} // verus!
