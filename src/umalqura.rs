use crate::julian::{
    cjdn_of, gregorian_of, gregorian_to_cjdn, is_gregorian_date, julian_to_gregorian,
    lemma_cjdn_round_trip, lemma_date_round_trip,
};
use vstd::prelude::*;

verus! {

/// Number of Hijri years in the month table: 1356 to 1500.
pub const TABLE_YEARS: usize = 145;

/// Number of Hijri months in the month table.
pub const TABLE_MONTHS: usize = 1740;

/// First Hijri year of the month table.
pub const FIRST_TABLE_YEAR: usize = 1356;

/// Linear month number (months since the Hijri epoch, from 1) of the month
/// before the table's first month, 1 Muharram 1356.
pub const EPOCH_OFFSET: usize = 16260;

/// Modified CJDN of 1 Muharram 1356, the first day in the table.
pub const TABLE_START: i64 = 28607;

/// Modified CJDN of 1 Muharram 1501, the first day after the table.
pub const TABLE_END: i64 = 79990;

/// Difference between a CJDN and a modified CJDN.
pub const MCJDN_SHIFT: i64 = 2400000;

/// Lengths of the Umm al-Qura months from 1356 to 1500 AH, one entry per
/// year. Digit `j` from the left stands for month `j` (from 1): a one is a
/// month of 30 days, a zero a month of 29 days.
pub const YEAR_MASKS: [u16; 145] = [
    0b010101010111, 0b001010010111, 0b010101001011, 0b011010100011,
    0b011101010010, 0b101101100101, 0b010101101010, 0b101010101011,
    0b010100101011, 0b110010010101, 0b110101001010, 0b110110100101,
    0b010111001010, 0b101011010110, 0b100101010111, 0b010010101011,
    0b100101001011, 0b101010100101, 0b101101010010, 0b101101101010,
    0b010101110101, 0b001001110110, 0b100010110111, 0b010001011011,
    0b010101010101, 0b010110101001, 0b010110110100, 0b100111011010,
    0b010011011101, 0b001001101110, 0b100100110110, 0b101010101010,
    0b110101010100, 0b110110110010, 0b010111010101, 0b001011011010,
    0b100101011011, 0b010010101011, 0b101001010101, 0b101101001001,
    0b101101100100, 0b101101110001, 0b010110110100, 0b101010110101,
    0b101001010011, 0b110100100101, 0b111010010010, 0b111011001001,
    0b011011010100, 0b101011101001, 0b100101101011, 0b010010101011,
    0b101010010011, 0b110101001001, 0b110110100100, 0b110110110010,
    0b101010111001, 0b010010111010, 0b101001011011, 0b010100101011,
    0b101010010101, 0b101100101010, 0b101101010101, 0b010101011100,
    0b010010111101, 0b001000111101, 0b100100011101, 0b101010010101,
    0b101101001010, 0b101101011010, 0b010101101101, 0b001010110110,
    0b100100111011, 0b010010011011, 0b011001010101, 0b011010101001,
    0b011101010100, 0b101101101010, 0b010101101100, 0b101010101101,
    0b010101010101, 0b101100101001, 0b101110010010, 0b101110101001,
    0b010111010100, 0b101011011010, 0b010101011010, 0b101010101011,
    0b010110010101, 0b011101001001, 0b011101100100, 0b101110101010,
    0b010110110101, 0b001010110110, 0b101001010110, 0b111001001101,
    0b101100100101, 0b101101010010, 0b101101101010, 0b010110101101,
    0b001010101110, 0b100100101111, 0b010010010111, 0b011001001011,
    0b011010100101, 0b011010101100, 0b101011010110, 0b010101011101,
    0b010010011101, 0b101001001101, 0b110100010110, 0b110110010101,
    0b010110101010, 0b010110110101, 0b001011011010, 0b100101011011,
    0b010010101101, 0b010110010101, 0b011011001010, 0b011011100100,
    0b101011101010, 0b010011110101, 0b001010110110, 0b100101010110,
    0b101010101010, 0b101101010100, 0b101111010010, 0b010111011001,
    0b001011101010, 0b100101101101, 0b010010101101, 0b101010010101,
    0b101101001010, 0b101110100101, 0b010110110010, 0b100110110101,
    0b010011010110, 0b101010010111, 0b010101000111, 0b011010010011,
    0b011101001001, 0b101101010101, 0b010101101010, 0b101001101011,
    0b010100101011,
];

/// Length in days of month `k` of the table (`k` from 0, month 1 of 1356 first).
pub open spec fn month_len(k: int) -> int {
    29 + month_bit(YEAR_MASKS@[k / 12] as int, k % 12)
}

/// Binary digit of `mask` that stands for month `j` (from 0) of a year.
pub open spec fn month_bit(mask: int, j: int) -> int {
    if j == 0 {
        (mask / 2048) % 2
    } else if j == 1 {
        (mask / 1024) % 2
    } else if j == 2 {
        (mask / 512) % 2
    } else if j == 3 {
        (mask / 256) % 2
    } else if j == 4 {
        (mask / 128) % 2
    } else if j == 5 {
        (mask / 64) % 2
    } else if j == 6 {
        (mask / 32) % 2
    } else if j == 7 {
        (mask / 16) % 2
    } else if j == 8 {
        (mask / 8) % 2
    } else if j == 9 {
        (mask / 4) % 2
    } else if j == 10 {
        (mask / 2) % 2
    } else {
        mask % 2
    }
}

/// Modified CJDN of the first day of month `k` of the table; for `k` equal to
/// the number of months, the first day after the table.
pub open spec fn month_start(k: int) -> int
    decreases k,
{
    if k <= 0 {
        TABLE_START as int
    } else {
        month_start(k - 1) + month_len(k - 1)
    }
}

/// Month starts grow by 29 or 30 days per month.
pub proof fn lemma_month_start_bounds(j: int, k: int)
    requires
        0 <= j <= k,
    ensures
        month_start(j) + 29 * (k - j) <= month_start(k) <= month_start(j) + 30 * (k - j),
    decreases k - j,
{
    if j < k {
        lemma_month_start_bounds(j, k - 1);
    }
}

/// Number of days in year `i` of the table (`i` from 0, 1356 first).
pub open spec fn year_len(i: int) -> int {
    let k = 12 * i;
    month_len(k) + month_len(k + 1) + month_len(k + 2) + month_len(k + 3) + month_len(k + 4)
        + month_len(k + 5) + month_len(k + 6) + month_len(k + 7) + month_len(k + 8)
        + month_len(k + 9) + month_len(k + 10) + month_len(k + 11)
}

/// Modified CJDN of the first day of year `i` of the table.
pub open spec fn year_start(i: int) -> int
    decreases i,
{
    if i <= 0 {
        TABLE_START as int
    } else {
        year_start(i - 1) + year_len(i - 1)
    }
}

proof fn lemma_year_start(i: int)
    requires
        0 <= i,
    ensures
        month_start(12 * i) == year_start(i),
    decreases i,
{
    if i > 0 {
        lemma_year_start(i - 1);
        reveal_with_fuel(month_start, 13);
    }
}

// First days of the years of the table, five at a time.
proof fn lemma_year_starts_5()
    ensures
        year_start(5) == 30378,
{
    reveal_with_fuel(year_start, 2);
    assert(year_start(1) == 28962);
    assert(year_start(2) == 29316);
    assert(year_start(3) == 29670);
    assert(year_start(4) == 30024);
    assert(year_start(5) == 30378);
}

proof fn lemma_year_starts_10()
    ensures
        year_start(10) == 32150,
{
    lemma_year_starts_5();
    assert(year_start(6) == 30733);
    assert(year_start(7) == 31087);
    assert(year_start(8) == 31442);
    assert(year_start(9) == 31796);
    assert(year_start(10) == 32150);
}

proof fn lemma_year_starts_15()
    ensures
        year_start(15) == 33923,
{
    lemma_year_starts_10();
    assert(year_start(11) == 32504);
    assert(year_start(12) == 32859);
    assert(year_start(13) == 33213);
    assert(year_start(14) == 33568);
    assert(year_start(15) == 33923);
}

proof fn lemma_year_starts_20()
    ensures
        year_start(20) == 35694,
{
    lemma_year_starts_15();
    assert(year_start(16) == 34277);
    assert(year_start(17) == 34631);
    assert(year_start(18) == 34985);
    assert(year_start(19) == 35339);
    assert(year_start(20) == 35694);
}

proof fn lemma_year_starts_25()
    ensures
        year_start(25) == 37466,
{
    lemma_year_starts_20();
    assert(year_start(21) == 36049);
    assert(year_start(22) == 36403);
    assert(year_start(23) == 36758);
    assert(year_start(24) == 37112);
    assert(year_start(25) == 37466);
}

proof fn lemma_year_starts_30()
    ensures
        year_start(30) == 39238,
{
    lemma_year_starts_25();
    assert(year_start(26) == 37820);
    assert(year_start(27) == 38174);
    assert(year_start(28) == 38529);
    assert(year_start(29) == 38884);
    assert(year_start(30) == 39238);
}

proof fn lemma_year_starts_35()
    ensures
        year_start(35) == 41010,
{
    lemma_year_starts_30();
    assert(year_start(31) == 39592);
    assert(year_start(32) == 39946);
    assert(year_start(33) == 40300);
    assert(year_start(34) == 40655);
    assert(year_start(35) == 41010);
}

proof fn lemma_year_starts_40()
    ensures
        year_start(40) == 42781,
{
    lemma_year_starts_35();
    assert(year_start(36) == 41364);
    assert(year_start(37) == 41719);
    assert(year_start(38) == 42073);
    assert(year_start(39) == 42427);
    assert(year_start(40) == 42781);
}

proof fn lemma_year_starts_45()
    ensures
        year_start(45) == 44553,
{
    lemma_year_starts_40();
    assert(year_start(41) == 43135);
    assert(year_start(42) == 43490);
    assert(year_start(43) == 43844);
    assert(year_start(44) == 44199);
    assert(year_start(45) == 44553);
}

proof fn lemma_year_starts_50()
    ensures
        year_start(50) == 46325,
{
    lemma_year_starts_45();
    assert(year_start(46) == 44907);
    assert(year_start(47) == 45261);
    assert(year_start(48) == 45616);
    assert(year_start(49) == 45970);
    assert(year_start(50) == 46325);
}

proof fn lemma_year_starts_55()
    ensures
        year_start(55) == 48096,
{
    lemma_year_starts_50();
    assert(year_start(51) == 46680);
    assert(year_start(52) == 47034);
    assert(year_start(53) == 47388);
    assert(year_start(54) == 47742);
    assert(year_start(55) == 48096);
}

proof fn lemma_year_starts_60()
    ensures
        year_start(60) == 49869,
{
    lemma_year_starts_55();
    assert(year_start(56) == 48451);
    assert(year_start(57) == 48806);
    assert(year_start(58) == 49160);
    assert(year_start(59) == 49515);
    assert(year_start(60) == 49869);
}

proof fn lemma_year_starts_65()
    ensures
        year_start(65) == 51641,
{
    lemma_year_starts_60();
    assert(year_start(61) == 50223);
    assert(year_start(62) == 50577);
    assert(year_start(63) == 50932);
    assert(year_start(64) == 51286);
    assert(year_start(65) == 51641);
}

proof fn lemma_year_starts_70()
    ensures
        year_start(70) == 53412,
{
    lemma_year_starts_65();
    assert(year_start(66) == 51995);
    assert(year_start(67) == 52349);
    assert(year_start(68) == 52703);
    assert(year_start(69) == 53057);
    assert(year_start(70) == 53412);
}

proof fn lemma_year_starts_75()
    ensures
        year_start(75) == 55184,
{
    lemma_year_starts_70();
    assert(year_start(71) == 53767);
    assert(year_start(72) == 54121);
    assert(year_start(73) == 54476);
    assert(year_start(74) == 54830);
    assert(year_start(75) == 55184);
}

proof fn lemma_year_starts_80()
    ensures
        year_start(80) == 56956,
{
    lemma_year_starts_75();
    assert(year_start(76) == 55538);
    assert(year_start(77) == 55892);
    assert(year_start(78) == 56247);
    assert(year_start(79) == 56601);
    assert(year_start(80) == 56956);
}

proof fn lemma_year_starts_85()
    ensures
        year_start(85) == 58727,
{
    lemma_year_starts_80();
    assert(year_start(81) == 57310);
    assert(year_start(82) == 57664);
    assert(year_start(83) == 58018);
    assert(year_start(84) == 58373);
    assert(year_start(85) == 58727);
}

proof fn lemma_year_starts_90()
    ensures
        year_start(90) == 60499,
{
    lemma_year_starts_85();
    assert(year_start(86) == 59082);
    assert(year_start(87) == 59436);
    assert(year_start(88) == 59791);
    assert(year_start(89) == 60145);
    assert(year_start(90) == 60499);
}

proof fn lemma_year_starts_95()
    ensures
        year_start(95) == 62271,
{
    lemma_year_starts_90();
    assert(year_start(91) == 60853);
    assert(year_start(92) == 61208);
    assert(year_start(93) == 61563);
    assert(year_start(94) == 61917);
    assert(year_start(95) == 62271);
}

proof fn lemma_year_starts_100()
    ensures
        year_start(100) == 64044,
{
    lemma_year_starts_95();
    assert(year_start(96) == 62626);
    assert(year_start(97) == 62980);
    assert(year_start(98) == 63334);
    assert(year_start(99) == 63689);
    assert(year_start(100) == 64044);
}

proof fn lemma_year_starts_105()
    ensures
        year_start(105) == 65815,
{
    lemma_year_starts_100();
    assert(year_start(101) == 64398);
    assert(year_start(102) == 64753);
    assert(year_start(103) == 65107);
    assert(year_start(104) == 65461);
    assert(year_start(105) == 65815);
}

proof fn lemma_year_starts_110()
    ensures
        year_start(110) == 67587,
{
    lemma_year_starts_105();
    assert(year_start(106) == 66169);
    assert(year_start(107) == 66524);
    assert(year_start(108) == 66879);
    assert(year_start(109) == 67233);
    assert(year_start(110) == 67587);
}

proof fn lemma_year_starts_115()
    ensures
        year_start(115) == 69359,
{
    lemma_year_starts_110();
    assert(year_start(111) == 67941);
    assert(year_start(112) == 68296);
    assert(year_start(113) == 68650);
    assert(year_start(114) == 69005);
    assert(year_start(115) == 69359);
}

proof fn lemma_year_starts_120()
    ensures
        year_start(120) == 71130,
{
    lemma_year_starts_115();
    assert(year_start(116) == 69714);
    assert(year_start(117) == 70068);
    assert(year_start(118) == 70422);
    assert(year_start(119) == 70776);
    assert(year_start(120) == 71130);
}

proof fn lemma_year_starts_125()
    ensures
        year_start(125) == 72902,
{
    lemma_year_starts_120();
    assert(year_start(121) == 71485);
    assert(year_start(122) == 71840);
    assert(year_start(123) == 72194);
    assert(year_start(124) == 72548);
    assert(year_start(125) == 72902);
}

proof fn lemma_year_starts_130()
    ensures
        year_start(130) == 74675,
{
    lemma_year_starts_125();
    assert(year_start(126) == 73256);
    assert(year_start(127) == 73611);
    assert(year_start(128) == 73966);
    assert(year_start(129) == 74320);
    assert(year_start(130) == 74675);
}

proof fn lemma_year_starts_135()
    ensures
        year_start(135) == 76446,
{
    lemma_year_starts_130();
    assert(year_start(131) == 75029);
    assert(year_start(132) == 75383);
    assert(year_start(133) == 75737);
    assert(year_start(134) == 76092);
    assert(year_start(135) == 76446);
}

proof fn lemma_year_starts_140()
    ensures
        year_start(140) == 78218,
{
    lemma_year_starts_135();
    assert(year_start(136) == 76801);
    assert(year_start(137) == 77155);
    assert(year_start(138) == 77510);
    assert(year_start(139) == 77864);
    assert(year_start(140) == 78218);
}

proof fn lemma_year_starts_145()
    ensures
        year_start(145) == 79990,
{
    lemma_year_starts_140();
    assert(year_start(141) == 78572);
    assert(year_start(142) == 78927);
    assert(year_start(143) == 79281);
    assert(year_start(144) == 79636);
    assert(year_start(145) == 79990);
}

/// The table ends on the day before 1 Muharram 1501.
pub proof fn lemma_table_end()
    ensures
        month_start(TABLE_MONTHS as int) == TABLE_END,
{
    lemma_year_starts_145();
    lemma_year_start(145);
}

/// Table index of the Hijri month `m` of year `y`: 0 for the first month of 1356.
pub open spec fn table_index(y: int, m: int) -> int {
    (y - 1) * 12 + m - EPOCH_OFFSET - 1
}

/// Modified CJDN of the Hijri date `(y, m, d)`; a day past the end of its
/// month runs on into the next month.
pub open spec fn hijri_to_mcjdn(y: int, m: int, d: int) -> int {
    month_start(table_index(y, m)) + d - 1
}

/// Modified CJDN of a Gregorian date.
pub open spec fn mcjdn_of(y: int, m: int, d: int) -> int {
    cjdn_of(y, m, d) - MCJDN_SHIFT
}

/// The last month, among months `0..=k` of the table, that starts on or before day `x`.
pub open spec fn month_index_from(x: int, k: int) -> int
    decreases k,
{
    if k <= 0 || month_start(k) <= x {
        k
    } else {
        month_index_from(x, k - 1)
    }
}

/// Table index of the month that holds the day with modified CJDN `x`.
pub open spec fn month_containing(x: int) -> int {
    month_index_from(x, TABLE_MONTHS - 1)
}

/// The Hijri date `(year, month, day, month length)` of the day with modified CJDN `x`.
pub open spec fn hijri_of(x: int) -> (int, int, int, int) {
    let k = month_containing(x);
    let iln = k + 1 + EPOCH_OFFSET;
    let ii = (iln - 1) / 12;
    (ii + 1, iln - 12 * ii, x - month_start(k) + 1, month_len(k))
}

/// The month that holds a day is the one whose first day is on or before it
/// and whose successor starts after it.
pub proof fn lemma_month_containing(x: int, k: int)
    requires
        0 <= k < TABLE_MONTHS,
        month_start(k) <= x < month_start(k + 1),
    ensures
        month_containing(x) == k,
{
    lemma_month_index_from(x, k, TABLE_MONTHS - 1);
}

proof fn lemma_month_index_from(x: int, k: int, top: int)
    requires
        0 <= k <= top,
        month_start(k) <= x < month_start(k + 1),
    ensures
        month_index_from(x, top) == k,
    decreases top,
{
    if top > k {
        lemma_month_start_bounds(k + 1, top);
        lemma_month_index_from(x, k, top - 1);
    }
}

/// Length of month `k` of the table.
fn month_length(k: usize) -> (r: i64)
    requires
        k < TABLE_MONTHS,
    ensures
        r == month_len(k as int),
        29 <= r <= 30,
{
    let mask = YEAR_MASKS[k / 12];
    let j = k % 12;
    let bit =     if j == 0 {
            (mask / 2048) % 2
        } else     if j == 1 {
            (mask / 1024) % 2
        } else     if j == 2 {
            (mask / 512) % 2
        } else     if j == 3 {
            (mask / 256) % 2
        } else     if j == 4 {
            (mask / 128) % 2
        } else     if j == 5 {
            (mask / 64) % 2
        } else     if j == 6 {
            (mask / 32) % 2
        } else     if j == 7 {
            (mask / 16) % 2
        } else     if j == 8 {
            (mask / 8) % 2
        } else     if j == 9 {
            (mask / 4) % 2
        } else     if j == 10 {
            (mask / 2) % 2
        } else {
            mask % 2
        };
    29 + bit as i64
}

/// The first day of each month of the table, as a modified CJDN, followed by
/// the first day after the table.
pub fn month_starts() -> (r: Vec<i64>)
    ensures
        r.len() == TABLE_MONTHS + 1,
        forall|k: int| 0 <= k <= TABLE_MONTHS ==> #[trigger] r[k] == month_start(k),
{
    let mut r: Vec<i64> = Vec::new();
    r.push(TABLE_START);
    let mut k: usize = 0;
    while k < TABLE_MONTHS
        invariant
            k <= TABLE_MONTHS,
            r.len() == k + 1,
            forall|t: int| 0 <= t <= k ==> #[trigger] r[t] == month_start(t),
        decreases TABLE_MONTHS - k,
    {
        proof {
            lemma_month_start_bounds(0, k as int);
        }
        let next = r[k] + month_length(k);
        r.push(next);
        k = k + 1;
    }
    r
}

/// Table index of the month that holds the day with modified CJDN `x`: a
/// binary search for the last month that starts on or before `x`.
fn find_month(starts: &Vec<i64>, x: i64) -> (k: usize)
    requires
        starts.len() == TABLE_MONTHS + 1,
        forall|t: int| 0 <= t <= TABLE_MONTHS ==> #[trigger] starts[t] == month_start(t),
        TABLE_START <= x < TABLE_END,
    ensures
        k < TABLE_MONTHS,
        month_start(k as int) <= x < month_start(k + 1),
{
    proof {
        lemma_table_end();
    }
    let mut lo: usize = 0;
    let mut hi: usize = TABLE_MONTHS;
    while hi - lo > 1
        invariant
            lo < hi <= TABLE_MONTHS,
            month_start(lo as int) <= x < month_start(hi as int),
            starts.len() == TABLE_MONTHS + 1,
            forall|t: int| 0 <= t <= TABLE_MONTHS ==> #[trigger] starts[t] == month_start(t),
        decreases hi - lo,
    {
        let mid = lo + (hi - lo) / 2;
        if starts[mid] <= x {
            lo = mid;
        } else {
            hi = mid;
        }
    }
    lo
}

/// The month that holds a day of the table starts on or before it and ends after it.
pub proof fn lemma_hijri_of(x: int)
    requires
        TABLE_START <= x < TABLE_END,
    ensures
        0 <= month_containing(x) < TABLE_MONTHS,
        month_start(month_containing(x)) <= x < month_start(month_containing(x) + 1),
        1 <= hijri_of(x).1 <= 12,
        table_index(hijri_of(x).0, hijri_of(x).1) == month_containing(x),
        hijri_to_mcjdn(hijri_of(x).0, hijri_of(x).1, hijri_of(x).2) == x,
        1 <= hijri_of(x).2 <= hijri_of(x).3,
        hijri_of(x).3 == month_len(month_containing(x)),
{
    lemma_table_end();
    lemma_month_index_from_valid(x, TABLE_MONTHS - 1);
}

proof fn lemma_month_index_from_valid(x: int, top: int)
    requires
        0 <= top < TABLE_MONTHS,
        TABLE_START <= x < month_start(top + 1),
    ensures
        0 <= month_index_from(x, top) <= top,
        month_start(month_index_from(x, top)) <= x < month_start(month_index_from(x, top) + 1),
    decreases top,
{
    if top > 0 && month_start(top) > x {
        lemma_month_index_from_valid(x, top - 1);
    }
}

/// Converts a Gregorian date to the Umm al-Qura date `(year, month, day, month length)`.
pub fn gegorean_to_hijri(year_gr: usize, month_gr: usize, day_gr: usize) -> (r: (
    usize,
    usize,
    usize,
    usize,
))
    requires
        1 <= month_gr <= 12,
        1 <= day_gr <= 31,
        TABLE_START <= mcjdn_of(year_gr as int, month_gr as int, day_gr as int) < TABLE_END,
    ensures
        (r.0 as int, r.1 as int, r.2 as int, r.3 as int) == hijri_of(
            mcjdn_of(year_gr as int, month_gr as int, day_gr as int),
        ),
{
    let cjdn = gregorian_to_cjdn(year_gr as i64, month_gr as i64, day_gr as i64);
    let mcjdn = cjdn - MCJDN_SHIFT;
    let starts = month_starts();
    let k = find_month(&starts, mcjdn);
    proof {
        lemma_month_containing(mcjdn as int, k as int);
        lemma_table_end();
        lemma_month_start_bounds(k as int, TABLE_MONTHS as int);
    }
    let index = k + 1;
    let iln = index + EPOCH_OFFSET;
    let ii = (iln - 1) / 12;
    let iy = ii + 1;
    let im = iln - 12 * ii;
    let id = mcjdn - starts[k] + 1;
    let ml = starts[k + 1] - starts[k];
    (iy, im, id as usize, ml as usize)
}

/// Converts the Umm al-Qura date `(year, month, day)` to the Gregorian date
/// `(year, month, day)`. A day past the end of its month runs on into the next.
pub fn hijri_to_gregorian(year: usize, month: usize, day: usize) -> (r: (usize, usize, usize))
    requires
        1 <= month <= 12,
        1 <= day <= 30,
        0 <= table_index(year as int, month as int) < TABLE_MONTHS,
    ensures
        (r.0 as int, r.1 as int, r.2 as int) == gregorian_of(
            hijri_to_mcjdn(year as int, month as int, day as int) + MCJDN_SHIFT,
        ),
        is_gregorian_date(r.0 as int, r.1 as int, r.2 as int),
{
    let ii = year - 1;
    let iln = (ii * 12) + 1 + (month - 1);
    let i = iln - EPOCH_OFFSET;
    let starts = month_starts();
    proof {
        lemma_table_end();
        lemma_month_start_bounds(0, (i - 1) as int);
        lemma_month_start_bounds((i - 1) as int, TABLE_MONTHS as int);
    }
    let mcjdn = day as i64 + starts[i - 1] - 1;
    let cjdn = mcjdn + MCJDN_SHIFT;
    let (y, m, d) = julian_to_gregorian(cjdn);
    proof {
        lemma_cjdn_round_trip(cjdn as int);
    }
    (y as usize, m as usize, d as usize)
}

/// From an Umm al-Qura date to its Gregorian date and back gives the same
/// date, for every day of every month of the table.
pub proof fn lemma_hijri_round_trip(y: int, m: int, d: int)
    requires
        1 <= m <= 12,
        0 <= table_index(y, m) < TABLE_MONTHS,
        1 <= d <= month_len(table_index(y, m)),
    ensures
        ({
            let g = gregorian_of(hijri_to_mcjdn(y, m, d) + MCJDN_SHIFT);
            hijri_of(mcjdn_of(g.0, g.1, g.2)) == (y, m, d, month_len(table_index(y, m)))
        }),
{
    let k = table_index(y, m);
    let x = hijri_to_mcjdn(y, m, d);
    lemma_table_end();
    lemma_month_start_bounds(0, k);
    lemma_month_start_bounds(k + 1, TABLE_MONTHS as int);
    lemma_cjdn_round_trip(x + MCJDN_SHIFT);
    lemma_month_containing(x, k);
}

/// From a Gregorian date to its Umm al-Qura date and back gives the same
/// date, for every date from 1938 to 2076.
pub proof fn lemma_gregorian_round_trip(y: int, m: int, d: int)
    requires
        is_gregorian_date(y, m, d),
        1938 <= y <= 2076,
    ensures
        TABLE_START <= mcjdn_of(y, m, d) < TABLE_END,
        ({
            let h = hijri_of(mcjdn_of(y, m, d));
            gregorian_of(hijri_to_mcjdn(h.0, h.1, h.2) + MCJDN_SHIFT) == (y, m, d)
        }),
{
    lemma_gregorian_years(y, m, d);
    lemma_hijri_of(mcjdn_of(y, m, d));
    lemma_date_round_trip(y, m, d);
}

/// The Gregorian years 1938 to 2076 lie inside the table.
pub proof fn lemma_gregorian_years(y: int, m: int, d: int)
    requires
        is_gregorian_date(y, m, d),
        1938 <= y <= 2076,
    ensures
        28900 <= mcjdn_of(y, m, d) <= 79669,
{
}

/// The days of the Hijri years 1357 to 1499 lie in the Gregorian years 1938 to 2076.
pub proof fn lemma_hijri_years(y: int, m: int, d: int)
    requires
        1357 <= y <= 1499,
        1 <= m <= 12,
        1 <= d <= 30,
    ensures
        28900 <= hijri_to_mcjdn(y, m, d) <= 79669,
{
    let k = table_index(y, m);
    assert(year_start(1) == 28962) by {
        reveal_with_fuel(year_start, 2);
    }
    lemma_year_start(1);
    lemma_table_end();
    lemma_month_start_bounds(12, k);
    lemma_month_start_bounds(k, TABLE_MONTHS as int);
}

} // verus!
