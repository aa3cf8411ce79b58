//! The vocabulary the tool layer speaks: money in integer cents, dates and
//! months as the integers Actual stores (`20260903`, `202608`).
use vstd::prelude::*;

use crate::text::{
    a_difference_decides, all_digits, chars_of, decimal, digit, digits_value, first_difference,
    is_digit, padded, padded_text, parse_u64, text_less, text_of, text_order_is_total, unsigned,
    without_plus,
};

verus! {

// ---------------------------------------------------------------- Money -----
/// An amount of money, held as integer cents.
#[derive(Debug, Clone, Copy, PartialEq, Eq, PartialOrd, Ord, Structural)]
pub struct Money(pub i64);

impl View for Money {
    type V = int;

    open spec fn view(&self) -> int {
        self.0 as int
    }
}

impl Default for Money {
    fn default() -> (r: Self)
        ensures
            r@ == 0,
    {
        Money(0)
    }
}

impl Money {
    /// No money at all.
    pub fn zero() -> (r: Self)
        ensures
            r@ == 0,
    {
        Money(0)
    }

    pub fn from_cents(c: i64) -> (r: Self)
        ensures
            r@ == c,
    {
        Money(c)
    }

    pub fn cents(self) -> (r: i64)
        ensures
            r == self@,
    {
        self.0
    }

    pub fn is_outflow(self) -> (r: bool)
        ensures
            r == (self@ < 0),
    {
        self.0 < 0
    }

    /// Magnitude, for reporting spend as a positive figure.
    pub fn abs(self) -> (r: Self)
        requires
            self@ != i64::MIN,
        ensures
            r@ == if self@ < 0 {
                -self@
            } else {
                self@
            },
    {
        if self.0 < 0 {
            Money(-self.0)
        } else {
            self
        }
    }

    /// The sum, or `None` where it leaves the range of an `i64`.
    pub fn checked_add(self, other: Self) -> (r: Option<Self>)
        ensures
            match r {
                Some(sum) => sum@ == self@ + other@,
                None => !(i64::MIN <= self@ + other@ <= i64::MAX),
            },
    {
        match self.0.checked_add(other.0) {
            Some(cents) => Some(Money(cents)),
            None => None,
        }
    }

    /// Adds the amounts up from the first to the last.
    pub fn sum(items: &[Self]) -> (r: Self)
        requires
            sums_fit(items@),
        ensures
            r@ == total(items@),
    {
        let mut sum = Money(0);
        let mut i: usize = 0;
        assert(items@.take(0) =~= Seq::empty());
        while i < items.len()
            invariant
                i <= items@.len(),
                sums_fit(items@),
                sum@ == total(items@.take(i as int)),
            decreases items@.len() - i,
        {
            assert(items@.take(i + 1).drop_last() =~= items@.take(i as int));
            assert(fits(total(items@.take(i + 1))));
            sum = Money(sum.0 + items[i].0);
            i += 1;
        }
        assert(items@.take(i as int) =~= items@);
        sum
    }

    /// Adds the amounts up from the first to the last, or `None` where the sum
    /// leaves the range of an `i64` on the way.
    pub fn checked_sum(items: &[Self]) -> (r: Option<Self>)
        ensures
            match r {
                Some(sum) => sums_fit(items@) && sum@ == total(items@),
                None => !sums_fit(items@),
            },
    {
        let mut sum = Money(0);
        let mut i: usize = 0;
        assert(items@.take(0) =~= Seq::empty());
        while i < items.len()
            invariant
                i <= items@.len(),
                forall|n: int| 0 <= n <= i ==> fits(#[trigger] total(items@.take(n))),
                sum@ == total(items@.take(i as int)),
            decreases items@.len() - i,
        {
            assert(items@.take(i + 1).drop_last() =~= items@.take(i as int));
            assert(total(items@.take(i + 1)) == sum@ + items@[i as int]@);
            match sum.checked_add(items[i]) {
                None => {
                    assert(!fits(total(items@.take(i + 1))));
                    return None;
                },
                Some(next) => {
                    sum = next;
                },
            }
            i += 1;
        }
        assert(items@.take(i as int) =~= items@);
        Some(sum)
    }
}

/// The sum of a list of amounts.
pub open spec fn total(items: Seq<Money>) -> int
    decreases items.len(),
{
    if items.len() == 0 {
        0
    } else {
        total(items.drop_last()) + items.last()@
    }
}

/// A number of cents that an `i64` holds.
pub open spec fn fits(cents: int) -> bool {
    i64::MIN <= cents <= i64::MAX
}

/// Adding the amounts up from the first to the last never leaves the range of
/// an `i64`.
pub open spec fn sums_fit(items: Seq<Money>) -> bool {
    forall|n: int| 0 <= n <= items.len() ==> fits(#[trigger] total(items.take(n)))
}

impl std::ops::Add for Money {
    type Output = Self;

    fn add(self, other: Self) -> Self {
        Money(self.0 + other.0)
    }
}

impl vstd::std_specs::ops::AddSpecImpl for Money {
    open spec fn obeys_add_spec() -> bool {
        true
    }

    open spec fn add_req(self, rhs: Self) -> bool {
        fits(self@ + rhs@)
    }

    open spec fn add_spec(self, rhs: Self) -> Self {
        Money((self@ + rhs@) as i64)
    }
}

impl std::ops::Sub for Money {
    type Output = Self;

    fn sub(self, other: Self) -> Self {
        Money(self.0 - other.0)
    }
}

impl vstd::std_specs::ops::SubSpecImpl for Money {
    open spec fn obeys_sub_spec() -> bool {
        true
    }

    open spec fn sub_req(self, rhs: Self) -> bool {
        fits(self@ - rhs@)
    }

    open spec fn sub_spec(self, rhs: Self) -> Self {
        Money((self@ - rhs@) as i64)
    }
}

impl std::ops::Neg for Money {
    type Output = Self;

    fn neg(self) -> Self {
        Money(-self.0)
    }
}

impl vstd::std_specs::ops::NegSpecImpl for Money {
    open spec fn obeys_neg_spec() -> bool {
        true
    }

    open spec fn neg_req(self) -> bool {
        fits(-self@)
    }

    open spec fn neg_spec(self) -> Self {
        Money((-self@) as i64)
    }
}

// ----------------------------------------------------------- BudgetDate -----
/// Whether an integer reads as year, month and day. Permissive about the day
/// of the month: it rules out garbage, not the 31st of February.
pub open spec fn is_date(n: nat) -> bool {
    n >= 1_000_101 && 1 <= (n / 100) % 100 <= 12 && 1 <= n % 100 <= 31
}

/// An integer read as year, month and day, in ISO 8601 form.
pub open spec fn iso_day(n: nat) -> Seq<char> {
    padded(n / 10_000, 4) + seq!['-'] + padded((n / 100) % 100, 2) + seq!['-'] + padded(n % 100, 2)
}

/// The date in a text of the form `2026-09-03`.
pub open spec fn iso_day_value(text: Seq<char>) -> Option<nat> {
    if text.len() == 10 && text[4] == '-' && text[7] == '-' {
        match unsigned(text.subrange(0, 4) + text.subrange(5, 7) + text.subrange(8, 10)) {
            Some(n) => if is_date(n) && n <= u32::MAX {
                Some(n)
            } else {
                None
            },
            None => None,
        }
    } else {
        None
    }
}

/// A date as Actual stores it: `20260903`.
#[derive(Debug, Clone, Copy, PartialEq, Eq, PartialOrd, Ord, Hash)]
pub struct BudgetDate(u32);

impl View for BudgetDate {
    type V = nat;

    closed spec fn view(&self) -> nat {
        self.0 as nat
    }
}

/// Writes an integer out as year, month and day in ISO 8601 form.
pub(crate) fn iso_day_text(n: u32) -> (r: String)
    ensures
        r@ == iso_day(n as nat),
{
    let mut out = padded_text((n / 10_000) as u64, 4);
    out.push('-');
    out.append(padded_text(((n / 100) % 100) as u64, 2).as_str());
    out.push('-');
    out.append(padded_text((n % 100) as u64, 2).as_str());
    assert(out@ =~= iso_day(n as nat));
    out
}

impl BudgetDate {
    #[verifier::type_invariant]
    pub closed spec fn valid(self) -> bool {
        is_date(self.0 as nat)
    }

    /// A stand-in for a date the database should never contain.
    pub fn epoch() -> (r: Self)
        ensures
            r@ == 19700101,
    {
        BudgetDate(19700101)
    }

    /// Rejects impossible dates.
    pub fn from_int(n: u32) -> (r: Option<Self>)
        ensures
            match r {
                Some(date) => is_date(n as nat) && date@ == n,
                None => !is_date(n as nat),
            },
    {
        let month: u32 = (n / 100) % 100;
        let day: u32 = n % 100;
        if n >= 1_000_101 && 1 <= month && month <= 12 && 1 <= day && day <= 31 {
            Some(BudgetDate(n))
        } else {
            None
        }
    }

    /// Accepts `2026-09-03`.
    pub fn parse_iso(s: &str) -> (r: Option<Self>)
        ensures
            match r {
                Some(date) => iso_day_value(s@) == Some(date@),
                None => iso_day_value(s@) is None,
            },
    {
        let b = chars_of(s);
        if b.len() != 10 || b[4] != '-' || b[7] != '-' {
            return None;
        }
        let mut digits = text_of(&b, 0, 4);
        digits.append(text_of(&b, 5, 7).as_str());
        digits.append(text_of(&b, 8, 10).as_str());
        match parse_u64(digits.as_str()) {
            Ok(n) => if n <= u32::MAX as u64 {
                Self::from_int(n as u32)
            } else {
                None
            },
            Err(_) => None,
        }
    }

    pub fn as_int(self) -> (r: u32)
        ensures
            r == self@,
            is_date(self@),
    {
        proof {
            use_type_invariant(&self);
        }
        self.0
    }

    pub fn to_iso(self) -> (r: String)
        ensures
            r@ == iso_day(self@),
    {
        iso_day_text(self.0)
    }

    pub fn month(self) -> (r: BudgetMonth)
        ensures
            r@ == self@ / 100,
    {
        proof {
            use_type_invariant(&self);
        }
        BudgetMonth(self.0 / 100)
    }
}

// ---------------------------------------------------------- BudgetMonth -----
/// Whether an integer reads as year and month.
pub open spec fn is_month(n: nat) -> bool {
    n >= 1_0001 && 1 <= n % 100 <= 12
}

/// An integer read as year and month, in ISO 8601 form.
pub open spec fn iso_month(n: nat) -> Seq<char> {
    padded(n / 100, 4) + seq!['-'] + padded(n % 100, 2)
}

/// The month in a text of the form `2026-08`.
pub open spec fn iso_month_value(text: Seq<char>) -> Option<nat> {
    if text.len() == 7 && text[4] == '-' {
        match unsigned(text.subrange(0, 4) + text.subrange(5, 7)) {
            Some(n) => if is_month(n) && n <= u32::MAX {
                Some(n)
            } else {
                None
            },
            None => None,
        }
    } else {
        None
    }
}

/// The month after a month, rolling the year over at December.
pub open spec fn month_after(n: nat) -> nat {
    if n % 100 == 12 {
        (n / 100 + 1) * 100 + 1
    } else {
        n + 1
    }
}

/// A budget month as Actual stores it: `202608`.
#[derive(Debug, Clone, Copy, PartialEq, Eq, PartialOrd, Ord, Hash)]
pub struct BudgetMonth(u32);

impl View for BudgetMonth {
    type V = nat;

    closed spec fn view(&self) -> nat {
        self.0 as nat
    }
}

impl BudgetMonth {
    #[verifier::type_invariant]
    pub closed spec fn valid(self) -> bool {
        is_month(self.0 as nat)
    }

    pub fn from_int(n: u32) -> (r: Option<Self>)
        ensures
            match r {
                Some(month) => is_month(n as nat) && month@ == n,
                None => !is_month(n as nat),
            },
    {
        let month: u32 = n % 100;
        if n >= 1_0001 && 1 <= month && month <= 12 {
            Some(BudgetMonth(n))
        } else {
            None
        }
    }

    /// Accepts `2026-08`.
    pub fn parse_iso(s: &str) -> (r: Option<Self>)
        ensures
            match r {
                Some(month) => iso_month_value(s@) == Some(month@),
                None => iso_month_value(s@) is None,
            },
    {
        let b = chars_of(s);
        if b.len() != 7 || b[4] != '-' {
            return None;
        }
        let mut digits = text_of(&b, 0, 4);
        digits.append(text_of(&b, 5, 7).as_str());
        match parse_u64(digits.as_str()) {
            Ok(n) => if n <= u32::MAX as u64 {
                Self::from_int(n as u32)
            } else {
                None
            },
            Err(_) => None,
        }
    }

    pub fn as_int(self) -> (r: u32)
        ensures
            r == self@,
            is_month(self@),
    {
        proof {
            use_type_invariant(&self);
        }
        self.0
    }

    pub fn to_iso(self) -> (r: String)
        ensures
            r@ == iso_month(self@),
    {
        let mut out = padded_text((self.0 / 100) as u64, 4);
        out.push('-');
        out.append(padded_text((self.0 % 100) as u64, 2).as_str());
        assert(out@ =~= iso_month(self@));
        out
    }

    /// The month after this one, rolling the year over at December.
    pub fn next(self) -> (r: Self)
        requires
            month_after(self@) <= u32::MAX,
        ensures
            r@ == month_after(self@),
    {
        proof {
            use_type_invariant(&self);
        }
        if self.0 % 100 == 12 {
            BudgetMonth((self.0 / 100 + 1) * 100 + 1)
        } else {
            BudgetMonth(self.0 + 1)
        }
    }

    /// The first day of this month.
    pub fn first_day(self) -> (r: BudgetDate)
        requires
            self@ * 100 + 1 <= u32::MAX,
        ensures
            r@ == self@ * 100 + 1,
    {
        proof {
            use_type_invariant(&self);
        }
        BudgetDate(self.0 * 100 + 1)
    }

    /// An inclusive upper bound of the days of this month.
    pub fn last_day(self) -> (r: BudgetDate)
        requires
            self@ * 100 + 31 <= u32::MAX,
        ensures
            r@ == self@ * 100 + 31,
    {
        proof {
            use_type_invariant(&self);
        }
        BudgetDate(self.0 * 100 + 31)
    }
}

// ----------------------------------------------------------------- laws -----
/// Two amounts of the same number of cents are the same amount.
pub proof fn amounts_are_their_cents(a: Money, b: Money)
    ensures
        a@ == b@ <==> a == b,
{
}

/// Two dates with the same integer are the same date, and two months likewise.
pub proof fn days_and_months_are_their_integers(
    a: BudgetDate,
    b: BudgetDate,
    m: BudgetMonth,
    n: BudgetMonth,
)
    ensures
        a@ == b@ <==> a == b,
        m@ == n@ <==> m == n,
        a.valid() <==> is_date(a@),
        m.valid() <==> is_month(m@),
{
}

/// The sum of two lists is the sum of their sums, in whatever order they come.
pub proof fn total_of_both(a: Seq<Money>, b: Seq<Money>)
    ensures
        total(a + b) == total(a) + total(b),
    decreases b.len(),
{
    if b.len() == 0 {
        assert(a + b =~= a);
    } else {
        assert((a + b).drop_last() =~= a + b.drop_last());
        total_of_both(a, b.drop_last());
    }
}

/// The last day of the last year that four digits can write.
pub const LAST_DAY: u32 = 9999_12_31;

/// The last month of the last year that four digits can write.
pub const LAST_MONTH: u32 = 9999_12;

/// Writing a date out and reading it back gives the date again, for every year
/// of four digits.
pub proof fn dates_round_trip(date: BudgetDate)
    requires
        date.valid(),
        date@ <= LAST_DAY,
    ensures
        iso_day_value(iso_day(date@)) == Some(date@),
{
    reads_back_a_day(date@);
}

/// A text that does not start with a plus sign reads as a date exactly when it
/// is the text of that date; every other text reads as none.
pub proof fn a_date_has_one_text(text: Seq<char>, n: nat)
    requires
        text.len() > 0 ==> text[0] != '+',
    ensures
        iso_day_value(text) == Some(n) <==> is_date(n) && n <= LAST_DAY && iso_day(n) == text,
{
    if is_date(n) && n <= LAST_DAY && iso_day(n) == text {
        reads_back_a_day(n);
    }
    if iso_day_value(text) == Some(n) {
        let (y, m, d) = (text.subrange(0, 4), text.subrange(5, 7), text.subrange(8, 10));
        let digits = y + m + d;
        assert(digits[0] == text[0]);
        assert(without_plus(digits) == digits);
        assert(digits =~= y + (m + d));
        parts_are_digits(digits, y, m + d);
        parts_are_digits(m + d, m, d);
        four_digits_are_padded(y);
        two_digits_are_padded(m);
        two_digits_are_padded(d);
        let (year, month, day) = (digits_value(y), digits_value(m), digits_value(d));
        value_of_two_more(y, month);
        value_of_two_more(y + m, day);
        assert(digits =~= (y + m) + d);
        assert(n == (year * 100 + month) * 100 + day);
        assert(n / 10_000 == year && (n / 100) % 100 == month && n % 100 == day);
        assert(iso_day(n) =~= text);
    }
}

/// Writing a month out and reading it back gives the month again, for every
/// year of four digits.
pub proof fn months_round_trip(month: BudgetMonth)
    requires
        month.valid(),
        month@ <= LAST_MONTH,
    ensures
        iso_month_value(iso_month(month@)) == Some(month@),
{
    reads_back_a_month(month@);
}

/// A text that does not start with a plus sign reads as a month exactly when it
/// is the text of that month; every other text reads as none.
pub proof fn a_month_has_one_text(text: Seq<char>, n: nat)
    requires
        text.len() > 0 ==> text[0] != '+',
    ensures
        iso_month_value(text) == Some(n) <==> is_month(n) && n <= LAST_MONTH && iso_month(n)
            == text,
{
    if is_month(n) && n <= LAST_MONTH && iso_month(n) == text {
        reads_back_a_month(n);
    }
    if iso_month_value(text) == Some(n) {
        let (y, m) = (text.subrange(0, 4), text.subrange(5, 7));
        let digits = y + m;
        assert(digits[0] == text[0]);
        assert(without_plus(digits) == digits);
        parts_are_digits(digits, y, m);
        four_digits_are_padded(y);
        two_digits_are_padded(m);
        let (year, month) = (digits_value(y), digits_value(m));
        value_of_two_more(y, month);
        assert(n == year * 100 + month);
        assert(n / 100 == year && n % 100 == month);
        assert(iso_month(n) =~= text);
    }
}

/// The texts of dates have ten characters and are ordered as the dates are, for
/// every year of four digits.
pub proof fn dates_are_ordered_as_their_texts(a: BudgetDate, b: BudgetDate)
    requires
        a.valid(),
        b.valid(),
        a@ <= LAST_DAY,
        b@ <= LAST_DAY,
    ensures
        iso_day(a@).len() == 10,
        a@ < b@ <==> text_less(iso_day(a@), iso_day(b@)),
{
    let (x, y) = (iso_day(a@), iso_day(b@));
    days_are_spelled(a@);
    days_are_spelled(b@);
    text_order_is_total(x, y);
    if a@ < b@ {
        an_earlier_day_reads_earlier(x, a@, y, b@);
    } else if b@ < a@ {
        an_earlier_day_reads_earlier(y, b@, x, a@);
    }
}

/// The number that the digit at a place stands for.
spec fn digit_at(text: Seq<char>, i: int) -> int {
    text[i] as int - 48
}

/// A text of year, month and day with dashes between them, of four, two and two
/// digits that stand for a number.
spec fn spells(text: Seq<char>, n: nat) -> bool {
    &&& text.len() == 10
    &&& text[4] == '-' && text[7] == '-'
    &&& is_digit(text[0]) && is_digit(text[1]) && is_digit(text[2]) && is_digit(text[3])
    &&& is_digit(text[5]) && is_digit(text[6]) && is_digit(text[8]) && is_digit(text[9])
    &&& n == digit_at(text, 0) * 1000_00_00 + digit_at(text, 1) * 100_00_00 + digit_at(text, 2)
        * 10_00_00 + digit_at(text, 3) * 1_00_00 + digit_at(text, 5) * 10_00 + digit_at(text, 6)
        * 1_00 + digit_at(text, 8) * 10 + digit_at(text, 9)
}

proof fn an_earlier_day_reads_earlier(x: Seq<char>, a: nat, y: Seq<char>, b: nat)
    requires
        spells(x, a),
        spells(y, b),
        a < b,
    ensures
        text_less(x, y),
{
    let i = first_difference(x, y, 0);
    assert(x[i] < y[i]);
    a_difference_decides(x, y, i);
}

proof fn a_digit_is_its_number(n: nat)
    requires
        n < 10,
    ensures
        is_digit(digit(n)),
        digit(n) as int - 48 == n,
{
}

proof fn places_of_four(y: nat)
    requires
        y < 10_000,
    ensures
        y == (y / 1000) * 1000 + ((y / 100) % 10) * 100 + ((y / 10) % 10) * 10 + y % 10,
{
    let tens = y / 10;
    let hundreds = tens / 10;
    assert(y / 100 == hundreds);
    assert(y / 1000 == hundreds / 10);
    assert(y == tens * 10 + y % 10);
    assert(tens == hundreds * 10 + tens % 10);
    assert(hundreds == (hundreds / 10) * 10 + hundreds % 10);
}

proof fn days_are_spelled(n: nat)
    requires
        n <= LAST_DAY,
    ensures
        spells(iso_day(n), n),
{
    let (y, m, d) = (n / 10_000, (n / 100) % 100, n % 100);
    parts_of_a_day(n);
    spelled_in_parts(y, m, d);
    spelled_as_well(iso_day(n), y * 10_000 + m * 100 + d, n);
}

proof fn spelled_as_well(text: Seq<char>, a: nat, b: nat)
    requires
        spells(text, a),
        a == b,
    ensures
        spells(text, b),
{
}

proof fn parts_of_a_day(n: nat)
    ensures
        n == (n / 10_000) * 10_000 + ((n / 100) % 100) * 100 + n % 100,
        n <= LAST_DAY ==> n / 10_000 < 10_000,
{
    let hundreds = n / 100;
    assert(n == hundreds * 100 + n % 100);
    assert(hundreds == (hundreds / 100) * 100 + hundreds % 100);
    assert(hundreds / 100 == n / 10_000);
}

proof fn spelled_in_parts(y: nat, m: nat, d: nat)
    requires
        y < 10_000,
        m < 100,
        d < 100,
    ensures
        spells(
            padded(y, 4) + seq!['-'] + padded(m, 2) + seq!['-'] + padded(d, 2),
            y * 10_000 + m * 100 + d,
        ),
{
    let t = padded(y, 4) + seq!['-'] + padded(m, 2) + seq!['-'] + padded(d, 2);
    let (y0, y1, y2, y3) = (y / 1000, (y / 100) % 10, (y / 10) % 10, y % 10);
    assert(t =~= seq![digit(y0), digit(y1), digit(y2), digit(y3), '-'] + seq![
        digit(m / 10),
        digit(m % 10),
        '-',
        digit(d / 10),
        digit(d % 10),
    ]) by {
        four_digits(y);
        two_digits(m);
        two_digits(d);
    }
    places_of_four(y);
    a_digit_is_its_number(y0);
    a_digit_is_its_number(y1);
    a_digit_is_its_number(y2);
    a_digit_is_its_number(y3);
    a_digit_is_its_number(m / 10);
    a_digit_is_its_number(m % 10);
    a_digit_is_its_number(d / 10);
    a_digit_is_its_number(d % 10);
    assert(digit_at(t, 0) == y0 && digit_at(t, 1) == y1 && digit_at(t, 2) == y2 && digit_at(t, 3)
        == y3);
    assert(digit_at(t, 5) == m / 10 && digit_at(t, 6) == m % 10);
    assert(digit_at(t, 8) == d / 10 && digit_at(t, 9) == d % 10);
}

proof fn reads_back_a_day(n: nat)
    requires
        is_date(n),
        n <= LAST_DAY,
    ensures
        iso_day_value(iso_day(n)) == Some(n),
{
    let (y, m, d) = (n / 10_000, (n / 100) % 100, n % 100);
    four_digits(y);
    two_digits(m);
    two_digits(d);
    let text = iso_day(n);
    let digits = text.subrange(0, 4) + text.subrange(5, 7) + text.subrange(8, 10);
    assert(digits =~= padded(y, 4) + padded(m, 2) + padded(d, 2));
    value_of_two_more(padded(y, 4), m);
    value_of_two_more(padded(y, 4) + padded(m, 2), d);
    assert(digits =~= (padded(y, 4) + padded(m, 2)) + padded(d, 2));
    assert forall|i: int| 0 <= i < digits.len() implies is_digit(#[trigger] digits[i]) by {}
    assert(digits[0] != '+');
    assert(without_plus(digits) == digits);
    assert(digits_value(digits) == (y * 100 + m) * 100 + d);
}

proof fn reads_back_a_month(n: nat)
    requires
        is_month(n),
        n <= LAST_MONTH,
    ensures
        iso_month_value(iso_month(n)) == Some(n),
{
    let (y, m) = (n / 100, n % 100);
    four_digits(y);
    two_digits(m);
    let text = iso_month(n);
    let digits = text.subrange(0, 4) + text.subrange(5, 7);
    assert(digits =~= padded(y, 4) + padded(m, 2));
    value_of_two_more(padded(y, 4), m);
    assert forall|i: int| 0 <= i < digits.len() implies is_digit(#[trigger] digits[i]) by {}
    assert(digits[0] != '+');
    assert(without_plus(digits) == digits);
}

proof fn parts_are_digits(all: Seq<char>, a: Seq<char>, b: Seq<char>)
    requires
        all_digits(all),
        all == a + b,
        a.len() > 0,
        b.len() > 0,
    ensures
        all_digits(a),
        all_digits(b),
{
    assert forall|i: int| 0 <= i < a.len() implies is_digit(#[trigger] a[i]) by {
        assert(all[i] == a[i]);
    }
    assert forall|i: int| 0 <= i < b.len() implies is_digit(#[trigger] b[i]) by {
        assert(all[a.len() + i] == b[i]);
    }
}

proof fn two_digits_are_padded(t: Seq<char>)
    requires
        all_digits(t),
        t.len() == 2,
    ensures
        digits_value(t) < 100,
        padded(digits_value(t), 2) == t,
{
    reveal_with_fuel(digits_value, 4);
    let n = digits_value(t);
    let (a, b) = ((t[0] as nat - 48) as nat, (t[1] as nat - 48) as nat);
    assert(is_digit(t[0]) && is_digit(t[1]));
    assert(t.drop_last().drop_last() =~= Seq::empty());
    assert(n == a * 10 + b);
    two_digits(n);
    assert(n / 10 == a && n % 10 == b);
    assert(padded(n, 2) =~= t);
}

proof fn four_digits_are_padded(t: Seq<char>)
    requires
        all_digits(t),
        t.len() == 4,
    ensures
        digits_value(t) < 10_000,
        padded(digits_value(t), 4) == t,
{
    reveal_with_fuel(digits_value, 6);
    let n = digits_value(t);
    let (a, b, c, d) = (
        (t[0] as nat - 48) as nat,
        (t[1] as nat - 48) as nat,
        (t[2] as nat - 48) as nat,
        (t[3] as nat - 48) as nat,
    );
    assert(is_digit(t[0]) && is_digit(t[1]) && is_digit(t[2]) && is_digit(t[3]));
    assert(t.drop_last().drop_last().drop_last().drop_last() =~= Seq::empty());
    assert(n == a * 1000 + b * 100 + c * 10 + d);
    four_digits(n);
    assert(n / 1000 == a && (n / 100) % 10 == b && (n / 10) % 10 == c && n % 10 == d);
    assert(padded(n, 4) =~= t);
}

/// A date lies in a month exactly when it lies between that month's bounds.
pub proof fn a_month_bounds_its_days(date: BudgetDate, month: BudgetMonth)
    requires
        date.valid(),
        month.valid(),
    ensures
        date@ / 100 == month@ <==> month@ * 100 + 1 <= date@ <= month@ * 100 + 31,
{
}

/// The month after a month is a month, it comes later, and no month lies
/// between the two.
pub proof fn next_is_the_following_month(month: BudgetMonth, other: BudgetMonth)
    requires
        month.valid(),
        other.valid(),
    ensures
        is_month(month_after(month@)),
        month@ < month_after(month@),
        month@ < other@ ==> month_after(month@) <= other@,
{
}

proof fn two_digits(n: nat)
    requires
        n < 100,
    ensures
        padded(n, 2) == seq![digit(n / 10), digit(n % 10)],
        is_digit(digit(n / 10)),
        is_digit(digit(n % 10)),
        digit(n / 10) as nat == n / 10 + 48,
        digit(n % 10) as nat == n % 10 + 48,
{
    reveal_with_fuel(decimal, 3);
    reveal_with_fuel(padded, 3);
    assert(padded(n, 2) =~= seq![digit(n / 10), digit(n % 10)]);
}

proof fn four_digits(n: nat)
    requires
        n < 10_000,
    ensures
        padded(n, 4) == seq![
            digit(n / 1000),
            digit((n / 100) % 10),
            digit((n / 10) % 10),
            digit(n % 10),
        ],
        forall|i: int| 0 <= i < 4 ==> is_digit(#[trigger] padded(n, 4)[i]),
        digits_value(padded(n, 4)) == n,
{
    reveal_with_fuel(decimal, 5);
    reveal_with_fuel(padded, 5);
    reveal_with_fuel(digits_value, 6);
    let (a, b, c, d) = (n / 1000, (n / 100) % 10, (n / 10) % 10, n % 10);
    let s = seq![digit(a), digit(b), digit(c), digit(d)];
    assert(padded(n, 4) =~= s);
    assert(s.drop_last() =~= seq![digit(a), digit(b), digit(c)]);
    assert(s.drop_last().drop_last() =~= seq![digit(a), digit(b)]);
    assert(s.drop_last().drop_last().drop_last() =~= seq![digit(a)]);
    assert(s.drop_last().drop_last().drop_last().drop_last() =~= Seq::empty());
    assert(digits_value(s) == a * 1000 + b * 100 + c * 10 + d);
}

proof fn value_of_two_more(digits: Seq<char>, n: nat)
    requires
        n < 100,
    ensures
        digits_value(digits + padded(n, 2)) == digits_value(digits) * 100 + n,
{
    two_digits(n);
    let all = digits + padded(n, 2);
    assert(all.drop_last() =~= digits.push(digit(n / 10)));
    assert(all.drop_last().drop_last() =~= digits);
    assert(all.drop_last().last() == digit(n / 10));
    assert(all.last() == digit(n % 10));
    assert(digits_value(all.drop_last()) == digits_value(digits) * 10 + n / 10);
    assert(digits_value(all) == digits_value(all.drop_last()) * 10 + n % 10);
}

/// A day of a year of four digits reads back from its text.
pub proof fn a_day_reads_back(n: nat)
    requires
        is_date(n),
        n <= LAST_DAY,
    ensures
        iso_day_value(iso_day(n)) == Some(n),
{
    reads_back_a_day(n);
}

/// Amounts without their signs, together.
pub open spec fn sizes(items: Seq<Money>) -> int
    decreases items.len(),
{
    if items.len() == 0 {
        0
    } else {
        sizes(items.drop_last()) + (if items.last()@ < 0 {
            -items.last()@
        } else {
            items.last()@
        })
    }
}

/// Sums that stay small are never refused: amounts that fit an `i64` without
/// their signs fit it however they are added up.
pub proof fn small_sums_are_never_refused(items: Seq<Money>)
    requires
        sizes(items) <= i64::MAX,
    ensures
        sums_fit(items),
        -sizes(items) <= total(items) <= sizes(items),
{
    assert forall|n: int| 0 <= n <= items.len() implies fits(#[trigger] total(items.take(n))) by {
        sums_are_bounded(items, n);
    }
    sums_are_bounded(items, items.len() as int);
    assert(items.take(items.len() as int) =~= items);
}

proof fn sums_are_bounded(items: Seq<Money>, n: int)
    requires
        0 <= n <= items.len(),
    ensures
        -sizes(items) <= total(items.take(n)) <= sizes(items),
        sizes(items) >= 0,
    decreases items.len(),
{
    if items.len() > 0 {
        let before = items.drop_last();
        if n < items.len() {
            sums_are_bounded(before, n);
            assert(before.take(n) =~= items.take(n));
        } else {
            sums_are_bounded(before, n - 1);
            assert(before.take(n - 1) =~= before);
            assert(items.take(n) =~= items);
        }
    } else {
        assert(items.take(n) =~= items);
    }
}

/// A sum that is refused leaves the range of an `i64` on the way, and one that is
/// given is the sum.
pub proof fn sums_are_exact_or_refused(items: &[Money], r: Option<Money>)
    requires
        call_ensures(Money::checked_sum, (items,), r),
    ensures
        r matches Some(sum) ==> sum@ == total(items@),
        r is None ==> exists|n: int|
            0 <= n <= items@.len() && !(-0x8000_0000_0000_0000 <= #[trigger] total(items@.take(n))
                <= 0x7fff_ffff_ffff_ffff),
        sizes(items@) <= i64::MAX ==> r is Some,
{
    if sizes(items@) <= i64::MAX {
        small_sums_are_never_refused(items@);
    }
}

/// A number is a date where its year has three digits or more, its month is one of
/// twelve and its day one of thirty-one; a number is a month likewise.
pub proof fn dates_have_years_months_and_days(y: nat, m: nat, d: nat)
    requires
        m < 100,
        d < 100,
    ensures
        is_date(y * 10_000 + m * 100 + d) <==> y >= 100 && 1 <= m <= 12 && 1 <= d <= 31,
        is_month(y * 100 + m) <==> y >= 100 && 1 <= m <= 12,
{
    let n = y * 10_000 + m * 100 + d;
    assert(n % 100 == d);
    assert(n / 100 == y * 100 + m);
    assert((n / 100) % 100 == m);
    assert((y * 100 + m) % 100 == m);
}

/// An amount is its cents, and keeps them: what is made of cents gives them back,
/// is an outflow where they are negative, and without its sign is as large.
pub proof fn amounts_keep_their_cents(
    cents: i64,
    amount: Money,
    given: i64,
    outflow: bool,
    size: Money,
    zero: Money,
)
    requires
        call_ensures(Money::from_cents, (cents,), amount),
        call_ensures(Money::cents, (amount,), given),
        call_ensures(Money::is_outflow, (amount,), outflow),
        call_ensures(Money::abs, (amount,), size),
        call_ensures(Money::zero, (), zero),
    ensures
        given == cents,
        outflow <==> cents < 0,
        size@ == cents || size@ == -cents,
        size@ >= 0,
        zero@ == 0,
{
}

/// Every day lies in its own month, between the first and the last day of it.
pub proof fn a_day_lies_in_its_month(
    day: BudgetDate,
    month: BudgetMonth,
    first: BudgetDate,
    last: BudgetDate,
)
    requires
        day.valid(),
        call_ensures(BudgetDate::month, (day,), month),
        call_ensures(BudgetMonth::first_day, (month,), first),
        call_ensures(BudgetMonth::last_day, (month,), last),
    ensures
        first@ <= day@ <= last@,
        first@ % 100 == 1,
        last@ % 100 == 31,
        first@ / 100 == month@ && last@ / 100 == month@,
{
}

/// Integers and texts that are dates or months are taken as what they say, and no
/// others are.
pub proof fn days_and_months_are_taken_as_they_are(
    n: u32,
    text: &str,
    day: Option<BudgetDate>,
    month: Option<BudgetMonth>,
    read_day: Option<BudgetDate>,
    read_month: Option<BudgetMonth>,
)
    requires
        call_ensures(BudgetDate::from_int, (n,), day),
        call_ensures(BudgetMonth::from_int, (n,), month),
        call_ensures(BudgetDate::parse_iso, (text,), read_day),
        call_ensures(BudgetMonth::parse_iso, (text,), read_month),
    ensures
        day is Some <==> is_date(n as nat),
        day matches Some(d) ==> d@ == n,
        month is Some <==> is_month(n as nat),
        month matches Some(m) ==> m@ == n,
        n <= LAST_DAY && is_date(n as nat) && text@ == iso_day(n as nat) ==> (read_day matches Some(
            d,
        ) && d@ == n),
        n <= LAST_MONTH && is_month(n as nat) && text@ == iso_month(n as nat) ==> (
        read_month matches Some(m) && m@ == n),
{
    if is_date(n as nat) && n <= LAST_DAY {
        reads_back_a_day(n as nat);
    }
    if is_month(n as nat) && n <= LAST_MONTH {
        reads_back_a_month(n as nat);
    }
}

} // verus!
