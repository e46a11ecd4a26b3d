//! Text as a sequence of characters: the small operations that every message is made of.
use vstd::prelude::*;
use vstd::string::*;

verus! {

broadcast use vstd::string::group_string_axioms;

/// `String::push`: the character is added at the end of the text.
pub assume_specification[ String::push ](s: &mut String, c: char)
    ensures
        final(s)@ == old(s)@.push(c),
;

/// Whether Unicode gives a character the White_Space property.
pub open spec fn is_space(c: char) -> bool {
    let n = c as u32;
    ||| 0x9 <= n <= 0xd
    ||| n == 0x20
    ||| n == 0x85
    ||| n == 0xa0
    ||| n == 0x1680
    ||| 0x2000 <= n <= 0x200a
    ||| n == 0x2028
    ||| n == 0x2029
    ||| n == 0x202f
    ||| n == 0x205f
    ||| n == 0x3000
}

/// `char::is_whitespace`: whether the character has the White_Space property.
pub assume_specification[ char::is_whitespace ](c: char) -> (r: bool)
    ensures
        r == is_space(c),
;

/// The characters of a text, one by one.
pub fn chars_of(s: &str) -> (r: Vec<char>)
    ensures
        r@ == s@,
{
    let mut out: Vec<char> = Vec::new();
    for c in it: s.chars()
        invariant
            it.seq() == s@,
            out@ == s@.take(it.index() as int),
    {
        out.push(c);
        assert(s@.take(it.index() + 1) =~= s@.take(it.index() as int).push(c));
    }
    assert(s@.take(s@.len() as int) =~= s@);
    out
}

/// The characters `from..to` as a text.
pub fn text_of(v: &Vec<char>, from: usize, to: usize) -> (r: String)
    requires
        from <= to <= v@.len(),
    ensures
        r@ == v@.subrange(from as int, to as int),
{
    let mut out = String::new();
    assert(out@ =~= v@.subrange(from as int, from as int));
    for i in from..to
        invariant
            from <= to <= v@.len(),
            out@ == v@.subrange(from as int, i as int),
    {
        out.push(v[i]);
        assert(v@.subrange(from as int, i + 1) =~= v@.subrange(from as int, i as int).push(
            v@[i as int],
        ));
    }
    out
}

/// Whether two texts hold the same characters.
pub fn same(a: &str, b: &str) -> (r: bool)
    ensures
        r == (a@ == b@),
{
    String::from_str(a) == String::from_str(b)
}

/// An optional text, by its characters.
pub open spec fn opt_view(o: Option<String>) -> Option<Seq<char>> {
    match o {
        Some(s) => Some(s@),
        None => None,
    }
}

/// Whether an optional text is present and holds the same characters as `b`.
pub fn opt_is(a: &Option<String>, b: &str) -> (r: bool)
    ensures
        r == (opt_view(*a) == Some(b@)),
{
    match a {
        Some(s) => same(s.as_str(), b),
        None => false,
    }
}

/// The texts of a list, each by its characters.
pub open spec fn views(s: Seq<String>) -> Seq<Seq<char>> {
    Seq::new(s.len(), |i: int| s[i]@)
}

/// Whether a list of texts holds one with the characters of `x`.
pub fn holds(list: &Vec<String>, x: &str) -> (r: bool)
    ensures
        r == views(list@).contains(x@),
{
    for i in 0..list.len()
        invariant
            forall|j: int| 0 <= j < i ==> list@[j]@ != x@,
    {
        if same(list[i].as_str(), x) {
            assert(views(list@)[i as int] == x@);
            return true;
        }
    }
    assert(!views(list@).contains(x@)) by {
        if views(list@).contains(x@) {
            let j = choose|j: int| 0 <= j < views(list@).len() && views(list@)[j] == x@;
            assert(list@[j]@ == x@);
        }
    }
    false
}

// ---- White space ------------------------------------------------------------------------------

/// A text with nothing but white space in it, or nothing at all.
pub open spec fn blank(s: Seq<char>) -> bool {
    forall|i: int| 0 <= i < s.len() ==> is_space(s[i])
}

/// A text without the white space that it starts with.
pub open spec fn trim_start(s: Seq<char>) -> Seq<char>
    decreases s.len(),
{
    if s.len() > 0 && is_space(s[0]) {
        trim_start(s.drop_first())
    } else {
        s
    }
}

/// A text without the white space that it ends with.
pub open spec fn trim_end(s: Seq<char>) -> Seq<char>
    decreases s.len(),
{
    if s.len() > 0 && is_space(s.last()) {
        trim_end(s.drop_last())
    } else {
        s
    }
}

/// A text without white space at either end.
pub open spec fn trim(s: Seq<char>) -> Seq<char> {
    trim_end(trim_start(s))
}

/// Whether `v` holds nothing but white space.
pub fn is_blank(v: &Vec<char>) -> (r: bool)
    ensures
        r == blank(v@),
{
    for i in 0..v.len()
        invariant
            forall|j: int| 0 <= j < i ==> is_space(v@[j]),
    {
        if !v[i].is_whitespace() {
            return false;
        }
    }
    true
}

/// How many characters are left when the white space at the end of `v` is taken off.
pub fn trim_end_len(v: &Vec<char>) -> (n: usize)
    ensures
        n <= v@.len(),
        v@.take(n as int) == trim_end(v@),
{
    let mut n: usize = v.len();
    assert(v@.take(n as int) =~= v@);
    while n > 0 && v[n - 1].is_whitespace()
        invariant
            n <= v@.len(),
            trim_end(v@.take(n as int)) == trim_end(v@),
        decreases n,
    {
        assert(v@.take(n as int).drop_last() =~= v@.take(n - 1));
        n -= 1;
    }
    n
}

/// A text without white space at either end, as its characters.
pub fn trimmed(s: &str) -> (r: Vec<char>)
    ensures
        r@ == trim(s@),
{
    let all = chars_of(s);
    let mut from: usize = 0;
    assert(s@.skip(0) =~= s@);
    while from < all.len() && all[from].is_whitespace()
        invariant
            all@ == s@,
            from <= all@.len(),
            trim_start(s@.skip(from as int)) == trim_start(s@),
        decreases all@.len() - from,
    {
        assert(s@.skip(from as int).drop_first() =~= s@.skip(from + 1));
        from += 1;
    }
    let mut out: Vec<char> = Vec::new();
    for i in from..all.len()
        invariant
            all@ == s@,
            from <= all@.len(),
            out@ == s@.subrange(from as int, i as int),
    {
        out.push(all[i]);
        assert(s@.subrange(from as int, i + 1) =~= s@.subrange(from as int, i as int).push(
            s@[i as int],
        ));
    }
    assert(out@ =~= s@.skip(from as int));
    let n: usize = trim_end_len(&out);
    out.truncate(n);
    assert(out@ =~= trim(s@));
    out
}

/// A blank text is trimmed to nothing, at the end or at both ends; any other keeps something.
pub proof fn trim_of_blank(s: Seq<char>)
    ensures
        blank(s) <==> trim_end(s).len() == 0,
        blank(s) ==> trim(s).len() == 0,
    decreases s.len(),
{
    if s.len() > 0 {
        if is_space(s.last()) {
            trim_of_blank(s.drop_last());
            assert forall|i: int| blank(s.drop_last()) && 0 <= i < s.len() implies is_space(
                s[i],
            ) by {
                if i < s.len() - 1 {
                    assert(s.drop_last()[i] == s[i]);
                }
            }
        }
    }
    if blank(s) {
        trim_start_of_blank(s);
    }
}

proof fn trim_start_of_blank(s: Seq<char>)
    requires
        blank(s),
    ensures
        trim_start(s).len() == 0,
    decreases s.len(),
{
    if s.len() > 0 {
        assert forall|i: int| 0 <= i < s.drop_first().len() implies is_space(
            s.drop_first()[i],
        ) by {
            assert(s[i + 1] == s.drop_first()[i]);
        }
        trim_start_of_blank(s.drop_first());
    }
}

/// What is trimmed does not end in white space, and is no longer than it was.
pub proof fn trim_end_is_tight(s: Seq<char>)
    ensures
        trim_end(s).len() <= s.len(),
        trim_end(s).len() > 0 ==> !is_space(trim_end(s).last()),
    decreases s.len(),
{
    if s.len() > 0 && is_space(s.last()) {
        trim_end_is_tight(s.drop_last());
    }
}

// ---- Decimal numbers --------------------------------------------------------------------------

/// The character of one decimal digit.
pub open spec fn digit(d: nat) -> char {
    if d == 0 {
        '0'
    } else if d == 1 {
        '1'
    } else if d == 2 {
        '2'
    } else if d == 3 {
        '3'
    } else if d == 4 {
        '4'
    } else if d == 5 {
        '5'
    } else if d == 6 {
        '6'
    } else if d == 7 {
        '7'
    } else if d == 8 {
        '8'
    } else {
        '9'
    }
}

/// A number in decimal, without leading zeros.
pub open spec fn decimal(n: nat) -> Seq<char>
    decreases n,
{
    if n < 10 {
        seq![digit(n)]
    } else {
        decimal(n / 10).push(digit(n % 10))
    }
}

fn digit_of(d: u64) -> (c: char)
    requires
        d < 10,
    ensures
        c == digit(d as nat),
{
    if d == 0 {
        '0'
    } else if d == 1 {
        '1'
    } else if d == 2 {
        '2'
    } else if d == 3 {
        '3'
    } else if d == 4 {
        '4'
    } else if d == 5 {
        '5'
    } else if d == 6 {
        '6'
    } else if d == 7 {
        '7'
    } else if d == 8 {
        '8'
    } else {
        '9'
    }
}

/// A number written in decimal.
pub fn decimal_of(n: u64) -> (r: String)
    ensures
        r@ == decimal(n as nat),
    decreases n,
{
    if n < 10 {
        let mut out = String::new();
        out.push(digit_of(n));
        assert(out@ =~= seq![digit(n as nat)]);
        out
    } else {
        let mut out = decimal_of(n / 10);
        out.push(digit_of(n % 10));
        out
    }
}

/// Two numbers with the same decimal text are the same number.
pub proof fn decimal_is_injective(m: nat, n: nat)
    ensures
        decimal(m) == decimal(n) ==> m == n,
    decreases m,
{
    if decimal(m) == decimal(n) {
        decimal_is_nonempty(m / 10);
        decimal_is_nonempty(n / 10);
        if m >= 10 && n >= 10 {
            assert(decimal(m).drop_last() =~= decimal(m / 10));
            assert(decimal(n).drop_last() =~= decimal(n / 10));
            assert(decimal(m).last() == digit(m % 10));
            assert(decimal(n).last() == digit(n % 10));
            decimal_is_injective(m / 10, n / 10);
        } else if m < 10 && n < 10 {
            assert(decimal(m)[0] == digit(m));
            assert(decimal(n)[0] == digit(n));
        } else if m < 10 {
            assert(decimal(n).len() == decimal(n / 10).len() + 1);
            assert(decimal(m).len() == 1);
        } else {
            assert(decimal(m).len() == decimal(m / 10).len() + 1);
            assert(decimal(n).len() == 1);
        }
    }
}

/// Every number has at least one digit.
pub proof fn decimal_is_nonempty(n: nat)
    ensures
        decimal(n).len() >= 1,
    decreases n,
{
    if n >= 10 {
        decimal_is_nonempty(n / 10);
    }
}

/// Ten to the power of `k`.
pub open spec fn ten_to(k: nat) -> nat
    decreases k,
{
    if k == 0 {
        1
    } else {
        10 * ten_to((k - 1) as nat)
    }
}

/// A number below ten to the power of `k` takes `k` digits at most.
pub proof fn decimal_is_short(n: nat, k: nat)
    requires
        k > 0,
        n < ten_to(k),
    ensures
        decimal(n).len() <= k,
    decreases k,
{
    if n >= 10 {
        assert(k > 1) by {
            reveal_with_fuel(ten_to, 2);
        }
        decimal_is_short(n / 10, (k - 1) as nat);
    }
}

/// A number of 64 bits takes twenty digits at most.
pub proof fn decimal_of_a_word(n: nat)
    requires
        n <= u64::MAX,
    ensures
        decimal(n).len() <= 20,
{
    assert(ten_to(20) > u64::MAX) by {
        reveal_with_fuel(ten_to, 21);
    }
    decimal_is_short(n, 20);
}

/// A number below a thousand takes three digits at most.
pub proof fn decimal_below_thousand(n: nat)
    requires
        n < 1000,
    ensures
        decimal(n).len() <= 3,
{
    reveal_with_fuel(decimal, 3);
}

// ---- Order ------------------------------------------------------------------------------------

/// Whether `a` comes before `b` in the order of their characters' code points.
pub open spec fn before(a: Seq<char>, b: Seq<char>) -> bool
    decreases a.len(),
{
    if b.len() == 0 {
        false
    } else if a.len() == 0 {
        true
    } else if a[0] != b[0] {
        (a[0] as int) < (b[0] as int)
    } else {
        before(a.drop_first(), b.drop_first())
    }
}

pub proof fn before_is_transitive(a: Seq<char>, b: Seq<char>, c: Seq<char>)
    requires
        before(a, b),
        before(b, c),
    ensures
        before(a, c),
    decreases a.len(),
{
    if a.len() > 0 && b.len() > 0 && c.len() > 0 && a[0] == b[0] && b[0] == c[0] {
        before_is_transitive(a.drop_first(), b.drop_first(), c.drop_first());
    }
}

pub proof fn before_is_total(a: Seq<char>, b: Seq<char>)
    ensures
        a == b || before(a, b) || before(b, a),
    decreases a.len(),
{
    if a.len() == 0 || b.len() == 0 {
        assert(a.len() == 0 && b.len() == 0 ==> a =~= b);
    } else if a[0] == b[0] {
        before_is_total(a.drop_first(), b.drop_first());
        if a.drop_first() == b.drop_first() {
            assert(a =~= seq![a[0]] + a.drop_first());
            assert(b =~= seq![b[0]] + b.drop_first());
        }
    }
}

fn code_before(a: char, b: char) -> (r: bool)
    ensures
        r == ((a as int) < (b as int)),
{
    (a as u32) < (b as u32)
}

/// Whether `a` comes before `b`.
pub fn is_before(a: &str, b: &str) -> (r: bool)
    ensures
        r == before(a@, b@),
{
    let x = chars_of(a);
    let y = chars_of(b);
    let mut i: usize = 0;
    assert(a@.skip(0) =~= a@);
    assert(b@.skip(0) =~= b@);
    while i < x.len() && i < y.len()
        invariant
            x@ == a@,
            y@ == b@,
            i <= x@.len(),
            i <= y@.len(),
            before(a@, b@) == before(a@.skip(i as int), b@.skip(i as int)),
        decreases x@.len() - i,
    {
        if x[i] != y[i] {
            return code_before(x[i], y[i]);
        }
        assert(a@.skip(i as int).drop_first() =~= a@.skip(i + 1));
        assert(b@.skip(i as int).drop_first() =~= b@.skip(i + 1));
        i += 1;
    }
    i < y.len()
}

} // verus!
