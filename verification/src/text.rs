//! Character sequences: splitting, trimming, ASCII case and decimal numbers.
//!
//! Strings are modelled by the sequence of their characters. The parsers of
//! the crate work on vectors of characters, so the functions here convert
//! between the two and do the cutting.

use vstd::prelude::*;

verus! {

/// `String::push` appends one character.
pub assume_specification[ String::push ](s: &mut String, ch: char)
    ensures
        final(s)@ == old(s)@.push(ch),
;

// ---------------------------------------------------------------------------
// Splitting
// ---------------------------------------------------------------------------

/// The pieces of `s` between the occurrences of `sep`.
///
/// There is always one piece more than there are separators, so the empty
/// sequence has the single piece that is empty.
pub open spec fn split(s: Seq<char>, sep: char) -> Seq<Seq<char>>
    decreases s.len(),
{
    if s.len() == 0 {
        seq![Seq::<char>::empty()]
    } else {
        let front = split(s.drop_last(), sep);
        if s.last() == sep {
            front.push(Seq::<char>::empty())
        } else {
            front.drop_last().push(front.last().push(s.last()))
        }
    }
}

/// The pieces of `s` between the first `n - 1` occurrences of `sep`: at most
/// `n` pieces, the last of which keeps the separators that are left.
pub open spec fn split_n(s: Seq<char>, sep: char, n: nat) -> Seq<Seq<char>>
    decreases s.len(),
{
    if s.len() == 0 {
        seq![Seq::<char>::empty()]
    } else {
        let front = split_n(s.drop_last(), sep, n);
        if s.last() == sep && front.len() < n {
            front.push(Seq::<char>::empty())
        } else {
            front.drop_last().push(front.last().push(s.last()))
        }
    }
}

/// The character sequences that a vector of character vectors holds.
pub open spec fn pieces(v: Seq<Vec<char>>) -> Seq<Seq<char>> {
    Seq::new(v.len(), |i: int| v[i]@)
}

/// `s` without the `c` characters that it ends with.
pub open spec fn trim_end(s: Seq<char>, c: char) -> Seq<char>
    decreases s.len(),
{
    if s.len() > 0 && s.last() == c {
        trim_end(s.drop_last(), c)
    } else {
        s
    }
}

/// `s` begins with `prefix`.
pub open spec fn starts_with(s: Seq<char>, prefix: Seq<char>) -> bool {
    prefix.len() <= s.len() && s.take(prefix.len() as int) == prefix
}

// ---------------------------------------------------------------------------
// ASCII case
// ---------------------------------------------------------------------------

/// The lowercase form of an ASCII capital letter; any other character as it is.
pub open spec fn lower_char(c: char) -> char {
    if 'A' <= c && c <= 'Z' {
        (c as int + 32) as char
    } else {
        c
    }
}

/// `s` with its ASCII capital letters in lowercase.
pub open spec fn lower(s: Seq<char>) -> Seq<char> {
    s.map_values(|c: char| lower_char(c))
}

// ---------------------------------------------------------------------------
// Decimal numbers
// ---------------------------------------------------------------------------

/// `c` is one of the ten decimal digits.
pub open spec fn is_digit(c: char) -> bool {
    '0' <= c && c <= '9'
}

/// The digit that stands for `d`, where `d` is below ten.
pub open spec fn digit(d: nat) -> char {
    ('0' as int + d) as char
}

/// `n` in decimal notation, without leading zeros.
pub open spec fn decimal(n: nat) -> Seq<char>
    decreases n,
{
    if n < 10 {
        seq![digit(n)]
    } else {
        decimal(n / 10).push(digit(n % 10))
    }
}

/// Every character of `s` is a decimal digit.
pub open spec fn all_digits(s: Seq<char>) -> bool {
    forall|i: int| 0 <= i < s.len() ==> is_digit(#[trigger] s[i])
}

/// The number that the digits `s` stand for in decimal notation.
pub open spec fn number(s: Seq<char>) -> nat
    decreases s.len(),
{
    if s.len() == 0 {
        0
    } else {
        10 * number(s.drop_last()) + (s.last() as int - '0' as int) as nat
    }
}

/// The `u32` that `s` spells: at least one decimal digit, leading zeros
/// allowed, behind an optional `+`, with a value that fits.
pub open spec fn u32_of(s: Seq<char>) -> Option<u32> {
    let digits = if s.len() > 0 && s[0] == '+' {
        s.skip(1)
    } else {
        s
    };
    if digits.len() > 0 && all_digits(digits) && number(digits) <= u32::MAX {
        Some(number(digits) as u32)
    } else {
        None
    }
}

// ---------------------------------------------------------------------------
// Facts
// ---------------------------------------------------------------------------

/// A sequence has at least one piece, and no piece holds the separator.
pub proof fn lemma_split_pieces(s: Seq<char>, sep: char)
    ensures
        split(s, sep).len() >= 1,
        forall|i: int|
            0 <= i < split(s, sep).len() ==> !(#[trigger] split(s, sep)[i]).contains(sep),
    decreases s.len(),
{
    if s.len() > 0 {
        lemma_split_pieces(s.drop_last(), sep);
        let front = split(s.drop_last(), sep);
        let whole = split(s, sep);
        assert forall|i: int| 0 <= i < whole.len() implies !(#[trigger] whole[i]).contains(sep) by {
            if i < front.len() - 1 || (s.last() == sep && i < front.len()) {
                assert(whole[i] == front[i]);
            } else if s.last() != sep {
                assert(!front.last().contains(sep)) by {
                    assert(front.last() == front[front.len() - 1]);
                }
                let piece = front.last().push(s.last());
                assert(whole[i] == piece);
                if piece.contains(sep) {
                    let k = choose|k: int| 0 <= k < piece.len() && piece[k] == sep;
                    assert(front.last()[k] == sep);
                }
            }
        }
    }
}

/// A sequence without the separator is its own single piece.
pub proof fn lemma_split_single(s: Seq<char>, sep: char)
    requires
        !s.contains(sep),
    ensures
        split(s, sep) == seq![s],
    decreases s.len(),
{
    if s.len() > 0 {
        let front = s.drop_last();
        assert(!front.contains(sep)) by {
            if front.contains(sep) {
                let k = choose|k: int| 0 <= k < front.len() && front[k] == sep;
                assert(s[k] == sep);
            }
        }
        lemma_split_single(front, sep);
        assert(s[s.len() - 1] == s.last());
        assert(split(s, sep) =~= seq![front.push(s.last())]);
        assert(front.push(s.last()) =~= s);
    } else {
        assert(s =~= Seq::<char>::empty());
    }
}

/// The pieces of two sequences joined by a separator are those of the first
/// followed by those of the second.
pub proof fn lemma_split_join(a: Seq<char>, b: Seq<char>, sep: char)
    ensures
        split(a.push(sep) + b, sep) == split(a, sep) + split(b, sep),
    decreases b.len(),
{
    let whole = a.push(sep) + b;
    lemma_split_pieces(a, sep);
    lemma_split_pieces(b, sep);
    if b.len() == 0 {
        assert(whole =~= a.push(sep));
        assert(whole.drop_last() =~= a);
        assert(split(whole, sep) =~= split(a, sep) + split(b, sep));
    } else {
        lemma_split_join(a, b.drop_last(), sep);
        lemma_split_pieces(b.drop_last(), sep);
        assert(whole.drop_last() =~= a.push(sep) + b.drop_last());
        assert(split(whole, sep) =~= split(a, sep) + split(b, sep));
    }
}

/// What holds of every character of every piece holds of every character that
/// is not the separator.
pub proof fn lemma_split_all(s: Seq<char>, sep: char, p: spec_fn(char) -> bool)
    requires
        forall|i: int, j: int|
            0 <= i < split(s, sep).len() && 0 <= j < split(s, sep)[i].len() ==> p(
                #[trigger] split(s, sep)[i][j],
            ),
    ensures
        forall|k: int| 0 <= k < s.len() ==> #[trigger] s[k] == sep || p(s[k]),
    decreases s.len(),
{
    if s.len() > 0 {
        let front = split(s.drop_last(), sep);
        let whole = split(s, sep);
        lemma_split_pieces(s.drop_last(), sep);
        assert forall|i: int, j: int| 0 <= i < front.len() && 0 <= j < front[i].len() implies p(
            #[trigger] front[i][j],
        ) by {
            assert(whole[i][j] == front[i][j]);
        }
        lemma_split_all(s.drop_last(), sep, p);
        if s.last() != sep {
            let piece = whole[whole.len() - 1];
            assert(piece[piece.len() - 1] == s.last());
        }
        assert forall|k: int| 0 <= k < s.len() implies #[trigger] s[k] == sep || p(s[k]) by {
            if k < s.len() - 1 {
                assert(s.drop_last()[k] == s[k]);
            }
        }
    }
}

/// A sequence has at least one piece, and at most `n` where `n` is positive.
pub proof fn lemma_split_n_len(s: Seq<char>, sep: char, n: nat)
    requires
        n >= 1,
    ensures
        1 <= split_n(s, sep, n).len() <= n,
    decreases s.len(),
{
    if s.len() > 0 {
        lemma_split_n_len(s.drop_last(), sep, n);
    }
}

/// With a single piece allowed, nothing is cut.
pub proof fn lemma_split_n_one(s: Seq<char>, sep: char)
    ensures
        split_n(s, sep, 1) == seq![s],
    decreases s.len(),
{
    if s.len() > 0 {
        lemma_split_n_one(s.drop_last(), sep);
        assert(split_n(s, sep, 1) =~= seq![s.drop_last().push(s.last())]);
        assert(s.drop_last().push(s.last()) =~= s);
    } else {
        assert(s =~= Seq::<char>::empty());
    }
}

/// A sequence without the separator is its own single piece.
pub proof fn lemma_split_n_single(s: Seq<char>, sep: char, n: nat)
    requires
        n >= 1,
        !s.contains(sep),
    ensures
        split_n(s, sep, n) == seq![s],
    decreases s.len(),
{
    if s.len() > 0 {
        let front = s.drop_last();
        assert(!front.contains(sep)) by {
            if front.contains(sep) {
                let k = choose|k: int| 0 <= k < front.len() && front[k] == sep;
                assert(s[k] == sep);
            }
        }
        lemma_split_n_single(front, sep, n);
        assert(s[s.len() - 1] == s.last());
        assert(split_n(s, sep, n) =~= seq![front.push(s.last())]);
        assert(front.push(s.last()) =~= s);
    } else {
        assert(s =~= Seq::<char>::empty());
    }
}

/// The first piece is what stands before the first separator; the rest is cut
/// into one piece less.
pub proof fn lemma_split_n_first(a: Seq<char>, b: Seq<char>, sep: char, n: nat)
    requires
        n >= 2,
        !a.contains(sep),
    ensures
        split_n(a.push(sep) + b, sep, n) == seq![a] + split_n(b, sep, (n - 1) as nat),
    decreases b.len(),
{
    let whole = a.push(sep) + b;
    if b.len() == 0 {
        lemma_split_n_single(a, sep, n);
        assert(whole =~= a.push(sep));
        assert(whole.drop_last() =~= a);
        assert(split_n(whole, sep, n) =~= seq![a] + split_n(b, sep, (n - 1) as nat));
    } else {
        lemma_split_n_first(a, b.drop_last(), sep, n);
        lemma_split_n_len(b.drop_last(), sep, (n - 1) as nat);
        assert(whole.drop_last() =~= a.push(sep) + b.drop_last());
        assert(split_n(whole, sep, n) =~= seq![a] + split_n(b, sep, (n - 1) as nat));
    }
}

/// The first piece begins as the whole does, up to the first separator.
pub proof fn lemma_split_head(s: Seq<char>, sep: char, k: int)
    requires
        0 <= k <= s.len(),
        forall|i: int| 0 <= i < k ==> #[trigger] s[i] != sep,
    ensures
        split(s, sep).len() >= 1,
        starts_with(split(s, sep)[0], s.take(k)),
    decreases s.len(),
{
    lemma_split_pieces(s, sep);
    if s.len() > 0 {
        let front = split(s.drop_last(), sep);
        lemma_split_pieces(s.drop_last(), sep);
        if k < s.len() {
            lemma_split_head(s.drop_last(), sep, k);
            assert(s.drop_last().take(k) =~= s.take(k));
            assert(split(s, sep)[0].take(k) =~= front[0].take(k));
        } else {
            assert(!s.contains(sep)) by {
                if s.contains(sep) {
                    let i = choose|i: int| 0 <= i < s.len() && s[i] == sep;
                }
            }
            lemma_split_single(s, sep);
            assert(s.take(k) =~= s);
        }
    } else {
        assert(s.take(k) =~= split(s, sep)[0].take(k));
    }
}

/// The first piece begins as the whole does, up to the first separator.
pub proof fn lemma_split_n_head(s: Seq<char>, sep: char, n: nat, k: int)
    requires
        n >= 1,
        0 <= k <= s.len(),
        forall|i: int| 0 <= i < k ==> #[trigger] s[i] != sep,
    ensures
        split_n(s, sep, n).len() >= 1,
        starts_with(split_n(s, sep, n)[0], s.take(k)),
    decreases s.len(),
{
    lemma_split_n_len(s, sep, n);
    if s.len() > 0 {
        let front = split_n(s.drop_last(), sep, n);
        lemma_split_n_len(s.drop_last(), sep, n);
        if k < s.len() {
            lemma_split_n_head(s.drop_last(), sep, n, k);
            assert(s.drop_last().take(k) =~= s.take(k));
            assert(split_n(s, sep, n)[0].take(k) =~= front[0].take(k));
        } else {
            assert(!s.contains(sep)) by {
                if s.contains(sep) {
                    let i = choose|i: int| 0 <= i < s.len() && s[i] == sep;
                }
            }
            lemma_split_n_single(s, sep, n);
            assert(s.take(k) =~= s);
        }
    } else {
        assert(s.take(k) =~= split_n(s, sep, n)[0].take(k));
    }
}

/// Lowering the case keeps the places of a separator that is no letter.
pub proof fn lemma_split_lower(s: Seq<char>, sep: char)
    requires
        !('A' <= sep && sep <= 'Z'),
        !('a' <= sep && sep <= 'z'),
    ensures
        split(lower(s), sep) == split(s, sep).map_values(|p: Seq<char>| lower(p)),
    decreases s.len(),
{
    if s.len() == 0 {
        assert(lower(s) =~= Seq::<char>::empty());
        assert(lower(Seq::<char>::empty()) =~= Seq::<char>::empty());
        assert(split(lower(s), sep) =~= split(s, sep).map_values(|p: Seq<char>| lower(p)));
    } else {
        let front = split(s.drop_last(), sep);
        lemma_split_lower(s.drop_last(), sep);
        lemma_split_pieces(s.drop_last(), sep);
        assert(lower(s).drop_last() =~= lower(s.drop_last()));
        assert(lower(s).last() == lower_char(s.last()));
        assert(lower(front.last().push(s.last())) =~= lower(front.last()).push(
            lower_char(s.last()),
        ));
        assert(lower(Seq::<char>::empty()) =~= Seq::<char>::empty());
        assert(split(lower(s), sep) =~= split(s, sep).map_values(|p: Seq<char>| lower(p)));
    }
}

/// Trimming and lowering the case commute, if the character trimmed is no
/// letter.
pub proof fn lemma_trim_lower(s: Seq<char>, c: char)
    requires
        !('A' <= c && c <= 'Z'),
        !('a' <= c && c <= 'z'),
    ensures
        trim_end(lower(s), c) == lower(trim_end(s, c)),
    decreases s.len(),
{
    if s.len() > 0 {
        assert(lower(s).last() == lower_char(s.last()));
        assert(lower(s).drop_last() =~= lower(s.drop_last()));
        lemma_trim_lower(s.drop_last(), c);
    }
}

/// The decimal notation of a number is made of digits, at least one, and
/// stands for that number.
pub proof fn lemma_decimal(n: nat)
    ensures
        decimal(n).len() >= 1,
        all_digits(decimal(n)),
        number(decimal(n)) == n,
    decreases n,
{
    if n < 10 {
        let one = seq![digit(n)];
        assert(one.drop_last() =~= Seq::<char>::empty());
        assert(number(one.drop_last()) == 0);
        assert(one.last() == digit(n));
    } else {
        lemma_decimal(n / 10);
        let front = decimal(n / 10);
        let whole = decimal(n);
        assert(whole.drop_last() =~= front);
        assert(whole.last() == digit(n % 10));
        assert forall|i: int| 0 <= i < whole.len() implies is_digit(#[trigger] whole[i]) by {
            if i < front.len() {
                assert(whole[i] == front[i]);
            }
        }
    }
}

/// A `u32` is read back from its decimal notation.
pub proof fn lemma_u32_of_decimal(n: u32)
    ensures
        u32_of(decimal(n as nat)) == Some(n),
{
    lemma_decimal(n as nat);
    assert(is_digit(decimal(n as nat)[0]));
}

/// Digits hold no separator that is not a digit itself.
pub proof fn lemma_digits_lack(s: Seq<char>, c: char)
    requires
        all_digits(s),
        !is_digit(c),
    ensures
        !s.contains(c),
{
    if s.contains(c) {
        let k = choose|k: int| 0 <= k < s.len() && s[k] == c;
        assert(is_digit(s[k]));
    }
}

/// A longer row of digits never stands for a smaller number.
pub proof fn lemma_number_grows(s: Seq<char>, k: int)
    requires
        0 <= k <= s.len(),
        all_digits(s),
    ensures
        number(s.take(k)) <= number(s),
    decreases s.len() - k,
{
    if k < s.len() {
        lemma_number_grows(s, k + 1);
        assert(s.take(k + 1).drop_last() =~= s.take(k));
        assert(is_digit(s[k]));
    } else {
        assert(s.take(k) =~= s);
    }
}

// ---------------------------------------------------------------------------
// Executable counterparts
// ---------------------------------------------------------------------------

/// The characters of `s`.
pub(crate) fn chars_of(s: &str) -> (r: Vec<char>)
    ensures
        r@ == s@,
{
    let mut out: Vec<char> = Vec::new();
    for c in it: s.chars()
        invariant
            it.seq() == s@,
            out@ == it.seq().take(it.index() as int),
    {
        out.push(c);
    }
    out
}

/// The string that consists of the characters `v`.
pub(crate) fn string_of(v: &Vec<char>) -> (r: String)
    ensures
        r@ == v@,
{
    let mut out = String::new();
    let mut i: usize = 0;
    while i < v.len()
        invariant
            i <= v.len(),
            out@ == v@.take(i as int),
        decreases v.len() - i,
    {
        out.push(v[i]);
        i = i + 1;
        assert(v@.take(i as int) =~= v@.take(i - 1).push(v@[i - 1]));
    }
    assert(v@.take(i as int) =~= v@);
    out
}

/// The pieces of `s` between the occurrences of `sep`.
pub(crate) fn split_chars(s: &Vec<char>, sep: char) -> (r: Vec<Vec<char>>)
    ensures
        pieces(r@) == split(s@, sep),
{
    let mut done: Vec<Vec<char>> = Vec::new();
    let mut current: Vec<char> = Vec::new();
    let mut i: usize = 0;
    assert(pieces(done@).push(current@) =~= split(s@.take(0), sep));
    while i < s.len()
        invariant
            i <= s.len(),
            pieces(done@).push(current@) == split(s@.take(i as int), sep),
        decreases s.len() - i,
    {
        let ghost before = pieces(done@);
        let ghost piece = current@;
        let c = s[i];
        if c == sep {
            done.push(current);
            current = Vec::new();
            assert(pieces(done@) =~= before.push(piece));
        } else {
            current.push(c);
        }
        i = i + 1;
        proof {
            let front = before.push(piece);
            assert(s@.take(i as int).drop_last() =~= s@.take(i - 1));
            assert(s@.take(i as int).last() == c);
            assert(front.drop_last() =~= before);
            assert(pieces(done@).push(current@) =~= split(s@.take(i as int), sep));
        }
    }
    assert(s@.take(i as int) =~= s@);
    let ghost before = pieces(done@);
    let ghost piece = current@;
    done.push(current);
    assert(pieces(done@) =~= before.push(piece));
    done
}

/// The pieces of `s` between the first `n - 1` occurrences of `sep`.
pub(crate) fn split_n_chars(s: &Vec<char>, sep: char, n: usize) -> (r: Vec<Vec<char>>)
    ensures
        pieces(r@) == split_n(s@, sep, n as nat),
{
    let mut done: Vec<Vec<char>> = Vec::new();
    let mut current: Vec<char> = Vec::new();
    let mut i: usize = 0;
    assert(pieces(done@).push(current@) =~= split_n(s@.take(0), sep, n as nat));
    while i < s.len()
        invariant
            i <= s.len(),
            done.len() <= i,
            pieces(done@).push(current@) == split_n(s@.take(i as int), sep, n as nat),
        decreases s.len() - i,
    {
        let ghost before = pieces(done@);
        let ghost piece = current@;
        let c = s[i];
        if c == sep && done.len() + 1 < n {
            done.push(current);
            current = Vec::new();
            assert(pieces(done@) =~= before.push(piece));
        } else {
            current.push(c);
        }
        i = i + 1;
        proof {
            let front = before.push(piece);
            assert(s@.take(i as int).drop_last() =~= s@.take(i - 1));
            assert(s@.take(i as int).last() == c);
            assert(front.drop_last() =~= before);
            assert(pieces(done@).push(current@) =~= split_n(s@.take(i as int), sep, n as nat));
        }
    }
    assert(s@.take(i as int) =~= s@);
    let ghost before = pieces(done@);
    let ghost piece = current@;
    done.push(current);
    assert(pieces(done@) =~= before.push(piece));
    done
}

/// Removes the `c` characters that `s` ends with.
pub(crate) fn trim_end_chars(s: &mut Vec<char>, c: char)
    ensures
        final(s)@ == trim_end(old(s)@, c),
{
    while s.len() > 0 && s[s.len() - 1] == c
        invariant
            trim_end(s@, c) == trim_end(old(s)@, c),
        decreases s.len(),
    {
        s.pop();
    }
}

/// `s` begins with `prefix`.
pub(crate) fn has_prefix(s: &Vec<char>, prefix: &Vec<char>) -> (r: bool)
    ensures
        r == starts_with(s@, prefix@),
{
    if prefix.len() > s.len() {
        return false;
    }
    let mut i: usize = 0;
    while i < prefix.len()
        invariant
            i <= prefix.len() <= s.len(),
            forall|k: int| 0 <= k < i ==> s@[k] == prefix@[k],
        decreases prefix.len() - i,
    {
        if s[i] != prefix[i] {
            assert(s@.take(prefix@.len() as int)[i as int] != prefix@[i as int]);
            return false;
        }
        i = i + 1;
    }
    assert(s@.take(prefix@.len() as int) =~= prefix@);
    true
}

/// `s` without its first `n` characters.
pub(crate) fn skip_chars(s: &Vec<char>, n: usize) -> (r: Vec<char>)
    requires
        n <= s.len(),
    ensures
        r@ == s@.skip(n as int),
{
    let mut out: Vec<char> = Vec::new();
    let mut i: usize = n;
    while i < s.len()
        invariant
            n <= i <= s.len(),
            out@ == s@.subrange(n as int, i as int),
        decreases s.len() - i,
    {
        out.push(s[i]);
        i = i + 1;
        assert(s@.subrange(n as int, i as int) =~= s@.subrange(n as int, i - 1).push(s@[i - 1]));
    }
    assert(s@.subrange(n as int, i as int) =~= s@.skip(n as int));
    out
}

/// `s` with its ASCII capital letters in lowercase.
pub(crate) fn lower_chars(s: &Vec<char>) -> (r: Vec<char>)
    ensures
        r@ == lower(s@),
{
    let mut out: Vec<char> = Vec::new();
    let mut i: usize = 0;
    while i < s.len()
        invariant
            i <= s.len(),
            out@ == lower(s@.take(i as int)),
        decreases s.len() - i,
    {
        let c = s[i];
        if 'A' <= c && c <= 'Z' {
            out.push((c as u8 + 32) as char);
        } else {
            out.push(c);
        }
        i = i + 1;
        assert(lower(s@.take(i as int)) =~= lower(s@.take(i - 1)).push(lower_char(s@[i - 1])));
    }
    assert(s@.take(i as int) =~= s@);
    out
}

/// Appends `n` in decimal notation.
pub(crate) fn push_decimal(out: &mut String, n: u64)
    ensures
        final(out)@ == old(out)@ + decimal(n as nat),
    decreases n,
{
    let d: u64 = n % 10;
    if n >= 10 {
        push_decimal(out, n / 10);
    }
    out.push(('0' as u8 + d as u8) as char);
    assert(out@ =~= old(out)@ + decimal(n as nat));
}

/// The `u32` that `s` spells.
pub(crate) fn parse_u32(s: &Vec<char>) -> (r: Option<u32>)
    ensures
        r == u32_of(s@),
{
    let start: usize = if s.len() > 0 && s[0] == '+' {
        1
    } else {
        0
    };
    let ghost digits = if s@.len() > 0 && s@[0] == '+' {
        s@.skip(1)
    } else {
        s@
    };
    assert(digits =~= s@.skip(start as int));
    if start == s.len() {
        return None;
    }
    let mut value: u64 = 0;
    let mut i: usize = start;
    assert(digits.take(0) =~= Seq::<char>::empty());
    while i < s.len()
        invariant
            start <= i <= s.len(),
            digits == s@.skip(start as int),
            u32_of(s@) is Some ==> all_digits(digits) && number(digits) <= u32::MAX,
            all_digits(digits.take(i - start)),
            value == number(digits.take(i - start)),
            value <= u32::MAX,
        decreases s.len() - i,
    {
        let c = s[i];
        assert(c == digits[i - start]);
        if !('0' <= c && c <= '9') {
            assert(!is_digit(digits[i - start]));
            return None;
        }
        let d: u64 = (c as u32 - '0' as u32) as u64;
        value = value * 10 + d;
        i = i + 1;
        proof {
            let now = digits.take(i - start);
            let before = digits.take(i - 1 - start);
            assert(now.drop_last() =~= before);
            assert(now.last() == c);
            assert(all_digits(now)) by {
                assert forall|k: int| 0 <= k < now.len() implies is_digit(#[trigger] now[k]) by {
                    if k < before.len() {
                        assert(now[k] == before[k]);
                    }
                }
            }
        }
        if value > u32::MAX as u64 {
            proof {
                if all_digits(digits) {
                    lemma_number_grows(digits, i - start);
                }
            }
            return None;
        }
    }
    assert(digits.take(i - start) =~= digits);
    Some(value as u32)
}

} // verus!
