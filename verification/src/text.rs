//! Verified text helpers shared by the config-file emitter and parser:
//! decimal rendering and parsing, line splitting, and first-colon search.

use vstd::prelude::*;

verus! {

/// Relies on `String::push`: appends the given `char` to the end of the string.
#[verifier::external_body]
pub fn push_char(s: &mut String, c: char)
    ensures
        final(s)@ == old(s)@.push(c),
{
    s.push(c);
}

/// The numeric value of a decimal digit character; 10 marks a non-digit.
pub open spec fn digit_val(c: char) -> nat {
    if c == '0' {
        0
    } else if c == '1' {
        1
    } else if c == '2' {
        2
    } else if c == '3' {
        3
    } else if c == '4' {
        4
    } else if c == '5' {
        5
    } else if c == '6' {
        6
    } else if c == '7' {
        7
    } else if c == '8' {
        8
    } else if c == '9' {
        9
    } else {
        10
    }
}

pub open spec fn is_digit(c: char) -> bool {
    digit_val(c) < 10
}

pub open spec fn all_digits(s: Seq<char>) -> bool {
    forall|i: int| 0 <= i < s.len() ==> is_digit(#[trigger] s[i])
}

/// The decimal character of a digit value.
pub open spec fn digit_char(d: nat) -> char {
    if d == 0 {
        '0'
    } else if d == 1 {
        '1'
    } else if d == 2 {
        '2'
    } else if d == 3 {
        '3'
    } else if d == 4 {
        '4'
    } else if d == 5 {
        '5'
    } else if d == 6 {
        '6'
    } else if d == 7 {
        '7'
    } else if d == 8 {
        '8'
    } else {
        '9'
    }
}

pub fn digit_char_exec(d: u8) -> (c: char)
    requires
        d < 10,
    ensures
        c == digit_char(d as nat),
{
    if d == 0 {
        '0'
    } else if d == 1 {
        '1'
    } else if d == 2 {
        '2'
    } else if d == 3 {
        '3'
    } else if d == 4 {
        '4'
    } else if d == 5 {
        '5'
    } else if d == 6 {
        '6'
    } else if d == 7 {
        '7'
    } else if d == 8 {
        '8'
    } else {
        '9'
    }
}

pub fn digit_val_exec(c: char) -> (d: u8)
    ensures
        d as nat == digit_val(c),
{
    if c == '0' {
        0
    } else if c == '1' {
        1
    } else if c == '2' {
        2
    } else if c == '3' {
        3
    } else if c == '4' {
        4
    } else if c == '5' {
        5
    } else if c == '6' {
        6
    } else if c == '7' {
        7
    } else if c == '8' {
        8
    } else if c == '9' {
        9
    } else {
        10
    }
}

/// The number denoted by a digit sequence, most significant digit first.
pub open spec fn dec_val(s: Seq<char>) -> nat
    decreases s.len(),
{
    if s.len() == 0 {
        0
    } else {
        dec_val(s.drop_last()) * 10 + digit_val(s.last())
    }
}

/// The canonical decimal rendering of a number (no leading zeros).
pub open spec fn dec_str(n: nat) -> Seq<char>
    decreases n,
{
    if n < 10 {
        seq![digit_char(n)]
    } else {
        dec_str(n / 10).push(digit_char(n % 10))
    }
}

/// A prefix of a digit sequence never denotes more than the whole sequence.
pub proof fn lemma_dec_val_prefix(s: Seq<char>, i: int)
    requires
        0 <= i <= s.len(),
    ensures
        dec_val(s.take(i)) <= dec_val(s),
    decreases s.len() - i,
{
    if i == s.len() {
        assert(s.take(i) =~= s);
    } else {
        lemma_dec_val_prefix(s, i + 1);
        assert(s.take(i + 1).drop_last() =~= s.take(i));
        assert(dec_val(s.take(i + 1)) == dec_val(s.take(i)) * 10 + digit_val(s.take(i + 1).last()));
        assert(dec_val(s.take(i)) * 10 >= dec_val(s.take(i)));
    }
}

/// Appends the decimal rendering of `n` to `out`.
pub fn push_uint(out: &mut String, n: u64)
    ensures
        final(out)@ == old(out)@ + dec_str(n as nat),
    decreases n,
{
    if n < 10 {
        let c = digit_char_exec(n as u8);
        push_char(out, c);
        proof {
            assert(old(out)@.push(c) =~= old(out)@ + seq![c]);
        }
    } else {
        proof {
            assert(n / 10 < n) by (nonlinear_arith)
                requires
                    n >= 10,
            ;
        }
        push_uint(out, n / 10);
        let c = digit_char_exec((n % 10) as u8);
        push_char(out, c);
        proof {
            assert((n / 10) as nat == (n as nat) / 10);
            assert((n % 10) as nat == (n as nat) % 10);
            assert((old(out)@ + dec_str((n as nat) / 10)).push(c) =~= old(out)@ + dec_str(
                (n as nat) / 10,
            ).push(c));
        }
    }
}

/// A decimal rendering is nonempty and made of digits only.
pub proof fn lemma_dec_str_digits(n: nat)
    ensures
        dec_str(n).len() >= 1,
        all_digits(dec_str(n)),
    decreases n,
{
    if n < 10 {
        assert(is_digit(digit_char(n)));
        assert(forall|i: int| 0 <= i < dec_str(n).len() ==> is_digit(#[trigger] dec_str(n)[i]));
    } else {
        lemma_dec_str_digits(n / 10);
        assert(is_digit(digit_char(n % 10)));
        assert(dec_str(n) == dec_str(n / 10).push(digit_char(n % 10)));
        assert(forall|i: int| 0 <= i < dec_str(n).len() ==> is_digit(#[trigger] dec_str(n)[i]));
    }
}

/// Rendering then reading a number gives the number back.
pub proof fn lemma_dec_val_dec_str(n: nat)
    ensures
        dec_val(dec_str(n)) == n,
    decreases n,
{
    if n < 10 {
        assert(dec_str(n) == seq![digit_char(n)]);
        assert(dec_str(n).drop_last() =~= Seq::<char>::empty());
        assert(dec_val(Seq::<char>::empty()) == 0);
        assert(dec_str(n).last() == digit_char(n));
        assert(digit_val(digit_char(n)) == n);
        assert(dec_val(dec_str(n)) == dec_val(Seq::<char>::empty()) * 10 + digit_val(
            digit_char(n),
        ));
    } else {
        lemma_dec_val_dec_str(n / 10);
        assert(dec_str(n) == dec_str(n / 10).push(digit_char(n % 10)));
        assert(dec_str(n).drop_last() =~= dec_str(n / 10));
        assert(dec_str(n).last() == digit_char(n % 10));
        assert(digit_val(digit_char(n % 10)) == n % 10);
        assert(dec_val(dec_str(n)) == dec_val(dec_str(n / 10)) * 10 + n % 10);
        assert((n / 10) * 10 + n % 10 == n) by (nonlinear_arith);
    }
}

/// A sequence without a newline: it occupies a single line.
pub open spec fn no_nl(s: Seq<char>) -> bool {
    forall|i: int| 0 <= i < s.len() ==> #[trigger] s[i] != '\n'
}

/// Two newline-free pieces concatenate to a newline-free line.
pub proof fn lemma_no_nl_concat(a: Seq<char>, b: Seq<char>)
    requires
        no_nl(a),
        no_nl(b),
    ensures
        no_nl(a + b),
{
    assert forall|i: int| 0 <= i < (a + b).len() implies #[trigger] (a + b)[i] != '\n' by {
        if i < a.len() {
            assert((a + b)[i] == a[i]);
        } else {
            assert((a + b)[i] == b[i - a.len()]);
        }
    }
}

/// Digit sequences never hold a newline.
pub proof fn lemma_digits_no_nl(s: Seq<char>)
    requires
        all_digits(s),
    ensures
        no_nl(s),
{
    assert forall|i: int| 0 <= i < s.len() implies #[trigger] s[i] != '\n' by {
        assert(is_digit(s[i]));
    }
}

/// A text without a newline is one single line.
pub proof fn lemma_lines_no_nl(s: Seq<char>)
    requires
        no_nl(s),
    ensures
        lines_of(s) == seq![s],
    decreases s.len(),
{
    if s.len() == 0 {
        assert(lines_of(s) =~~= seq![s]);
    } else {
        assert(s[s.len() - 1] != '\n');
        lemma_lines_no_nl(s.drop_last());
        assert(lines_of(s) =~~= seq![s]);
    }
}

/// Splitting off the first line: a newline-free prefix before a newline is
/// one line, and the rest splits on its own.
pub proof fn lemma_lines_split(a: Seq<char>, s: Seq<char>)
    requires
        no_nl(a),
    ensures
        lines_of(a + seq!['\n'] + s) == seq![a] + lines_of(s),
    decreases s.len(),
{
    let t = a + seq!['\n'] + s;
    if s.len() == 0 {
        assert(t =~= (a + seq!['\n']));
        assert((a + seq!['\n']).drop_last() =~= a);
        assert((a + seq!['\n']).last() == '\n');
        lemma_lines_no_nl(a);
        assert(lines_of(t) =~~= seq![a] + lines_of(s));
    } else {
        lemma_lines_split(a, s.drop_last());
        assert(t.drop_last() =~= a + seq!['\n'] + s.drop_last());
        assert(t.last() == s.last());
        lemma_lines_of_len(s.drop_last());
        let q = lines_of(s.drop_last());
        if s.last() == '\n' {
            assert(lines_of(t) == lines_of(t.drop_last()).push(Seq::<char>::empty()));
            assert((seq![a] + q).push(Seq::<char>::empty()) =~~= seq![a] + q.push(
                Seq::<char>::empty(),
            ));
        } else {
            let p = lines_of(t.drop_last());
            assert(p == seq![a] + q);
            assert(p.len() == 1 + q.len());
            assert(p.last() == q.last());
            assert(p.update(p.len() - 1, p.last().push(s.last())) =~~= seq![a] + q.update(
                q.len() - 1,
                q.last().push(s.last()),
            ));
        }
    }
}

/// Joins lines with a newline after each.
pub open spec fn join_lines(ls: Seq<Seq<char>>) -> Seq<char>
    decreases ls.len(),
{
    if ls.len() == 0 {
        Seq::empty()
    } else {
        ls.first() + seq!['\n'] + join_lines(ls.drop_first())
    }
}

/// Appending one more line extends the joined text by the line and its
/// separator.
pub proof fn lemma_join_lines_push(ls: Seq<Seq<char>>, l: Seq<char>)
    ensures
        join_lines(ls.push(l)) == join_lines(ls) + l + seq!['\n'],
    decreases ls.len(),
{
    if ls.len() == 0 {
        assert(ls.push(l).drop_first() =~~= ls);
        assert(join_lines(ls.push(l)) =~= join_lines(ls) + l + seq!['\n']);
    } else {
        assert(ls.push(l).first() == ls.first());
        assert(ls.push(l).drop_first() =~~= ls.drop_first().push(l));
        lemma_join_lines_push(ls.drop_first(), l);
        assert(ls.first() + seq!['\n'] + (join_lines(ls.drop_first()) + l + seq!['\n']) =~= (
        ls.first() + seq!['\n'] + join_lines(ls.drop_first())) + l + seq!['\n']);
    }
}

/// Splitting a newline-joined text recovers the lines, plus the final empty
/// line after the last separator.
pub proof fn lemma_lines_of_join(ls: Seq<Seq<char>>)
    requires
        forall|i: int| 0 <= i < ls.len() ==> no_nl(#[trigger] ls[i]),
    ensures
        lines_of(join_lines(ls)) == ls.push(Seq::<char>::empty()),
    decreases ls.len(),
{
    if ls.len() == 0 {
        assert(lines_of(join_lines(ls)) =~~= ls.push(Seq::<char>::empty()));
    } else {
        assert(no_nl(ls.first()));
        assert(forall|i: int| 0 <= i < ls.drop_first().len() ==> no_nl(
            #[trigger] ls.drop_first()[i],
        ));
        lemma_lines_of_join(ls.drop_first());
        lemma_lines_split(ls.first(), join_lines(ls.drop_first()));
        assert(seq![ls.first()] + ls.drop_first().push(Seq::<char>::empty()) =~~= ls.push(
            Seq::<char>::empty(),
        ));
    }
}

/// A `u64` cap on decimal parsing; large enough for every field width used.
pub open spec fn parse_capped(v: Seq<char>) -> Option<u64> {
    if v.len() > 0 && all_digits(v) && dec_val(v) <= 0xFFFF_FFFF {
        Some(dec_val(v) as u64)
    } else {
        None
    }
}

/// Parses a decimal digit string, refusing the empty string, any non-digit,
/// and any value above the 32-bit range.
pub fn parse_capped_str(v: &str) -> (r: Option<u64>)
    ensures
        r == parse_capped(v@),
{
    let n = v.unicode_len();
    if n == 0 {
        return None;
    }
    let mut acc: u64 = 0;
    let mut i: usize = 0;
    while i < n
        invariant
            n == v@.len(),
            0 <= i <= n,
            acc <= 0xFFFF_FFFF,
            acc as nat == dec_val(v@.take(i as int)),
            forall|j: int| 0 <= j < i ==> is_digit(#[trigger] v@[j]),
        decreases n - i,
    {
        let c = v.get_char(i);
        let d = digit_val_exec(c);
        if d >= 10 {
            proof {
                assert(!is_digit(v@[i as int]));
            }
            return None;
        }
        let na: u64 = acc * 10 + d as u64;
        proof {
            assert(v@.take(i + 1).drop_last() =~= v@.take(i as int));
            assert(v@.take(i + 1).last() == v@[i as int]);
            assert(dec_val(v@.take(i + 1)) == dec_val(v@.take(i as int)) * 10 + digit_val(
                v@[i as int],
            ));
        }
        if na > 0xFFFF_FFFF {
            proof {
                lemma_dec_val_prefix(v@, i + 1);
            }
            return None;
        }
        acc = na;
        i += 1;
    }
    proof {
        assert(v@.take(n as int) =~= v@);
    }
    Some(acc)
}

/// The lines of a text, split at each newline; a text of `n` newlines has
/// `n + 1` lines, and no line contains a newline.
pub open spec fn lines_of(s: Seq<char>) -> Seq<Seq<char>>
    decreases s.len(),
{
    if s.len() == 0 {
        seq![Seq::<char>::empty()]
    } else if s.last() == '\n' {
        lines_of(s.drop_last()).push(Seq::<char>::empty())
    } else {
        let p = lines_of(s.drop_last());
        p.update(p.len() - 1, p.last().push(s.last()))
    }
}

pub proof fn lemma_lines_of_len(s: Seq<char>)
    ensures
        lines_of(s).len() >= 1,
    decreases s.len(),
{
    if s.len() == 0 {
    } else {
        lemma_lines_of_len(s.drop_last());
    }
}

/// Splits a text into its lines, dropping the newline separators.
pub fn split_lines(text: &str) -> (lines: Vec<String>)
    ensures
        lines@.map_values(|l: String| l@) == lines_of(text@),
{
    let n = text.unicode_len();
    let mut lines: Vec<String> = Vec::new();
    let mut cur: String = String::new();
    let mut i: usize = 0;
    while i < n
        invariant
            n == text@.len(),
            0 <= i <= n,
            lines@.map_values(|l: String| l@) + seq![cur@] =~= lines_of(text@.take(i as int)),
        decreases n - i,
    {
        let c = text.get_char(i);
        proof {
            assert(text@.take(i + 1).drop_last() =~= text@.take(i as int));
            assert(text@.take(i + 1).last() == c);
            lemma_lines_of_len(text@.take(i as int));
        }
        if c == '\n' {
            let ghost old_lines = lines@;
            let ghost old_cur = cur@;
            lines.push(cur);
            cur = String::new();
            proof {
                assert(lines@.map_values(|l: String| l@) =~= old_lines.map_values(
                    |l: String| l@,
                ).push(old_cur));
                assert(lines@.map_values(|l: String| l@) + seq![cur@] =~= lines_of(
                    text@.take(i + 1),
                ));
            }
        } else {
            push_char(&mut cur, c);
            proof {
                let prev = lines_of(text@.take(i as int));
                assert(lines@.map_values(|l: String| l@) + seq![cur@] =~= prev.update(
                    prev.len() - 1,
                    prev.last().push(c),
                ));
            }
        }
        i += 1;
    }
    proof {
        assert(text@.take(n as int) =~= text@);
    }
    let ghost old_lines = lines@;
    let ghost old_cur = cur@;
    lines.push(cur);
    proof {
        assert(lines@.map_values(|l: String| l@) =~= old_lines.map_values(|l: String| l@).push(
            old_cur,
        ));
        assert(lines@.map_values(|l: String| l@) =~= lines_of(text@));
    }
    lines
}

/// The index of the first colon in a sequence, `-1` if there is none.
pub open spec fn first_colon(s: Seq<char>) -> int
    decreases s.len(),
{
    if s.len() == 0 {
        -1
    } else if s[0] == ':' {
        0
    } else if first_colon(s.drop_first()) < 0 {
        -1
    } else {
        first_colon(s.drop_first()) + 1
    }
}

pub proof fn lemma_first_colon_at(s: Seq<char>, i: int)
    requires
        0 <= i < s.len(),
        s[i] == ':',
        forall|j: int| 0 <= j < i ==> s[j] != ':',
    ensures
        first_colon(s) == i,
    decreases s.len(),
{
    if i == 0 {
    } else {
        assert(s[0] != ':');
        assert(s.drop_first()[i - 1] == ':');
        assert(forall|j: int| 0 <= j < i - 1 ==> #[trigger] s.drop_first()[j] != ':');
        lemma_first_colon_at(s.drop_first(), i - 1);
    }
}

pub proof fn lemma_first_colon_none(s: Seq<char>)
    requires
        forall|j: int| 0 <= j < s.len() ==> s[j] != ':',
    ensures
        first_colon(s) == -1,
    decreases s.len(),
{
    if s.len() == 0 {
    } else {
        assert(forall|j: int| 0 <= j < s.drop_first().len() ==> #[trigger] s.drop_first()[j]
            != ':');
        lemma_first_colon_none(s.drop_first());
    }
}

/// Finds the first colon of a string, with the guarantees of `first_colon`.
pub fn find_first_colon(s: &str) -> (r: Option<usize>)
    ensures
        match r {
            Some(i) => first_colon(s@) == i as int && i < s@.len(),
            None => first_colon(s@) == -1,
        },
{
    let n = s.unicode_len();
    let mut i: usize = 0;
    while i < n
        invariant
            n == s@.len(),
            0 <= i <= n,
            forall|j: int| 0 <= j < i ==> s@[j] != ':',
        decreases n - i,
    {
        let c = s.get_char(i);
        if c == ':' {
            proof {
                lemma_first_colon_at(s@, i as int);
            }
            return Some(i);
        }
        i += 1;
    }
    proof {
        lemma_first_colon_none(s@);
    }
    None
}

/// True exactly when the two strings hold the same characters.
pub fn str_eq(a: &str, b: &str) -> (r: bool)
    ensures
        r == (a@ == b@),
{
    let n = a.unicode_len();
    let m = b.unicode_len();
    if n != m {
        return false;
    }
    let mut i: usize = 0;
    while i < n
        invariant
            n == a@.len(),
            n == b@.len(),
            0 <= i <= n,
            forall|j: int| 0 <= j < i ==> a@[j] == b@[j],
        decreases n - i,
    {
        let ca = a.get_char(i);
        let cb = b.get_char(i);
        if ca != cb {
            return false;
        }
        i += 1;
    }
    proof {
        assert(a@ =~= b@);
    }
    true
}

} // verus!
