//! Plain text: comparison, joining, splitting and decimal numbers.

use vstd::prelude::*;

verus! {

/// Whether `s` begins with `prefix`.
pub open spec fn has_prefix(s: Seq<char>, prefix: Seq<char>) -> bool {
    prefix.len() <= s.len() && s.take(prefix.len() as int) == prefix
}

/// Whether `s` ends with `suffix`.
pub open spec fn has_suffix(s: Seq<char>, suffix: Seq<char>) -> bool {
    suffix.len() <= s.len() && s.skip(s.len() - suffix.len()) == suffix
}

/// The decimal digits of `n`, without leading zeros.
pub open spec fn decimal_digits(n: nat) -> Seq<char>
    decreases n,
{
    if n < 10 {
        seq![digit_char(n)]
    } else {
        decimal_digits(n / 10).push(digit_char(n % 10))
    }
}

/// The character of a single decimal digit.
pub open spec fn digit_char(d: nat) -> char {
    if d == 0 {
        '0'
    } else if d == 1 {
        '1'
    } else if d == 2 {
        '2'
    } else if d == 3 {
        '3'
    } else if d == 4 {
        '4'
    } else if d == 5 {
        '5'
    } else if d == 6 {
        '6'
    } else if d == 7 {
        '7'
    } else if d == 8 {
        '8'
    } else {
        '9'
    }
}

/// A line without the carriage return that may stand before its line feed.
pub open spec fn without_return(line: Seq<char>) -> Seq<char> {
    if line.len() > 0 && line.last() == '\r' {
        line.drop_last()
    } else {
        line
    }
}

/// The lines of a text. A line ends with a line feed, or with a carriage
/// return and a line feed, neither of which belongs to it; the last line may
/// do without. An empty text has no lines.
pub open spec fn lines_of(s: Seq<char>) -> Seq<Seq<char>>
    decreases s.len(),
{
    let end = first_feed(s);
    if s.len() == 0 {
        seq![]
    } else if 0 <= end < s.len() {
        seq![without_return(s.take(end))] + lines_of(s.skip(end + 1))
    } else {
        seq![s]
    }
}

/// The place of the first line feed of `s`, or its length where it has none.
pub open spec fn first_feed(s: Seq<char>) -> int
    decreases s.len(),
{
    if s.len() == 0 {
        0
    } else if s[0] == '\n' {
        0
    } else {
        1 + first_feed(s.skip(1))
    }
}

/// What a text that may be missing says.
pub open spec fn text_of(text: Option<&str>) -> Option<Seq<char>> {
    match text {
        Some(t) => Some(t@),
        None => None,
    }
}

/// Whether two texts are the same.
pub fn same_text(a: &str, b: &str) -> (res: bool)
    ensures
        res == (a@ == b@),
{
    a.to_owned() == b.to_owned()
}

/// Whether `s` begins with `prefix`.
pub fn starts_with(s: &str, prefix: &str) -> (res: bool)
    ensures
        res == has_prefix(s@, prefix@),
{
    let n: usize = prefix.unicode_len();
    if n > s.unicode_len() {
        return false;
    }
    same_text(s.substring_char(0, n), prefix)
}

/// Whether `s` ends with `suffix`.
pub fn ends_with(s: &str, suffix: &str) -> (res: bool)
    ensures
        res == has_suffix(s@, suffix@),
{
    let len: usize = s.unicode_len();
    let n: usize = suffix.unicode_len();
    if n > len {
        return false;
    }
    same_text(s.substring_char(len - n, len), suffix)
}

/// The text `a` followed by the text `b`.
pub fn join(a: &str, b: &str) -> (res: String)
    ensures
        res@ == a@ + b@,
{
    let mut out = a.to_owned();
    out.append(b);
    out
}

/// The text of a single decimal digit.
fn digit_text(d: usize) -> (res: &'static str)
    requires
        d < 10,
    ensures
        res@ == seq![digit_char(d as nat)],
{
    proof {
        reveal_strlit("0");
        reveal_strlit("1");
        reveal_strlit("2");
        reveal_strlit("3");
        reveal_strlit("4");
        reveal_strlit("5");
        reveal_strlit("6");
        reveal_strlit("7");
        reveal_strlit("8");
        reveal_strlit("9");
    }
    if d == 0 {
        "0"
    } else if d == 1 {
        "1"
    } else if d == 2 {
        "2"
    } else if d == 3 {
        "3"
    } else if d == 4 {
        "4"
    } else if d == 5 {
        "5"
    } else if d == 6 {
        "6"
    } else if d == 7 {
        "7"
    } else if d == 8 {
        "8"
    } else {
        "9"
    }
}

/// `n` in decimal notation.
pub fn decimal(n: usize) -> (res: String)
    ensures
        res@ == decimal_digits(n as nat),
    decreases n,
{
    if n < 10 {
        digit_text(n).to_owned()
    } else {
        let mut out = decimal(n / 10);
        out.append(digit_text(n % 10));
        proof {
            assert(out@ =~= decimal_digits(n as nat));
        }
        out
    }
}

/// Different numbers have different decimal notations.
pub proof fn lemma_decimal_injective(a: nat, b: nat)
    requires
        decimal_digits(a) == decimal_digits(b),
    ensures
        a == b,
    decreases a,
{
    lemma_decimal_length(a);
    lemma_decimal_length(b);
    let da = decimal_digits(a);
    let db = decimal_digits(b);
    assert(da.last() == db.last());
    if a >= 10 && b >= 10 {
        assert(da.drop_last() =~= decimal_digits(a / 10));
        assert(db.drop_last() =~= decimal_digits(b / 10));
        lemma_decimal_injective(a / 10, b / 10);
        assert(a % 10 == b % 10);
    }
}

/// A number has one digit exactly where it is below ten.
proof fn lemma_decimal_length(n: nat)
    ensures
        decimal_digits(n).len() >= 1,
        decimal_digits(n).len() == 1 <==> n < 10,
    decreases n,
{
    if n >= 10 {
        lemma_decimal_length(n / 10);
    }
}

/// The first line feed is where `first_feed` says, and nowhere before.
pub proof fn lemma_first_feed(s: Seq<char>)
    ensures
        0 <= first_feed(s) <= s.len(),
        first_feed(s) < s.len() ==> s[first_feed(s)] == '\n',
        forall|i: int| 0 <= i < first_feed(s) ==> s[i] != '\n',
    decreases s.len(),
{
    if s.len() > 0 && s[0] != '\n' {
        lemma_first_feed(s.skip(1));
        assert forall|i: int| 0 <= i < first_feed(s) implies s[i] != '\n' by {
            if i > 0 {
                assert(s.skip(1)[i - 1] == s[i]);
            }
        }
    }
}

/// The first line feed stands at `i` where `s` has one there and none before.
pub proof fn lemma_first_feed_at(s: Seq<char>, i: int)
    requires
        0 <= i <= s.len(),
        i < s.len() ==> s[i] == '\n',
        forall|j: int| 0 <= j < i ==> s[j] != '\n',
    ensures
        first_feed(s) == i,
{
    lemma_first_feed(s);
}

/// No line of a text holds a line feed.
pub proof fn law_lines_hold_no_feed(s: Seq<char>)
    ensures
        forall|k: int| 0 <= k < lines_of(s).len() ==> !(#[trigger] lines_of(s)[k]).contains('\n'),
    decreases s.len(),
{
    lemma_first_feed(s);
    let end = first_feed(s);
    if s.len() > 0 {
        if end < s.len() {
            law_lines_hold_no_feed(s.skip(end + 1));
            let rest = lines_of(s.skip(end + 1));
            let first = without_return(s.take(end));
            assert forall|k: int| 0 <= k < lines_of(s).len() implies !(#[trigger] lines_of(
                s,
            )[k]).contains('\n') by {
                if k == 0 {
                    if first.contains('\n') {
                        let i = choose|i: int| 0 <= i < first.len() && first[i] == '\n';
                        assert(s[i] == '\n');
                    }
                } else {
                    assert(lines_of(s)[k] == rest[k - 1]);
                }
            }
        } else {
            if s.contains('\n') {
                let i = choose|i: int| 0 <= i < s.len() && s[i] == '\n';
                assert(s[i] == '\n');
            }
        }
    }
}

/// A text begins with another if and only if something can be put behind that
/// one to make it, and ends with it if and only if something can be put before.
pub proof fn law_beginnings_and_ends(
    s: &str,
    part: &str,
    starts: bool,
    ends: bool,
)
    requires
        call_ensures(starts_with, (s, part), starts),
        call_ensures(ends_with, (s, part), ends),
    ensures
        starts <==> exists|rest: Seq<char>| s@ == #[trigger] (part@ + rest),
        ends <==> exists|rest: Seq<char>| s@ == #[trigger] (rest + part@),
{
    let n = part@.len() as int;
    if starts {
        assert(s@ =~= part@ + s@.skip(n));
    }
    if exists|rest: Seq<char>| s@ == #[trigger] (part@ + rest) {
        let rest = choose|rest: Seq<char>| s@ == #[trigger] (part@ + rest);
        assert(s@.take(n) =~= part@);
    }
    if ends {
        assert(s@ =~= s@.take(s@.len() - n) + part@);
    }
    if exists|rest: Seq<char>| s@ == #[trigger] (rest + part@) {
        let rest = choose|rest: Seq<char>| s@ == #[trigger] (rest + part@);
        assert(s@.skip(s@.len() - n) =~= part@);
    }
}

/// Two texts that are joined stand one behind the other, and texts are the same
/// if and only if they are so character by character.
pub proof fn law_joining_and_comparing(a: &str, b: &str, joined: String, same: bool)
    requires
        call_ensures(join, (a, b), joined),
        call_ensures(same_text, (a, b), same),
    ensures
        joined@.len() == a@.len() + b@.len(),
        joined@.take(a@.len() as int) == a@,
        joined@.skip(a@.len() as int) == b@,
        same <==> a@.len() == b@.len() && forall|i: int| 0 <= i < a@.len() ==> a@[i] == b@[i],
{
    assert(joined@.take(a@.len() as int) =~= a@);
    assert(joined@.skip(a@.len() as int) =~= b@);
    if a@.len() == b@.len() && forall|i: int| 0 <= i < a@.len() ==> a@[i] == b@[i] {
        assert(a@ =~= b@);
    }
}

/// The decimal notation of a number ends in its last digit, and is that of a
/// tenth of the number before it. A number below ten has one digit.
pub proof fn law_decimal_by_its_last_digit(
    n: usize,
    res: String,
    tenth: String,
)
    requires
        call_ensures(decimal, (n,), res),
        call_ensures(decimal, ((n / 10) as usize,), tenth),
    ensures
        res@.len() > 0,
        res@.last() as int == '0' as int + n % 10,
        n < 10 ==> res@.len() == 1,
        n >= 10 ==> res@.drop_last() == tenth@,
{
    lemma_decimal_length(n as nat);
    if n >= 10 {
        assert(res@.drop_last() =~= decimal_digits(n as nat / 10));
    }
}

/// The lines of a text are found one by one: whatever stands up to a line feed
/// is a line, without the carriage return that may end it, and the lines of the
/// rest follow.
pub proof fn law_lines_follow_one_another(line: Seq<char>, rest: Seq<char>)
    requires
        !line.contains('\n'),
    ensures
        lines_of(line + seq!['\n'] + rest).len() == lines_of(rest).len() + 1,
        lines_of(line + seq!['\n'] + rest).skip(1) == lines_of(rest),
        line.len() > 0 && line.last() == '\r' ==> lines_of(line + seq!['\n'] + rest)[0]
            == line.drop_last(),
        !(line.len() > 0 && line.last() == '\r') ==> lines_of(line + seq!['\n'] + rest)[0] == line,
{
    let s = line + seq!['\n'] + rest;
    let n = line.len() as int;
    assert(s[n] == '\n');
    assert forall|j: int| 0 <= j < n implies s[j] != '\n' by {
        assert(s[j] == line[j]);
        assert(line.contains(line[j]));
    }
    lemma_first_feed_at(s, n);
    assert(s.take(n) =~= line);
    assert(s.skip(n + 1) =~= rest);
    assert(lines_of(s).skip(1) =~= lines_of(rest));
}

/// A text without a line feed is one line as it stands, unless it is empty and
/// has none.
pub proof fn law_last_line_needs_no_feed(line: Seq<char>)
    requires
        !line.contains('\n'),
    ensures
        line.len() > 0 ==> lines_of(line) == seq![line],
        line.len() == 0 ==> lines_of(line).len() == 0,
{
    assert forall|j: int| 0 <= j < line.len() implies line[j] != '\n' by {
        assert(line.contains(line[j]));
    }
    lemma_first_feed_at(line, line.len() as int);
}

} // verus!
