//! Character-level string helpers with their specifications.
use vstd::prelude::*;
use vstd::string::StrSliceExecFns;

verus! {

/// The first `n` characters of `s`, or all of `s` when it is shorter
/// (what `s.chars().take(n)` collects).
pub open spec fn prefix(s: Seq<char>, n: nat) -> Seq<char> {
    if s.len() <= n {
        s
    } else {
        s.take(n as int)
    }
}

/// A new string holding the first `n` characters of `s`.
pub fn take_chars(s: &str, n: usize) -> (r: String)
    ensures
        r@ == prefix(s@, n as nat),
{
    let len = s.unicode_len();
    let k = if len < n {
        len
    } else {
        n
    };
    let r = s.substring_char(0, k).to_owned();
    assert(s@.subrange(0, len as int) =~= s@);
    r
}

/// Character-by-character comparison of two strings.
pub fn str_eq(a: &str, b: &str) -> (r: bool)
    ensures
        r == (a@ == b@),
{
    let n = a.unicode_len();
    if n != b.unicode_len() {
        return false;
    }
    let mut i: usize = 0;
    while i < n
        invariant
            n == a@.len(),
            n == b@.len(),
            i <= n,
            forall|j: int| 0 <= j < i ==> a@[j] == b@[j],
        decreases n - i,
    {
        if a.get_char(i) != b.get_char(i) {
            return false;
        }
        i = i + 1;
    }
    assert(a@ =~= b@);
    true
}

/// `line` without one trailing carriage return, if it has one.
pub open spec fn strip_cr(line: Seq<char>) -> Seq<char> {
    if line.len() > 0 && line.last() == '\r' {
        line.drop_last()
    } else {
        line
    }
}

/// The lines of `s` given that `cur` holds the characters of the line begun so far:
/// every `'\n'` (with a `'\r'` just before it) ends a line, and a last line
/// without a terminator counts only when it is not empty.
pub open spec fn lines_from(s: Seq<char>, cur: Seq<char>) -> Seq<Seq<char>>
    decreases s.len(),
{
    if s.len() == 0 {
        if cur.len() == 0 {
            Seq::empty()
        } else {
            seq![cur]
        }
    } else if s[0] == '\n' {
        seq![strip_cr(cur)] + lines_from(s.drop_first(), Seq::empty())
    } else {
        lines_from(s.drop_first(), cur.push(s[0]))
    }
}

/// The lines of `s`, as `str::lines` yields them.
pub open spec fn spec_lines(s: Seq<char>) -> Seq<Seq<char>> {
    lines_from(s, Seq::empty())
}

/// The character sequences of a list of strings.
pub open spec fn strings_view(v: Seq<String>) -> Seq<Seq<char>> {
    v.map_values(|s: String| s@)
}

/// Splits `s` into its lines (see `spec_lines`).
pub fn split_lines(s: &str) -> (r: Vec<String>)
    ensures
        strings_view(r@) == spec_lines(s@),
{
    let n = s.unicode_len();
    let mut out: Vec<String> = Vec::new();
    let mut start: usize = 0;
    let mut i: usize = 0;
    assert(s@.skip(0) =~= s@);
    assert(strings_view(out@) =~= Seq::<Seq<char>>::empty());
    assert(s@.subrange(0, 0) =~= Seq::<char>::empty());
    while i < n
        invariant
            n == s@.len(),
            start <= i <= n,
            strings_view(out@) + lines_from(s@.skip(i as int), s@.subrange(start as int, i as int))
                == spec_lines(s@),
        decreases n - i,
    {
        let c = s.get_char(i);
        let ghost rest = s@.skip(i as int);
        let ghost cur = s@.subrange(start as int, i as int);
        assert(rest.drop_first() =~= s@.skip(i + 1));
        assert(rest[0] == c);
        if c == '\n' {
            let end = if i > start && s.get_char(i - 1) == '\r' {
                i - 1
            } else {
                i
            };
            let line = s.substring_char(start, end).to_owned();
            proof {
                assert(line@ =~= strip_cr(cur));
            }
            let ghost before = out@;
            out.push(line);
            proof {
                assert(strings_view(out@) =~= strings_view(before).push(strip_cr(cur)));
                assert(lines_from(rest, cur) == seq![strip_cr(cur)] + lines_from(
                    s@.skip(i + 1),
                    Seq::empty(),
                ));
                assert(s@.subrange(i + 1, i + 1) =~= Seq::<char>::empty());
                assert(strings_view(out@) + lines_from(s@.skip(i + 1), Seq::empty()) =~= strings_view(
                    before,
                ) + (seq![strip_cr(cur)] + lines_from(s@.skip(i + 1), Seq::empty())));
            }
            start = i + 1;
        } else {
            proof {
                assert(s@.subrange(start as int, i + 1) =~= cur.push(c));
            }
        }
        i = i + 1;
    }
    assert(s@.skip(n as int) =~= Seq::<char>::empty());
    if start < n {
        let line = s.substring_char(start, n).to_owned();
        let ghost before = out@;
        out.push(line);
        assert(strings_view(out@) =~= strings_view(before).push(s@.subrange(start as int, n as int)));
        assert(strings_view(out@) =~= strings_view(before) + seq![s@.subrange(start as int, n as int)]);
    } else {
        assert(strings_view(out@) =~= strings_view(out@) + Seq::<Seq<char>>::empty());
    }
    out
}

} // verus!
