//! Text primitives: the order on names and the building blocks of generated scripts.

use vstd::prelude::*;
use vstd::std_specs::iter::IteratorSpec;

verus! {

/// How one name stands to another in the lexicographic order by code point.
#[derive(Clone, Copy, Debug, PartialEq, Eq, Structural)]
pub enum Rank {
    Before,
    Same,
    After,
}

/// `a` comes strictly before `b`: at the first position where they differ `a` has the smaller
/// code point, or `a` is a proper prefix of `b`.
pub open spec fn precedes(a: Seq<char>, b: Seq<char>) -> bool
    decreases a.len(),
{
    if b.len() == 0 {
        false
    } else if a.len() == 0 {
        true
    } else if a[0] != b[0] {
        a[0] < b[0]
    } else {
        precedes(a.drop_first(), b.drop_first())
    }
}

/// How `a` stands to `b`.
pub open spec fn rank_of(a: Seq<char>, b: Seq<char>) -> Rank {
    if a == b {
        Rank::Same
    } else if precedes(a, b) {
        Rank::Before
    } else {
        Rank::After
    }
}

/// Compares two names, character by character.
pub fn rank(a: &str, b: &str) -> (r: Rank)
    ensures
        r == rank_of(a@, b@),
{
    broadcast use vstd::string::group_string_axioms;

    let mut ia = a.chars();
    let mut ib = b.chars();
    loop
        invariant
            rank_of(a@, b@) == rank_of(ia.remaining(), ib.remaining()),
            ia.decrease() is Some,
        decreases ia.decrease()->0,
    {
        broadcast use vstd::string::group_string_axioms;

        let ghost ra = ia.remaining();
        let ghost rb = ib.remaining();
        let ca = ia.next();
        let cb = ib.next();
        match (ca, cb) {
            (None, None) => {
                assert(ra =~= rb);
                return Rank::Same;
            },
            (None, Some(_)) => {
                return Rank::Before;
            },
            (Some(_), None) => {
                return Rank::After;
            },
            (Some(x), Some(y)) => {
                if x != y {
                    if x < y {
                        return Rank::Before;
                    } else {
                        return Rank::After;
                    }
                }
                proof {
                    lemma_rank_same_head(ra, rb);
                }
            },
        }
    }
}

/// Dropping a shared first character changes nothing about how two names compare.
pub proof fn lemma_rank_same_head(a: Seq<char>, b: Seq<char>)
    requires
        a.len() > 0,
        b.len() > 0,
        a[0] == b[0],
    ensures
        rank_of(a, b) == rank_of(a.drop_first(), b.drop_first()),
{
    if a.drop_first() == b.drop_first() {
        assert(a =~= seq![a[0]] + a.drop_first());
        assert(b =~= seq![b[0]] + b.drop_first());
    }
}

/// No name comes before itself.
pub proof fn lemma_precedes_irreflexive(a: Seq<char>)
    ensures
        !precedes(a, a),
    decreases a.len(),
{
    if a.len() > 0 {
        lemma_precedes_irreflexive(a.drop_first());
    }
}

/// Of two different names exactly one comes before the other.
pub proof fn lemma_precedes_total(a: Seq<char>, b: Seq<char>)
    ensures
        a != b ==> (precedes(a, b) <==> !precedes(b, a)),
        a == b ==> !precedes(a, b),
    decreases a.len(),
{
    if a == b {
        lemma_precedes_irreflexive(a);
    } else if a.len() > 0 && b.len() > 0 && a[0] == b[0] {
        lemma_rank_same_head(a, b);
        lemma_precedes_total(a.drop_first(), b.drop_first());
    } else if a.len() == 0 && b.len() == 0 {
        assert(a =~= b);
    }
}

/// The order is transitive.
pub proof fn lemma_precedes_transitive(a: Seq<char>, b: Seq<char>, c: Seq<char>)
    requires
        precedes(a, b),
        precedes(b, c),
    ensures
        precedes(a, c),
    decreases a.len(),
{
    if a.len() > 0 {
        if a[0] == b[0] && b[0] == c[0] {
            lemma_precedes_transitive(a.drop_first(), b.drop_first(), c.drop_first());
        }
    }
}

/// The position of the first `.` in `s`, or the length of `s` where it holds none.
pub open spec fn first_dot(s: Seq<char>) -> int
    decreases s.len(),
{
    if s.len() == 0 {
        0
    } else if s[0] == '.' {
        0
    } else {
        1 + first_dot(s.drop_first())
    }
}

/// `s` holds a `.`.
pub open spec fn has_dot(s: Seq<char>) -> bool {
    first_dot(s) < s.len()
}

/// What stands before the first `.` of `s`.
pub open spec fn before_dot(s: Seq<char>) -> Seq<char> {
    s.subrange(0, first_dot(s))
}

/// What stands after the first `.` of `s`.
pub open spec fn after_dot(s: Seq<char>) -> Seq<char>
    recommends
        has_dot(s),
{
    s.subrange(first_dot(s) + 1, s.len() as int)
}

/// The first `.` lies inside `s` or at its end, nothing before it is a `.`, and where it lies
/// inside, it is one.
pub proof fn lemma_first_dot(s: Seq<char>)
    ensures
        0 <= first_dot(s) <= s.len(),
        forall|j: int| 0 <= j < first_dot(s) ==> s[j] != '.',
        has_dot(s) ==> s[first_dot(s)] == '.',
    decreases s.len(),
{
    if s.len() > 0 && s[0] != '.' {
        let t = s.drop_first();
        lemma_first_dot(t);
        assert forall|j: int| 0 <= j < first_dot(s) implies s[j] != '.' by {
            if j > 0 {
                assert(s[j] == t[j - 1]);
            }
        }
    }
}

/// Splits `s` at its first `.`, which belongs to neither part.
pub fn split_at_dot<'a>(s: &'a str) -> (r: Option<(&'a str, &'a str)>)
    ensures
        r is Some <==> has_dot(s@),
        r matches Some((head, tail)) ==> head@ == before_dot(s@) && tail@ == after_dot(s@),
{
    broadcast use vstd::string::group_string_axioms;

    let n = s.unicode_len();
    let mut it = s.chars();
    let mut i: usize = 0;
    proof {
        lemma_first_dot(s@);
    }
    loop
        invariant
            n == s@.len(),
            0 <= i <= n,
            it.remaining().len() == n - i,
            first_dot(s@) == i + first_dot(it.remaining()),
            it.decrease() is Some,
        decreases it.decrease()->0,
    {
        broadcast use vstd::string::group_string_axioms;

        match it.next() {
            None => {
                return None;
            },
            Some(c) => {
                if c == '.' {
                    let head = s.substring_char(0, i);
                    let tail = s.substring_char(i + 1, n);
                    return Some((head, tail));
                }
                i += 1;
            },
        }
    }
}

/// The lower-case hexadecimal digit for a value below sixteen.
pub open spec fn hex_char(n: int) -> char {
    if n == 0 {
        '0'
    } else if n == 1 {
        '1'
    } else if n == 2 {
        '2'
    } else if n == 3 {
        '3'
    } else if n == 4 {
        '4'
    } else if n == 5 {
        '5'
    } else if n == 6 {
        '6'
    } else if n == 7 {
        '7'
    } else if n == 8 {
        '8'
    } else if n == 9 {
        '9'
    } else if n == 10 {
        'a'
    } else if n == 11 {
        'b'
    } else if n == 12 {
        'c'
    } else if n == 13 {
        'd'
    } else if n == 14 {
        'e'
    } else {
        'f'
    }
}

/// A byte as two lower-case hexadecimal digits, the high one first.
pub open spec fn hex_pair(v: u8) -> Seq<char> {
    seq![hex_char(v as int / 16), hex_char(v as int % 16)]
}

/// The hexadecimal digit for `n`, as text.
pub fn hex_digit(n: u8) -> (r: &'static str)
    requires
        n < 16,
    ensures
        r@ == seq![hex_char(n as int)],
{
    proof {
        reveal_strlit("0");
        reveal_strlit("1");
        reveal_strlit("2");
        reveal_strlit("3");
        reveal_strlit("4");
        reveal_strlit("5");
        reveal_strlit("6");
        reveal_strlit("7");
        reveal_strlit("8");
        reveal_strlit("9");
        reveal_strlit("a");
        reveal_strlit("b");
        reveal_strlit("c");
        reveal_strlit("d");
        reveal_strlit("e");
        reveal_strlit("f");
    }
    match n {
        0 => "0",
        1 => "1",
        2 => "2",
        3 => "3",
        4 => "4",
        5 => "5",
        6 => "6",
        7 => "7",
        8 => "8",
        9 => "9",
        10 => "a",
        11 => "b",
        12 => "c",
        13 => "d",
        14 => "e",
        _ => "f",
    }
}

/// Appends the two hexadecimal digits of `v` to `out`.
pub fn push_hex_pair(out: &mut String, v: u8)
    ensures
        final(out)@ == old(out)@ + hex_pair(v),
{
    out.append(hex_digit(v / 16));
    out.append(hex_digit(v % 16));
}

/// `n` spaces.
pub open spec fn spaces(n: nat) -> Seq<char> {
    Seq::new(n, |i: int| ' ')
}

/// The indentation of a line that stands `level` levels deep: four spaces for each level.
pub open spec fn indentation(level: u8) -> Seq<char> {
    spaces(4 * level as nat)
}

/// One level deeper; the deepest level stays as it is.
pub open spec fn deeper(level: u8) -> u8 {
    if level == 255 {
        level
    } else {
        (level + 1) as u8
    }
}

/// One level less deep; the outermost level stays as it is.
pub open spec fn shallower(level: u8) -> u8 {
    if level == 0 {
        level
    } else {
        (level - 1) as u8
    }
}

/// Appends the indentation for `level` to `out`.
pub fn push_indentation(out: &mut String, level: u8)
    ensures
        final(out)@ == old(out)@ + indentation(level),
{
    proof {
        reveal_strlit("    ");
    }
    let mut i: u8 = 0;
    while i < level
        invariant
            0 <= i <= level,
            out@ == old(out)@ + spaces(4 * i as nat),
            "    "@.len() == 4,
            forall|k: int| 0 <= k < 4 ==> "    "@[k] == ' ',
        decreases level - i,
    {
        out.append("    ");
        i += 1;
    }
}

} // verus!
